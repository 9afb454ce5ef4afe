use segdash::{PermitPool, PermitPoolError};

#[test]
fn a_zero_limit_is_a_fatal_configuration_error() {
    match PermitPool::new(0) {
        Err(e) => assert_eq!(e, PermitPoolError::ZeroLimit),
        Ok(_) => panic!("a zero concurrency limit must be rejected"),
    }
}

#[test]
fn permits_are_bounded_by_the_limit() {
    let mut pool = PermitPool::new(2).unwrap();
    assert_eq!(pool.limit(), 2);
    assert_eq!(pool.in_flight(), 0);
    assert!(pool.try_acquire());
    assert!(pool.try_acquire());
    assert_eq!(pool.in_flight(), 2);
    // the pool is full: admission is refused, not queued
    assert!(!pool.try_acquire());
    assert_eq!(pool.in_flight(), 2);
}

#[test]
fn releasing_a_permit_readmits_a_waiter() {
    let mut pool = PermitPool::new(1).unwrap();
    assert!(pool.try_acquire());
    assert!(!pool.try_acquire());
    pool.release();
    assert_eq!(pool.in_flight(), 0);
    assert!(pool.try_acquire());
    assert_eq!(pool.in_flight(), 1);
}
