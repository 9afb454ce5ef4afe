//! Concurrent stress over the shared progress record and the permit pool,
//! run on a multi-threaded executor: no report may be lost under any
//! interleaving, and the permit pool must never admit more transfers than
//! its limit.

use std::sync::atomic::{AtomicUsize, Ordering};
use std::sync::{Arc, Mutex};
use std::time::Duration;

use segdash::progress::ProgressState;
use segdash::{FetchOutcome, PermitPool};
use segdash::control::record_outcome;

fn runtime() -> tokio::runtime::Runtime {
    tokio::runtime::Builder::new_multi_thread()
        .worker_threads(4)
        .enable_all()
        .build()
        .unwrap()
}

#[test]
fn concurrent_reports_lose_no_update() {
    let rt = runtime();
    let n: usize = 64;
    let state = Arc::new(Mutex::new(ProgressState::new(n, 0)));
    rt.block_on(async {
        let mut handles = Vec::new();
        for i in 0..n {
            let state = Arc::clone(&state);
            handles.push(tokio::spawn(async move {
                tokio::time::sleep(Duration::from_millis((i % 7) as u64)).await;
                let outcome = if i % 5 == 0 {
                    FetchOutcome::TransferFailed
                } else {
                    FetchOutcome::Transferred(10)
                };
                let mut guard = state.lock().unwrap();
                record_outcome(&mut guard, i, outcome, format!("s{i}"), i as u64);
            }));
        }
        for h in handles {
            h.await.unwrap();
        }
    });
    let s = state.lock().unwrap();
    let failures = (0..n).filter(|i| i % 5 == 0).count();
    assert_eq!(s.completed_units() + s.failed_units(), n);
    assert_eq!(s.failed_units(), failures);
    assert_eq!(s.bytes_transferred(), 10 * (n - failures) as u64);
    assert!(s.is_complete());
}

#[test]
fn no_more_transfers_in_flight_than_the_limit() {
    let rt = runtime();
    let limit: usize = 2;
    let units: usize = 5;
    let pool = Arc::new(Mutex::new(PermitPool::new(limit).unwrap()));
    let peak = Arc::new(AtomicUsize::new(0));
    let ran = Arc::new(AtomicUsize::new(0));
    rt.block_on(async {
        let mut handles = Vec::new();
        for _ in 0..units {
            let pool = Arc::clone(&pool);
            let peak = Arc::clone(&peak);
            let ran = Arc::clone(&ran);
            handles.push(tokio::spawn(async move {
                loop {
                    let admitted = {
                        let mut guard = pool.lock().unwrap();
                        let ok = guard.try_acquire();
                        if ok {
                            let now = guard.in_flight();
                            peak.fetch_max(now, Ordering::SeqCst);
                            assert!(now <= limit);
                        }
                        ok
                    };
                    if admitted {
                        break;
                    }
                    tokio::time::sleep(Duration::from_millis(1)).await;
                }
                // the "transfer" body
                tokio::time::sleep(Duration::from_millis(5)).await;
                ran.fetch_add(1, Ordering::SeqCst);
                pool.lock().unwrap().release();
            }));
        }
        for h in handles {
            h.await.unwrap();
        }
    });
    assert_eq!(ran.load(Ordering::SeqCst), units);
    assert!(peak.load(Ordering::SeqCst) <= limit);
    assert_eq!(pool.lock().unwrap().in_flight(), 0);
}
