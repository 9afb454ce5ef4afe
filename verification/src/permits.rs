//! The admission-control permit pool.
//!
//! At most `limit` transfers may be in flight at once. The orchestrator
//! acquires one permit before a unit's transfer and releases it afterwards
//! on every path; the count of held permits can therefore never exceed the
//! limit, which is this type's invariant.

use vstd::prelude::*;

verus! {

/// Why a permit pool could not be constructed.
#[derive(Clone, Copy, PartialEq, Eq, Structural, Debug)]
pub enum PermitPoolError {
    /// A concurrency limit of zero would admit no transfer at all; the run
    /// must fail before any task is launched.
    ZeroLimit,
}

/// A counting pool of `limit` permits, of which `in_flight` are held.
pub struct PermitPool {
    limit: usize,
    in_flight: usize,
}

impl PermitPool {
    /// The pool's fixed capacity.
    pub closed spec fn spec_limit(self) -> usize {
        self.limit
    }

    /// How many permits are currently held.
    pub closed spec fn spec_in_flight(self) -> usize {
        self.in_flight
    }

    /// The pool's invariant: held permits never exceed the limit.
    pub open spec fn wf(self) -> bool {
        self.spec_in_flight() <= self.spec_limit() && self.spec_limit() >= 1
    }

    /// Constructs a pool of `limit` permits; a zero limit is the one fatal
    /// configuration error and is rejected before any task could start.
    pub fn new(limit: usize) -> (r: Result<PermitPool, PermitPoolError>)
        ensures
            limit == 0 <==> r is Err,
            r is Err ==> r->Err_0 == PermitPoolError::ZeroLimit,
            r is Ok ==> r->Ok_0.wf() && r->Ok_0.spec_limit() == limit
                && r->Ok_0.spec_in_flight() == 0,
    {
        if limit == 0 {
            Err(PermitPoolError::ZeroLimit)
        } else {
            Ok(PermitPool { limit, in_flight: 0 })
        }
    }

    /// Takes a permit when one is free: succeeds exactly when fewer than
    /// `limit` permits are held, and never lets the held count pass the
    /// limit.
    pub fn try_acquire(&mut self) -> (r: bool)
        requires
            old(self).wf(),
        ensures
            final(self).wf(),
            final(self).spec_limit() == old(self).spec_limit(),
            r <==> old(self).spec_in_flight() < old(self).spec_limit(),
            r ==> final(self).spec_in_flight() == old(self).spec_in_flight() + 1,
            !r ==> final(self).spec_in_flight() == old(self).spec_in_flight(),
    {
        if self.in_flight < self.limit {
            self.in_flight = self.in_flight + 1;
            true
        } else {
            false
        }
    }

    /// Returns a held permit.
    pub fn release(&mut self)
        requires
            old(self).wf(),
            old(self).spec_in_flight() >= 1,
        ensures
            final(self).wf(),
            final(self).spec_limit() == old(self).spec_limit(),
            final(self).spec_in_flight() == old(self).spec_in_flight() - 1,
    {
        self.in_flight = self.in_flight - 1;
    }

    /// The fixed capacity.
    pub fn limit(&self) -> (r: usize)
        ensures
            r == self.spec_limit(),
    {
        self.limit
    }

    /// The number of permits currently held.
    pub fn in_flight(&self) -> (r: usize)
        ensures
            r == self.spec_in_flight(),
    {
        self.in_flight
    }
}

} // verus!
