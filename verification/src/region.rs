//! Coarse bucketed view of per-unit progress.
//!
//! A run of `total` units is summarized by at most 100 region buckets.
//! Unit `index` maps to bucket `index * buckets / total`; a bucket holds the
//! outcome of the most recent event mapped into it.

use vstd::prelude::*;
use vstd::arithmetic::div_mod::lemma_multiply_divide_lt;
use vstd::arithmetic::mul::lemma_mul_inequality;

verus! {

/// The display status of one region bucket.
#[derive(Clone, Copy, PartialEq, Eq, Structural, Debug)]
pub enum RegionState {
    Pending,
    Downloading,
    Completed,
    Failed,
}

/// The number of region buckets for a run of `total` units: at most 100,
/// and one per unit when there are fewer than 100 units.
pub open spec fn spec_region_count(total: nat) -> nat {
    if total < 100 {
        total
    } else {
        100
    }
}

/// The bucket that unit `index` maps to, out of `buckets` buckets over
/// `total` units.
pub open spec fn spec_bucket_index(index: nat, total: nat, buckets: nat) -> nat {
    index * buckets / total
}

/// The number of region buckets for a run of `total` units.
pub fn region_count(total: usize) -> (r: usize)
    ensures
        r == spec_region_count(total as nat),
{
    if total < 100 {
        total
    } else {
        100
    }
}

/// A unit index in range always maps to a bucket in range.
pub proof fn lemma_bucket_in_range(index: nat, total: nat, buckets: nat)
    requires
        index < total,
        buckets > 0,
    ensures
        spec_bucket_index(index, total, buckets) < buckets,
{
    lemma_mul_inequality(index as int, total as int - 1, buckets as int);
    assert((total - 1) * buckets < total * buckets) by (nonlinear_arith)
        requires total > 0, buckets > 0;
    lemma_multiply_divide_lt(index as int * buckets as int, total as int, buckets as int);
}

/// Maps unit `index` into one of `buckets` buckets over `total` units.
///
/// Deterministic: a `Some` result is exactly `index * buckets / total`, and
/// every in-range index yields `Some`. A malformed index whose mapping would
/// fall outside the buckets yields `None`, so that the caller can ignore it
/// rather than fail.
pub fn bucket_index(index: usize, total: usize, buckets: usize) -> (r: Option<usize>)
    requires
        total > 0,
        buckets > 0,
    ensures
        r is Some <==> spec_bucket_index(index as nat, total as nat, buckets as nat) < buckets,
        r is Some ==> r->0 == spec_bucket_index(index as nat, total as nat, buckets as nat),
        index < total ==> r is Some,
{
    proof {
        if index < total {
            lemma_bucket_in_range(index as nat, total as nat, buckets as nat);
        }
        assert(index as nat * buckets as nat <= u128::MAX) by (nonlinear_arith)
            requires index <= u64::MAX, buckets <= u64::MAX;
    }
    let wide: u128 = (index as u128) * (buckets as u128) / (total as u128);
    if wide < buckets as u128 {
        #[verifier::truncate]
        let r = wide as usize;
        Some(r)
    } else {
        None
    }
}

} // verus!
