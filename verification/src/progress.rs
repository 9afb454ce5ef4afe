//! The shared progress record of a segmented download.
//!
//! One `ProgressState` value describes the whole in-flight run: counters,
//! transferred bytes, a rate-sampling window, a bounded history of sampled
//! rates, a bounded activity log, and the coarse region map. Fetch tasks
//! mutate it through `record_success` / `record_failure`; the dashboard
//! reads it through the query methods. Each mutating method applies its
//! whole compound update in one call, so a caller that serializes calls
//! (for example under a lock) never exposes a torn intermediate state.

use vstd::prelude::*;
use vstd::arithmetic::div_mod::{lemma_div_is_ordered, lemma_div_multiples_vanish};
use vstd::arithmetic::mul::lemma_mul_inequality;
use crate::region::{RegionState, spec_region_count, spec_bucket_index, region_count, bucket_index};

verus! {

/// Capacity of the sampled-rate history.
pub const RATE_HISTORY_CAPACITY: usize = 50;

/// Capacity of the activity log.
pub const ACTIVITY_LOG_CAPACITY: usize = 6;

/// Minimum time between two rate samples, in milliseconds.
pub const RATE_WINDOW_MS: u64 = 250;

/// The outcome of one finished unit, as shown in the activity log.
#[derive(Clone, Copy, PartialEq, Eq, Structural, Debug)]
pub enum Outcome {
    Success,
    Failed,
}

/// One activity-log entry: a unit's display label and its outcome.
pub struct ActivityEntry {
    pub label: String,
    pub outcome: Outcome,
}

/// The mathematical value of one activity-log entry.
#[verifier::ext_equal]
pub struct ActivityView {
    pub label: Seq<char>,
    pub outcome: Outcome,
}

impl View for ActivityEntry {
    type V = ActivityView;

    open spec fn view(&self) -> ActivityView {
        ActivityView { label: self.label@, outcome: self.outcome }
    }
}

/// The mathematical value of a `ProgressState`.
#[verifier::ext_equal]
pub struct ProgressView {
    pub total: usize,
    pub completed: usize,
    pub failed: usize,
    pub bytes: u64,
    pub start_ms: u64,
    pub window_start_ms: u64,
    pub window_bytes: u64,
    pub current_rate: u64,
    pub rate_history: Seq<u64>,
    pub regions: Seq<RegionState>,
    pub log: Seq<ActivityView>,
}

impl ProgressView {
    /// Well-formedness: the counters never overshoot the total, the two
    /// bounded sequences respect their capacities, and the region map has
    /// exactly one bucket per unit up to 100.
    pub open spec fn wf(self) -> bool {
        &&& self.completed + self.failed <= self.total
        &&& self.rate_history.len() <= RATE_HISTORY_CAPACITY
        &&& self.regions.len() == spec_region_count(self.total as nat)
        &&& self.log.len() <= ACTIVITY_LOG_CAPACITY
    }
}

/// The mathematical value of an activity-log vector.
pub open spec fn log_view(s: Seq<ActivityEntry>) -> Seq<ActivityView> {
    s.map_values(|e: ActivityEntry| e@)
}

/// Push onto a bounded FIFO sequence: once `cap` entries are held, the
/// oldest entry (the first) is evicted to make room for the new one.
pub open spec fn push_bounded<A>(s: Seq<A>, x: A, cap: nat) -> Seq<A> {
    if s.len() < cap {
        s.push(x)
    } else {
        s.drop_first().push(x)
    }
}

/// Instantaneous throughput in bytes per second: `bytes` transferred over
/// `elapsed_ms` milliseconds, saturated to the `u64` range.
pub open spec fn spec_rate(bytes: u64, elapsed_ms: u64) -> u64
    recommends
        elapsed_ms > 0,
{
    if bytes * 1000 / (elapsed_ms as int) <= u64::MAX {
        (bytes * 1000 / (elapsed_ms as int)) as u64
    } else {
        u64::MAX
    }
}

/// Marks the bucket that `index` maps to, leaving the map unchanged when the
/// mapping falls outside it (a malformed index never fails the run).
pub open spec fn spec_mark_region(
    regions: Seq<RegionState>,
    index: usize,
    total: usize,
    st: RegionState,
) -> Seq<RegionState> {
    if total > 0 && spec_bucket_index(index as nat, total as nat, regions.len()) < regions.len() {
        regions.update(spec_bucket_index(index as nat, total as nat, regions.len()) as int, st)
    } else {
        regions
    }
}

/// The state produced by recording one successful unit: the completed count
/// and the byte counters grow, the label enters the activity log, the unit's
/// region bucket turns `Completed`, and — when at least `RATE_WINDOW_MS` has
/// passed since the window opened — a fresh rate sample is taken and the
/// window resets.
pub open spec fn spec_record_success(
    v: ProgressView,
    index: usize,
    byte_count: u64,
    label: Seq<char>,
    now_ms: u64,
) -> ProgressView {
    let bytes2 = v.bytes.saturating_add(byte_count);
    let wbytes = v.window_bytes.saturating_add(byte_count);
    let log2 = push_bounded(
        v.log,
        ActivityView { label, outcome: Outcome::Success },
        ACTIVITY_LOG_CAPACITY as nat,
    );
    let regions2 = spec_mark_region(v.regions, index, v.total, RegionState::Completed);
    let elapsed = if now_ms >= v.window_start_ms {
        (now_ms - v.window_start_ms) as u64
    } else {
        0u64
    };
    if elapsed >= RATE_WINDOW_MS {
        let rate = spec_rate(wbytes, elapsed);
        ProgressView {
            completed: (v.completed + 1) as usize,
            bytes: bytes2,
            log: log2,
            regions: regions2,
            current_rate: rate,
            rate_history: push_bounded(v.rate_history, rate, RATE_HISTORY_CAPACITY as nat),
            window_start_ms: now_ms,
            window_bytes: 0,
            ..v
        }
    } else {
        ProgressView {
            completed: (v.completed + 1) as usize,
            bytes: bytes2,
            log: log2,
            regions: regions2,
            window_bytes: wbytes,
            ..v
        }
    }
}

/// The state produced by recording one failed unit: the failed count grows,
/// the label enters the activity log marked `Failed`, and the unit's region
/// bucket turns `Failed`. Bytes and the rate window are untouched.
pub open spec fn spec_record_failure(
    v: ProgressView,
    index: usize,
    label: Seq<char>,
) -> ProgressView {
    ProgressView {
        failed: (v.failed + 1) as usize,
        log: push_bounded(
            v.log,
            ActivityView { label, outcome: Outcome::Failed },
            ACTIVITY_LOG_CAPACITY as nat,
        ),
        regions: spec_mark_region(v.regions, index, v.total, RegionState::Failed),
        ..v
    }
}

/// The freshly constructed state for a run of `total` units at time `now_ms`.
pub open spec fn spec_init(total: usize, now_ms: u64) -> ProgressView {
    ProgressView {
        total: total,
        completed: 0,
        failed: 0,
        bytes: 0,
        start_ms: now_ms,
        window_start_ms: now_ms,
        window_bytes: 0,
        current_rate: 0,
        rate_history: Seq::empty(),
        regions: Seq::new(spec_region_count(total as nat), |i: int| RegionState::Pending),
        log: Seq::empty(),
    }
}

/// Completed units out of the total, in thousandths: exactly
/// `completed * 1000 / total`, and 0 for an empty run.
pub open spec fn spec_progress_permille(v: ProgressView) -> u32
    recommends
        v.wf(),
{
    if v.total == 0 {
        0
    } else {
        ((v.completed as nat) * 1000 / (v.total as nat)) as u32
    }
}

/// Mean throughput since the start, in bytes per second; 0 before any time
/// has passed.
pub open spec fn spec_average_rate(v: ProgressView, now_ms: u64) -> u64 {
    let elapsed = if now_ms >= v.start_ms {
        (now_ms - v.start_ms) as u64
    } else {
        0u64
    };
    if elapsed == 0 {
        0
    } else {
        spec_rate(v.bytes, elapsed)
    }
}

/// Estimated seconds remaining: the mean completed-unit size times the
/// remaining unit count, over the mean rate — unknown (`None`) before the
/// first completion or while the mean rate is zero. Saturated to `u64`.
pub open spec fn spec_estimated_remaining(v: ProgressView, now_ms: u64) -> Option<u64>
    recommends
        v.wf(),
{
    let rate = spec_average_rate(v, now_ms);
    if v.completed == 0 || rate == 0 {
        None
    } else {
        let per_unit = (v.bytes as nat) / (v.completed as nat);
        let remaining_bytes = (v.total - v.completed) as nat * per_unit;
        let secs = remaining_bytes / (rate as nat);
        if secs <= u64::MAX {
            Some(secs as u64)
        } else {
            Some(u64::MAX)
        }
    }
}

/// Appends to a bounded FIFO vector, evicting the oldest entry when full.
fn push_evict<T>(v: &mut Vec<T>, x: T, cap: usize)
    requires
        cap >= 1,
        old(v)@.len() <= cap,
    ensures
        final(v)@ == push_bounded(old(v)@, x, cap as nat),
{
    if v.len() == cap {
        let ghost pre = v@;
        v.remove(0);
        proof {
            assert(v@ =~= pre.drop_first());
        }
    }
    v.push(x);
}

/// Computes `spec_rate` executably, doing the scaling in 128-bit arithmetic.
fn compute_rate(bytes: u64, elapsed_ms: u64) -> (r: u64)
    requires
        elapsed_ms > 0,
    ensures
        r == spec_rate(bytes, elapsed_ms),
{
    proof {
        assert((bytes as nat) * 1000 <= u128::MAX) by (nonlinear_arith)
            requires bytes <= u64::MAX;
    }
    let wide: u128 = (bytes as u128) * 1000 / (elapsed_ms as u128);
    if wide <= u64::MAX as u128 {
        #[verifier::truncate]
        let r = wide as u64;
        r
    } else {
        u64::MAX
    }
}

/// The shared progress record of one run. See the module description.
pub struct ProgressState {
    total_units: usize,
    completed_units: usize,
    failed_units: usize,
    bytes_transferred: u64,
    start_time_ms: u64,
    window_start_ms: u64,
    window_bytes: u64,
    current_rate: u64,
    rate_history: Vec<u64>,
    region_states: Vec<RegionState>,
    activity_log: Vec<ActivityEntry>,
}

impl View for ProgressState {
    type V = ProgressView;

    closed spec fn view(&self) -> ProgressView {
        ProgressView {
            total: self.total_units,
            completed: self.completed_units,
            failed: self.failed_units,
            bytes: self.bytes_transferred,
            start_ms: self.start_time_ms,
            window_start_ms: self.window_start_ms,
            window_bytes: self.window_bytes,
            current_rate: self.current_rate,
            rate_history: self.rate_history@,
            regions: self.region_states@,
            log: log_view(self.activity_log@),
        }
    }
}

impl ProgressState {
    /// Constructs the record for a run of `total_units` units, with both the
    /// start clock and the rate window opened at `now_ms`.
    pub fn new(total_units: usize, now_ms: u64) -> (r: ProgressState)
        ensures
            r@ == spec_init(total_units, now_ms),
            r@.wf(),
    {
        let buckets = region_count(total_units);
        let mut regions: Vec<RegionState> = Vec::new();
        let mut i: usize = 0;
        while i < buckets
            invariant
                i <= buckets,
                regions@.len() == i,
                forall|j: int| 0 <= j < i ==> regions@[j] == RegionState::Pending,
            decreases buckets - i,
        {
            regions.push(RegionState::Pending);
            i = i + 1;
        }
        let r = ProgressState {
            total_units,
            completed_units: 0,
            failed_units: 0,
            bytes_transferred: 0,
            start_time_ms: now_ms,
            window_start_ms: now_ms,
            window_bytes: 0,
            current_rate: 0,
            rate_history: Vec::new(),
            region_states: regions,
            activity_log: Vec::new(),
        };
        proof {
            assert(r@.regions =~= spec_init(total_units, now_ms).regions);
            assert(r@.log =~= Seq::<ActivityView>::empty());
            assert(r@ =~= spec_init(total_units, now_ms));
        }
        r
    }

    /// Records one unit's successful transfer of `byte_count` bytes, as one
    /// compound update. The caller reports each unit exactly once, so the
    /// counters have room for one more report.
    pub fn record_success(&mut self, index: usize, byte_count: u64, label: String, now_ms: u64)
        requires
            old(self)@.wf(),
            old(self)@.completed + old(self)@.failed < old(self)@.total,
        ensures
            final(self)@ == spec_record_success(old(self)@, index, byte_count, label@, now_ms),
            final(self)@.wf(),
            final(self)@.bytes >= old(self)@.bytes,
            final(self)@.completed == old(self)@.completed + 1,
            final(self)@.failed == old(self)@.failed,
            final(self)@.total == old(self)@.total,
    {
        let ghost pre = self@;
        self.completed_units = self.completed_units + 1;
        self.bytes_transferred = self.bytes_transferred.saturating_add(byte_count);
        self.window_bytes = self.window_bytes.saturating_add(byte_count);
        let ghost prelog = self.activity_log@;
        let entry = ActivityEntry { label, outcome: Outcome::Success };
        let ghost gentry = entry;
        push_evict(&mut self.activity_log, entry, ACTIVITY_LOG_CAPACITY);
        proof {
            lemma_log_view_push_bounded(prelog, gentry, ACTIVITY_LOG_CAPACITY as nat);
        }
        let elapsed = if now_ms >= self.window_start_ms {
            now_ms - self.window_start_ms
        } else {
            0
        };
        if elapsed >= RATE_WINDOW_MS {
            let rate = compute_rate(self.window_bytes, elapsed);
            self.current_rate = rate;
            push_evict(&mut self.rate_history, rate, RATE_HISTORY_CAPACITY);
            self.window_start_ms = now_ms;
            self.window_bytes = 0;
        }
        self.mark_region(index, RegionState::Completed);
        proof {
            assert(self@ =~= spec_record_success(pre, index, byte_count, label@, now_ms));
        }
    }

    /// Records one unit's terminal failure, as one compound update. The
    /// caller reports each unit exactly once, so the counters have room for
    /// one more report.
    pub fn record_failure(&mut self, index: usize, label: String)
        requires
            old(self)@.wf(),
            old(self)@.completed + old(self)@.failed < old(self)@.total,
        ensures
            final(self)@ == spec_record_failure(old(self)@, index, label@),
            final(self)@.wf(),
            final(self)@.bytes == old(self)@.bytes,
            final(self)@.failed == old(self)@.failed + 1,
            final(self)@.completed == old(self)@.completed,
            final(self)@.total == old(self)@.total,
    {
        let ghost pre = self@;
        self.failed_units = self.failed_units + 1;
        let ghost prelog = self.activity_log@;
        let entry = ActivityEntry { label, outcome: Outcome::Failed };
        let ghost gentry = entry;
        push_evict(&mut self.activity_log, entry, ACTIVITY_LOG_CAPACITY);
        proof {
            lemma_log_view_push_bounded(prelog, gentry, ACTIVITY_LOG_CAPACITY as nat);
        }
        self.mark_region(index, RegionState::Failed);
        proof {
            assert(self@ =~= spec_record_failure(pre, index, label@));
        }
    }

    /// Marks the region bucket that `index` maps to, ignoring a mapping that
    /// falls outside the map.
    fn mark_region(&mut self, index: usize, st: RegionState)
        requires
            old(self)@.regions.len() == spec_region_count(old(self)@.total as nat),
        ensures
            final(self)@ == (ProgressView {
                regions: spec_mark_region(old(self)@.regions, index, old(self)@.total, st),
                ..old(self)@
            }),
    {
        if self.total_units > 0 {
            let buckets = self.region_states.len();
            if let Some(b) = bucket_index(index, self.total_units, buckets) {
                let slot = &mut self.region_states[b];
                *slot = st;
            }
        }
        proof {
            assert(self@ =~= (ProgressView {
                regions: spec_mark_region(old(self)@.regions, index, old(self)@.total, st),
                ..old(self)@
            }));
        }
    }

    /// Completed units out of the total, in thousandths. Exactly 0 for an
    /// empty run and exactly 1000 once every unit has completed.
    pub fn progress_permille(&self) -> (r: u32)
        requires
            self@.wf(),
        ensures
            r == spec_progress_permille(self@),
            r <= 1000,
            self@.total == 0 ==> r == 0,
            self@.total > 0 && self@.completed == self@.total ==> r == 1000,
    {
        if self.total_units == 0 {
            0
        } else {
            proof {
                lemma_permille_bounds(self@.completed as nat, self@.total as nat);
            }
            let wide: u128 = (self.completed_units as u128) * 1000 / (self.total_units as u128);
            #[verifier::truncate]
            let r = wide as u32;
            r
        }
    }

    /// Mean throughput since the start, in bytes per second.
    pub fn average_rate(&self, now_ms: u64) -> (r: u64)
        ensures
            r == spec_average_rate(self@, now_ms),
    {
        let elapsed = if now_ms >= self.start_time_ms {
            now_ms - self.start_time_ms
        } else {
            0
        };
        if elapsed == 0 {
            0
        } else {
            compute_rate(self.bytes_transferred, elapsed)
        }
    }

    /// Estimated seconds remaining, or `None` while it is unknown (no unit
    /// completed yet, or a mean rate of zero).
    pub fn estimated_remaining_secs(&self, now_ms: u64) -> (r: Option<u64>)
        requires
            self@.wf(),
        ensures
            r == spec_estimated_remaining(self@, now_ms),
            r is None <==> (self@.completed == 0 || spec_average_rate(self@, now_ms) == 0),
    {
        let rate = self.average_rate(now_ms);
        if self.completed_units == 0 || rate == 0 {
            None
        } else {
            let per_unit: u64 = self.bytes_transferred / (self.completed_units as u64);
            let remaining: usize = self.total_units - self.completed_units;
            proof {
                assert((remaining as nat) * (per_unit as nat) <= u128::MAX) by (nonlinear_arith)
                    requires remaining <= u64::MAX, per_unit <= u64::MAX;
            }
            let wide: u128 = (remaining as u128) * (per_unit as u128) / (rate as u128);
            if wide <= u64::MAX as u128 {
                #[verifier::truncate]
                let r = wide as u64;
                Some(r)
            } else {
                Some(u64::MAX)
            }
        }
    }

    /// Milliseconds elapsed since the start, given the clock now.
    pub fn elapsed_ms(&self, now_ms: u64) -> (r: u64)
        ensures
            r == if now_ms >= self@.start_ms { (now_ms - self@.start_ms) as u64 } else { 0u64 },
    {
        if now_ms >= self.start_time_ms {
            now_ms - self.start_time_ms
        } else {
            0
        }
    }

    /// Whether every unit has reported an outcome.
    pub fn is_complete(&self) -> (r: bool)
        requires
            self@.wf(),
        ensures
            r == (self@.completed + self@.failed >= self@.total),
    {
        self.completed_units + self.failed_units >= self.total_units
    }

    /// The total unit count, fixed at construction.
    pub fn total_units(&self) -> (r: usize)
        ensures
            r == self@.total,
    {
        self.total_units
    }

    /// Units that completed successfully so far.
    pub fn completed_units(&self) -> (r: usize)
        ensures
            r == self@.completed,
    {
        self.completed_units
    }

    /// Units that failed terminally so far.
    pub fn failed_units(&self) -> (r: usize)
        ensures
            r == self@.failed,
    {
        self.failed_units
    }

    /// Bytes transferred so far; never decreases across calls.
    pub fn bytes_transferred(&self) -> (r: u64)
        ensures
            r == self@.bytes,
    {
        self.bytes_transferred
    }

    /// The most recently sampled instantaneous rate, in bytes per second.
    pub fn current_rate(&self) -> (r: u64)
        ensures
            r == self@.current_rate,
    {
        self.current_rate
    }

    /// The bounded history of sampled rates, oldest first.
    pub fn rate_history(&self) -> (r: &Vec<u64>)
        ensures
            r@ == self@.rate_history,
    {
        &self.rate_history
    }

    /// The region map, one bucket per up-to-100 units.
    pub fn region_states(&self) -> (r: &Vec<RegionState>)
        ensures
            r@ == self@.regions,
    {
        &self.region_states
    }

    /// The bounded activity log, oldest first.
    pub fn activity_log(&self) -> (r: &Vec<ActivityEntry>)
        ensures
            log_view(r@) == self@.log,
    {
        &self.activity_log
    }
}

/// Taking entry views commutes with the bounded FIFO push.
proof fn lemma_log_view_push_bounded(pre: Seq<ActivityEntry>, x: ActivityEntry, cap: nat)
    requires
        cap >= 1,
    ensures
        log_view(push_bounded(pre, x, cap)) == push_bounded(log_view(pre), x@, cap),
{
    if pre.len() < cap {
        assert(log_view(pre.push(x)) =~= push_bounded(log_view(pre), x@, cap));
    } else {
        let lhs = log_view(pre.drop_first().push(x));
        let rhs = log_view(pre).drop_first().push(x@);
        assert forall|i: int| 0 <= i < lhs.len() implies lhs[i] == rhs[i] by {
            if i < pre.len() - 1 {
                assert(pre.drop_first().push(x)[i] == pre[i + 1]);
                assert(log_view(pre)[i + 1] == pre[i + 1]@);
            } else {
                assert(pre.drop_first().push(x)[i] == x);
            }
        }
        assert(lhs =~= rhs);
    }
}

/// `completed * 1000 / total` stays within 0..=1000 when `completed <= total`,
/// and is exactly 1000 when `completed == total`.
proof fn lemma_permille_bounds(completed: nat, total: nat)
    requires
        completed <= total,
        total > 0,
    ensures
        completed * 1000 / total <= 1000,
        completed == total ==> completed * 1000 / total == 1000,
{
    lemma_mul_inequality(completed as int, total as int, 1000);
    lemma_div_is_ordered((completed * 1000) as int, (total * 1000) as int, total as int);
    lemma_div_multiples_vanish(1000, total as int);
    assert(total * 1000 == 1000 * total) by (nonlinear_arith);
}

} // verus!
