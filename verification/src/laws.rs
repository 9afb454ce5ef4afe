//! System-wide laws of the progress record.
//!
//! `record_success` and `record_failure` each promise exactly one transition
//! of the state's mathematical value (`spec_record_success`,
//! `spec_record_failure`). The proofs here lift those single steps to whole
//! runs: any sequence of reports, applied in any order, keeps the record
//! well formed, never loses an update, and never shrinks the byte counter.

use vstd::prelude::*;
use crate::progress::{
    ProgressView, push_bounded, spec_record_success, spec_record_failure,
    ACTIVITY_LOG_CAPACITY, RATE_HISTORY_CAPACITY,
};

verus! {

/// One report delivered to the progress record: a unit either succeeded
/// with some byte count at some clock reading, or failed.
pub enum UnitEvent {
    Success { index: usize, byte_count: u64, label: Seq<char>, now_ms: u64 },
    Failure { index: usize, label: Seq<char> },
}

/// The state after delivering one report.
pub open spec fn apply_event(v: ProgressView, e: UnitEvent) -> ProgressView {
    match e {
        UnitEvent::Success { index, byte_count, label, now_ms } => spec_record_success(
            v,
            index,
            byte_count,
            label,
            now_ms,
        ),
        UnitEvent::Failure { index, label } => spec_record_failure(v, index, label),
    }
}

/// The state after delivering a sequence of reports, oldest first.
pub open spec fn apply_events(v: ProgressView, es: Seq<UnitEvent>) -> ProgressView
    decreases es.len(),
{
    if es.len() == 0 {
        v
    } else {
        apply_events(apply_event(v, es[0]), es.drop_first())
    }
}

/// Each report in turn finds room: fewer outcomes are recorded than there
/// are units. A run that reports each unit exactly once delivers exactly
/// `total` reports, so all its interleavings are admissible.
pub open spec fn admissible(v: ProgressView, es: Seq<UnitEvent>) -> bool
    decreases es.len(),
{
    es.len() == 0 || (v.completed + v.failed < v.total && admissible(
        apply_event(v, es[0]),
        es.drop_first(),
    ))
}

/// One report preserves well-formedness, records exactly one outcome,
/// never shrinks the byte counter, and never changes the total.
pub proof fn lemma_event_step(v: ProgressView, e: UnitEvent)
    requires
        v.wf(),
        v.completed + v.failed < v.total,
    ensures
        apply_event(v, e).wf(),
        apply_event(v, e).completed + apply_event(v, e).failed == v.completed + v.failed + 1,
        apply_event(v, e).bytes >= v.bytes,
        apply_event(v, e).total == v.total,
{
}

/// A whole admissible run of reports keeps the record well formed, loses no
/// update (the outcome count grows by exactly the number of reports), keeps
/// the byte counter from shrinking, and leaves the total untouched.
pub proof fn lemma_run_invariant(v: ProgressView, es: Seq<UnitEvent>)
    requires
        v.wf(),
        admissible(v, es),
    ensures
        apply_events(v, es).wf(),
        apply_events(v, es).completed + apply_events(v, es).failed == v.completed + v.failed
            + es.len(),
        apply_events(v, es).bytes >= v.bytes,
        apply_events(v, es).total == v.total,
    decreases es.len(),
{
    if es.len() > 0 {
        lemma_event_step(v, es[0]);
        lemma_run_invariant(apply_event(v, es[0]), es.drop_first());
    }
}

/// Every prefix of an admissible run is admissible.
pub proof fn lemma_admissible_prefix(v: ProgressView, es: Seq<UnitEvent>, k: int)
    requires
        admissible(v, es),
        0 <= k <= es.len(),
    ensures
        admissible(v, es.subrange(0, k)),
    decreases k,
{
    if k > 0 {
        assert(es.subrange(0, k)[0] == es[0]);
        assert(es.subrange(0, k).drop_first() =~= es.drop_first().subrange(0, k - 1));
        lemma_admissible_prefix(apply_event(v, es[0]), es.drop_first(), k - 1);
    }
}

/// The central counter invariant: after every report of an admissible run,
/// `completed + failed <= total`.
pub proof fn lemma_counts_bounded_after_every_event(v: ProgressView, es: Seq<UnitEvent>)
    requires
        v.wf(),
        admissible(v, es),
    ensures
        forall|k: int|
            0 <= k <= es.len() ==> (#[trigger] apply_events(v, es.subrange(0, k))).completed
                + apply_events(v, es.subrange(0, k)).failed <= v.total,
{
    assert forall|k: int| 0 <= k <= es.len() implies (#[trigger] apply_events(
        v,
        es.subrange(0, k),
    )).completed + apply_events(v, es.subrange(0, k)).failed <= v.total by {
        lemma_admissible_prefix(v, es, k);
        lemma_run_invariant(v, es.subrange(0, k));
    }
}

/// The bounded histories stay bounded after every report of an admissible
/// run: at most `RATE_HISTORY_CAPACITY` rate samples and
/// `ACTIVITY_LOG_CAPACITY` activity entries.
pub proof fn lemma_histories_bounded_after_every_event(v: ProgressView, es: Seq<UnitEvent>)
    requires
        v.wf(),
        admissible(v, es),
    ensures
        forall|k: int|
            0 <= k <= es.len() ==> (#[trigger] apply_events(v, es.subrange(0, k))).rate_history.len()
                <= RATE_HISTORY_CAPACITY,
        forall|k: int|
            0 <= k <= es.len() ==> (#[trigger] apply_events(v, es.subrange(0, k))).log.len()
                <= ACTIVITY_LOG_CAPACITY,
{
    assert forall|k: int|
        0 <= k <= es.len() implies (#[trigger] apply_events(v, es.subrange(0, k))).rate_history.len()
        <= RATE_HISTORY_CAPACITY && apply_events(v, es.subrange(0, k)).log.len()
        <= ACTIVITY_LOG_CAPACITY by {
        lemma_admissible_prefix(v, es, k);
        lemma_run_invariant(v, es.subrange(0, k));
    }
}

/// One report never shrinks the byte counter, admissible or not.
pub proof fn lemma_bytes_monotone_step(v: ProgressView, e: UnitEvent)
    ensures
        apply_event(v, e).bytes >= v.bytes,
{
}

/// A run of reports never shrinks the byte counter, admissible or not.
pub proof fn lemma_bytes_monotone_run(v: ProgressView, es: Seq<UnitEvent>)
    ensures
        apply_events(v, es).bytes >= v.bytes,
    decreases es.len(),
{
    if es.len() > 0 {
        lemma_bytes_monotone_step(v, es[0]);
        lemma_bytes_monotone_run(apply_event(v, es[0]), es.drop_first());
    }
}

/// Delivering two runs in a row is delivering their concatenation.
pub proof fn lemma_apply_events_append(v: ProgressView, es1: Seq<UnitEvent>, es2: Seq<UnitEvent>)
    ensures
        apply_events(v, es1 + es2) == apply_events(apply_events(v, es1), es2),
    decreases es1.len(),
{
    if es1.len() == 0 {
        assert(es1 + es2 =~= es2);
    } else {
        assert((es1 + es2)[0] == es1[0]);
        assert((es1 + es2).drop_first() =~= es1.drop_first() + es2);
        lemma_apply_events_append(apply_event(v, es1[0]), es1.drop_first(), es2);
    }
}

/// `bytes` is non-decreasing across the whole run: any earlier snapshot
/// shows at most as many transferred bytes as any later one.
pub proof fn lemma_bytes_monotone_snapshots(
    v: ProgressView,
    es: Seq<UnitEvent>,
    k1: int,
    k2: int,
)
    requires
        0 <= k1 <= k2 <= es.len(),
    ensures
        apply_events(v, es.subrange(0, k1)).bytes <= apply_events(v, es.subrange(0, k2)).bytes,
{
    assert(es.subrange(0, k1) + es.subrange(k1, k2) =~= es.subrange(0, k2));
    lemma_apply_events_append(v, es.subrange(0, k1), es.subrange(k1, k2));
    lemma_bytes_monotone_run(apply_events(v, es.subrange(0, k1)), es.subrange(k1, k2));
}

/// An admissible run splits: after any prefix, the rest of the run is
/// admissible from the reached state.
pub proof fn lemma_admissible_split(v: ProgressView, es: Seq<UnitEvent>, k: int)
    requires
        admissible(v, es),
        0 <= k <= es.len(),
    ensures
        admissible(apply_events(v, es.subrange(0, k)), es.subrange(k, es.len() as int)),
    decreases k,
{
    if k == 0 {
        assert(es.subrange(0, es.len() as int) =~= es);
    } else {
        assert(es.subrange(0, k)[0] == es[0]);
        assert(es.subrange(0, k).drop_first() =~= es.drop_first().subrange(0, k - 1));
        assert(es.subrange(k, es.len() as int) =~= es.drop_first().subrange(
            k - 1,
            es.drop_first().len() as int,
        ));
        lemma_admissible_split(apply_event(v, es[0]), es.drop_first(), k - 1);
    }
}

/// No take-back: across an admissible run, an earlier snapshot never shows
/// more reported outcomes than a later one — the outcome count the renderer
/// observes is monotonically non-decreasing.
pub proof fn lemma_counts_monotone_snapshots(
    v: ProgressView,
    es: Seq<UnitEvent>,
    k1: int,
    k2: int,
)
    requires
        v.wf(),
        admissible(v, es),
        0 <= k1 <= k2 <= es.len(),
    ensures
        apply_events(v, es.subrange(0, k1)).completed + apply_events(v, es.subrange(0, k1)).failed
            <= apply_events(v, es.subrange(0, k2)).completed + apply_events(
            v,
            es.subrange(0, k2),
        ).failed,
{
    lemma_admissible_prefix(v, es, k1);
    lemma_run_invariant(v, es.subrange(0, k1));
    lemma_admissible_split(v, es, k1);
    let mid = apply_events(v, es.subrange(0, k1));
    let rest = es.subrange(k1, es.len() as int);
    assert(rest.subrange(0, k2 - k1) =~= es.subrange(k1, k2));
    lemma_admissible_prefix(mid, rest, k2 - k1);
    lemma_run_invariant(mid, es.subrange(k1, k2));
    assert(es.subrange(0, k1) + es.subrange(k1, k2) =~= es.subrange(0, k2));
    lemma_apply_events_append(v, es.subrange(0, k1), es.subrange(k1, k2));
}

/// The bounded FIFO push: the newest entry always enters at the back, and
/// when the sequence is full the oldest entry (the front) is the one evicted.
pub proof fn lemma_push_bounded_fifo<A>(s: Seq<A>, x: A, cap: nat)
    requires
        s.len() <= cap,
        cap >= 1,
    ensures
        push_bounded(s, x, cap).len() <= cap,
        push_bounded(s, x, cap).last() == x,
        s.len() < cap ==> push_bounded(s, x, cap) == s.push(x),
        s.len() == cap ==> push_bounded(s, x, cap) == s.drop_first().push(x),
{
}

} // verus!
