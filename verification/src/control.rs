//! Run-control decisions: how one unit's outcome is reported, and when the
//! dashboard's render loop stops.
//!
//! The surrounding program performs the transfer, the file write, the
//! terminal drawing and the input polling; the decisions about what those
//! observations mean are made here, on plain values.

use vstd::prelude::*;
use crate::laws::{apply_event, UnitEvent};
use crate::progress::ProgressState;

verus! {

/// What one unit's fetch task observed: a fully transferred and persisted
/// payload of some size, a transport failure, or a local write failure.
#[derive(Clone, Copy, PartialEq, Eq, Structural, Debug)]
pub enum FetchOutcome {
    /// The payload was transferred and written; the field is the byte count
    /// actually written.
    Transferred(u64),
    /// The request or response failed; the unit is terminally failed.
    TransferFailed,
    /// The local write failed; treated exactly like a transfer failure.
    WriteFailed,
}

/// The report that an outcome turns into.
pub open spec fn event_of(o: FetchOutcome, index: usize, label: Seq<char>, now_ms: u64) -> UnitEvent {
    match o {
        FetchOutcome::Transferred(byte_count) => UnitEvent::Success {
            index,
            byte_count,
            label,
            now_ms,
        },
        FetchOutcome::TransferFailed => UnitEvent::Failure { index, label },
        FetchOutcome::WriteFailed => UnitEvent::Failure { index, label },
    }
}

/// Reports one unit's outcome into the progress record: a transferred
/// payload is recorded as a success with its byte count, either failure
/// kind as a terminal failure. One call, one report — a unit is never
/// retried and never reported twice.
pub fn record_outcome(
    state: &mut ProgressState,
    index: usize,
    outcome: FetchOutcome,
    label: String,
    now_ms: u64,
)
    requires
        old(state)@.wf(),
        old(state)@.completed + old(state)@.failed < old(state)@.total,
    ensures
        final(state)@ == apply_event(old(state)@, event_of(outcome, index, label@, now_ms)),
        final(state)@.wf(),
{
    match outcome {
        FetchOutcome::Transferred(byte_count) => {
            state.record_success(index, byte_count, label, now_ms);
        },
        FetchOutcome::TransferFailed => {
            state.record_failure(index, label);
        },
        FetchOutcome::WriteFailed => {
            state.record_failure(index, label);
        },
    }
}

/// The dashboard's two phases: ticking, or terminally stopped.
#[derive(Clone, Copy, PartialEq, Eq, Structural, Debug)]
pub enum RenderPhase {
    Running,
    Stopped,
}

/// One render tick's decision: the loop stops exactly when it was already
/// stopped, the snapshot shows every unit reported, or the user asked to
/// quit.
pub fn next_render_phase(phase: RenderPhase, state: &ProgressState, quit_requested: bool) -> (r:
    RenderPhase)
    requires
        state@.wf(),
    ensures
        r is Stopped <==> (phase is Stopped || state@.completed + state@.failed >= state@.total
            || quit_requested),
{
    if matches!(phase, RenderPhase::Stopped) || quit_requested || state.is_complete() {
        RenderPhase::Stopped
    } else {
        RenderPhase::Running
    }
}

} // verus!
