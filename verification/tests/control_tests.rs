use segdash::control::{next_render_phase, record_outcome};
use segdash::progress::ProgressState;
use segdash::{FetchOutcome, RenderPhase};

#[test]
fn transferred_outcomes_are_recorded_as_successes() {
    let mut s = ProgressState::new(3, 0);
    record_outcome(&mut s, 0, FetchOutcome::Transferred(1200), "s0".to_string(), 0);
    assert_eq!(s.completed_units(), 1);
    assert_eq!(s.failed_units(), 0);
    assert_eq!(s.bytes_transferred(), 1200);
}

#[test]
fn both_failure_kinds_are_recorded_as_terminal_failures() {
    let mut s = ProgressState::new(3, 0);
    record_outcome(&mut s, 0, FetchOutcome::TransferFailed, "s0".to_string(), 0);
    record_outcome(&mut s, 1, FetchOutcome::WriteFailed, "s1".to_string(), 0);
    assert_eq!(s.completed_units(), 0);
    assert_eq!(s.failed_units(), 2);
    assert_eq!(s.bytes_transferred(), 0);
    let log = s.activity_log();
    assert_eq!(log.len(), 2);
    assert!(log.iter().all(|e| e.outcome == segdash::Outcome::Failed));
}

#[test]
fn the_render_loop_stops_when_every_unit_reported() {
    let mut s = ProgressState::new(2, 0);
    assert_eq!(next_render_phase(RenderPhase::Running, &s, false), RenderPhase::Running);
    s.record_success(0, 1, "a".to_string(), 0);
    assert_eq!(next_render_phase(RenderPhase::Running, &s, false), RenderPhase::Running);
    s.record_failure(1, "b".to_string());
    assert_eq!(next_render_phase(RenderPhase::Running, &s, false), RenderPhase::Stopped);
}

#[test]
fn the_render_loop_stops_on_a_quit_signal() {
    let s = ProgressState::new(2, 0);
    assert_eq!(next_render_phase(RenderPhase::Running, &s, true), RenderPhase::Stopped);
    // stopped is terminal
    assert_eq!(next_render_phase(RenderPhase::Stopped, &s, false), RenderPhase::Stopped);
}
