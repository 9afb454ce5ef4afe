use segdash::progress::ProgressState;
use segdash::region::bucket_index;
use segdash::RegionState;

#[test]
fn four_successes_reach_full_progress() {
    let mut s = ProgressState::new(4, 0);
    for i in 0..4usize {
        s.record_success(i, 1000, format!("segment {i}"), 10 * (i as u64 + 1));
    }
    assert_eq!(s.completed_units(), 4);
    assert_eq!(s.failed_units(), 0);
    assert_eq!(s.bytes_transferred(), 4000);
    assert_eq!(s.progress_permille(), 1000);
    assert!(s.is_complete());
}

#[test]
fn mixed_outcomes_terminate_after_last_report() {
    let mut s = ProgressState::new(10, 0);
    let failures = [2usize, 5, 7];
    for i in 0..10usize {
        assert!(!s.is_complete());
        if failures.contains(&i) {
            s.record_failure(i, format!("segment {i}"));
        } else {
            s.record_success(i, 100, format!("segment {i}"), 0);
        }
    }
    assert_eq!(s.completed_units(), 10 - 3);
    assert_eq!(s.failed_units(), 3);
    assert!(s.is_complete());
    assert!(s.completed_units() + s.failed_units() <= s.total_units());
}

#[test]
fn empty_run_has_zero_progress_and_no_division_fault() {
    let s = ProgressState::new(0, 0);
    assert_eq!(s.progress_permille(), 0);
    assert_eq!(s.total_units(), 0);
    assert!(s.is_complete());
}

#[test]
fn progress_is_full_exactly_when_all_units_completed() {
    let mut s = ProgressState::new(3, 0);
    s.record_success(0, 1, "a".to_string(), 0);
    s.record_success(1, 1, "b".to_string(), 0);
    assert!(s.progress_permille() < 1000);
    s.record_success(2, 1, "c".to_string(), 0);
    assert_eq!(s.progress_permille(), 1000);
    assert_eq!(s.failed_units(), 0);
}

#[test]
fn bytes_never_decrease_across_any_sequence() {
    let mut s = ProgressState::new(8, 0);
    let mut last = 0u64;
    for i in 0..8usize {
        if i % 3 == 0 {
            s.record_failure(i, format!("f{i}"));
        } else {
            s.record_success(i, (i as u64) * 17, format!("s{i}"), i as u64);
        }
        assert!(s.bytes_transferred() >= last);
        last = s.bytes_transferred();
    }
}

#[test]
fn activity_log_keeps_six_newest_entries_fifo() {
    let mut s = ProgressState::new(20, 0);
    for i in 0..8usize {
        s.record_success(i, 1, format!("s{i}"), 0);
        assert!(s.activity_log().len() <= 6);
    }
    let log = s.activity_log();
    assert_eq!(log.len(), 6);
    // the two oldest entries (s0, s1) were evicted first
    assert_eq!(log[0].label, "s2");
    assert_eq!(log[5].label, "s7");
}

#[test]
fn rate_history_is_bounded_and_sampled_per_window() {
    let mut s = ProgressState::new(200, 0);
    for i in 0..60usize {
        // every report lands 300 ms after the previous sample window opened,
        // so every report takes one sample of 3000 bytes / 0.3 s
        s.record_success(i, 3000, format!("s{i}"), 300 * (i as u64 + 1));
        assert!(s.rate_history().len() <= 50);
    }
    assert_eq!(s.rate_history().len(), 50);
    assert_eq!(s.current_rate(), 10_000);
    assert!(s.rate_history().iter().all(|&r| r == 10_000));
}

#[test]
fn rate_is_not_resampled_inside_the_window() {
    let mut s = ProgressState::new(10, 0);
    s.record_success(0, 500, "a".to_string(), 100);
    // only 100 ms elapsed: no sample yet
    assert_eq!(s.rate_history().len(), 0);
    assert_eq!(s.current_rate(), 0);
    s.record_success(1, 500, "b".to_string(), 250);
    // 250 ms elapsed: one sample of 1000 bytes / 0.25 s
    assert_eq!(s.rate_history().len(), 1);
    assert_eq!(s.current_rate(), 4000);
}

#[test]
fn average_rate_divides_bytes_by_elapsed_time() {
    let mut s = ProgressState::new(2, 1000);
    s.record_success(0, 5000, "a".to_string(), 2000);
    assert_eq!(s.average_rate(3000), 2500);
    assert_eq!(s.average_rate(1000), 0);
}

#[test]
fn eta_is_unknown_without_completions_or_rate() {
    let s = ProgressState::new(5, 0);
    assert_eq!(s.estimated_remaining_secs(10_000), None);
    let mut s = ProgressState::new(5, 0);
    s.record_success(0, 100, "a".to_string(), 0);
    // zero elapsed time: average rate is zero, so the estimate is unknown
    assert_eq!(s.estimated_remaining_secs(0), None);
}

#[test]
fn eta_scales_remaining_units_by_mean_size_and_rate() {
    let mut s = ProgressState::new(2, 0);
    s.record_success(0, 5000, "a".to_string(), 2000);
    // mean unit size 5000 bytes, mean rate 2500 B/s, one unit left
    assert_eq!(s.estimated_remaining_secs(2000), Some(2));
}

#[test]
fn unit_index_maps_to_proportional_bucket() {
    assert_eq!(bucket_index(130, 250, 100), Some(52));
    assert_eq!(bucket_index(0, 250, 100), Some(0));
    assert_eq!(bucket_index(249, 250, 100), Some(99));
    // an out-of-range index maps outside the buckets and is rejected
    assert_eq!(bucket_index(250, 250, 100), None);
}

#[test]
fn region_map_tracks_last_outcome_per_bucket() {
    let mut s = ProgressState::new(250, 0);
    assert_eq!(s.region_states().len(), 100);
    assert!(s.region_states().iter().all(|&st| st == RegionState::Pending));
    s.record_success(130, 10, "s130".to_string(), 0);
    assert_eq!(s.region_states()[52], RegionState::Completed);
    s.record_failure(131, "s131".to_string());
    // unit 131 maps into the same bucket: last write wins
    assert_eq!(s.region_states()[52], RegionState::Failed);
}

#[test]
fn small_runs_get_one_bucket_per_unit() {
    let mut s = ProgressState::new(4, 0);
    assert_eq!(s.region_states().len(), 4);
    s.record_success(0, 1, "a".to_string(), 0);
    s.record_failure(3, "d".to_string());
    assert_eq!(s.region_states()[0], RegionState::Completed);
    assert_eq!(s.region_states()[1], RegionState::Pending);
    assert_eq!(s.region_states()[3], RegionState::Failed);
}

#[test]
fn malformed_index_is_ignored_not_fatal() {
    let mut s = ProgressState::new(4, 0);
    s.record_success(1000, 7, "weird".to_string(), 0);
    // counted, logged, but no bucket marked
    assert_eq!(s.completed_units(), 1);
    assert_eq!(s.bytes_transferred(), 7);
    assert!(s.region_states().iter().all(|&st| st == RegionState::Pending));
}

#[test]
fn elapsed_time_is_measured_from_construction() {
    let s = ProgressState::new(1, 500);
    assert_eq!(s.elapsed_ms(2500), 2000);
    assert_eq!(s.elapsed_ms(400), 0);
}
