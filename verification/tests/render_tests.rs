use segdash::render::{
    cell_eighths, duration_text, filled_cells, max_of, outcome_icon, progress_bar, region_rows,
    tail_window, truncate_label, whole_mib,
};
use segdash::{Outcome, RegionState};

#[test]
fn bar_fill_is_proportional() {
    assert_eq!(filled_cells(0, 4, 20), 0);
    assert_eq!(filled_cells(1, 4, 20), 5);
    assert_eq!(filled_cells(2, 4, 20), 10);
    assert_eq!(filled_cells(4, 4, 20), 20);
    assert_eq!(filled_cells(1, 3, 20), 6); // floor(20/3)
    assert_eq!(filled_cells(5, 0, 20), 0); // empty run: no fill, no fault
}

#[test]
fn bar_string_has_filled_then_empty_cells() {
    assert_eq!(progress_bar(2, 5), "██░░░");
    assert_eq!(progress_bar(0, 3), "░░░");
    assert_eq!(progress_bar(4, 4), "████");
    assert_eq!(progress_bar(0, 0), "");
}

#[test]
fn long_labels_are_truncated_with_an_ellipsis() {
    assert_eq!(truncate_label("short.ts", 25, 22), "short.ts");
    let long = "http://example.test/a/very/long/path/playlist.m3u8";
    assert_eq!(truncate_label(long, 25, 22), format!("{}...", &long[..22]));
    assert_eq!(truncate_label("abcdefghij", 5, 2), "ab...");
}

#[test]
fn sparkline_cells_scale_to_the_window_maximum() {
    // a full-scale value fills its single-row column
    assert_eq!(cell_eighths(100, 100, 1, 0), 8);
    assert_eq!(cell_eighths(50, 100, 1, 0), 4);
    assert_eq!(cell_eighths(0, 100, 1, 0), 0);
    // two rows: a half-scale value fills the bottom row and leaves the top empty
    assert_eq!(cell_eighths(50, 100, 2, 0), 8);
    assert_eq!(cell_eighths(50, 100, 2, 1), 0);
    // three quarters: full bottom, half top
    assert_eq!(cell_eighths(75, 100, 2, 0), 8);
    assert_eq!(cell_eighths(75, 100, 2, 1), 4);
    // values above the maximum saturate at a full column
    assert_eq!(cell_eighths(500, 100, 2, 1), 8);
}

#[test]
fn the_window_shows_the_most_recent_entries() {
    let points = vec![1u64, 2, 3, 4, 5];
    assert_eq!(tail_window(&points, 3), vec![3, 4, 5]);
    assert_eq!(tail_window(&points, 9), vec![1, 2, 3, 4, 5]);
    assert_eq!(tail_window(&points, 0), Vec::<u64>::new());
}

#[test]
fn peak_rate_is_the_window_maximum() {
    assert_eq!(max_of(&vec![3u64, 9, 1]), 9);
    assert_eq!(max_of(&vec![7u64]), 7);
    assert_eq!(max_of(&Vec::new()), 0);
}

#[test]
fn region_rows_wrap_to_the_panel_width() {
    let states = vec![
        RegionState::Completed,
        RegionState::Pending,
        RegionState::Failed,
        RegionState::Pending,
        RegionState::Downloading,
    ];
    let rows = region_rows(&states, 2);
    assert_eq!(rows.len(), 3);
    assert_eq!(rows[0], vec![RegionState::Completed, RegionState::Pending]);
    assert_eq!(rows[1], vec![RegionState::Failed, RegionState::Pending]);
    assert_eq!(rows[2], vec![RegionState::Downloading]);
    assert_eq!(region_rows(&Vec::new(), 4).len(), 0);
    assert_eq!(region_rows(&states, 10).len(), 1);
}

#[test]
fn durations_print_as_minutes_and_seconds() {
    assert_eq!(duration_text(0), "0m0s");
    assert_eq!(duration_text(59), "0m59s");
    assert_eq!(duration_text(125), "2m5s");
    assert_eq!(duration_text(3600), "60m0s");
}

#[test]
fn outcomes_are_iconified() {
    assert_eq!(outcome_icon(Outcome::Success), "\u{2713} ");
    assert_eq!(outcome_icon(Outcome::Failed), "\u{2717} ");
}

#[test]
fn byte_counts_display_in_whole_mebibytes() {
    assert_eq!(whole_mib(0), 0);
    assert_eq!(whole_mib(3 * 1024 * 1024 + 5), 3);
}
