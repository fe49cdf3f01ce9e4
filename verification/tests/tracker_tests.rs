use idle_core::tracker::ActivityTracker;
use idle_core::trigger::should_automate;

#[test]
fn tracker_starts_empty() {
    let t = ActivityTracker::new();
    assert_eq!(t.count(), 0);
}

#[test]
fn tracker_counts_recorded_events() {
    let mut t = ActivityTracker::new();
    t.record_event(100);
    t.record_event(200);
    assert_eq!(t.count(), 2);
    let c = t.step(300);
    assert_eq!(c, 2);
}

#[test]
fn tracker_evicts_aged_out_events() {
    let mut t = ActivityTracker::new();
    t.record_event(0);
    t.record_event(500_000);
    let c = t.step(1_000_000);
    assert_eq!(c, 1);
    assert_eq!(t.events()[0], 500_000);
}

#[test]
fn tracker_evicts_exactly_at_window_boundary() {
    let mut t = ActivityTracker::new();
    t.record_event(250_000);
    assert_eq!(t.step(1_249_999), 1);
    assert_eq!(t.step(1_250_000), 0);
}

#[test]
fn tracker_counts_duplicate_timestamps_independently() {
    let mut t = ActivityTracker::new();
    t.record_event(900_000);
    t.record_event(900_000);
    t.record_event(900_000);
    assert_eq!(t.step(1_000_000), 3);
    assert_eq!(t.step(1_900_000), 0);
}

#[test]
fn should_automate_needs_idle_and_no_input() {
    assert!(!should_automate(0, 0));
    assert!(should_automate(1, 0));
    assert!(!should_automate(1, 2));
    assert!(!should_automate(0, 2));
}
