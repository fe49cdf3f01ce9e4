use idle_core::idle::IdleAccrual;

#[test]
fn decay_from_two_seconds_clamps_at_zero() {
    // Scenario: no events ever recorded; three decay ticks of one second
    // each, starting from two seconds accrued.
    let mut a = IdleAccrual { current: 2_000_000, longest: 2_000_000 };
    let no_events: Vec<u64> = Vec::new();
    a.step(1_000_000, 1_000_000, 0, &no_events);
    assert_eq!(a.current, 1_000_000);
    a.step(2_000_000, 1_000_000, 0, &no_events);
    assert_eq!(a.current, 0);
    a.step(3_000_000, 1_000_000, 0, &no_events);
    assert_eq!(a.current, 0);
    assert_eq!(a.longest, 2_000_000);
}

#[test]
fn decay_is_exact() {
    let mut a = IdleAccrual { current: 500_000, longest: 500_000 };
    let no_events: Vec<u64> = Vec::new();
    a.step(700_000, 200_000, 0, &no_events);
    assert_eq!(a.current, 300_000);
    assert_eq!(a.longest, 500_000);
}

#[test]
fn growth_includes_gap_to_present() {
    // One event half a second old: the average gap over the event and the
    // synthetic "now" sample is 0.25 s, so the input rate is 0.75 and the
    // increment is 0.75 * 1.25 * 0.5 s.
    let mut a = IdleAccrual::new();
    let events: Vec<u64> = vec![0];
    a.step(500_000, 500_000, 1, &events);
    assert_eq!(a.current, 468_750);
    assert_eq!(a.longest, 468_750);
}

#[test]
fn growth_with_rapid_fire_input() {
    // Three events 0.1 s old: average gap (100_000 / 4) = 25_000 us, input
    // rate 0.975, increment 0.975 * 1.25 * 0.1 s = 121_875 us.
    let mut a = IdleAccrual::new();
    let events: Vec<u64> = vec![900_000, 900_000, 900_000];
    a.step(1_000_000, 100_000, 3, &events);
    assert_eq!(a.current, 121_875);
}

#[test]
fn sparse_input_shrinks_idle_time() {
    // One stale event three seconds old: average gap 1.5 s, input rate
    // -0.5, increment -0.5 * 1.25 * 1 s = -625_000 us. The running maximum
    // does not move.
    let mut a = IdleAccrual { current: 1_000_000, longest: 1_000_000 };
    let events: Vec<u64> = vec![0];
    a.step(3_000_000, 1_000_000, 1, &events);
    assert_eq!(a.current, 375_000);
    assert_eq!(a.longest, 1_000_000);
}

#[test]
fn sparse_input_clamps_at_zero() {
    let mut a = IdleAccrual { current: 100, longest: 100 };
    let events: Vec<u64> = vec![0];
    a.step(3_000_000, 1_000_000, 1, &events);
    assert_eq!(a.current, 0);
    assert_eq!(a.longest, 100);
}

#[test]
fn positive_count_with_empty_events_decays() {
    // Degenerate input: a count above zero but no events available must be
    // treated as decay, never as a division by zero.
    let mut a = IdleAccrual { current: 800_000, longest: 900_000 };
    let no_events: Vec<u64> = Vec::new();
    a.step(1_000_000, 300_000, 5, &no_events);
    assert_eq!(a.current, 500_000);
    assert_eq!(a.longest, 900_000);
}

#[test]
fn longest_tracks_new_peaks_only() {
    let mut a = IdleAccrual::new();
    let events: Vec<u64> = vec![0];
    a.step(500_000, 500_000, 1, &events);
    assert_eq!(a.longest, 468_750);
    let no_events: Vec<u64> = Vec::new();
    a.step(1_000_000, 400_000, 0, &no_events);
    assert_eq!(a.current, 68_750);
    assert_eq!(a.longest, 468_750);
    assert!(a.longest >= a.current);
}

#[test]
fn zero_delta_changes_nothing_either_branch() {
    let mut a = IdleAccrual { current: 123, longest: 456 };
    let no_events: Vec<u64> = Vec::new();
    a.step(10, 0, 0, &no_events);
    assert_eq!(a.current, 123);
    assert_eq!(a.longest, 456);
    let events: Vec<u64> = vec![5];
    a.step(10, 0, 1, &events);
    assert_eq!(a.current, 123);
    assert_eq!(a.longest, 456);
}
