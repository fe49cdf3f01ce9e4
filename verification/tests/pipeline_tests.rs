use crossbeam::channel::unbounded;
use idle_core::pipeline::IdleCore;
use idle_core::trigger::AutomationStates;

fn fresh_core() -> IdleCore {
    let (idle_tx, idle_rx) = unbounded();
    let (speed_tx, speed_rx) = unbounded();
    // The consumer halves are dropped: the core must run on regardless.
    drop(idle_rx);
    drop(speed_rx);
    IdleCore::new(idle_tx, speed_tx)
}

#[test]
fn one_event_grows_idle_time() {
    // Scenario: one activity event at t=0, one tick at t=0.5 with
    // delta=0.5: the event is still live, so the accumulator takes the
    // growth branch.
    let mut c = fresh_core();
    c.record_input(0);
    c.tick(500_000, 500_000, 0);
    assert_eq!(c.tracker.count(), 1);
    assert_eq!(c.idle.current, 468_750);
    assert_eq!(c.idle.longest, 468_750);
}

#[test]
fn ticks_keep_longest_at_or_above_current() {
    let mut c = fresh_core();
    c.record_input(0);
    c.tick(500_000, 500_000, 0);
    assert!(c.idle.longest >= c.idle.current);
    let before = c.idle.longest;
    c.tick(1_500_000, 1_000_000, 0);
    assert!(c.idle.longest >= c.idle.current);
    assert!(c.idle.longest >= before);
}

#[test]
fn full_pipeline_reaches_automation() {
    let mut c = fresh_core();
    c.record_input(0);
    c.tick(500_000, 500_000, 0);
    assert!(c.idle.current > 0);
    c.window_focus_changed(false, 500_000);
    // At t=2.6s the event from t=0 has aged out, idle time is still
    // positive, and the unfocus debounce armed at t=0.5s has elapsed.
    c.tick(2_600_000, 100_000, 0);
    assert_eq!(c.tracker.count(), 0);
    assert!(c.idle.current > 0);
    assert_eq!(c.trigger.mode, AutomationStates::Automation);
}

#[test]
fn refocus_keeps_the_pipeline_manual() {
    let mut c = fresh_core();
    c.record_input(0);
    c.tick(500_000, 500_000, 0);
    c.window_focus_changed(false, 500_000);
    c.window_focus_changed(true, 600_000);
    c.tick(2_600_000, 100_000, 0);
    assert_eq!(c.trigger.mode, AutomationStates::Manual);
}

#[test]
fn tick_emits_telemetry_of_the_new_idle_value() {
    let (idle_tx, idle_rx) = unbounded();
    let (speed_tx, _speed_rx) = unbounded();
    let mut c = IdleCore::new(idle_tx, speed_tx);
    c.record_input(0);
    let emitted = c.tick(500_000, 500_000, 77);
    let (idle_sample, speed_sample) = emitted.unwrap();
    assert_eq!(idle_sample.value, 468_750);
    assert_eq!(idle_sample.captured_at, 500_000);
    assert_eq!(speed_sample.value, 77);
    let received = idle_rx.try_recv().unwrap();
    assert_eq!(received, idle_sample);
}

#[test]
fn core_works_at_the_upper_time_bound() {
    // The same half-second-old event as in the growth scenario, shifted to
    // the largest instant the core accepts.
    let top = idle_core::MAX_TIME_US;
    let mut c = fresh_core();
    c.record_input(top - 500_000);
    c.tick(top, 500_000, 0);
    assert_eq!(c.tracker.count(), 1);
    assert_eq!(c.idle.current, 468_750);
}

#[test]
fn recorded_event_vanishes_after_the_window() {
    let mut c = fresh_core();
    c.record_input(0);
    c.tick(1_000_000, 1_000_000, 0);
    assert_eq!(c.tracker.count(), 0);
    assert_eq!(c.tracker.events().len(), 0);
}
