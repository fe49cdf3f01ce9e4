use crossbeam::channel::unbounded;
use idle_core::sampler::Sampler;
use idle_core::sampler::TelemetrySample;

#[test]
fn retention_keeps_only_recent_samples() {
    // Scenario: retention window 2.0 s, samples captured at t = 0, 1, 2, 3
    // seconds; trimming at t = 3.1 s retains only the t = 2 and t = 3
    // samples.
    let (idle_tx, _idle_rx) = unbounded();
    let (speed_tx, _speed_rx) = unbounded();
    let mut s = Sampler::new(idle_tx, speed_tx, 250_000, 2_000_000);
    s.step(0, 10, 20);
    s.step(1_000_000, 11, 21);
    s.step(2_000_000, 12, 22);
    s.step(3_000_000, 13, 23);
    // Each capture already trims, so the t=0 and t=1 samples are gone.
    assert_eq!(s.idle_series.len(), 2);
    s.trim(3_100_000);
    assert_eq!(
        s.idle_series,
        vec![
            TelemetrySample { value: 12, captured_at: 2_000_000 },
            TelemetrySample { value: 13, captured_at: 3_000_000 },
        ]
    );
    assert_eq!(
        s.speed_series,
        vec![
            TelemetrySample { value: 22, captured_at: 2_000_000 },
            TelemetrySample { value: 23, captured_at: 3_000_000 },
        ]
    );
}

#[test]
fn cadence_gates_captures() {
    let (idle_tx, _idle_rx) = unbounded();
    let (speed_tx, _speed_rx) = unbounded();
    let mut s = Sampler::new(idle_tx, speed_tx, 250_000, 2_000_000);
    let first = s.step(0, 1, 2);
    assert!(first.is_some());
    let too_soon = s.step(100_000, 3, 4);
    assert!(too_soon.is_none());
    assert_eq!(s.idle_series.len(), 1);
    let due_again = s.step(250_000, 5, 6);
    assert!(due_again.is_some());
    assert_eq!(s.idle_series.len(), 2);
}

#[test]
fn samples_reach_the_consumer_in_capture_order() {
    let (idle_tx, idle_rx) = unbounded();
    let (speed_tx, speed_rx) = unbounded();
    let mut s = Sampler::new(idle_tx, speed_tx, 250_000, 2_000_000);
    s.step(0, 10, 20);
    s.step(300_000, 11, 21);
    let first = idle_rx.try_recv().unwrap();
    assert_eq!(first, TelemetrySample { value: 10, captured_at: 0 });
    let second = idle_rx.try_recv().unwrap();
    assert_eq!(second, TelemetrySample { value: 11, captured_at: 300_000 });
    assert!(idle_rx.try_recv().is_err());
    assert_eq!(speed_rx.try_recv().unwrap(), TelemetrySample { value: 20, captured_at: 0 });
    assert_eq!(speed_rx.try_recv().unwrap(), TelemetrySample { value: 21, captured_at: 300_000 });
}

#[test]
fn dropped_consumer_is_tolerated_silently() {
    let (idle_tx, idle_rx) = unbounded();
    let (speed_tx, speed_rx) = unbounded();
    drop(idle_rx);
    drop(speed_rx);
    let mut s = Sampler::new(idle_tx, speed_tx, 250_000, 2_000_000);
    let emitted = s.step(0, 1, 2);
    assert!(emitted.is_some());
    assert_eq!(s.idle_series.len(), 1);
}

#[test]
fn emitted_samples_carry_the_captured_values() {
    let (idle_tx, _idle_rx) = unbounded();
    let (speed_tx, _speed_rx) = unbounded();
    let mut s = Sampler::new(idle_tx, speed_tx, 250_000, 2_000_000);
    let emitted = s.step(42, 7, 9).unwrap();
    assert_eq!(emitted.0, TelemetrySample { value: 7, captured_at: 42 });
    assert_eq!(emitted.1, TelemetrySample { value: 9, captured_at: 42 });
}
