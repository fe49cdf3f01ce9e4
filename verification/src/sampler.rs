//! Telemetry sampler: on a fixed low-rate cadence it snapshots the idle-time
//! and automation-speed scalars into time-stamped samples, keeps each series
//! only within a trailing retention window, and hands the fresh samples to
//! the outbound broadcast.

use vstd::prelude::*;

use crate::MAX_TIME_US;
use crate::RETENTION_US;
use crate::SAMPLE_CADENCE_US;

verus! {

/// A time-stamped scalar snapshot, in the core's microsecond fixed point.
#[derive(Clone, Copy, Debug, PartialEq, Eq, Structural)]
pub struct TelemetrySample {
    /// The sampled scalar, in microseconds of idle time or of speed metric.
    pub value: u64,
    /// When the snapshot was taken.
    pub captured_at: u64,
}

/// A sample captured at `t` is retained at `now` while its age is below the
/// retention window.
pub open spec fn sample_live(s: TelemetrySample, now: u64, retention: u64) -> bool {
    (now as int) < s.captured_at + retention
}

/// The retention predicate of a trim at `now`, as a first-class function.
pub open spec fn retained_at(now: u64, retention: u64) -> spec_fn(TelemetrySample) -> bool {
    |s: TelemetrySample| sample_live(s, now, retention)
}

/// Timestamps within a series never decrease, so within one channel the
/// arrival order of samples matches their capture order.
pub open spec fn series_sorted(s: Seq<TelemetrySample>) -> bool {
    forall|i: int, j: int| 0 <= i <= j < s.len() ==> (#[trigger] s[i]).captured_at
        <= (#[trigger] s[j]).captured_at
}

/// Dropping samples from a series never disturbs the order of the rest.
pub proof fn lemma_filter_preserves_sorted(s: Seq<TelemetrySample>, p: spec_fn(TelemetrySample) -> bool)
    requires
        series_sorted(s),
    ensures
        series_sorted(s.filter(p)),
    decreases s.len(),
{
    reveal_with_fuel(Seq::filter, 2);
    if s.len() > 0 {
        let d = s.drop_last();
        assert(series_sorted(d));
        lemma_filter_preserves_sorted(d, p);
        if p(s.last()) {
            let kept = d.filter(p).push(s.last());
            assert forall|i: int, j: int| 0 <= i <= j < kept.len() implies (
            #[trigger] kept[i]).captured_at <= (#[trigger] kept[j]).captured_at by {
                if j == kept.len() - 1 && i < j {
                    d.lemma_filter_pred(p, i);
                    d.filter(p).lemma_index_contains(i);
                    d.lemma_filter_contains_rev(p, kept[i]);
                    let k = choose|k: int| 0 <= k < d.len() && d[k] == kept[i];
                    assert(s[k] == kept[i]);
                    assert(s[k].captured_at <= s[s.len() - 1].captured_at);
                }
            }
        }
    }
}

/// Whether a capture is due at `now`: always on the first tick, afterwards
/// once a full cadence has passed since the last capture.
pub open spec fn capture_due(last: Option<u64>, now: u64, cadence: u64) -> bool {
    match last {
        None => true,
        Some(t) => now as int >= t + cadence,
    }
}

#[verifier::external_type_specification]
#[verifier::external_body]
#[verifier::reject_recursive_types(T)]
/// The sending half of a crossbeam channel, opaque to the contracts: the
/// sampler only pushes into it and never reads it back.
pub struct ExSender<T>(crossbeam::channel::Sender<T>);

/// Relies on crossbeam::channel::Sender::try_send: it never blocks, never
/// panics, and either delivers the message or hands it back in the error
/// when the channel is full or all receivers are gone. An unbounded channel
/// is never full, so there the result is false only with no receiver left —
/// which the sampler treats as "no consumer" and ignores.
#[verifier::external_body]
fn send_sample(tx: &crossbeam::channel::Sender<TelemetrySample>, sample: TelemetrySample) -> bool {
    tx.try_send(sample).is_ok()
}

/// The sampler's own history of both telemetry series, the cadence gate the
/// series share, and the sending half of each outbound channel.
pub struct Sampler {
    /// Microseconds between captures.
    pub cadence: u64,
    /// Trailing window within which samples are retained.
    pub retention: u64,
    /// When the most recent capture happened, if any.
    pub last_capture: Option<u64>,
    /// Retained idle-time samples, oldest first.
    pub idle_series: Vec<TelemetrySample>,
    /// Retained automation-speed samples, oldest first.
    pub speed_series: Vec<TelemetrySample>,
    /// Sending half of the idle-time broadcast channel.
    pub idle_tx: crossbeam::channel::Sender<TelemetrySample>,
    /// Sending half of the automation-speed broadcast channel.
    pub speed_tx: crossbeam::channel::Sender<TelemetrySample>,
}

impl Sampler {
    /// Bounds under which the retention arithmetic cannot overflow, and the
    /// ordering the broadcast promises: no sample was captured after the
    /// latest capture instant, and each series is sorted by capture time.
    pub open spec fn wf(self) -> bool {
        &&& self.cadence <= MAX_TIME_US
        &&& self.retention <= MAX_TIME_US
        &&& (self.last_capture is Some ==> self.last_capture->0 <= MAX_TIME_US)
        &&& (self.last_capture is None ==> self.idle_series@.len() == 0
            && self.speed_series@.len() == 0)
        &&& (forall|i: int| 0 <= i < self.idle_series@.len() ==> (
            #[trigger] self.idle_series@[i]).captured_at <= MAX_TIME_US)
        &&& (forall|i: int| 0 <= i < self.speed_series@.len() ==> (
            #[trigger] self.speed_series@[i]).captured_at <= MAX_TIME_US)
        &&& (self.last_capture is Some ==> forall|i: int|
            0 <= i < self.idle_series@.len() ==> (#[trigger] self.idle_series@[i]).captured_at
                <= self.last_capture->0)
        &&& (self.last_capture is Some ==> forall|i: int|
            0 <= i < self.speed_series@.len() ==> (#[trigger] self.speed_series@[i]).captured_at
                <= self.last_capture->0)
        &&& series_sorted(self.idle_series@)
        &&& series_sorted(self.speed_series@)
    }

    /// A fresh sampler with the given outbound channels, cadence and
    /// retention window, and no history.
    pub fn new(
        idle_tx: crossbeam::channel::Sender<TelemetrySample>,
        speed_tx: crossbeam::channel::Sender<TelemetrySample>,
        cadence: u64,
        retention: u64,
    ) -> (s: Self)
        requires
            cadence <= MAX_TIME_US,
            retention <= MAX_TIME_US,
        ensures
            s.cadence == cadence,
            s.retention == retention,
            s.last_capture is None,
            s.idle_series@ == Seq::<TelemetrySample>::empty(),
            s.speed_series@ == Seq::<TelemetrySample>::empty(),
            s.wf(),
    {
        Sampler {
            cadence,
            retention,
            last_capture: None,
            idle_series: Vec::new(),
            speed_series: Vec::new(),
            idle_tx,
            speed_tx,
        }
    }

    /// A sampler with the default cadence and retention window.
    pub fn default_windows(
        idle_tx: crossbeam::channel::Sender<TelemetrySample>,
        speed_tx: crossbeam::channel::Sender<TelemetrySample>,
    ) -> (s: Self)
        ensures
            s.cadence == SAMPLE_CADENCE_US,
            s.retention == RETENTION_US,
            s.last_capture is None,
            s.idle_series@ == Seq::<TelemetrySample>::empty(),
            s.speed_series@ == Seq::<TelemetrySample>::empty(),
            s.wf(),
    {
        Sampler::new(idle_tx, speed_tx, SAMPLE_CADENCE_US, RETENTION_US)
    }

    /// Drop every sample older than the retention window from both series.
    pub fn trim(&mut self, now: u64)
        requires
            old(self).wf(),
        ensures
            final(self).idle_series@ == old(self).idle_series@.filter(
                retained_at(now, old(self).retention),
            ),
            final(self).speed_series@ == old(self).speed_series@.filter(
                retained_at(now, old(self).retention),
            ),
            final(self).cadence == old(self).cadence,
            final(self).retention == old(self).retention,
            final(self).last_capture == old(self).last_capture,
            final(self).wf(),
    {
        let retention = self.retention;
        let trimmed_idle = trim_series(&self.idle_series, now, retention);
        let trimmed_speed = trim_series(&self.speed_series, now, retention);
        proof {
            lemma_filter_preserves_sorted(self.idle_series@, retained_at(now, retention));
            lemma_filter_preserves_sorted(self.speed_series@, retained_at(now, retention));
            if self.last_capture is None {
                self.idle_series@.lemma_filter_len(retained_at(now, retention));
                self.speed_series@.lemma_filter_len(retained_at(now, retention));
            }
        }
        self.idle_series = trimmed_idle;
        self.speed_series = trimmed_speed;
    }

    /// One sampler tick. When a capture is due, both series are trimmed to
    /// the retention window and receive a fresh sample of their scalar taken
    /// at `now`, and each fresh sample is pushed, non-blocking, into its
    /// outbound channel (silently, when no consumer is left) and returned;
    /// on a tick between cadence points nothing changes and nothing is
    /// emitted.
    pub fn step(&mut self, now: u64, idle_value: u64, speed_value: u64) -> (emitted: Option<
        (TelemetrySample, TelemetrySample),
    >)
        requires
            old(self).wf(),
            now <= MAX_TIME_US,
        ensures
            final(self).wf(),
            final(self).cadence == old(self).cadence,
            final(self).retention == old(self).retention,
            !capture_due(old(self).last_capture, now, old(self).cadence) ==> {
                &&& *final(self) == *old(self)
                &&& emitted is None
            },
            capture_due(old(self).last_capture, now, old(self).cadence) ==> {
                &&& final(self).last_capture == Some(now)
                &&& final(self).idle_series@ == old(self).idle_series@.filter(
                    retained_at(now, old(self).retention),
                ).push(TelemetrySample { value: idle_value, captured_at: now })
                &&& final(self).speed_series@ == old(self).speed_series@.filter(
                    retained_at(now, old(self).retention),
                ).push(TelemetrySample { value: speed_value, captured_at: now })
                &&& emitted == Some((
                    TelemetrySample { value: idle_value, captured_at: now },
                    TelemetrySample { value: speed_value, captured_at: now },
                ))
            },
    {
        let due = match self.last_capture {
            None => true,
            Some(t) => now >= t && now - t >= self.cadence,
        };
        proof {
            assert(due == capture_due(self.last_capture, now, self.cadence));
        }
        if due {
            let ghost last0 = self.last_capture;
            self.trim(now);
            let ghost trimmed_idle = self.idle_series@;
            let ghost trimmed_speed = self.speed_series@;
            let idle_sample = TelemetrySample { value: idle_value, captured_at: now };
            let speed_sample = TelemetrySample { value: speed_value, captured_at: now };
            self.idle_series.push(idle_sample);
            self.speed_series.push(speed_sample);
            self.last_capture = Some(now);
            proof {
                lemma_appended_capture_keeps_order(trimmed_idle, self.idle_series@, last0, now);
                lemma_appended_capture_keeps_order(trimmed_speed, self.speed_series@, last0, now);
            }
            let _ = send_sample(&self.idle_tx, idle_sample);
            let _ = send_sample(&self.speed_tx, speed_sample);
            Some((idle_sample, speed_sample))
        } else {
            None
        }
    }
}

/// Appending a capture taken at `now` — no earlier than every sample a
/// sorted series already holds — keeps the series sorted and bounds every
/// sample by `now`.
proof fn lemma_appended_capture_keeps_order(
    before: Seq<TelemetrySample>,
    after: Seq<TelemetrySample>,
    last: Option<u64>,
    now: u64,
)
    requires
        series_sorted(before),
        last is None ==> before.len() == 0,
        last is Some ==> (last->0 <= now && forall|i: int|
            0 <= i < before.len() ==> (#[trigger] before[i]).captured_at <= last->0),
        after.len() == before.len() + 1,
        forall|i: int| 0 <= i < before.len() ==> after[i] == before[i],
        after[after.len() - 1].captured_at == now,
    ensures
        series_sorted(after),
        forall|i: int| 0 <= i < after.len() ==> (#[trigger] after[i]).captured_at <= now,
{
    assert forall|i: int, j: int| 0 <= i <= j < after.len() implies (
    #[trigger] after[i]).captured_at <= (#[trigger] after[j]).captured_at by {
        if j < after.len() - 1 {
            assert(before[i].captured_at <= before[j].captured_at);
        } else if i < j {
            assert(before[i].captured_at <= last->0);
        }
    }
    assert forall|i: int| 0 <= i < after.len() implies (#[trigger] after[i]).captured_at
        <= now by {
        if i < after.len() - 1 {
            assert(before[i].captured_at <= last->0);
        }
    }
}

/// One series trimmed to the samples still within the retention window.
fn trim_series(series: &Vec<TelemetrySample>, now: u64, retention: u64) -> (kept: Vec<
    TelemetrySample,
>)
    requires
        retention <= MAX_TIME_US,
        forall|i: int| 0 <= i < series@.len() ==> (#[trigger] series@[i]).captured_at
            <= MAX_TIME_US,
    ensures
        kept@ == series@.filter(retained_at(now, retention)),
        forall|i: int| 0 <= i < kept@.len() ==> (#[trigger] kept@[i]).captured_at <= MAX_TIME_US,
        forall|i: int| 0 <= i < kept@.len() ==> series@.contains(#[trigger] kept@[i]),
{
    let ghost all = series@;
    proof {
        assert(all.take(0) =~= Seq::<TelemetrySample>::empty());
    }
    let mut kept: Vec<TelemetrySample> = Vec::new();
    let n = series.len();
    let mut i: usize = 0;
    while i < n
        invariant
            i <= n,
            n == series@.len(),
            series@ == all,
            retention <= MAX_TIME_US,
            forall|j: int| 0 <= j < all.len() ==> (#[trigger] all[j]).captured_at <= MAX_TIME_US,
            kept@ == all.take(i as int).filter(retained_at(now, retention)),
        decreases n - i,
    {
        proof {
            assert(all[i as int].captured_at <= MAX_TIME_US);
        }
        let s = series[i];
        let is_live = now < s.captured_at + retention;
        proof {
            assert(is_live == retained_at(now, retention)(s));
            assert(all.take(i + 1) =~= all.take(i as int).push(all[i as int]));
            all.take(i as int).lemma_filter_push(all[i as int], retained_at(now, retention));
        }
        if is_live {
            kept.push(s);
        }
        i = i + 1;
    }
    proof {
        assert(all.take(n as int) =~= all);
        assert forall|j: int| 0 <= j < kept@.len() implies all.contains(#[trigger] kept@[j]) by {
            kept@.lemma_index_contains(j);
            all.lemma_filter_contains_rev(retained_at(now, retention), kept@[j]);
        }
    }
    kept
}

/// Retention: at an evaluation instant `now`, trimming keeps exactly the
/// samples whose age is still below the retention window; every older
/// sample is gone from the series.
pub proof fn lemma_retention_drops_old(series: Seq<TelemetrySample>, now: u64, retention: u64, s: TelemetrySample)
    requires
        s.captured_at + retention <= now as int,
    ensures
        !series.filter(retained_at(now, retention)).contains(s),
{
    let kept = series.filter(retained_at(now, retention));
    assert forall|i: int| 0 <= i < kept.len() implies kept[i] != s by {
        series.lemma_filter_pred(retained_at(now, retention), i);
    }
}

} // verus!
