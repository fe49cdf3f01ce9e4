//! The per-tick pipeline: one context object owns the tracker, the idle
//! accumulator, the focus-loss trigger and the telemetry sampler, and steps
//! them once per simulation tick in that fixed order.

use vstd::prelude::*;

use crate::MAX_IDLE_US;
use crate::MAX_TIME_US;
use crate::idle::IdleAccrual;
use crate::idle::decay_value;
use crate::idle::growth_value;
use crate::sampler::Sampler;
use crate::sampler::TelemetrySample;
use crate::sampler::capture_due;
use crate::sampler::retained_at;
use crate::tracker::ActivityTracker;
use crate::tracker::live_at;
use crate::trigger::FocusTrigger;
use crate::trigger::focus_applied;
use crate::trigger::trigger_stepped;

verus! {

/// The timing core: all state of the four components, plus the latest
/// instant the core has seen, so that time is fed to it monotonically.
pub struct IdleCore {
    /// Live input-event timestamps.
    pub tracker: ActivityTracker,
    /// Accrued idle time and its running record.
    pub idle: IdleAccrual,
    /// Debounced focus-loss automation switch.
    pub trigger: FocusTrigger,
    /// Telemetry history and cadence gate.
    pub sampler: Sampler,
    /// The largest instant ingested so far.
    pub clock: u64,
}

impl IdleCore {
    /// Component invariants, a bounded clock, and no event timestamp beyond
    /// the clock.
    pub open spec fn wf(self) -> bool {
        &&& self.tracker.wf()
        &&& self.idle.wf()
        &&& self.trigger.wf()
        &&& self.sampler.wf()
        &&& self.clock <= MAX_TIME_US
        &&& forall|i: int| 0 <= i < self.tracker@.len() ==> #[trigger] self.tracker@[i]
            <= self.clock
    }

    /// A fresh core at instant 0: nothing recorded, nothing accrued, Manual
    /// mode, default sampler windows, telemetry going out over the two given
    /// channels.
    pub fn new(
        idle_tx: crossbeam::channel::Sender<TelemetrySample>,
        speed_tx: crossbeam::channel::Sender<TelemetrySample>,
    ) -> (c: Self)
        ensures
            c.tracker@ == Seq::<u64>::empty(),
            c.idle.current == 0,
            c.idle.longest == 0,
            c.trigger.timer is None,
            c.trigger.mode == crate::trigger::AutomationStates::Manual,
            c.sampler.last_capture is None,
            c.clock == 0,
            c.wf(),
    {
        IdleCore {
            tracker: ActivityTracker::new(),
            idle: IdleAccrual::new(),
            trigger: FocusTrigger::new(),
            sampler: Sampler::default_windows(idle_tx, speed_tx),
            clock: 0,
        }
    }

    /// Ingest one discrete input-activity event at `now`.
    pub fn record_input(&mut self, now: u64)
        requires
            old(self).wf(),
            old(self).clock <= now <= MAX_TIME_US,
        ensures
            final(self).tracker@ == old(self).tracker@.push(now),
            final(self).idle == old(self).idle,
            final(self).trigger == old(self).trigger,
            final(self).sampler == old(self).sampler,
            final(self).clock == now,
            final(self).wf(),
    {
        self.tracker.record_event(now);
        self.clock = now;
    }

    /// Ingest one window-focus-change event at `now`.
    pub fn window_focus_changed(&mut self, focused: bool, now: u64)
        requires
            old(self).wf(),
            old(self).clock <= now <= MAX_TIME_US,
        ensures
            final(self).trigger == focus_applied(old(self).trigger, focused, now),
            final(self).tracker@ == old(self).tracker@,
            final(self).idle == old(self).idle,
            final(self).sampler == old(self).sampler,
            final(self).clock == now,
            final(self).wf(),
    {
        self.trigger.apply_focus_event(focused, now);
        self.clock = now;
    }

    /// One fixed simulation tick at `now`, `delta` microseconds after the
    /// previous tick: evict stale input events, grow or decay the idle
    /// accrual from the surviving events, give the automation trigger its
    /// chance, and let the sampler capture both scalars if its cadence is
    /// due. Fresh telemetry samples, if any, are returned for broadcast.
    pub fn tick(&mut self, now: u64, delta: u64, speed_metric: u64) -> (emitted: Option<
        (TelemetrySample, TelemetrySample),
    >)
        requires
            old(self).wf(),
            old(self).clock <= now <= MAX_TIME_US,
            delta <= MAX_TIME_US,
            old(self).idle.current <= MAX_IDLE_US,
            old(self).idle.longest <= MAX_IDLE_US,
        ensures
            final(self).wf(),
            final(self).clock == now,
            final(self).tracker@ == old(self).tracker@.filter(live_at(now)),
            final(self).tracker@.len() == 0 ==> {
                &&& final(self).idle.current == decay_value(old(self).idle.current, delta)
                &&& final(self).idle.longest == old(self).idle.longest
            },
            final(self).tracker@.len() > 0 ==> {
                &&& final(self).idle.current == growth_value(
                    old(self).idle.current,
                    now,
                    delta,
                    final(self).tracker@,
                )
                &&& final(self).idle.longest == (if final(self).idle.current
                    > old(self).idle.longest {
                    final(self).idle.current
                } else {
                    old(self).idle.longest
                })
            },
            final(self).idle.longest >= old(self).idle.longest,
            final(self).idle.longest >= final(self).idle.current,
            final(self).trigger == trigger_stepped(
                old(self).trigger,
                now,
                final(self).idle.current,
                final(self).tracker@.len() as usize,
            ),
            final(self).sampler.cadence == old(self).sampler.cadence,
            final(self).sampler.retention == old(self).sampler.retention,
            !capture_due(old(self).sampler.last_capture, now, old(self).sampler.cadence) ==> {
                &&& final(self).sampler == old(self).sampler
                &&& emitted is None
            },
            capture_due(old(self).sampler.last_capture, now, old(self).sampler.cadence) ==> {
                &&& final(self).sampler.last_capture == Some(now)
                &&& final(self).sampler.idle_series@ == old(self).sampler.idle_series@.filter(
                    retained_at(now, old(self).sampler.retention),
                ).push(TelemetrySample { value: final(self).idle.current, captured_at: now })
                &&& final(self).sampler.speed_series@ == old(self).sampler.speed_series@.filter(
                    retained_at(now, old(self).sampler.retention),
                ).push(TelemetrySample { value: speed_metric, captured_at: now })
                &&& emitted == Some((
                    TelemetrySample { value: final(self).idle.current, captured_at: now },
                    TelemetrySample { value: speed_metric, captured_at: now },
                ))
            },
    {
        let count = self.tracker.step(now);
        proof {
            assert forall|i: int| 0 <= i < self.tracker@.len() implies #[trigger] self.tracker@[i]
                <= now by {
                self.tracker@.lemma_index_contains(i);
                old(self).tracker@.lemma_filter_contains_rev(live_at(now), self.tracker@[i]);
            }
        }
        self.idle.step(now, delta, count, self.tracker.events());
        self.trigger.step(now, self.idle.current, count);
        let emitted = self.sampler.step(now, self.idle.current, speed_metric);
        self.clock = now;
        emitted
    }
}

} // verus!
