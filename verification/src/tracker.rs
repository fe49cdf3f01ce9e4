//! Input activity tracker: a time-windowed multiset of recent input-event
//! timestamps, with a live count recomputed at every tick.

use vstd::prelude::*;

use crate::ACTIVITY_WINDOW_US;
use crate::MAX_TIME_US;

verus! {

/// An event recorded at `t` is still live at `now` while its age is below
/// the activity window. An event whose timestamp lies at or beyond
/// `now` has non-positive age and is live as well.
pub open spec fn event_live(t: u64, now: u64) -> bool {
    (now as int) < t + ACTIVITY_WINDOW_US
}

/// The eviction predicate of a tick at `now`, as a first-class function.
pub open spec fn live_at(now: u64) -> spec_fn(u64) -> bool {
    |t: u64| event_live(t, now)
}

/// The set of currently-live input-event timestamps, in insertion order.
pub struct ActivityTracker {
    events: Vec<u64>,
}

impl ActivityTracker {
    /// The recorded timestamps, oldest recording first.
    pub closed spec fn view(&self) -> Seq<u64> {
        self.events@
    }

    /// Every stored timestamp is small enough that window arithmetic on it
    /// cannot overflow.
    pub open spec fn wf(&self) -> bool {
        forall|i: int| 0 <= i < self@.len() ==> #[trigger] self@[i] <= MAX_TIME_US
    }

    /// An empty tracker: no live events.
    pub fn new() -> (t: Self)
        ensures
            t@ == Seq::<u64>::empty(),
            t.wf(),
    {
        ActivityTracker { events: Vec::new() }
    }

    /// Record one input event at `now`. Duplicate timestamps are permitted
    /// and each is counted independently.
    pub fn record_event(&mut self, now: u64)
        requires
            old(self).wf(),
            now <= MAX_TIME_US,
        ensures
            final(self)@ == old(self)@.push(now),
            final(self).wf(),
    {
        self.events.push(now);
        proof {
            assert forall|i: int| 0 <= i < self@.len() implies #[trigger] self@[i] <= MAX_TIME_US by {
                if i < self@.len() - 1 {
                    assert(old(self)@[i] <= MAX_TIME_US);
                }
            }
        }
    }

    /// Evict every event whose age at `now` has reached the activity window
    /// and return the count of the events that remain live.
    pub fn step(&mut self, now: u64) -> (count: usize)
        requires
            old(self).wf(),
        ensures
            final(self)@ == old(self)@.filter(live_at(now)),
            count == final(self)@.len(),
            final(self).wf(),
    {
        let ghost all = self.events@;
        proof {
            assert(all.take(0) =~= Seq::<u64>::empty());
            assert forall|j: int| 0 <= j < all.len() implies all[j] <= MAX_TIME_US by {
                assert(self@[j] <= MAX_TIME_US);
            }
        }
        let mut kept: Vec<u64> = Vec::new();
        let n = self.events.len();
        let mut i: usize = 0;
        while i < n
            invariant
                i <= n,
                n == self.events.len(),
                self.events@ == all,
                forall|j: int| 0 <= j < all.len() ==> #[trigger] all[j] <= MAX_TIME_US,
                kept@ == all.take(i as int).filter(live_at(now)),
            decreases n - i,
        {
            proof {
                assert(all[i as int] <= MAX_TIME_US);
            }
            let t = self.events[i];
            let is_live = now < t + ACTIVITY_WINDOW_US;
            proof {
                assert(is_live == live_at(now)(t));
                assert(all.take(i + 1) =~= all.take(i as int).push(all[i as int]));
                all.take(i as int).lemma_filter_push(all[i as int], live_at(now));
            }
            if is_live {
                kept.push(t);
            }
            i = i + 1;
        }
        proof {
            assert(all.take(n as int) =~= all);
            assert forall|j: int| 0 <= j < kept@.len() implies #[trigger] kept@[j] <= MAX_TIME_US by {
                kept@.lemma_index_contains(j);
                all.lemma_filter_contains_rev(live_at(now), kept@[j]);
            }
        }
        self.events = kept;
        self.events.len()
    }

    /// The current live count, without evicting anything.
    pub fn count(&self) -> (c: usize)
        ensures
            c == self@.len(),
    {
        self.events.len()
    }

    /// Read access to the live timestamps, for the idle accumulator.
    pub fn events(&self) -> (v: &Vec<u64>)
        ensures
            v@ == self@,
    {
        &self.events
    }
}

/// An event recorded at `t0` is absent from the live set — and so from the
/// count — at every tick evaluated once the activity window has passed.
pub proof fn lemma_eviction_complete(events: Seq<u64>, now: u64, t0: u64)
    requires
        t0 + ACTIVITY_WINDOW_US <= now as int,
    ensures
        !events.filter(live_at(now)).contains(t0),
{
    let kept = events.filter(live_at(now));
    assert forall|i: int| 0 <= i < kept.len() implies kept[i] != t0 by {
        events.lemma_filter_pred(live_at(now), i);
    }
}

} // verus!
