//! Idle-time accumulator: grows or decays an accrued idle value from the
//! live input-event count and the inter-arrival rhythm of the live events,
//! and tracks the running maximum.

use vstd::prelude::*;

use crate::IDLE_TIME_GROWTH_RATE_DEN;
use crate::IDLE_TIME_GROWTH_RATE_NUM;
use crate::MAX_IDLE_US;
use crate::MAX_TIME_US;
use crate::MICROS_PER_SEC;

verus! {

/// The smallest timestamp in a non-empty sequence.
pub open spec fn seq_min(s: Seq<u64>) -> u64
    recommends
        s.len() > 0,
    decreases s.len(),
{
    if s.len() <= 1 {
        s[0]
    } else {
        let m = seq_min(s.drop_last());
        if s.last() < m {
            s.last()
        } else {
            m
        }
    }
}

/// The minimum of a non-empty sequence is one of its elements.
pub proof fn lemma_seq_min_is_elem(s: Seq<u64>)
    requires
        s.len() > 0,
    ensures
        s.contains(seq_min(s)),
    decreases s.len(),
{
    if s.len() > 1 {
        lemma_seq_min_is_elem(s.drop_last());
        if !(s.last() < seq_min(s.drop_last())) {
            let i = choose|i: int| 0 <= i < s.drop_last().len() && s.drop_last()[i] == seq_min(s);
            assert(s[i] == seq_min(s));
        }
    } else {
        assert(s[0] == seq_min(s));
    }
}

/// The minimum of a non-empty sequence is at or below every element.
pub proof fn lemma_seq_min_le(s: Seq<u64>, i: int)
    requires
        0 <= i < s.len(),
    ensures
        seq_min(s) <= s[i],
    decreases s.len(),
{
    if s.len() > 1 && i < s.len() - 1 {
        lemma_seq_min_le(s.drop_last(), i);
    }
}

/// One decay tick: the accrued value sinks by the tick delta, clamped at 0.
pub open spec fn decay_value(current: u64, delta: u64) -> u64 {
    if current >= delta {
        (current - delta) as u64
    } else {
        0u64
    }
}

/// The average inter-arrival gap, in microseconds, among the live events
/// with a synthetic "now" sample appended to the list sorted by timestamp:
/// the adjacent gaps of that list telescope to `now - seq_min(events)`,
/// and there is one more sample than there are events.
pub open spec fn avg_gap_us(now: u64, events: Seq<u64>) -> int
    recommends
        events.len() > 0,
        seq_min(events) <= now,
{
    (now - seq_min(events)) / (events.len() + 1) as int
}

/// One growth tick's signed change of the accrued value, in microseconds:
/// `input_rate * growth_rate * delta`, where `input_rate` is one minus the
/// average gap in seconds. The quotient is truncated toward zero. A sparse
/// event list (average gap above one second) makes this negative.
pub open spec fn growth_increment_us(now: u64, delta: u64, events: Seq<u64>) -> int {
    let rate_scaled = MICROS_PER_SEC - avg_gap_us(now, events);
    let divisor = (IDLE_TIME_GROWTH_RATE_DEN * MICROS_PER_SEC) as int;
    if rate_scaled >= 0 {
        (rate_scaled * IDLE_TIME_GROWTH_RATE_NUM * delta) / divisor
    } else {
        -(((-rate_scaled) * IDLE_TIME_GROWTH_RATE_NUM * delta) / divisor)
    }
}

/// One growth tick: the accrued value moved by the signed increment,
/// clamped at 0.
pub open spec fn growth_value(current: u64, now: u64, delta: u64, events: Seq<u64>) -> int {
    let v = current + growth_increment_us(now, delta, events);
    if v >= 0 {
        v
    } else {
        0
    }
}

/// Accrued idle time: the current value and the running maximum, both in
/// microseconds and hence never negative.
pub struct IdleAccrual {
    /// Currently accrued idle time.
    pub current: u64,
    /// Running maximum of `current`; never decreases.
    pub longest: u64,
}

impl IdleAccrual {
    /// The running maximum always dominates the current value.
    pub open spec fn wf(self) -> bool {
        self.current <= self.longest
    }

    /// Start with nothing accrued.
    pub fn new() -> (a: Self)
        ensures
            a.current == 0,
            a.longest == 0,
            a.wf(),
    {
        IdleAccrual { current: 0, longest: 0 }
    }

    /// One simulation tick. With no live events the accrued value decays by
    /// the tick delta and the running maximum stays put; with live events it
    /// moves by the inter-arrival growth increment and the running maximum
    /// absorbs any new peak. A positive count with an empty event list is
    /// degenerate input and is treated as decay.
    pub fn step(&mut self, now: u64, delta: u64, count: usize, events: &Vec<u64>)
        requires
            old(self).wf(),
            old(self).current <= MAX_IDLE_US,
            old(self).longest <= MAX_IDLE_US,
            now <= MAX_TIME_US,
            delta <= MAX_TIME_US,
            forall|i: int| 0 <= i < events@.len() ==> #[trigger] events@[i] <= now,
        ensures
            final(self).wf(),
            final(self).longest >= old(self).longest,
            count == 0 || events@.len() == 0 ==> {
                &&& final(self).current == decay_value(old(self).current, delta)
                &&& final(self).longest == old(self).longest
            },
            count > 0 && events@.len() > 0 ==> {
                &&& final(self).current == growth_value(old(self).current, now, delta, events@)
                &&& final(self).longest == (if final(self).current > old(self).longest {
                    final(self).current
                } else {
                    old(self).longest
                })
            },
    {
        if count > 0 && events.len() > 0 {
            let m = min_of(events);
            proof {
                lemma_seq_min_is_elem(events@);
            }
            let total: u64 = now - m;
            let n_samples: u128 = events.len() as u128 + 1;
            let avg: u128 = (total as u128) / n_samples;
            proof {
                assert(avg == avg_gap_us(now, events@));
                assert(avg <= total as u128) by {
                    vstd::arithmetic::div_mod::lemma_div_is_ordered_by_denominator(
                        total as int,
                        1,
                        n_samples as int,
                    );
                }
            }
            let divisor: u128 = (IDLE_TIME_GROWTH_RATE_DEN as u128) * (MICROS_PER_SEC as u128);
            if avg <= MICROS_PER_SEC as u128 {
                let rate_scaled: u128 = MICROS_PER_SEC as u128 - avg;
                proof {
                    vstd::arithmetic::mul::lemma_mul_upper_bound(
                        rate_scaled as int,
                        1_000_000,
                        IDLE_TIME_GROWTH_RATE_NUM as int,
                        5,
                    );
                }
                let scaled: u128 = rate_scaled * (IDLE_TIME_GROWTH_RATE_NUM as u128);
                proof {
                    vstd::arithmetic::mul::lemma_mul_upper_bound(
                        scaled as int,
                        5_000_000,
                        delta as int,
                        MAX_TIME_US as int,
                    );
                }
                let product: u128 = scaled * (delta as u128);
                let inc: u128 = product / divisor;
                self.current = self.current + (inc as u64);
            } else {
                let over: u128 = avg - MICROS_PER_SEC as u128;
                let scaled: u128 = over * (IDLE_TIME_GROWTH_RATE_NUM as u128);
                proof {
                    assert(scaled <= 5 * (MAX_TIME_US as int)) by (nonlinear_arith)
                        requires
                            over <= MAX_TIME_US,
                            scaled == over * 5,
                    ;
                    assert(scaled * (delta as int) <= 5 * (MAX_TIME_US as int) * (MAX_TIME_US as int))
                        by (nonlinear_arith)
                        requires
                            scaled <= 5 * (MAX_TIME_US as int),
                            delta <= MAX_TIME_US,
                    ;
                }
                let product: u128 = scaled * (delta as u128);
                let dec: u128 = product / divisor;
                if dec >= self.current as u128 {
                    self.current = 0;
                } else {
                    self.current = self.current - (dec as u64);
                }
            }
            if self.current > self.longest {
                self.longest = self.current;
            }
        } else {
            if self.current >= delta {
                self.current = self.current - delta;
            } else {
                self.current = 0;
            }
        }
    }
}

/// The accrued value after a whole run of decay ticks, one per tick delta,
/// starting from `current`.
pub open spec fn decay_run(current: u64, deltas: Seq<u64>) -> u64
    decreases deltas.len(),
{
    if deltas.len() == 0 {
        current
    } else {
        decay_run(decay_value(current, deltas[0]), deltas.drop_first())
    }
}

/// A run of decay ticks extended by one more tick decays the run's result.
pub proof fn lemma_decay_run_push(current: u64, deltas: Seq<u64>, delta: u64)
    ensures
        decay_run(current, deltas.push(delta)) == decay_value(decay_run(current, deltas), delta),
    decreases deltas.len(),
{
    reveal_with_fuel(decay_run, 3);
    if deltas.len() == 0 {
        assert(deltas.push(delta)[0] == delta);
        assert(deltas.push(delta).drop_first() =~= Seq::<u64>::empty());
    } else {
        assert(deltas.push(delta)[0] == deltas[0]);
        assert(deltas.push(delta).drop_first() =~= deltas.drop_first().push(delta));
        lemma_decay_run_push(decay_value(current, deltas[0]), deltas.drop_first(), delta);
    }
}

/// Across any sequence of decay-only ticks the accrued idle value is
/// non-increasing from tick to tick, never exceeds its starting point, and
/// never goes negative (it is clamped at zero).
pub proof fn lemma_decay_run_non_increasing(current: u64, deltas: Seq<u64>, i: int)
    requires
        0 <= i < deltas.len(),
    ensures
        decay_run(current, deltas.take(i + 1)) <= decay_run(current, deltas.take(i)),
        decay_run(current, deltas.take(i)) <= current,
        decay_run(current, deltas.take(i + 1)) >= 0,
    decreases i,
{
    assert(deltas.take(i + 1) =~= deltas.take(i).push(deltas[i]));
    lemma_decay_run_push(current, deltas.take(i), deltas[i]);
    if i > 0 {
        lemma_decay_run_non_increasing(current, deltas, i - 1);
    } else {
        assert(deltas.take(0) =~= Seq::<u64>::empty());
    }
}

/// The smallest element of a non-empty vector of timestamps.
fn min_of(events: &Vec<u64>) -> (m: u64)
    requires
        events@.len() > 0,
    ensures
        m == seq_min(events@),
{
    let mut m: u64 = events[0];
    let mut i: usize = 1;
    let n = events.len();
    proof {
        assert(events@.take(1) =~= seq![events@[0]]);
    }
    while i < n
        invariant
            1 <= i <= n,
            n == events@.len(),
            m == seq_min(events@.take(i as int)),
        decreases n - i,
    {
        let t = events[i];
        proof {
            assert(events@.take(i + 1).drop_last() =~= events@.take(i as int));
            assert(events@.take(i + 1).last() == events@[i as int]);
        }
        if t < m {
            m = t;
        }
        i = i + 1;
    }
    proof {
        assert(events@.take(n as int) =~= events@);
    }
    m
}

} // verus!
