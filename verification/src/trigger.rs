//! Focus-loss automation trigger: a debounce timer armed while the window is
//! unfocused, composed with a one-way Manual-to-Automation mode switch.

use vstd::prelude::*;

use crate::DEBOUNCE_US;
use crate::MAX_TIME_US;

verus! {

/// Whether gameplay currently drives itself or waits for the player.
/// Manual is the initial state; the core never leaves Automation.
#[derive(Clone, Copy, Debug, PartialEq, Eq, Structural)]
pub enum AutomationStates {
    Manual,
    Automation,
}

/// The idle-accrual condition under which automation may engage: some idle
/// time has accrued and no input event is live.
pub fn should_automate(idle_time: u64, key_count: usize) -> (r: bool)
    ensures
        r == (idle_time > 0 && key_count == 0),
{
    idle_time > 0 && key_count == 0
}

/// The debounced trigger: at most one live focus-loss timestamp, and the
/// current automation mode.
pub struct FocusTrigger {
    /// When the window most recently became unfocused, while it still is.
    pub timer: Option<u64>,
    /// Current mode; moves from Manual to Automation at most once.
    pub mode: AutomationStates,
}

/// The trigger state after one focus-change event: losing focus (re)arms the
/// timer from `now`, regaining focus cancels it. The mode never moves on a
/// focus event.
pub open spec fn focus_applied(tr: FocusTrigger, focused: bool, now: u64) -> FocusTrigger {
    FocusTrigger { timer: if focused { None } else { Some(now) }, mode: tr.mode }
}

/// Whether a tick at `now` flips the mode to Automation: only from Manual,
/// only once the armed timer has strictly exceeded the debounce, and only
/// while idle time has accrued with no live input.
pub open spec fn trigger_fires(tr: FocusTrigger, now: u64, current_idle: u64, count: usize) -> bool {
    &&& tr.mode == AutomationStates::Manual
    &&& tr.timer is Some
    &&& (now as int) > tr.timer->0 + DEBOUNCE_US
    &&& current_idle > 0
    &&& count == 0
}

/// The trigger state after one tick: the timer is untouched, and the mode
/// flips to Automation exactly when the trigger fires.
pub open spec fn trigger_stepped(tr: FocusTrigger, now: u64, current_idle: u64, count: usize) -> FocusTrigger {
    if trigger_fires(tr, now, current_idle, count) {
        FocusTrigger { timer: tr.timer, mode: AutomationStates::Automation }
    } else {
        tr
    }
}

impl FocusTrigger {
    /// An armed timer is small enough that debounce arithmetic on it cannot
    /// overflow.
    pub open spec fn wf(self) -> bool {
        self.timer is Some ==> self.timer->0 <= MAX_TIME_US
    }

    /// Start in Manual with no timer armed.
    pub fn new() -> (tr: Self)
        ensures
            tr.timer is None,
            tr.mode == AutomationStates::Manual,
            tr.wf(),
    {
        FocusTrigger { timer: None, mode: AutomationStates::Manual }
    }

    /// Ingest one window-focus-change event at `now`.
    pub fn apply_focus_event(&mut self, focused: bool, now: u64)
        requires
            old(self).wf(),
            now <= MAX_TIME_US,
        ensures
            *final(self) == focus_applied(*old(self), focused, now),
            final(self).wf(),
    {
        if focused {
            self.timer = None;
        } else {
            self.timer = Some(now);
        }
    }

    /// One tick: engage Automation when the debounce has elapsed and the
    /// idle-accrual condition holds; otherwise change nothing.
    pub fn step(&mut self, now: u64, current_idle: u64, count: usize)
        requires
            old(self).wf(),
        ensures
            *final(self) == trigger_stepped(*old(self), now, current_idle, count),
            final(self).wf(),
    {
        if matches!(self.mode, AutomationStates::Manual) {
            let automate = should_automate(current_idle, count);
            match self.timer {
                Some(t) => {
                    if now > t && now - t > DEBOUNCE_US && automate {
                        self.mode = AutomationStates::Automation;
                    }
                },
                None => {},
            }
        }
    }
}

/// Debounce: with the timer armed at `t0` and not cancelled since, a tick
/// at or before `t0 + DEBOUNCE_US` never engages Automation, however the
/// idle-accrual condition stands.
pub proof fn lemma_debounce_never_early(tr: FocusTrigger, t0: u64, now: u64, current_idle: u64, count: usize)
    requires
        tr.timer == Some(t0),
        now as int <= t0 + DEBOUNCE_US,
    ensures
        trigger_stepped(tr, now, current_idle, count).mode == tr.mode,
{
}

/// Debounce: with the timer armed at `t0` and not cancelled since, the first
/// tick strictly beyond `t0 + DEBOUNCE_US` at which the idle-accrual
/// condition holds engages Automation from Manual.
pub proof fn lemma_debounce_fires(tr: FocusTrigger, t0: u64, now: u64, current_idle: u64, count: usize)
    requires
        tr.mode == AutomationStates::Manual,
        tr.timer == Some(t0),
        now as int > t0 + DEBOUNCE_US,
        current_idle > 0,
        count == 0,
    ensures
        trigger_stepped(tr, now, current_idle, count).mode == AutomationStates::Automation,
{
}

/// Cancel: a Focused event before the debounce elapses disarms the timer, a
/// later independent Unfocused event at `t1` restarts the full debounce, and
/// no tick at or before `t1 + DEBOUNCE_US` engages Automation.
pub proof fn lemma_cancel_restarts_debounce(
    tr: FocusTrigger,
    t_focus: u64,
    t1: u64,
    now: u64,
    current_idle: u64,
    count: usize,
)
    requires
        now as int <= t1 + DEBOUNCE_US,
    ensures
        focus_applied(tr, true, t_focus).timer is None,
        focus_applied(focus_applied(tr, true, t_focus), false, t1).timer == Some(t1),
        trigger_stepped(
            focus_applied(focus_applied(tr, true, t_focus), false, t1),
            now,
            current_idle,
            count,
        ).mode == tr.mode,
{
}

/// One-way: a tick never leaves Automation, whatever it observes.
pub proof fn lemma_automation_is_terminal(tr: FocusTrigger, now: u64, current_idle: u64, count: usize)
    requires
        tr.mode == AutomationStates::Automation,
    ensures
        trigger_stepped(tr, now, current_idle, count) == tr,
{
}

} // verus!
