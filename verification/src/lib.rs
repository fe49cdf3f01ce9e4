//! Timing and state core of an idle game.
//!
//! Raw input events and window-focus transitions are turned into an accruing
//! "idle time" value and an automation-mode switch, and periodically sampled
//! into telemetry streams for an external consumer.
//!
//! All durations and timestamps are integer microseconds, so every quantity
//! the contracts speak of is exact.

use vstd::prelude::*;

pub mod idle;
pub mod pipeline;
pub mod sampler;
pub mod tracker;
pub mod trigger;

verus! {

/// Trailing interval over which recent input events stay live (1 second).
pub const ACTIVITY_WINDOW_US: u64 = 1_000_000;

/// Microseconds in one second; also the scale of the input-rate fixed point.
pub const MICROS_PER_SEC: u64 = 1_000_000;

/// Numerator of the idle-time growth rate (1.25 = 5 / 4).
pub const IDLE_TIME_GROWTH_RATE_NUM: u64 = 5;

/// Denominator of the idle-time growth rate (1.25 = 5 / 4).
pub const IDLE_TIME_GROWTH_RATE_DEN: u64 = 4;

/// Debounce: how long the window must stay unfocused before automation
/// may trigger (2 seconds).
pub const DEBOUNCE_US: u64 = 2_000_000;

/// Default cadence of the telemetry sampler (0.25 seconds).
pub const SAMPLE_CADENCE_US: u64 = 250_000;

/// Default trailing retention window for telemetry samples (2 seconds).
pub const RETENTION_US: u64 = 2_000_000;

/// Upper bound on every timestamp and tick delta the core accepts, so that
/// all the fixed-point arithmetic below stays in range (about 35 years).
pub const MAX_TIME_US: u64 = 0x4_0000_0000_0000;

/// Upper bound on the accrued idle value accepted by a single step, so that
/// one growth increment cannot overflow a `u64`.
pub const MAX_IDLE_US: u64 = 0x1000_0000_0000_0000;

} // verus!
