//! A resource-management library for tick-driven games: each entity carries a
//! depletable, regenerating "power" reserve. Temporary or permanent "limits"
//! lower the effective maximum, a ramping regeneration refills the bar after a
//! cooldown, knockout fires when capacity or current power reaches zero, and
//! leveling raises the base capacity.
//!
//! All quantities are integers at a fixed scale: power in milli-points
//! (1000 = one point), time in milliseconds, regeneration rates in
//! milli-points per second. Every stored quantity is kept within
//! [`POWER_CAP`], which makes all of the arithmetic exact and overflow-free.

use vstd::prelude::*;

pub mod components;
pub mod events;
pub mod limits;
pub mod prelude;
pub mod systems;
pub mod ui;

pub use components::PowerBar;
pub use components::PowerLevel;
pub use components::PowerRegeneration;
pub use events::PowerIntent;
pub use events::PowerNotice;
pub use limits::CountdownTimer;
pub use limits::LimitType;
pub use limits::PowerLimit;
pub use limits::PowerLimits;
pub use systems::PowerBundle;
pub use systems::PowerSystem;

verus! {

/// Upper bound on every stored power quantity, in milli-points
/// (one billion points). Additions that would pass it saturate.
pub const POWER_CAP: i64 = 1_000_000_000_000;

/// Upper bound on regeneration rates and ramp speeds, in milli-points
/// per second (one million points per second).
pub const RATE_CAP: i64 = 1_000_000_000;

/// Upper bound on accumulated times, delays and limit durations, in
/// milliseconds (roughly thirty years). Accumulated time saturates here.
pub const TIME_CAP: i64 = 1_000_000_000_000;

/// Upper bound on the time step handed to one tick, in milliseconds
/// (one thousand seconds).
pub const DELTA_CAP: i64 = 1_000_000;

/// Milliseconds per second; converts a rate into an amount per time step.
pub const MILLIS_PER_SECOND: i64 = 1_000;

/// A full 100%, expressed in milli-percent.
pub const FULL_PERCENT: i64 = 100_000;

/// Upper bound on a percentage limit, in milli-percent (1000%).
pub const PERCENT_CAP: i64 = 1_000_000;

/// Clamp an ideal quantity into the representable power range [0, POWER_CAP].
pub open spec fn clamp_power(x: int) -> i64 {
    if x < 0 {
        0
    } else if x > POWER_CAP {
        POWER_CAP
    } else {
        x as i64
    }
}

/// Clamp an ideal time into the representable range [0, TIME_CAP].
pub open spec fn clamp_time(x: int) -> i64 {
    if x < 0 {
        0
    } else if x > TIME_CAP {
        TIME_CAP
    } else {
        x as i64
    }
}

} // verus!
