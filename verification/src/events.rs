//! Commands queued for the controller and the notifications it emits.
//!
//! External commands do not act on the state directly: they are collected as
//! intents during a tick and drained, in arrival order, when the controller
//! runs its phases.

use vstd::prelude::*;

use crate::limits::LimitType;
use crate::POWER_CAP;
use crate::TIME_CAP;

verus! {

/// One queued command against an entity's power state.
#[derive(Debug, Clone, Copy, PartialEq, Eq)]
pub enum PowerIntent {
    /// Spend power; rejected when knocked out or short of funds.
    Spend {
        /// Amount of power to spend, in milli-points.
        amount: i64,
    },
    /// Change power: add if positive, spend the magnitude if negative.
    Change {
        /// Amount to change, in milli-points (negative for a decrease).
        amount: i64,
    },
    /// Apply a power limit.
    ApplyLimit {
        /// Caller-assigned id for this limit.
        id: u32,
        /// Type of limit (points or percentage).
        limit_type: LimitType,
        /// Opaque display tag, passed through.
        color: u32,
        /// Duration in milliseconds (`None` for permanent).
        duration: Option<i64>,
        /// Whether this limit resets the regeneration cooldown.
        resets_cooldown: bool,
        /// Whether this limit suppresses regeneration while active.
        stops_regeneration: bool,
    },
    /// Lift (remove) the first limit with the given id.
    LiftLimit {
        /// Id of the limit to remove.
        id: u32,
    },
    /// Revive a knocked-out entity.
    Revive {
        /// Amount of power to restore upon revival, in milli-points.
        power_amount: i64,
    },
}

impl PowerIntent {
    /// Quantities in range for the machine; amounts may still be negative
    /// where the command allows it.
    pub open spec fn wf(self) -> bool {
        match self {
            PowerIntent::Spend { amount } => -POWER_CAP <= amount <= POWER_CAP,
            PowerIntent::Change { amount } => -POWER_CAP <= amount <= POWER_CAP,
            PowerIntent::ApplyLimit { limit_type, duration, .. } => limit_type.wf() && match duration {
                Option::Some(d) => 0 <= d <= TIME_CAP,
                Option::None => true,
            },
            PowerIntent::LiftLimit { .. } => true,
            PowerIntent::Revive { power_amount } => 0 <= power_amount <= POWER_CAP,
        }
    }

    /// Create a limit intent that takes fixed points.
    pub fn points(
        id: u32,
        points: i64,
        color: u32,
        duration: Option<i64>,
        resets_cooldown: bool,
        stops_regeneration: bool,
    ) -> (intent: PowerIntent)
        ensures
            intent == (PowerIntent::ApplyLimit {
                id,
                limit_type: LimitType::Points(points),
                color,
                duration,
                resets_cooldown,
                stops_regeneration,
            }),
    {
        PowerIntent::ApplyLimit {
            id,
            limit_type: LimitType::Points(points),
            color,
            duration,
            resets_cooldown,
            stops_regeneration,
        }
    }

    /// Create a limit intent that takes a percentage of the base maximum.
    pub fn percentage(
        id: u32,
        percentage: i64,
        color: u32,
        duration: Option<i64>,
        resets_cooldown: bool,
        stops_regeneration: bool,
    ) -> (intent: PowerIntent)
        ensures
            intent == (PowerIntent::ApplyLimit {
                id,
                limit_type: LimitType::Percentage(percentage),
                color,
                duration,
                resets_cooldown,
                stops_regeneration,
            }),
    {
        PowerIntent::ApplyLimit {
            id,
            limit_type: LimitType::Percentage(percentage),
            color,
            duration,
            resets_cooldown,
            stops_regeneration,
        }
    }
}

/// Every intent of the sequence is well-formed.
pub open spec fn all_intents_wf(s: Seq<PowerIntent>) -> bool {
    forall|i: int| 0 <= i < s.len() ==> #[trigger] s[i].wf()
}

/// A notification emitted by the controller for the surrounding layer.
#[derive(Debug, Clone, Copy, PartialEq, Eq)]
pub enum PowerNotice {
    /// The entity was knocked out.
    KnockedOut,
    /// The entity leveled up.
    LevelUp {
        /// The level just reached.
        new_level: u32,
        /// Capacity bonus gained, in milli-points.
        power_bonus: i64,
    },
}

} // verus!
