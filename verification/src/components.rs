//! The per-entity power components: the bar itself, the progression level
//! and the regeneration ramp.

use vstd::prelude::*;

use crate::clamp_power;
use crate::clamp_time;
use crate::DELTA_CAP;
use crate::MILLIS_PER_SECOND;
use crate::POWER_CAP;
use crate::RATE_CAP;
use crate::TIME_CAP;

verus! {

/// Tracks current and maximum power of one entity, in milli-points.
#[derive(Debug, Clone, Copy, PartialEq, Eq)]
pub struct PowerBar {
    /// Current power value.
    pub current: i64,
    /// Maximum power value (can be reduced by limits).
    pub max: i64,
    /// Base maximum power (without limits); raised only by leveling.
    pub base_max: i64,
    /// Whether the entity is knocked out.
    pub is_knocked_out: bool,
}

impl PowerBar {
    /// All quantities in range; the effective maximum never exceeds the base.
    pub open spec fn wf(self) -> bool {
        0 <= self.current <= POWER_CAP && 0 <= self.max <= self.base_max <= POWER_CAP
    }

    /// The at-rest invariant: well-formed, with the current power inside
    /// the effective maximum.
    pub open spec fn at_rest(self) -> bool {
        self.wf() && self.current <= self.max
    }

    /// Create a new power bar filled to the given maximum.
    pub fn new(max_power: i64) -> (bar: PowerBar)
        requires
            0 <= max_power <= POWER_CAP,
        ensures
            bar == (PowerBar {
                current: max_power,
                max: max_power,
                base_max: max_power,
                is_knocked_out: false,
            }),
    {
        PowerBar { current: max_power, max: max_power, base_max: max_power, is_knocked_out: false }
    }

    /// A spend succeeds exactly when the entity is not knocked out and holds
    /// at least the requested amount.
    pub open spec fn spend_allowed(self, amount: i64) -> bool {
        !self.is_knocked_out && amount <= self.current
    }

    /// The bar after a spend: on success the amount is subtracted, floored at
    /// zero. A negative amount passes the balance check and acts as a gain;
    /// this pass-through is intentional and is the one way `current` can end
    /// above `max`.
    pub open spec fn spec_spend(self, amount: i64) -> PowerBar {
        if self.spend_allowed(amount) {
            PowerBar { current: clamp_power(self.current - amount), ..self }
        } else {
            self
        }
    }

    /// Spend power; returns whether the spend was taken.
    pub fn spend(&mut self, amount: i64) -> (r: bool)
        requires
            old(self).wf(),
            -POWER_CAP <= amount <= POWER_CAP,
        ensures
            r == old(self).spend_allowed(amount),
            *final(self) == old(self).spec_spend(amount),
            final(self).wf(),
    {
        if self.is_knocked_out || self.current < amount {
            return false;
        }
        let next = self.current - amount;
        self.current = if next < 0 {
            0
        } else if next > POWER_CAP {
            POWER_CAP
        } else {
            next
        };
        true
    }

    /// The bar after a gain: ignored while knocked out, otherwise the amount
    /// is added and the result clamped to the effective maximum.
    pub open spec fn spec_add(self, amount: i64) -> PowerBar {
        if self.is_knocked_out {
            self
        } else if self.current + amount > self.max {
            PowerBar { current: self.max, ..self }
        } else {
            PowerBar { current: (self.current + amount) as i64, ..self }
        }
    }

    /// Add power, clamped to the effective maximum; a no-op while knocked out.
    pub fn add(&mut self, amount: i64)
        requires
            old(self).wf(),
            0 <= amount <= POWER_CAP,
        ensures
            *final(self) == old(self).spec_add(amount),
            final(self).wf(),
    {
        if !self.is_knocked_out {
            let next = self.current + amount;
            self.current = if next > self.max {
                self.max
            } else {
                next
            };
        }
    }

    /// The bar after a revival: only a knocked-out entity changes; the flag
    /// clears and the restored power is capped at the effective maximum.
    pub open spec fn spec_revive(self, power_amount: i64) -> PowerBar {
        if self.is_knocked_out {
            PowerBar {
                is_knocked_out: false,
                current: if power_amount > self.max {
                    self.max
                } else {
                    power_amount
                },
                ..self
            }
        } else {
            self
        }
    }

    /// Revive from the knocked-out state with the given amount of power.
    pub fn revive(&mut self, power_amount: i64)
        requires
            old(self).wf(),
            0 <= power_amount <= POWER_CAP,
        ensures
            *final(self) == old(self).spec_revive(power_amount),
            final(self).wf(),
    {
        if self.is_knocked_out {
            self.is_knocked_out = false;
            self.current = if power_amount > self.max {
                self.max
            } else {
                power_amount
            };
        }
    }

    /// The filled fraction of the bar in thousandths, zero on an empty
    /// maximum.
    pub open spec fn spec_percentage(self) -> i64 {
        if self.max > 0 {
            ((self.current as int) * (MILLIS_PER_SECOND as int) / (self.max as int)) as i64
        } else {
            0
        }
    }

    /// Get the filled fraction of the bar in thousandths (1000 = full).
    pub fn percentage(&self) -> (r: i64)
        requires
            self.wf(),
        ensures
            r == self.spec_percentage(),
    {
        if self.max > 0 {
            self.current * 1000 / self.max
        } else {
            0
        }
    }
}

impl Default for PowerBar {
    /// A default bar of 100 points, full and awake.
    fn default() -> (bar: PowerBar)
        ensures
            bar == (PowerBar {
                current: 100_000int as i64,
                max: 100_000int as i64,
                base_max: 100_000int as i64,
                is_knocked_out: false,
            }),
    {
        PowerBar { current: 100_000, max: 100_000, base_max: 100_000, is_knocked_out: false }
    }
}

/// Numerator of the level-up capacity bonus, in milli-points. The bonus for
/// a gain taken at `level` is `20 / (1 + (level - 1) / 5)` points, which in
/// milli-points is exactly `100_000 / (level + 4)`: the first gain grants 20
/// points and later gains diminish.
pub const LEVEL_BONUS_NUMERATOR: i64 = 100_000;

/// Growth factor of the experience requirement per level, as a ratio.
pub const EXPERIENCE_GROWTH_NUMERATOR: i64 = 3;

/// Denominator of the experience growth ratio.
pub const EXPERIENCE_GROWTH_DENOMINATOR: i64 = 2;

/// Tracks the power level for progression. Experience is in milli-points.
#[derive(Debug, Clone, Copy, PartialEq, Eq)]
pub struct PowerLevel {
    /// Current level, starting at 1.
    pub level: u32,
    /// Accumulated experience.
    pub experience: i64,
    /// Experience needed for the next level.
    pub experience_to_next: i64,
}

impl PowerLevel {
    /// Level at least one, experience quantities in range.
    pub open spec fn wf(self) -> bool {
        1 <= self.level && 0 <= self.experience <= POWER_CAP && 0 < self.experience_to_next
            <= POWER_CAP
    }

    /// The capacity bonus granted by a gain taken at `level`, in
    /// milli-points: `100_000 / (level + 4)`, the integer form of
    /// `20 / (1 + (level - 1) / 5)` points.
    pub open spec fn spec_bonus(level: int) -> int {
        (LEVEL_BONUS_NUMERATOR as int) / (level + 4)
    }

    /// The progression after a level-up: the level rises by one (held at the
    /// largest representable level), experience resets, and the next
    /// requirement grows by half, saturating at the cap.
    pub open spec fn spec_level_up(self) -> PowerLevel {
        PowerLevel {
            level: if self.level < u32::MAX {
                (self.level + 1) as u32
            } else {
                self.level
            },
            experience: 0,
            experience_to_next: clamp_power(
                self.experience_to_next * EXPERIENCE_GROWTH_NUMERATOR
                    / (EXPERIENCE_GROWTH_DENOMINATOR as int),
            ),
        }
    }

    /// Level up and return the capacity bonus, computed from the level at
    /// which the gain was earned (the level before the increment).
    pub fn level_up(&mut self) -> (bonus: i64)
        requires
            old(self).wf(),
        ensures
            *final(self) == old(self).spec_level_up(),
            bonus == PowerLevel::spec_bonus(old(self).level as int),
            0 <= bonus <= LEVEL_BONUS_NUMERATOR,
            final(self).wf(),
    {
        let bonus = LEVEL_BONUS_NUMERATOR / (self.level as i64 + 4);
        if self.level < u32::MAX {
            self.level = self.level + 1;
        }
        self.experience = 0;
        let grown = self.experience_to_next * EXPERIENCE_GROWTH_NUMERATOR
            / EXPERIENCE_GROWTH_DENOMINATOR;
        self.experience_to_next = if grown > POWER_CAP {
            POWER_CAP
        } else {
            grown
        };
        bonus
    }

    /// The progression after an experience gain: the amount is added,
    /// saturating at the cap.
    pub open spec fn spec_add_experience(self, amount: i64) -> PowerLevel {
        PowerLevel { experience: clamp_power(self.experience + amount), ..self }
    }

    /// Add experience; returns whether a level-up is now due.
    pub fn add_experience(&mut self, amount: i64) -> (due: bool)
        requires
            old(self).wf(),
            0 <= amount <= POWER_CAP,
        ensures
            *final(self) == old(self).spec_add_experience(amount),
            due == (final(self).experience >= final(self).experience_to_next),
            final(self).wf(),
    {
        let next = self.experience + amount;
        self.experience = if next > POWER_CAP {
            POWER_CAP
        } else {
            next
        };
        self.experience >= self.experience_to_next
    }
}

impl Default for PowerLevel {
    /// Level 1 with no experience and 100 points required for the next.
    fn default() -> (level: PowerLevel)
        ensures
            level == (PowerLevel {
                level: 1u32,
                experience: 0int as i64,
                experience_to_next: 100_000int as i64,
            }),
    {
        PowerLevel { level: 1, experience: 0, experience_to_next: 100_000 }
    }
}

/// Handles power regeneration: after a delay without spending, power returns
/// at a rate that ramps from a base toward a maximum. Times are in
/// milliseconds, rates in milli-points per second.
#[derive(Debug, Clone, Copy, PartialEq, Eq)]
pub struct PowerRegeneration {
    /// Time since the last power spend.
    pub time_since_spend: i64,
    /// Delay before regeneration starts.
    pub regen_delay: i64,
    /// Current regeneration rate.
    pub current_rate: i64,
    /// Base regeneration rate, taken up when the ramp starts from zero.
    pub base_rate: i64,
    /// Maximum regeneration rate.
    pub max_rate: i64,
    /// Ramp-up speed, in milli-points per second per second.
    pub ramp_speed: i64,
    /// Whether regeneration is active.
    pub is_active: bool,
}

impl PowerRegeneration {
    /// Times and rates in range.
    pub open spec fn wf(self) -> bool {
        0 <= self.time_since_spend <= TIME_CAP && 0 <= self.regen_delay <= TIME_CAP && 0
            <= self.current_rate <= RATE_CAP && 0 <= self.base_rate <= RATE_CAP && 0
            <= self.max_rate <= RATE_CAP && 0 <= self.ramp_speed <= RATE_CAP
    }

    /// The ramp after a reset: time and rate cleared, inactive.
    pub open spec fn spec_reset(self) -> PowerRegeneration {
        PowerRegeneration { time_since_spend: 0, current_rate: 0, is_active: false, ..self }
    }

    /// Reset regeneration, as when power is spent.
    pub fn reset(&mut self)
        ensures
            *final(self) == old(self).spec_reset(),
    {
        self.time_since_spend = 0;
        self.current_rate = 0;
        self.is_active = false;
    }

    /// The ramp after `delta` milliseconds: time accumulates (saturating);
    /// once it reaches the delay the ramp is active and the rate climbs by
    /// `ramp_speed` per second up to `max_rate`; a rate still at zero at that
    /// moment snaps to `base_rate`.
    pub open spec fn spec_update(self, delta: i64) -> PowerRegeneration {
        let t = clamp_time(self.time_since_spend + delta);
        if t >= self.regen_delay {
            if self.current_rate < self.max_rate {
                let climbed = self.current_rate + self.ramp_speed * delta / (
                MILLIS_PER_SECOND as int);
                let capped: i64 = if climbed > self.max_rate {
                    self.max_rate
                } else {
                    climbed as i64
                };
                let rate: i64 = if capped == 0 {
                    self.base_rate
                } else {
                    capped
                };
                PowerRegeneration {
                    time_since_spend: t,
                    is_active: true,
                    current_rate: rate,
                    ..self
                }
            } else {
                PowerRegeneration { time_since_spend: t, is_active: true, ..self }
            }
        } else {
            PowerRegeneration { time_since_spend: t, ..self }
        }
    }

    /// Advance the regeneration state by `delta` milliseconds.
    pub fn update(&mut self, delta: i64)
        requires
            old(self).wf(),
            0 <= delta <= DELTA_CAP,
        ensures
            *final(self) == old(self).spec_update(delta),
            final(self).wf(),
    {
        let accumulated = self.time_since_spend + delta;
        self.time_since_spend = if accumulated > TIME_CAP {
            TIME_CAP
        } else {
            accumulated
        };

        if self.time_since_spend >= self.regen_delay {
            self.is_active = true;
            if self.current_rate < self.max_rate {
                proof {
                    assert(0 <= self.ramp_speed * delta <= RATE_CAP * DELTA_CAP)
                        by (nonlinear_arith)
                        requires
                            0 <= self.ramp_speed <= RATE_CAP,
                            0 <= delta <= DELTA_CAP,
                    ;
                }
                let climbed = self.current_rate + self.ramp_speed * delta / MILLIS_PER_SECOND;
                self.current_rate = if climbed > self.max_rate {
                    self.max_rate
                } else {
                    climbed
                };
                if self.current_rate == 0 {
                    self.current_rate = self.base_rate;
                }
            }
        }
    }

    /// The power returned over `delta` milliseconds: `current_rate * delta`
    /// scaled to milli-points while active, zero otherwise.
    pub open spec fn spec_regen_amount(self, delta: i64) -> i64 {
        if self.is_active {
            ((self.current_rate as int) * (delta as int) / (MILLIS_PER_SECOND as int)) as i64
        } else {
            0
        }
    }

    /// Get the amount of power regenerated over `delta` milliseconds.
    pub fn get_regen_amount(&self, delta: i64) -> (amount: i64)
        requires
            self.wf(),
            0 <= delta <= DELTA_CAP,
        ensures
            amount == self.spec_regen_amount(delta),
            0 <= amount <= POWER_CAP,
    {
        if self.is_active {
            proof {
                assert(0 <= self.current_rate * delta <= RATE_CAP * DELTA_CAP)
                    by (nonlinear_arith)
                    requires
                        0 <= self.current_rate <= RATE_CAP,
                        0 <= delta <= DELTA_CAP,
                ;
            }
            self.current_rate * delta / 1000
        } else {
            0
        }
    }
}

/// A freshly reset ramp yields no power, and it stays inactive and silent
/// through every update whose accumulated time falls short of the delay.
pub proof fn lemma_regen_silent_before_delay(r: PowerRegeneration, delta: i64)
    requires
        r.wf(),
        0 <= delta <= DELTA_CAP,
        !r.is_active,
        r.time_since_spend + delta < r.regen_delay,
    ensures
        !r.spec_update(delta).is_active,
        r.spec_update(delta).current_rate == r.current_rate,
        r.spec_update(delta).spec_regen_amount(delta) == 0,
        r.spec_reset().spec_regen_amount(delta) == 0,
{
}

/// Once the accumulated time reaches the delay, the ramp is active with a
/// positive rate that never falls and never passes the maximum; the power
/// it yields is the rate over the time step, positive as soon as the
/// product reaches one milli-point's worth.
pub proof fn lemma_regen_ramps_after_delay(r: PowerRegeneration, delta: i64)
    requires
        r.wf(),
        0 <= delta <= DELTA_CAP,
        0 < r.base_rate <= r.max_rate,
        r.current_rate <= r.max_rate,
        r.time_since_spend + delta >= r.regen_delay,
    ensures
        r.spec_update(delta).is_active,
        0 < r.spec_update(delta).current_rate <= r.max_rate,
        r.current_rate <= r.spec_update(delta).current_rate,
        r.spec_update(delta).spec_regen_amount(delta) == r.spec_update(delta).current_rate * delta
            / 1000,
        r.spec_update(delta).current_rate * delta >= 1000 ==> r.spec_update(delta).spec_regen_amount(
            delta,
        ) > 0,
{
    assert(0 <= r.ramp_speed * delta <= RATE_CAP * DELTA_CAP) by (nonlinear_arith)
        requires
            0 <= r.ramp_speed <= RATE_CAP,
            0 <= delta <= DELTA_CAP,
    ;
    let r2 = r.spec_update(delta);
    assert(0 <= r2.current_rate * delta <= RATE_CAP * DELTA_CAP) by (nonlinear_arith)
        requires
            0 <= r2.current_rate <= RATE_CAP,
            0 <= delta <= DELTA_CAP,
    ;
}

impl Default for PowerRegeneration {
    /// A 2.5 second delay, 5 points per second base rate, 20 points per
    /// second maximum, ramping at 2 points per second each second.
    fn default() -> (regen: PowerRegeneration)
        ensures
            regen == (PowerRegeneration {
                time_since_spend: 0int as i64,
                regen_delay: 2_500int as i64,
                current_rate: 0int as i64,
                base_rate: 5_000int as i64,
                max_rate: 20_000int as i64,
                ramp_speed: 2_000int as i64,
                is_active: false,
            }),
    {
        PowerRegeneration {
            time_since_spend: 0,
            regen_delay: 2_500,
            current_rate: 0,
            base_rate: 5_000,
            max_rate: 20_000,
            ramp_speed: 2_000,
            is_active: false,
        }
    }
}

} // verus!
