//! The resource controller: the per-entity component bundle, the phase
//! functions that apply one command or advance one mechanism, and the tick
//! that composes them in order.

use vstd::prelude::*;

use crate::clamp_power;
use crate::components::PowerBar;
use crate::components::PowerLevel;
use crate::components::PowerRegeneration;
use crate::events::all_intents_wf;
use crate::events::PowerIntent;
use crate::events::PowerNotice;
use crate::limits::all_wf;
use crate::limits::any_stops;
use crate::limits::expired_ids;
use crate::limits::has_id;
use crate::limits::lemma_first_match_at;
use crate::limits::lemma_remove_first_wf;
use crate::limits::lemma_sum_bounds;
use crate::limits::lemma_sum_push;
use crate::limits::lemma_survivors_bounds;
use crate::limits::remove_first;
use crate::limits::sum_values;
use crate::limits::survivors;
use crate::limits::CountdownTimer;
use crate::limits::LimitType;
use crate::limits::PowerLimit;
use crate::limits::PowerLimits;
use crate::limits::MAX_LIMITS;
use crate::DELTA_CAP;
use crate::FULL_PERCENT;
use crate::PERCENT_CAP;
use crate::POWER_CAP;
use crate::RATE_CAP;
use crate::TIME_CAP;

verus! {

/// The abstract value of one entity's whole power state.
pub ghost struct PowerView {
    /// The power bar.
    pub bar: PowerBar,
    /// The regeneration ramp.
    pub regen: PowerRegeneration,
    /// The progression level.
    pub level: PowerLevel,
    /// The active limits, in insertion order.
    pub limits: Seq<PowerLimit>,
}

impl PowerView {
    /// Every component well-formed and the limit stack within bounds.
    pub open spec fn wf(self) -> bool {
        &&& self.bar.wf()
        &&& self.regen.wf()
        &&& self.level.wf()
        &&& self.limits.len() <= MAX_LIMITS
        &&& all_wf(self.limits)
    }

    /// The at-rest invariant: well-formed with the current power inside the
    /// effective maximum.
    pub open spec fn at_rest(self) -> bool {
        self.wf() && self.bar.current <= self.bar.max
    }

    /// The effective maximum agrees with what the limits derive: base
    /// maximum minus the total reduction, floored at zero. Every operation
    /// that touches the stack re-establishes this; a level-up taken while
    /// the maximum is pinned at zero is the one thing that can break it.
    pub open spec fn derived_max(self) -> bool {
        self.bar.max == spec_capacity(self.bar.base_max, sum_values(self.limits))
    }
}

/// The effective maximum derived from a base maximum and a total reduction:
/// their difference, floored at zero.
pub open spec fn spec_capacity(base_max: i64, total: int) -> i64 {
    if base_max - total < 0 {
        0
    } else {
        (base_max - total) as i64
    }
}

/// The state after a spend command: the bar pays (or refuses), and a taken
/// spend resets the regeneration ramp.
pub open spec fn spec_handle_spend(s: PowerView, amount: i64) -> PowerView {
    if s.bar.spend_allowed(amount) {
        PowerView { bar: s.bar.spec_spend(amount), regen: s.regen.spec_reset(), ..s }
    } else {
        s
    }
}

/// The state after a change command: a positive amount is added (clamped to
/// the maximum), a negative one is spent by magnitude; neither touches the
/// regeneration ramp.
pub open spec fn spec_handle_change(s: PowerView, amount: i64) -> PowerView {
    if amount > 0 {
        PowerView { bar: s.bar.spec_add(amount), ..s }
    } else {
        PowerView { bar: s.bar.spec_spend((-(amount as int)) as i64), ..s }
    }
}

/// The countdown a requested duration starts, if any.
pub open spec fn spec_timer_of(duration: Option<i64>) -> Option<CountdownTimer> {
    match duration {
        Option::Some(d) => Option::Some(CountdownTimer { elapsed: 0, duration: d }),
        Option::None => Option::None,
    }
}

/// The state after an apply-limit command, with whether knockout fired. The
/// limit's taken value is frozen against the base maximum of this moment;
/// the effective maximum is re-derived and the current power clamped into
/// it; knockout fires if either reaches zero; a cooldown-resetting limit
/// resets the ramp. A full stack refuses the command outright.
pub open spec fn spec_apply_limit(
    s: PowerView,
    id: u32,
    limit_type: LimitType,
    color: u32,
    duration: Option<i64>,
    resets_cooldown: bool,
    stops_regeneration: bool,
) -> (PowerView, bool) {
    if s.limits.len() < MAX_LIMITS {
        let fresh = PowerLimit {
            id,
            limit_type,
            color,
            duration: spec_timer_of(duration),
            resets_cooldown,
            stops_regeneration,
            power_value: limit_type.spec_value(s.bar.base_max),
        };
        let limits = s.limits.push(fresh);
        let max = spec_capacity(s.bar.base_max, sum_values(limits));
        let current = if s.bar.current > max {
            max
        } else {
            s.bar.current
        };
        let knocked = max <= 0 || current <= 0;
        let bar = PowerBar {
            current,
            max,
            is_knocked_out: s.bar.is_knocked_out || knocked,
            ..s.bar
        };
        let regen = if resets_cooldown {
            s.regen.spec_reset()
        } else {
            s.regen
        };
        (PowerView { bar, regen, limits, ..s }, knocked)
    } else {
        (s, false)
    }
}

/// The state after a lift-limit command: the first limit with the id leaves
/// the stack and the effective maximum is re-derived. If that frees a
/// knocked-out entity (new maximum above zero), the knockout clears and the
/// current power is clamped into the new maximum — the soft revival. An
/// absent id leaves the state unchanged.
pub open spec fn spec_lift_limit(s: PowerView, id: u32) -> PowerView {
    if has_id(s.limits, id) {
        let limits = remove_first(s.limits, id);
        let max = spec_capacity(s.bar.base_max, sum_values(limits));
        let bar = if s.bar.is_knocked_out && max > 0 {
            PowerBar {
                max,
                is_knocked_out: false,
                current: if s.bar.current > max {
                    max
                } else {
                    s.bar.current
                },
                ..s.bar
            }
        } else {
            PowerBar { max, ..s.bar }
        };
        PowerView { bar, limits, ..s }
    } else {
        s
    }
}

/// The state after a revive command: only the bar changes.
pub open spec fn spec_handle_revive(s: PowerView, power_amount: i64) -> PowerView {
    PowerView { bar: s.bar.spec_revive(power_amount), ..s }
}

/// The state after one queued command, with the notifications it emits.
pub open spec fn spec_apply_intent(s: PowerView, intent: PowerIntent) -> (
    PowerView,
    Seq<PowerNotice>,
) {
    match intent {
        PowerIntent::Spend { amount } => (spec_handle_spend(s, amount), Seq::empty()),
        PowerIntent::Change { amount } => (spec_handle_change(s, amount), Seq::empty()),
        PowerIntent::ApplyLimit {
            id,
            limit_type,
            color,
            duration,
            resets_cooldown,
            stops_regeneration,
        } => {
            let (s2, knocked) = spec_apply_limit(
                s,
                id,
                limit_type,
                color,
                duration,
                resets_cooldown,
                stops_regeneration,
            );
            (
                s2,
                if knocked {
                    seq![PowerNotice::KnockedOut]
                } else {
                    Seq::empty()
                },
            )
        },
        PowerIntent::LiftLimit { id } => (spec_lift_limit(s, id), Seq::empty()),
        PowerIntent::Revive { power_amount } => (spec_handle_revive(s, power_amount), Seq::empty()),
    }
}

/// The state after a queue of commands, applied in arrival order, with all
/// notifications in emission order.
pub open spec fn spec_apply_intents(s: PowerView, intents: Seq<PowerIntent>) -> (
    PowerView,
    Seq<PowerNotice>,
)
    decreases intents.len(),
{
    if intents.len() == 0 {
        (s, Seq::empty())
    } else {
        let (s1, n1) = spec_apply_intents(s, intents.drop_last());
        let (s2, n2) = spec_apply_intent(s1, intents.last());
        (s2, n1 + n2)
    }
}

/// The state after the regeneration phase: gated off entirely while knocked
/// out or while any limit suppresses regeneration; otherwise the ramp
/// advances and any power it yields is added to the bar.
pub open spec fn spec_regen_phase(s: PowerView, delta: i64) -> PowerView {
    if !s.bar.is_knocked_out && !any_stops(s.limits) {
        let regen = s.regen.spec_update(delta);
        let amount = regen.spec_regen_amount(delta);
        if amount > 0 {
            PowerView { bar: s.bar.spec_add(amount), regen, ..s }
        } else {
            PowerView { regen, ..s }
        }
    } else {
        s
    }
}

/// The state after the timer sweep: every countdown advances and the expired
/// limits leave the stack. If any left, the effective maximum is re-derived
/// and the soft-revival rule of lifting applies.
pub open spec fn spec_timer_phase(s: PowerView, delta: i64) -> PowerView {
    let limits = survivors(s.limits, delta);
    if expired_ids(s.limits, delta).len() > 0 {
        let max = spec_capacity(s.bar.base_max, sum_values(limits));
        let bar = if s.bar.is_knocked_out && max > 0 {
            PowerBar {
                max,
                is_knocked_out: false,
                current: if s.bar.current > max {
                    max
                } else {
                    s.bar.current
                },
                ..s.bar
            }
        } else {
            PowerBar { max, ..s.bar }
        };
        PowerView { bar, limits, ..s }
    } else {
        PowerView { limits, ..s }
    }
}

/// The state after knockout detection, with its notification: an entity not
/// yet flagged whose current power or effective maximum is at zero is
/// knocked out and its current power cleared. Either condition alone fires.
pub open spec fn spec_detect_phase(s: PowerView) -> (PowerView, Seq<PowerNotice>) {
    if !s.bar.is_knocked_out && (s.bar.current <= 0 || s.bar.max <= 0) {
        (
            PowerView { bar: PowerBar { is_knocked_out: true, current: 0, ..s.bar }, ..s },
            seq![PowerNotice::KnockedOut],
        )
    } else {
        (s, Seq::empty())
    }
}

/// The state after the leveling phase, with its notification: once the
/// experience requirement is met, the level rises and the capacity bonus of
/// the level it was earned at is added to both the base and the effective
/// maximum (saturating at the cap). Existing percentage limits are not
/// re-resolved against the new base maximum.
pub open spec fn spec_level_phase(s: PowerView) -> (PowerView, Seq<PowerNotice>) {
    if s.level.experience >= s.level.experience_to_next {
        let bonus = PowerLevel::spec_bonus(s.level.level as int);
        let level = s.level.spec_level_up();
        let bar = PowerBar {
            base_max: clamp_power(s.bar.base_max + bonus),
            max: clamp_power(s.bar.max + bonus),
            ..s.bar
        };
        (
            PowerView { bar, level, ..s },
            seq![PowerNotice::LevelUp { new_level: level.level, power_bonus: bonus as i64 }],
        )
    } else {
        (s, Seq::empty())
    }
}

/// One whole tick: queued commands in arrival order, then regeneration, then
/// the timer sweep, then knockout detection, then leveling; the
/// notifications come out in that order.
pub open spec fn spec_tick(s: PowerView, intents: Seq<PowerIntent>, delta: i64) -> (
    PowerView,
    Seq<PowerNotice>,
) {
    let (s1, n1) = spec_apply_intents(s, intents);
    let s2 = spec_regen_phase(s1, delta);
    let s3 = spec_timer_phase(s2, delta);
    let (s4, n4) = spec_detect_phase(s3);
    let (s5, n5) = spec_level_phase(s4);
    (s5, n1 + n4 + n5)
}

/// The full set of power components one entity carries.
#[derive(Debug, Clone, PartialEq)]
pub struct PowerBundle {
    /// The power bar.
    pub power_bar: PowerBar,
    /// The progression level.
    pub power_level: PowerLevel,
    /// The regeneration ramp.
    pub power_regeneration: PowerRegeneration,
    /// The active limits.
    pub power_limits: PowerLimits,
}

impl View for PowerBundle {
    type V = PowerView;

    open spec fn view(&self) -> PowerView {
        PowerView {
            bar: self.power_bar,
            regen: self.power_regeneration,
            level: self.power_level,
            limits: self.power_limits.limits@,
        }
    }
}

impl PowerBundle {
    /// Create a bundle with all default components.
    pub fn new() -> (bundle: PowerBundle)
        ensures
            bundle@ == (PowerView {
                bar: spec_default_bar(),
                regen: spec_default_regen(),
                level: spec_default_level(),
                limits: Seq::<PowerLimit>::empty(),
            }),
            bundle@.wf(),
            bundle@.at_rest(),
            bundle@.derived_max(),
    {
        PowerBundle {
            power_bar: PowerBar::default(),
            power_level: PowerLevel::default(),
            power_regeneration: PowerRegeneration::default(),
            power_limits: PowerLimits::default(),
        }
    }

    /// Create a bundle with a custom maximum power and default progression
    /// and regeneration.
    pub fn with_max_power(max_power: i64) -> (bundle: PowerBundle)
        requires
            0 <= max_power <= POWER_CAP,
        ensures
            bundle@ == (PowerView {
                bar: PowerBar {
                    current: max_power,
                    max: max_power,
                    base_max: max_power,
                    is_knocked_out: false,
                },
                regen: spec_default_regen(),
                level: spec_default_level(),
                limits: Seq::<PowerLimit>::empty(),
            }),
            bundle@.wf(),
            bundle@.at_rest(),
            bundle@.derived_max(),
    {
        PowerBundle {
            power_bar: PowerBar::new(max_power),
            power_level: PowerLevel::default(),
            power_regeneration: PowerRegeneration::default(),
            power_limits: PowerLimits::default(),
        }
    }

    /// Create a bundle with custom power and regeneration settings; the
    /// ramp-up speed keeps its default.
    pub fn custom(
        max_power: i64,
        regen_delay: i64,
        base_regen_rate: i64,
        max_regen_rate: i64,
    ) -> (bundle: PowerBundle)
        requires
            0 <= max_power <= POWER_CAP,
            0 <= regen_delay <= TIME_CAP,
            0 <= base_regen_rate <= RATE_CAP,
            0 <= max_regen_rate <= RATE_CAP,
        ensures
            bundle@ == (PowerView {
                bar: PowerBar {
                    current: max_power,
                    max: max_power,
                    base_max: max_power,
                    is_knocked_out: false,
                },
                regen: PowerRegeneration {
                    time_since_spend: 0,
                    regen_delay,
                    current_rate: 0,
                    base_rate: base_regen_rate,
                    max_rate: max_regen_rate,
                    ramp_speed: 2_000,
                    is_active: false,
                },
                level: spec_default_level(),
                limits: Seq::<PowerLimit>::empty(),
            }),
            bundle@.wf(),
            bundle@.at_rest(),
            bundle@.derived_max(),
    {
        PowerBundle {
            power_bar: PowerBar::new(max_power),
            power_level: PowerLevel::default(),
            power_regeneration: PowerRegeneration {
                time_since_spend: 0,
                regen_delay,
                current_rate: 0,
                base_rate: base_regen_rate,
                max_rate: max_regen_rate,
                ramp_speed: 2_000,
                is_active: false,
            },
            power_limits: PowerLimits::default(),
        }
    }

    /// Re-derive the effective maximum from the base maximum and the current
    /// total reduction.
    fn refresh_capacity(&mut self)
        requires
            old(self)@.wf(),
        ensures
            final(self)@ == (PowerView {
                bar: PowerBar {
                    max: spec_capacity(
                        old(self)@.bar.base_max,
                        sum_values(old(self)@.limits),
                    ),
                    ..old(self)@.bar
                },
                ..old(self)@
            }),
            final(self)@.wf(),
    {
        let total = self.power_limits.total_reduction();
        let room = self.power_bar.base_max - total;
        self.power_bar.max = if room < 0 {
            0
        } else {
            room
        };
    }

    /// Handle one spend command; a taken spend resets the regeneration ramp.
    pub fn handle_spend_power(&mut self, amount: i64) -> (success: bool)
        requires
            old(self)@.wf(),
            -POWER_CAP <= amount <= POWER_CAP,
        ensures
            final(self)@ == spec_handle_spend(old(self)@, amount),
            success == old(self)@.bar.spend_allowed(amount),
            final(self)@.wf(),
    {
        if self.power_bar.spend(amount) {
            self.power_regeneration.reset();
            true
        } else {
            false
        }
    }

    /// Handle one change command: add if positive, spend the magnitude if
    /// negative.
    pub fn handle_power_change(&mut self, amount: i64)
        requires
            old(self)@.wf(),
            -POWER_CAP <= amount <= POWER_CAP,
        ensures
            final(self)@ == spec_handle_change(old(self)@, amount),
            final(self)@.wf(),
    {
        if amount > 0 {
            self.power_bar.add(amount);
        } else {
            self.power_bar.spend(-amount);
        }
    }

    /// Handle one apply-limit command; returns whether knockout fired.
    pub fn handle_apply_limit(
        &mut self,
        id: u32,
        limit_type: LimitType,
        color: u32,
        duration: Option<i64>,
        resets_cooldown: bool,
        stops_regeneration: bool,
        notices: &mut Vec<PowerNotice>,
    ) -> (applied: bool)
        requires
            old(self)@.wf(),
            limit_type.wf(),
            match duration {
                Option::Some(d) => 0 <= d <= TIME_CAP,
                Option::None => true,
            },
        ensures
            ({
                let (s2, knocked) = spec_apply_limit(
                    old(self)@,
                    id,
                    limit_type,
                    color,
                    duration,
                    resets_cooldown,
                    stops_regeneration,
                );
                final(self)@ == s2 && final(notices)@ == if knocked {
                    old(notices)@.push(PowerNotice::KnockedOut)
                } else {
                    old(notices)@
                }
            }),
            applied == (old(self)@.limits.len() < MAX_LIMITS),
            final(self)@.wf(),
    {
        if self.power_limits.limits.len() >= MAX_LIMITS {
            return false;
        }
        let fresh = PowerLimit::new(
            id,
            limit_type,
            color,
            duration,
            resets_cooldown,
            stops_regeneration,
        );
        self.power_limits.add_limit(fresh, self.power_bar.base_max);
        proof {
            lemma_sum_push(old(self)@.limits, self.power_limits.limits@.last());
            lemma_sum_bounds(old(self)@.limits);
        }
        self.refresh_capacity();
        if self.power_bar.current > self.power_bar.max {
            self.power_bar.current = self.power_bar.max;
        }
        let knocked = self.power_bar.max <= 0 || self.power_bar.current <= 0;
        if knocked {
            self.power_bar.is_knocked_out = true;
            notices.push(PowerNotice::KnockedOut);
        }
        if resets_cooldown {
            self.power_regeneration.reset();
        }
        true
    }

    /// Handle one lift-limit command; returns whether a limit was removed.
    pub fn handle_lift_limit(&mut self, id: u32) -> (removed: bool)
        requires
            old(self)@.wf(),
        ensures
            final(self)@ == spec_lift_limit(old(self)@, id),
            removed == has_id(old(self)@.limits, id),
            final(self)@.wf(),
    {
        if self.power_limits.remove_limit(id) {
            proof {
                lemma_remove_first_wf(old(self)@.limits, id);
            }
            self.refresh_capacity();
            if self.power_bar.is_knocked_out && self.power_bar.max > 0 {
                self.power_bar.is_knocked_out = false;
                if self.power_bar.current > self.power_bar.max {
                    self.power_bar.current = self.power_bar.max;
                }
            }
            true
        } else {
            false
        }
    }

    /// Handle one revive command.
    pub fn handle_revive(&mut self, power_amount: i64)
        requires
            old(self)@.wf(),
            0 <= power_amount <= POWER_CAP,
        ensures
            final(self)@ == spec_handle_revive(old(self)@, power_amount),
            final(self)@.wf(),
    {
        self.power_bar.revive(power_amount);
    }

    /// Run the regeneration phase over `delta` milliseconds.
    pub fn regenerate_power(&mut self, delta: i64)
        requires
            old(self)@.wf(),
            0 <= delta <= DELTA_CAP,
        ensures
            final(self)@ == spec_regen_phase(old(self)@, delta),
            final(self)@.wf(),
    {
        if !self.power_bar.is_knocked_out {
            let blocked = self.power_limits.any_stops_regeneration();
            if !blocked {
                self.power_regeneration.update(delta);
                let amount = self.power_regeneration.get_regen_amount(delta);
                if amount > 0 {
                    self.power_bar.add(amount);
                }
            }
        }
    }

    /// Run the timer sweep over `delta` milliseconds; returns the ids of the
    /// expired limits.
    pub fn update_limit_timers(&mut self, delta: i64) -> (removed: Vec<u32>)
        requires
            old(self)@.wf(),
            0 <= delta <= DELTA_CAP,
        ensures
            final(self)@ == spec_timer_phase(old(self)@, delta),
            removed@ == expired_ids(old(self)@.limits, delta),
            final(self)@.wf(),
    {
        let removed = self.power_limits.update_timers(delta);
        proof {
            lemma_survivors_bounds(old(self)@.limits, delta);
        }
        if removed.len() > 0 {
            self.refresh_capacity();
            if self.power_bar.is_knocked_out && self.power_bar.max > 0 {
                self.power_bar.is_knocked_out = false;
                if self.power_bar.current > self.power_bar.max {
                    self.power_bar.current = self.power_bar.max;
                }
            }
        }
        removed
    }

    /// Run knockout detection: an entity not yet flagged whose current power
    /// or effective maximum is at zero is knocked out. Either condition
    /// alone fires; the current power is cleared with the flag.
    pub fn detect_knockout(&mut self, notices: &mut Vec<PowerNotice>)
        requires
            old(self)@.wf(),
        ensures
            ({
                let (s2, ns) = spec_detect_phase(old(self)@);
                final(self)@ == s2 && final(notices)@ == old(notices)@ + ns
            }),
            final(self)@.wf(),
    {
        if !self.power_bar.is_knocked_out && (self.power_bar.current <= 0 || self.power_bar.max
            <= 0) {
            self.power_bar.is_knocked_out = true;
            self.power_bar.current = 0;
            notices.push(PowerNotice::KnockedOut);
            proof {
                let (_, ns) = spec_detect_phase(old(self)@);
                assert(notices@ =~= old(notices)@ + ns);
            }
        } else {
            proof {
                assert(notices@ =~= old(notices)@ + Seq::<PowerNotice>::empty());
            }
        }
    }

    /// Run the leveling phase: once the experience requirement is met, level
    /// up and add the capacity bonus to both maxima.
    pub fn handle_level_up(&mut self, notices: &mut Vec<PowerNotice>)
        requires
            old(self)@.wf(),
        ensures
            ({
                let (s2, ns) = spec_level_phase(old(self)@);
                final(self)@ == s2 && final(notices)@ == old(notices)@ + ns
            }),
            final(self)@.wf(),
    {
        if self.power_level.experience >= self.power_level.experience_to_next {
            let bonus = self.power_level.level_up();
            let grown_base = self.power_bar.base_max + bonus;
            self.power_bar.base_max = if grown_base > POWER_CAP {
                POWER_CAP
            } else {
                grown_base
            };
            let grown_max = self.power_bar.max + bonus;
            self.power_bar.max = if grown_max > POWER_CAP {
                POWER_CAP
            } else {
                grown_max
            };
            notices.push(
                PowerNotice::LevelUp { new_level: self.power_level.level, power_bonus: bonus },
            );
            proof {
                let (_, ns) = spec_level_phase(old(self)@);
                assert(notices@ =~= old(notices)@ + ns);
            }
        } else {
            proof {
                assert(notices@ =~= old(notices)@ + Seq::<PowerNotice>::empty());
            }
        }
    }
}

impl PowerBundle {
    /// Apply one queued command, appending whatever it emits.
    fn apply_intent(&mut self, intent: PowerIntent, notices: &mut Vec<PowerNotice>)
        requires
            old(self)@.wf(),
            intent.wf(),
        ensures
            ({
                let (s2, ns) = spec_apply_intent(old(self)@, intent);
                final(self)@ == s2 && final(notices)@ == old(notices)@ + ns
            }),
            final(self)@.wf(),
    {
        match intent {
            PowerIntent::Spend { amount } => {
                let _ = self.handle_spend_power(amount);
                proof {
                    assert(notices@ =~= old(notices)@ + Seq::<PowerNotice>::empty());
                }
            },
            PowerIntent::Change { amount } => {
                self.handle_power_change(amount);
                proof {
                    assert(notices@ =~= old(notices)@ + Seq::<PowerNotice>::empty());
                }
            },
            PowerIntent::ApplyLimit {
                id,
                limit_type,
                color,
                duration,
                resets_cooldown,
                stops_regeneration,
            } => {
                let _ = self.handle_apply_limit(
                    id,
                    limit_type,
                    color,
                    duration,
                    resets_cooldown,
                    stops_regeneration,
                    notices,
                );
                proof {
                    let (_, ns) = spec_apply_intent(old(self)@, intent);
                    assert(notices@ =~= old(notices)@ + ns);
                }
            },
            PowerIntent::LiftLimit { id } => {
                let _ = self.handle_lift_limit(id);
                proof {
                    assert(notices@ =~= old(notices)@ + Seq::<PowerNotice>::empty());
                }
            },
            PowerIntent::Revive { power_amount } => {
                self.handle_revive(power_amount);
                proof {
                    assert(notices@ =~= old(notices)@ + Seq::<PowerNotice>::empty());
                }
            },
        }
    }
}

/// The abstract value of a controller: the entity's state and the commands
/// queued against it.
pub ghost struct SystemView {
    /// The entity's power state.
    pub state: PowerView,
    /// The queued commands, in arrival order.
    pub pending: Seq<PowerIntent>,
}

impl SystemView {
    /// A well-formed state with well-formed queued commands.
    pub open spec fn wf(self) -> bool {
        self.state.wf() && all_intents_wf(self.pending)
    }
}

/// Appending a well-formed intent keeps a queue well-formed.
proof fn lemma_intents_push(s: Seq<PowerIntent>, intent: PowerIntent)
    requires
        all_intents_wf(s),
        intent.wf(),
    ensures
        all_intents_wf(s.push(intent)),
{
    let grown = s.push(intent);
    assert forall|i: int| 0 <= i < grown.len() implies #[trigger] grown[i].wf() by {
        if i < s.len() {
            assert(s[i].wf());
        }
    }
}

/// The controller for one entity: it owns the entity's components, collects
/// commands as intents, and drains them in arrival order when the tick runs
/// its phases.
#[derive(Debug, Clone, PartialEq)]
pub struct PowerSystem {
    /// The entity's power components.
    pub bundle: PowerBundle,
    /// Commands collected since the last tick, in arrival order.
    pub pending: Vec<PowerIntent>,
}

impl View for PowerSystem {
    type V = SystemView;

    open spec fn view(&self) -> SystemView {
        SystemView { state: self.bundle@, pending: self.pending@ }
    }
}

impl PowerSystem {
    /// Create a controller over the given components, with nothing queued.
    pub fn new(bundle: PowerBundle) -> (system: PowerSystem)
        ensures
            system@.state == bundle@,
            system@.pending == Seq::<PowerIntent>::empty(),
    {
        PowerSystem { bundle, pending: Vec::new() }
    }

    /// Whether the entity could pay the amount right now: awake and holding
    /// strictly more than the amount.
    pub fn can_afford(&self, amount: i64) -> (r: bool)
        ensures
            r == (!self@.state.bar.is_knocked_out && self@.state.bar.current > amount),
    {
        !self.bundle.power_bar.is_knocked_out && self.bundle.power_bar.current > amount
    }

    /// Queue a spend only if the entity can afford it right now; returns
    /// whether it was queued.
    pub fn try_spend(&mut self, amount: i64) -> (queued: bool)
        requires
            old(self)@.wf(),
            -POWER_CAP <= amount <= POWER_CAP,
        ensures
            queued == (!old(self)@.state.bar.is_knocked_out && old(self)@.state.bar.current
                > amount),
            final(self)@.state == old(self)@.state,
            final(self)@.pending == if queued {
                old(self)@.pending.push(PowerIntent::Spend { amount })
            } else {
                old(self)@.pending
            },
            final(self)@.wf(),
    {
        if self.can_afford(amount) {
            proof {
                lemma_intents_push(self.pending@, PowerIntent::Spend { amount });
            }
            self.pending.push(PowerIntent::Spend { amount });
            true
        } else {
            false
        }
    }

    /// Queue a spend unconditionally; it may still be refused when applied.
    pub fn spend(&mut self, amount: i64)
        requires
            old(self)@.wf(),
            -POWER_CAP <= amount <= POWER_CAP,
        ensures
            final(self)@.state == old(self)@.state,
            final(self)@.pending == old(self)@.pending.push(PowerIntent::Spend { amount }),
            final(self)@.wf(),
    {
        proof {
            lemma_intents_push(self.pending@, PowerIntent::Spend { amount });
        }
        self.pending.push(PowerIntent::Spend { amount });
    }

    /// Queue a change: add if positive, spend the magnitude if negative.
    pub fn change(&mut self, amount: i64)
        requires
            old(self)@.wf(),
            -POWER_CAP <= amount <= POWER_CAP,
        ensures
            final(self)@.state == old(self)@.state,
            final(self)@.pending == old(self)@.pending.push(PowerIntent::Change { amount }),
            final(self)@.wf(),
    {
        proof {
            lemma_intents_push(self.pending@, PowerIntent::Change { amount });
        }
        self.pending.push(PowerIntent::Change { amount });
    }

    /// Queue a points-based limit.
    pub fn limit_points(
        &mut self,
        id: u32,
        points: i64,
        color: u32,
        duration: Option<i64>,
        resets_cooldown: bool,
        stops_regeneration: bool,
    )
        requires
            old(self)@.wf(),
            0 <= points <= POWER_CAP,
            match duration {
                Option::Some(d) => 0 <= d <= TIME_CAP,
                Option::None => true,
            },
        ensures
            final(self)@.state == old(self)@.state,
            final(self)@.pending == old(self)@.pending.push(
                PowerIntent::ApplyLimit {
                    id,
                    limit_type: LimitType::Points(points),
                    color,
                    duration,
                    resets_cooldown,
                    stops_regeneration,
                },
            ),
            final(self)@.wf(),
    {
        let intent = PowerIntent::points(
            id,
            points,
            color,
            duration,
            resets_cooldown,
            stops_regeneration,
        );
        proof {
            lemma_intents_push(self.pending@, intent);
        }
        self.pending.push(intent);
    }

    /// Queue a percentage-based limit.
    pub fn limit_percentage(
        &mut self,
        id: u32,
        percentage: i64,
        color: u32,
        duration: Option<i64>,
        resets_cooldown: bool,
        stops_regeneration: bool,
    )
        requires
            old(self)@.wf(),
            0 <= percentage <= PERCENT_CAP,
            match duration {
                Option::Some(d) => 0 <= d <= TIME_CAP,
                Option::None => true,
            },
        ensures
            final(self)@.state == old(self)@.state,
            final(self)@.pending == old(self)@.pending.push(
                PowerIntent::ApplyLimit {
                    id,
                    limit_type: LimitType::Percentage(percentage),
                    color,
                    duration,
                    resets_cooldown,
                    stops_regeneration,
                },
            ),
            final(self)@.wf(),
    {
        let intent = PowerIntent::percentage(
            id,
            percentage,
            color,
            duration,
            resets_cooldown,
            stops_regeneration,
        );
        proof {
            lemma_intents_push(self.pending@, intent);
        }
        self.pending.push(intent);
    }

    /// Queue a points-based limit only if applying it right now would leave
    /// the entity awake; a speculative pre-check before committing.
    pub fn try_limit_points(
        &mut self,
        id: u32,
        points: i64,
        color: u32,
        duration: Option<i64>,
        resets_cooldown: bool,
        stops_regeneration: bool,
    ) -> (queued: bool)
        requires
            old(self)@.wf(),
            0 <= points <= POWER_CAP,
            match duration {
                Option::Some(d) => 0 <= d <= TIME_CAP,
                Option::None => true,
            },
        ensures
            queued == spec_limit_keeps_awake(old(self)@.state, points),
            final(self)@.state == old(self)@.state,
            final(self)@.pending == if queued {
                old(self)@.pending.push(
                    PowerIntent::ApplyLimit {
                        id,
                        limit_type: LimitType::Points(points),
                        color,
                        duration,
                        resets_cooldown,
                        stops_regeneration,
                    },
                )
            } else {
                old(self)@.pending
            },
            final(self)@.wf(),
    {
        if self.limit_keeps_awake(points) {
            self.limit_points(id, points, color, duration, resets_cooldown, stops_regeneration);
            true
        } else {
            false
        }
    }

    /// Queue a percentage-based limit only if applying it right now would
    /// leave the entity awake; a speculative pre-check before committing.
    pub fn try_limit_percentage(
        &mut self,
        id: u32,
        percentage: i64,
        color: u32,
        duration: Option<i64>,
        resets_cooldown: bool,
        stops_regeneration: bool,
    ) -> (queued: bool)
        requires
            old(self)@.wf(),
            0 <= percentage <= PERCENT_CAP,
            match duration {
                Option::Some(d) => 0 <= d <= TIME_CAP,
                Option::None => true,
            },
        ensures
            queued == spec_limit_keeps_awake(
                old(self)@.state,
                LimitType::Percentage(percentage).spec_value(old(self)@.state.bar.base_max),
            ),
            final(self)@.state == old(self)@.state,
            final(self)@.pending == if queued {
                old(self)@.pending.push(
                    PowerIntent::ApplyLimit {
                        id,
                        limit_type: LimitType::Percentage(percentage),
                        color,
                        duration,
                        resets_cooldown,
                        stops_regeneration,
                    },
                )
            } else {
                old(self)@.pending
            },
            final(self)@.wf(),
    {
        proof {
            assert(0 <= (self.bundle.power_bar.base_max as int) * (percentage as int) <= (
            POWER_CAP as int) * (PERCENT_CAP as int)) by (nonlinear_arith)
                requires
                    0 <= self.bundle.power_bar.base_max <= POWER_CAP,
                    0 <= percentage <= PERCENT_CAP,
            ;
        }
        let resolved = self.bundle.power_bar.base_max * percentage / FULL_PERCENT;
        let value = if resolved > POWER_CAP {
            POWER_CAP
        } else {
            resolved
        };
        if self.limit_keeps_awake(value) {
            self.limit_percentage(
                id,
                percentage,
                color,
                duration,
                resets_cooldown,
                stops_regeneration,
            );
            true
        } else {
            false
        }
    }

    /// Whether a further reduction of the given value would leave the entity
    /// with capacity and power above zero.
    fn limit_keeps_awake(&self, value: i64) -> (r: bool)
        requires
            self@.wf(),
            0 <= value <= POWER_CAP,
        ensures
            r == spec_limit_keeps_awake(self@.state, value),
    {
        let total = self.bundle.power_limits.total_reduction();
        let room = self.bundle.power_bar.base_max - (total + value);
        let new_max = if room < 0 {
            0
        } else {
            room
        };
        let new_current = if self.bundle.power_bar.current > new_max {
            new_max
        } else {
            self.bundle.power_bar.current
        };
        new_max > 0 && new_current > 0
    }

    /// Queue a lift of the first limit with the given id.
    pub fn lift(&mut self, limit_id: u32)
        requires
            old(self)@.wf(),
        ensures
            final(self)@.state == old(self)@.state,
            final(self)@.pending == old(self)@.pending.push(
                PowerIntent::LiftLimit { id: limit_id },
            ),
            final(self)@.wf(),
    {
        proof {
            lemma_intents_push(self.pending@, PowerIntent::LiftLimit { id: limit_id });
        }
        self.pending.push(PowerIntent::LiftLimit { id: limit_id });
    }

    /// Queue a revival with the given amount of restored power.
    pub fn revive(&mut self, power_amount: i64)
        requires
            old(self)@.wf(),
            0 <= power_amount <= POWER_CAP,
        ensures
            final(self)@.state == old(self)@.state,
            final(self)@.pending == old(self)@.pending.push(
                PowerIntent::Revive { power_amount },
            ),
            final(self)@.wf(),
    {
        proof {
            lemma_intents_push(self.pending@, PowerIntent::Revive { power_amount });
        }
        self.pending.push(PowerIntent::Revive { power_amount });
    }

    /// Run one tick: drain the queued commands in arrival order, then
    /// regenerate, sweep the limit timers, detect knockout and level up.
    /// Returns the notifications of this tick, in emission order.
    pub fn tick(&mut self, delta: i64) -> (notices: Vec<PowerNotice>)
        requires
            old(self)@.wf(),
            0 <= delta <= DELTA_CAP,
        ensures
            ({
                let (s2, ns) = spec_tick(old(self)@.state, old(self)@.pending, delta);
                final(self)@.state == s2 && notices@ == ns
            }),
            final(self)@.pending == Seq::<PowerIntent>::empty(),
            final(self)@.wf(),
    {
        let mut notices: Vec<PowerNotice> = Vec::new();
        let n = self.pending.len();
        let mut i: usize = 0;
        while i < n
            invariant
                n == self.pending@.len(),
                0 <= i <= n,
                self.pending@ == old(self)@.pending,
                all_intents_wf(self.pending@),
                self.bundle@.wf(),
                ({
                    let (s1, n1) = spec_apply_intents(
                        old(self)@.state,
                        self.pending@.take(i as int),
                    );
                    self.bundle@ == s1 && notices@ == n1
                }),
            decreases n - i,
        {
            proof {
                assert(self.pending@.take(i + 1).drop_last() =~= self.pending@.take(i as int));
                assert(self.pending@.take(i + 1).last() == self.pending@[i as int]);
                assert(self.pending@[i as int].wf());
            }
            let intent = self.pending[i];
            self.bundle.apply_intent(intent, &mut notices);
            i += 1;
        }
        proof {
            assert(self.pending@.take(n as int) =~= self.pending@);
        }
        self.pending.clear();
        self.bundle.regenerate_power(delta);
        let _ = self.bundle.update_limit_timers(delta);
        self.bundle.detect_knockout(&mut notices);
        self.bundle.handle_level_up(&mut notices);
        notices
    }
}

/// Whether a further reduction of the given value would leave the state with
/// capacity and power above zero: the speculative query behind the limit
/// pre-checks.
pub open spec fn spec_limit_keeps_awake(s: PowerView, value: i64) -> bool {
    let max = spec_capacity(s.bar.base_max, sum_values(s.limits) + value);
    let current = if s.bar.current > max {
        max
    } else {
        s.bar.current
    };
    max > 0 && current > 0
}

/// Whether a spend command carries a non-negative amount; every other
/// command qualifies. A negative spend amount is the documented pass-through
/// gain, the one command that can push the current power past the maximum.
pub open spec fn intent_spend_nonneg(intent: PowerIntent) -> bool {
    match intent {
        PowerIntent::Spend { amount } => amount >= 0,
        _ => true,
    }
}

/// Every spend command of the queue carries a non-negative amount.
pub open spec fn spend_intents_nonneg(intents: Seq<PowerIntent>) -> bool {
    forall|i: int| 0 <= i < intents.len() ==> #[trigger] intent_spend_nonneg(intents[i])
}

/// One command keeps the state at rest and its maximum derived.
proof fn lemma_apply_intent_keeps_rest(s: PowerView, intent: PowerIntent)
    requires
        s.at_rest(),
        s.derived_max(),
        intent.wf(),
        intent_spend_nonneg(intent),
    ensures
        spec_apply_intent(s, intent).0.at_rest(),
        spec_apply_intent(s, intent).0.derived_max(),
{
    match intent {
        PowerIntent::Spend { amount } => {},
        PowerIntent::Change { amount } => {},
        PowerIntent::ApplyLimit {
            id,
            limit_type,
            color,
            duration,
            resets_cooldown,
            stops_regeneration,
        } => {
            if s.limits.len() < MAX_LIMITS {
                let fresh = PowerLimit {
                    id,
                    limit_type,
                    color,
                    duration: spec_timer_of(duration),
                    resets_cooldown,
                    stops_regeneration,
                    power_value: limit_type.spec_value(s.bar.base_max),
                };
                let grown = s.limits.push(fresh);
                assert(fresh.wf());
                assert(all_wf(grown)) by {
                    assert forall|i: int| 0 <= i < grown.len() implies #[trigger] grown[i].wf() by {
                        if i < s.limits.len() {
                            assert(s.limits[i].wf());
                        }
                    }
                }
                lemma_sum_bounds(grown);
            }
        },
        PowerIntent::LiftLimit { id } => {
            if has_id(s.limits, id) {
                lemma_remove_first_wf(s.limits, id);
                lemma_sum_bounds(s.limits);
            }
        },
        PowerIntent::Revive { power_amount } => {},
    }
}

/// A whole queue of commands keeps the state at rest and its maximum
/// derived.
proof fn lemma_apply_intents_keep_rest(s: PowerView, intents: Seq<PowerIntent>)
    requires
        s.at_rest(),
        s.derived_max(),
        all_intents_wf(intents),
        spend_intents_nonneg(intents),
    ensures
        spec_apply_intents(s, intents).0.at_rest(),
        spec_apply_intents(s, intents).0.derived_max(),
    decreases intents.len(),
{
    if intents.len() > 0 {
        let butlast = intents.drop_last();
        assert(all_intents_wf(butlast) && spend_intents_nonneg(butlast)) by {
            assert(forall|i: int| 0 <= i < butlast.len() ==> butlast[i] == #[trigger] intents[i]);
        }
        lemma_apply_intents_keep_rest(s, butlast);
        assert(intents.last().wf() && intent_spend_nonneg(intents.last()));
        lemma_apply_intent_keeps_rest(spec_apply_intents(s, butlast).0, intents.last());
    }
}

/// The regeneration phase keeps the state at rest and its maximum derived.
proof fn lemma_regen_phase_keeps_rest(s: PowerView, delta: i64)
    requires
        s.at_rest(),
        s.derived_max(),
        0 <= delta <= DELTA_CAP,
    ensures
        spec_regen_phase(s, delta).at_rest(),
        spec_regen_phase(s, delta).derived_max(),
{
    if !s.bar.is_knocked_out && !any_stops(s.limits) {
        assert(0 <= s.regen.ramp_speed * delta <= RATE_CAP * DELTA_CAP) by (nonlinear_arith)
            requires
                0 <= s.regen.ramp_speed <= RATE_CAP,
                0 <= delta <= DELTA_CAP,
        ;
        let regen = s.regen.spec_update(delta);
        assert(regen.wf());
        assert(0 <= regen.current_rate * delta <= RATE_CAP * DELTA_CAP) by (nonlinear_arith)
            requires
                0 <= regen.current_rate <= RATE_CAP,
                0 <= delta <= DELTA_CAP,
        ;
    }
}

/// The timer sweep keeps the state at rest and its maximum derived.
proof fn lemma_timer_phase_keeps_rest(s: PowerView, delta: i64)
    requires
        s.at_rest(),
        s.derived_max(),
        0 <= delta <= DELTA_CAP,
    ensures
        spec_timer_phase(s, delta).at_rest(),
        spec_timer_phase(s, delta).derived_max(),
{
    lemma_survivors_bounds(s.limits, delta);
    lemma_sum_bounds(s.limits);
}

/// Knockout detection keeps the state at rest and its maximum derived.
proof fn lemma_detect_phase_keeps_rest(s: PowerView)
    requires
        s.at_rest(),
        s.derived_max(),
    ensures
        spec_detect_phase(s).0.at_rest(),
        spec_detect_phase(s).0.derived_max(),
{
}

/// The leveling phase keeps the state at rest. It can leave the maximum
/// underived: a level-up taken while the maximum is pinned at zero raises
/// the maximum by the bonus although the limits still outweigh the base.
proof fn lemma_level_phase_keeps_rest(s: PowerView)
    requires
        s.at_rest(),
    ensures
        spec_level_phase(s).0.at_rest(),
{
}

/// After every tick the resource invariant stands:
/// `0 <= current <= max <= base_max`, with everything inside the
/// representable range. This holds from any at-rest state whose maximum
/// agrees with its limits, for any well-formed queue whose spend commands
/// carry non-negative amounts (a negative spend is the documented
/// pass-through gain, which may leave `current` above `max`). The base
/// maximum never falls, and on a tick without a level-up — only the
/// leveling phase reads the experience — the maximum still agrees with its
/// limits afterward, so the invariant carries from tick to tick.
pub proof fn lemma_tick_preserves_invariant(s: PowerView, intents: Seq<PowerIntent>, delta: i64)
    requires
        s.at_rest(),
        s.derived_max(),
        all_intents_wf(intents),
        spend_intents_nonneg(intents),
        0 <= delta <= DELTA_CAP,
    ensures
        ({
            let (s2, _) = spec_tick(s, intents, delta);
            &&& s2.wf()
            &&& 0 <= s2.bar.current <= s2.bar.max <= s2.bar.base_max <= POWER_CAP
            &&& s2.bar.base_max >= s.bar.base_max
            &&& s.level.experience < s.level.experience_to_next ==> s2.derived_max()
        }),
{
    lemma_apply_intents_keep_rest(s, intents);
    let s1 = spec_apply_intents(s, intents).0;
    lemma_regen_phase_keeps_rest(s1, delta);
    let s2 = spec_regen_phase(s1, delta);
    lemma_timer_phase_keeps_rest(s2, delta);
    let s3 = spec_timer_phase(s2, delta);
    lemma_detect_phase_keeps_rest(s3);
    let s4 = spec_detect_phase(s3).0;
    lemma_level_phase_keeps_rest(s4);
    lemma_intents_keep_progression_and_base(s, intents);
    assert(s2.level == s1.level && s2.bar.base_max == s1.bar.base_max);
    assert(s3.level == s2.level && s3.bar.base_max == s2.bar.base_max);
    assert(s4.level == s3.level && s4.bar.base_max == s3.bar.base_max);
}

/// No queued command touches the progression or the base maximum.
proof fn lemma_intents_keep_progression_and_base(s: PowerView, intents: Seq<PowerIntent>)
    ensures
        spec_apply_intents(s, intents).0.level == s.level,
        spec_apply_intents(s, intents).0.bar.base_max == s.bar.base_max,
    decreases intents.len(),
{
    if intents.len() > 0 {
        lemma_intents_keep_progression_and_base(s, intents.drop_last());
    }
}

/// Applying a limit and then lifting the same id restores the effective
/// maximum exactly, and restores the knockout-free state whenever the
/// restored maximum is above zero — lifting the only blocking limit wakes
/// the entity again. This holds whenever the id is not already carried by
/// some other limit and the maximum agrees with its limits.
pub proof fn lemma_apply_then_lift_restores_max(
    s: PowerView,
    id: u32,
    limit_type: LimitType,
    color: u32,
    duration: Option<i64>,
    resets_cooldown: bool,
    stops_regeneration: bool,
)
    requires
        s.wf(),
        s.derived_max(),
        !has_id(s.limits, id),
        s.limits.len() < MAX_LIMITS,
        limit_type.wf(),
        match duration {
            Option::Some(d) => 0 <= d <= TIME_CAP,
            Option::None => true,
        },
    ensures
        ({
            let (s1, _) = spec_apply_limit(
                s,
                id,
                limit_type,
                color,
                duration,
                resets_cooldown,
                stops_regeneration,
            );
            let s2 = spec_lift_limit(s1, id);
            &&& s2.bar.max == s.bar.max
            &&& s2.bar.base_max == s.bar.base_max
            &&& s2.limits == s.limits
            &&& (s.bar.max > 0 ==> !s2.bar.is_knocked_out)
        }),
{
    let fresh = PowerLimit {
        id,
        limit_type,
        color,
        duration: spec_timer_of(duration),
        resets_cooldown,
        stops_regeneration,
        power_value: limit_type.spec_value(s.bar.base_max),
    };
    let grown = s.limits.push(fresh);
    let n = s.limits.len() as int;
    assert(grown[n] == fresh);
    assert(has_id(grown, id));
    assert forall|j: int| 0 <= j < n implies grown[j].id != id by {
        assert(grown[j] == s.limits[j]);
        if s.limits[j].id == id {
            assert(has_id(s.limits, id));
        }
    }
    lemma_first_match_at(grown, id, n);
    assert(grown.remove(n) =~= s.limits);
}

/// The default power bar: 100 points, full and awake.
pub open spec fn spec_default_bar() -> PowerBar {
    PowerBar { current: 100_000, max: 100_000, base_max: 100_000, is_knocked_out: false }
}

/// The default progression: level 1, no experience, 100 points to the next.
pub open spec fn spec_default_level() -> PowerLevel {
    PowerLevel { level: 1, experience: 0, experience_to_next: 100_000 }
}

/// The default ramp: 2.5 s delay, 5 points/s base, 20 points/s maximum,
/// climbing 2 points/s each second.
pub open spec fn spec_default_regen() -> PowerRegeneration {
    PowerRegeneration {
        time_since_spend: 0,
        regen_delay: 2_500,
        current_rate: 0,
        base_rate: 5_000,
        max_rate: 20_000,
        ramp_speed: 2_000,
        is_active: false,
    }
}

} // verus!
