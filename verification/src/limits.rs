//! Power limits: stacking reductions of an entity's maximum power, each with
//! an optional countdown, and the ordered collection that aggregates them.

use vstd::prelude::*;

use crate::clamp_power;
use crate::clamp_time;
use crate::DELTA_CAP;
use crate::FULL_PERCENT;
use crate::PERCENT_CAP;
use crate::POWER_CAP;
use crate::TIME_CAP;

verus! {

/// Most limits one stack will hold; applying beyond this bound is refused.
pub const MAX_LIMITS: usize = 4096;

/// Type of power limit: either fixed milli-points or milli-percent of the
/// base maximum.
#[derive(Debug, Clone, Copy, PartialEq, Eq)]
pub enum LimitType {
    /// Fixed amount of power, in milli-points.
    Points(i64),
    /// Percentage of the base maximum power, in milli-percent.
    Percentage(i64),
}

impl LimitType {
    /// The carried quantity is in range for its kind.
    pub open spec fn wf(self) -> bool {
        match self {
            LimitType::Points(points) => 0 <= points <= POWER_CAP,
            LimitType::Percentage(percent) => 0 <= percent <= PERCENT_CAP,
        }
    }

    /// The milli-points a limit of this type takes from the given base
    /// maximum: fixed points stand as they are; a percentage resolves
    /// against `base_max` and saturates at the cap.
    pub open spec fn spec_value(self, base_max: i64) -> i64 {
        match self {
            LimitType::Points(points) => points,
            LimitType::Percentage(percent) => clamp_power(
                (base_max as int) * (percent as int) / (FULL_PERCENT as int),
            ),
        }
    }
}

/// A one-shot countdown, in milliseconds.
#[derive(Debug, Clone, Copy, PartialEq, Eq)]
pub struct CountdownTimer {
    /// Time passed since the countdown started.
    pub elapsed: i64,
    /// Time at which the countdown finishes.
    pub duration: i64,
}

impl CountdownTimer {
    /// Times in range.
    pub open spec fn wf(self) -> bool {
        0 <= self.elapsed <= TIME_CAP && 0 <= self.duration <= TIME_CAP
    }

    /// The timer after `delta` milliseconds: elapsed time accumulates,
    /// saturating at the representable bound.
    pub open spec fn spec_tick(self, delta: i64) -> CountdownTimer {
        CountdownTimer { elapsed: clamp_time(self.elapsed + delta), ..self }
    }

    /// A finished countdown has run for at least its duration.
    pub open spec fn spec_finished(self) -> bool {
        self.elapsed >= self.duration
    }

    /// Start a countdown of the given duration.
    pub fn from_millis(duration: i64) -> (timer: CountdownTimer)
        requires
            0 <= duration <= TIME_CAP,
        ensures
            timer == (CountdownTimer { elapsed: 0int as i64, duration }),
    {
        CountdownTimer { elapsed: 0, duration }
    }

    /// Advance the countdown by `delta` milliseconds.
    pub fn tick(&mut self, delta: i64)
        requires
            old(self).wf(),
            0 <= delta <= DELTA_CAP,
        ensures
            *final(self) == old(self).spec_tick(delta),
            final(self).wf(),
    {
        let accumulated = self.elapsed + delta;
        self.elapsed = if accumulated > TIME_CAP {
            TIME_CAP
        } else {
            accumulated
        };
    }

    /// Whether the countdown has finished.
    pub fn finished(&self) -> (r: bool)
        ensures
            r == self.spec_finished(),
    {
        self.elapsed >= self.duration
    }
}

/// One power limit: a reduction of the effective maximum, with an optional
/// countdown for auto-removal and flags read by the controller.
#[derive(Debug, Clone, Copy, PartialEq, Eq)]
pub struct PowerLimit {
    /// Caller-assigned identifier, used for later removal. Duplicates are
    /// allowed; removal takes the first match, so callers who want
    /// independent removal must keep ids unique themselves.
    pub id: u32,
    /// Type and amount of the limit.
    pub limit_type: LimitType,
    /// Opaque display tag, passed through to the presentation layer.
    pub color: u32,
    /// Optional countdown for auto-removal (`None` = permanent).
    pub duration: Option<CountdownTimer>,
    /// Whether applying this limit resets the regeneration cooldown.
    pub resets_cooldown: bool,
    /// Whether this limit suppresses regeneration while it is active.
    pub stops_regeneration: bool,
    /// Milli-points this limit takes, frozen when it enters a stack.
    pub power_value: i64,
}

impl PowerLimit {
    /// Quantities in range.
    pub open spec fn wf(self) -> bool {
        &&& self.limit_type.wf()
        &&& 0 <= self.power_value <= POWER_CAP
        &&& match self.duration {
            Option::Some(timer) => timer.wf(),
            Option::None => true,
        }
    }

    /// Create a new power limit; its taken value stays zero until it is
    /// resolved against a base maximum.
    pub fn new(
        id: u32,
        limit_type: LimitType,
        color: u32,
        duration: Option<i64>,
        resets_cooldown: bool,
        stops_regeneration: bool,
    ) -> (limit: PowerLimit)
        requires
            limit_type.wf(),
            match duration {
                Option::Some(d) => 0 <= d <= TIME_CAP,
                Option::None => true,
            },
        ensures
            limit == (PowerLimit {
                id,
                limit_type,
                color,
                duration: match duration {
                    Option::Some(d) => Option::Some(CountdownTimer { elapsed: 0int as i64, duration: d }),
                    Option::None => Option::None,
                },
                resets_cooldown,
                stops_regeneration,
                power_value: 0int as i64,
            }),
            limit.wf(),
    {
        PowerLimit {
            id,
            limit_type,
            color,
            duration: match duration {
                Option::Some(d) => Option::Some(CountdownTimer::from_millis(d)),
                Option::None => Option::None,
            },
            resets_cooldown,
            stops_regeneration,
            power_value: 0,
        }
    }

    /// The limit with its taken value resolved against `base_max`.
    pub open spec fn spec_resolved(self, base_max: i64) -> PowerLimit {
        PowerLimit { power_value: self.limit_type.spec_value(base_max), ..self }
    }

    /// Resolve the taken value from the limit type and the given base
    /// maximum. The result is a frozen snapshot: it is not recomputed when
    /// the base maximum changes later.
    pub fn calculate_value(&mut self, base_max: i64)
        requires
            old(self).wf(),
            0 <= base_max <= POWER_CAP,
        ensures
            *final(self) == old(self).spec_resolved(base_max),
            final(self).wf(),
    {
        self.power_value = match self.limit_type {
            LimitType::Points(points) => points,
            LimitType::Percentage(percent) => {
                proof {
                    assert(0 <= (base_max as int) * (percent as int) <= (POWER_CAP as int) * (
                    PERCENT_CAP as int)) by (nonlinear_arith)
                        requires
                            0 <= base_max <= POWER_CAP,
                            0 <= percent <= PERCENT_CAP,
                    ;
                }
                let resolved = base_max * percent / FULL_PERCENT;
                if resolved > POWER_CAP {
                    POWER_CAP
                } else {
                    resolved
                }
            },
        };
    }

    /// The limit after `delta` milliseconds: a running countdown advances,
    /// a permanent limit is untouched.
    pub open spec fn spec_ticked(self, delta: i64) -> PowerLimit {
        match self.duration {
            Option::Some(timer) => PowerLimit { duration: Option::Some(timer.spec_tick(delta)), ..self },
            Option::None => self,
        }
    }

    /// Whether `delta` more milliseconds finish this limit's countdown.
    /// A permanent limit never expires.
    pub open spec fn spec_expires(self, delta: i64) -> bool {
        match self.duration {
            Option::Some(timer) => timer.spec_tick(delta).spec_finished(),
            Option::None => false,
        }
    }

    /// Advance the countdown, if any; returns whether the limit should now
    /// be removed.
    pub fn update(&mut self, delta: i64) -> (expired: bool)
        requires
            old(self).wf(),
            0 <= delta <= DELTA_CAP,
        ensures
            *final(self) == old(self).spec_ticked(delta),
            expired == old(self).spec_expires(delta),
            final(self).wf(),
    {
        match &mut self.duration {
            Option::Some(timer) => {
                timer.tick(delta);
                timer.finished()
            },
            Option::None => false,
        }
    }

    /// Whether this limit is permanent (has no countdown).
    pub fn is_permanent(&self) -> (r: bool)
        ensures
            r == self.duration is None,
    {
        self.duration.is_none()
    }
}

/// Total milli-points taken by a sequence of limits.
pub open spec fn sum_values(s: Seq<PowerLimit>) -> int
    decreases s.len(),
{
    if s.len() == 0 {
        0
    } else {
        sum_values(s.drop_last()) + s.last().power_value
    }
}

/// Whether some limit in the sequence carries the given id.
pub open spec fn has_id(s: Seq<PowerLimit>, id: u32) -> bool {
    exists|i: int| 0 <= i < s.len() && s[i].id == id
}

/// Index of the first limit carrying the given id (meaningful only when
/// `has_id` holds).
pub open spec fn first_match(s: Seq<PowerLimit>, id: u32) -> int
    decreases s.len(),
{
    if s.len() == 0 {
        0
    } else if s[0].id == id {
        0
    } else {
        1 + first_match(s.drop_first(), id)
    }
}

/// The sequence with the first limit of the given id taken out, unchanged
/// when no limit carries it.
pub open spec fn remove_first(s: Seq<PowerLimit>, id: u32) -> Seq<PowerLimit> {
    if has_id(s, id) {
        s.remove(first_match(s, id))
    } else {
        s
    }
}

/// The limits that survive `delta` more milliseconds, each with its
/// countdown advanced, in their original order.
pub open spec fn survivors(s: Seq<PowerLimit>, delta: i64) -> Seq<PowerLimit>
    decreases s.len(),
{
    if s.len() == 0 {
        Seq::empty()
    } else {
        let rest = survivors(s.drop_last(), delta);
        if s.last().spec_expires(delta) {
            rest
        } else {
            rest.push(s.last().spec_ticked(delta))
        }
    }
}

/// The ids of the limits that `delta` more milliseconds expire, in their
/// original order.
pub open spec fn expired_ids(s: Seq<PowerLimit>, delta: i64) -> Seq<u32>
    decreases s.len(),
{
    if s.len() == 0 {
        Seq::empty()
    } else {
        let rest = expired_ids(s.drop_last(), delta);
        if s.last().spec_expires(delta) {
            rest.push(s.last().id)
        } else {
            rest
        }
    }
}

/// Every limit of the sequence is well-formed.
pub open spec fn all_wf(s: Seq<PowerLimit>) -> bool {
    forall|i: int| 0 <= i < s.len() ==> #[trigger] s[i].wf()
}

/// The taken values of well-formed limits sum to something between zero and
/// one cap per limit.
pub proof fn lemma_sum_bounds(s: Seq<PowerLimit>)
    requires
        all_wf(s),
    ensures
        0 <= sum_values(s) <= s.len() * POWER_CAP,
    decreases s.len(),
{
    if s.len() > 0 {
        assert(all_wf(s.drop_last())) by {
            assert(forall|i: int|
                0 <= i < s.drop_last().len() ==> s.drop_last()[i] == #[trigger] s[i]);
        }
        lemma_sum_bounds(s.drop_last());
        assert(s.last().wf());
    }
}

/// Appending a limit adds exactly its taken value to the sum.
pub proof fn lemma_sum_push(s: Seq<PowerLimit>, l: PowerLimit)
    ensures
        sum_values(s.push(l)) == sum_values(s) + l.power_value,
{
    assert(s.push(l).drop_last() =~= s);
    assert(s.push(l).last() == l);
}

/// Whether some limit of the sequence resets the regeneration cooldown.
pub open spec fn any_resets(s: Seq<PowerLimit>) -> bool {
    exists|i: int| 0 <= i < s.len() && (#[trigger] s[i]).resets_cooldown
}

/// Whether some limit of the sequence suppresses regeneration.
pub open spec fn any_stops(s: Seq<PowerLimit>) -> bool {
    exists|i: int| 0 <= i < s.len() && (#[trigger] s[i]).stops_regeneration
}

/// Taking out one limit takes exactly its value from the sum.
pub proof fn lemma_sum_remove(s: Seq<PowerLimit>, i: int)
    requires
        0 <= i < s.len(),
    ensures
        sum_values(s.remove(i)) == sum_values(s) - s[i].power_value,
    decreases s.len(),
{
    if i == s.len() - 1 {
        assert(s.remove(i) =~= s.drop_last());
    } else {
        assert(s.remove(i).drop_last() =~= s.drop_last().remove(i));
        assert(s.remove(i).last() == s.last());
        assert(s.remove(i).len() > 0);
        lemma_sum_remove(s.drop_last(), i);
    }
}

/// Removing a limit keeps every remaining limit well-formed and never grows
/// the sum of taken values.
pub proof fn lemma_remove_first_wf(s: Seq<PowerLimit>, id: u32)
    requires
        all_wf(s),
    ensures
        all_wf(remove_first(s, id)),
        remove_first(s, id).len() <= s.len(),
        0 <= sum_values(remove_first(s, id)) <= sum_values(s),
    decreases s.len(),
{
    lemma_sum_bounds(s);
    if has_id(s, id) {
        let i = first_match(s, id);
        lemma_first_match_in_range(s, id);
        let t = s.remove(i);
        s.remove_ensures(i);
        assert forall|k: int| 0 <= k < t.len() implies #[trigger] t[k].wf() by {
            if k < i {
                assert(s[k].wf());
                assert(t[k] == s[k]);
            } else {
                assert(s[k + 1].wf());
                assert(t[k] == s[k + 1]);
            }
        }
        lemma_sum_remove(s, i);
        assert(s[i].wf());
        lemma_sum_bounds(t);
    }
}

/// The first match of a carried id is a position carrying it.
pub proof fn lemma_first_match_in_range(s: Seq<PowerLimit>, id: u32)
    requires
        has_id(s, id),
    ensures
        0 <= first_match(s, id) < s.len(),
        s[first_match(s, id)].id == id,
    decreases s.len(),
{
    if s.len() > 0 && s[0].id != id {
        assert(has_id(s.drop_first(), id)) by {
            let w = choose|i: int| 0 <= i < s.len() && s[i].id == id;
            assert(s.drop_first()[w - 1] == s[w]);
        }
        lemma_first_match_in_range(s.drop_first(), id);
        assert(s[1 + first_match(s.drop_first(), id)] == s.drop_first()[first_match(
            s.drop_first(),
            id,
        )]);
    }
}

/// The timer sweep keeps every survivor well-formed, never grows the stack
/// or its sum of taken values, and leaves the sum untouched when nothing
/// expired.
pub proof fn lemma_survivors_bounds(s: Seq<PowerLimit>, delta: i64)
    requires
        all_wf(s),
    ensures
        all_wf(survivors(s, delta)),
        survivors(s, delta).len() <= s.len(),
        0 <= sum_values(survivors(s, delta)) <= sum_values(s),
        expired_ids(s, delta).len() == 0 ==> sum_values(survivors(s, delta)) == sum_values(s),
    decreases s.len(),
{
    lemma_sum_bounds(s);
    if s.len() > 0 {
        let butlast = s.drop_last();
        assert(all_wf(butlast)) by {
            assert(forall|i: int| 0 <= i < butlast.len() ==> butlast[i] == #[trigger] s[i]);
        }
        lemma_survivors_bounds(butlast, delta);
        assert(s.last().wf());
        let rest = survivors(butlast, delta);
        if !s.last().spec_expires(delta) {
            lemma_sum_push(rest, s.last().spec_ticked(delta));
            assert(s.last().spec_ticked(delta).power_value == s.last().power_value);
            assert(s.last().spec_ticked(delta).wf());
            assert(all_wf(rest.push(s.last().spec_ticked(delta)))) by {
                let grown = rest.push(s.last().spec_ticked(delta));
                assert forall|i: int| 0 <= i < grown.len() implies #[trigger] grown[i].wf() by {
                    if i < rest.len() {
                        assert(rest[i].wf());
                    }
                }
            }
        }
    }
}

/// A position carrying the id, with no earlier carrier, is the first match.
pub proof fn lemma_first_match_at(s: Seq<PowerLimit>, id: u32, i: int)
    requires
        0 <= i < s.len(),
        s[i].id == id,
        forall|j: int| 0 <= j < i ==> s[j].id != id,
    ensures
        has_id(s, id),
        first_match(s, id) == i,
    decreases i,
{
    if i == 0 {
    } else {
        assert(s[0].id != id);
        assert(s.drop_first()[i - 1] == s[i]);
        assert(forall|j: int| 0 <= j < i - 1 ==> #[trigger] s.drop_first()[j] == s[j + 1]);
        lemma_first_match_at(s.drop_first(), id, i - 1);
    }
}

/// Bundle of active power limits, in insertion order.
#[derive(Debug, Clone, PartialEq, Eq)]
pub struct PowerLimits {
    /// The active limits.
    pub limits: Vec<PowerLimit>,
}

impl PowerLimits {
    /// Bounded stack of well-formed limits.
    pub open spec fn wf(self) -> bool {
        self.limits@.len() <= MAX_LIMITS && all_wf(self.limits@)
    }

    /// Add a new limit, resolving its taken value against `base_max` at this
    /// moment (a frozen snapshot) and appending it to the stack.
    pub fn add_limit(&mut self, limit: PowerLimit, base_max: i64)
        requires
            old(self).wf(),
            limit.wf(),
            old(self).limits@.len() < MAX_LIMITS,
            0 <= base_max <= POWER_CAP,
        ensures
            final(self).limits@ == old(self).limits@.push(limit.spec_resolved(base_max)),
            final(self).wf(),
    {
        let mut limit = limit;
        limit.calculate_value(base_max);
        self.limits.push(limit);
    }

    /// Remove the first limit carrying the given id; returns whether one was
    /// removed.
    pub fn remove_limit(&mut self, id: u32) -> (removed: bool)
        requires
            old(self).wf(),
        ensures
            removed == has_id(old(self).limits@, id),
            final(self).limits@ == remove_first(old(self).limits@, id),
            final(self).wf(),
    {
        let n = self.limits.len();
        let mut i: usize = 0;
        while i < n
            invariant
                n == self.limits@.len(),
                0 <= i <= n,
                self.limits@ == old(self).limits@,
                all_wf(self.limits@),
                self.limits@.len() <= MAX_LIMITS,
                forall|j: int| 0 <= j < i ==> self.limits@[j].id != id,
            decreases n - i,
        {
            if self.limits[i].id == id {
                proof {
                    lemma_first_match_at(self.limits@, id, i as int);
                }
                self.limits.remove(i);
                proof {
                    let s = old(self).limits@;
                    let t = self.limits@;
                    s.remove_ensures(i as int);
                    assert forall|k: int| 0 <= k < t.len() implies #[trigger] t[k].wf() by {
                        if k < i as int {
                            assert(s[k].wf());
                            assert(t[k] == s[k]);
                        } else {
                            assert(s[k + 1].wf());
                            assert(t[k] == s[k + 1]);
                        }
                    }
                }
                return true;
            }
            i += 1;
        }
        false
    }

    /// Get the total power reduction from all limits, in milli-points.
    pub fn total_reduction(&self) -> (total: i64)
        requires
            self.wf(),
        ensures
            total == sum_values(self.limits@),
            0 <= total <= self.limits@.len() * POWER_CAP,
    {
        let n = self.limits.len();
        let mut total: i64 = 0;
        let mut i: usize = 0;
        while i < n
            invariant
                n == self.limits@.len() <= MAX_LIMITS,
                0 <= i <= n,
                all_wf(self.limits@),
                total == sum_values(self.limits@.take(i as int)),
                0 <= total <= i * POWER_CAP,
            decreases n - i,
        {
            proof {
                assert(self.limits@.take(i + 1).drop_last() =~= self.limits@.take(i as int));
                assert(self.limits@.take(i + 1).last() == self.limits@[i as int]);
                assert(self.limits@[i as int].wf());
            }
            total = total + self.limits[i].power_value;
            i += 1;
        }
        proof {
            assert(self.limits@.take(n as int) =~= self.limits@);
        }
        total
    }

    /// Advance every countdown by `delta` milliseconds, remove the limits
    /// whose countdown has finished, and report their ids in order.
    /// Permanent limits are untouched.
    pub fn update_timers(&mut self, delta: i64) -> (removed: Vec<u32>)
        requires
            old(self).wf(),
            0 <= delta <= DELTA_CAP,
        ensures
            final(self).limits@ == survivors(old(self).limits@, delta),
            removed@ == expired_ids(old(self).limits@, delta),
            final(self).wf(),
    {
        let n = self.limits.len();
        let mut kept: Vec<PowerLimit> = Vec::new();
        let mut removed: Vec<u32> = Vec::new();
        let mut i: usize = 0;
        while i < n
            invariant
                n == self.limits@.len() <= MAX_LIMITS,
                0 <= i <= n,
                all_wf(self.limits@),
                self.limits@ == old(self).limits@,
                kept@ == survivors(self.limits@.take(i as int), delta),
                removed@ == expired_ids(self.limits@.take(i as int), delta),
                kept@.len() <= i,
                all_wf(kept@),
                0 <= delta <= DELTA_CAP,
            decreases n - i,
        {
            proof {
                assert(self.limits@.take(i + 1).drop_last() =~= self.limits@.take(i as int));
                assert(self.limits@.take(i + 1).last() == self.limits@[i as int]);
            }
            let mut limit = self.limits[i];
            let expired = limit.update(delta);
            if expired {
                removed.push(limit.id);
                proof {
                    assert(old(self).limits@[i as int].spec_ticked(delta).id == old(
                        self,
                    ).limits@[i as int].id);
                }
            } else {
                kept.push(limit);
            }
            i += 1;
        }
        proof {
            assert(self.limits@.take(n as int) =~= self.limits@);
        }
        self.limits = kept;
        removed
    }

    /// Whether any active limit resets the regeneration cooldown.
    pub fn any_resets_cooldown(&self) -> (r: bool)
        ensures
            r == any_resets(self.limits@),
    {
        let n = self.limits.len();
        let mut i: usize = 0;
        while i < n
            invariant
                n == self.limits@.len(),
                0 <= i <= n,
                forall|j: int| 0 <= j < i ==> !(#[trigger] self.limits@[j].resets_cooldown),
            decreases n - i,
        {
            if self.limits[i].resets_cooldown {
                return true;
            }
            i += 1;
        }
        false
    }

    /// Whether any active limit suppresses regeneration.
    pub fn any_stops_regeneration(&self) -> (r: bool)
        ensures
            r == any_stops(self.limits@),
    {
        let n = self.limits.len();
        let mut i: usize = 0;
        while i < n
            invariant
                n == self.limits@.len(),
                0 <= i <= n,
                forall|j: int| 0 <= j < i ==> !(#[trigger] self.limits@[j].stops_regeneration),
            decreases n - i,
        {
            if self.limits[i].stops_regeneration {
                return true;
            }
            i += 1;
        }
        false
    }

    /// The display tag of one limit, with the fraction of `total_max` its
    /// taken value covers, in thousandths.
    pub open spec fn spec_segment(l: PowerLimit, total_max: i64) -> (u32, i64) {
        (
            l.color,
            if total_max > 0 {
                ((l.power_value as int) * 1000 / (total_max as int)) as i64
            } else {
                0
            },
        )
    }

    /// Get every limit's display tag and its share of `total_max` in
    /// thousandths, for rendering.
    pub fn get_limit_segments(&self, total_max: i64) -> (segments: Vec<(u32, i64)>)
        requires
            self.wf(),
            0 <= total_max <= POWER_CAP,
        ensures
            segments@.len() == self.limits@.len(),
            forall|i: int|
                0 <= i < self.limits@.len() ==> segments@[i] == #[trigger] PowerLimits::spec_segment(
                    self.limits@[i],
                    total_max,
                ),
    {
        let n = self.limits.len();
        let mut segments: Vec<(u32, i64)> = Vec::new();
        let mut i: usize = 0;
        while i < n
            invariant
                n == self.limits@.len() <= MAX_LIMITS,
                0 <= i <= n,
                all_wf(self.limits@),
                0 <= total_max <= POWER_CAP,
                segments@.len() == i,
                forall|j: int|
                    0 <= j < i ==> segments@[j] == #[trigger] PowerLimits::spec_segment(
                        self.limits@[j],
                        total_max,
                    ),
            decreases n - i,
        {
            proof {
                assert(self.limits@[i as int].wf());
            }
            let l = &self.limits[i];
            let share = if total_max > 0 {
                l.power_value * 1000 / total_max
            } else {
                0
            };
            segments.push((l.color, share));
            i += 1;
        }
        segments
    }
}

impl Default for PowerLimits {
    /// An empty stack.
    fn default() -> (limits: PowerLimits)
        ensures
            limits.limits@ == Seq::<PowerLimit>::empty(),
            limits.wf(),
    {
        PowerLimits { limits: Vec::new() }
    }
}

} // verus!
