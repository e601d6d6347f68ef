//! Presentation queries: the pure computations a rendering layer needs to
//! draw a power bar — fill fraction, color state, and the layout of the
//! limit segments. Drawing itself stays outside the library.

use vstd::prelude::*;

use crate::components::PowerBar;
use crate::components::PowerRegeneration;
use crate::limits::all_wf;
use crate::limits::PowerLimit;
use crate::limits::PowerLimits;
use crate::limits::MAX_LIMITS;
use crate::POWER_CAP;

verus! {

/// Upper bound on a rendered bar width, in pixels.
pub const BAR_WIDTH_CAP: i64 = 1_000_000;

/// Threshold below which the bar counts as low, in thousandths of the
/// effective maximum.
pub const LOW_POWER_PERMILLE: i64 = 300;

/// The color state a power bar is rendered in.
#[derive(Debug, Clone, Copy, PartialEq, Eq)]
pub enum BarColorState {
    /// The entity is knocked out.
    KnockedOut,
    /// Regeneration is actively refilling the bar.
    Regenerating,
    /// Power is low: under 30% of the effective maximum.
    Low,
    /// Nothing special.
    Normal,
}

/// The bar's fill against its base maximum, in thousandths, clamped to
/// [0, 1000]; zero on an empty base.
pub open spec fn spec_fill_permille(bar: PowerBar) -> i64 {
    if bar.base_max > 0 {
        let raw = (bar.current as int) * 1000 / (bar.base_max as int);
        if raw > 1000 {
            1000
        } else {
            raw as i64
        }
    } else {
        0
    }
}

/// How full the bar is drawn: current power against the base maximum, in
/// thousandths, clamped to [0, 1000].
pub fn fill_permille(bar: &PowerBar) -> (r: i64)
    requires
        bar.wf(),
    ensures
        r == spec_fill_permille(*bar),
        0 <= r <= 1000,
{
    if bar.base_max > 0 {
        let raw = bar.current * 1000 / bar.base_max;
        if raw > 1000 {
            1000
        } else {
            raw
        }
    } else {
        0
    }
}

/// The color state of a bar: knocked out before regenerating, regenerating
/// before low, low under 30% of the effective maximum.
pub open spec fn spec_color_state(bar: PowerBar, regen: PowerRegeneration) -> BarColorState {
    if bar.is_knocked_out {
        BarColorState::KnockedOut
    } else if regen.is_active {
        BarColorState::Regenerating
    } else if bar.spec_percentage() < LOW_POWER_PERMILLE {
        BarColorState::Low
    } else {
        BarColorState::Normal
    }
}

/// Pick the color state a bar is rendered in.
pub fn color_state(bar: &PowerBar, regen: &PowerRegeneration) -> (state: BarColorState)
    requires
        bar.wf(),
    ensures
        state == spec_color_state(*bar, *regen),
{
    if bar.is_knocked_out {
        BarColorState::KnockedOut
    } else if regen.is_active {
        BarColorState::Regenerating
    } else if bar.percentage() < LOW_POWER_PERMILLE {
        BarColorState::Low
    } else {
        BarColorState::Normal
    }
}

/// The width one limit is drawn with: its share of `total_max` scaled to
/// the bar width, but never more than the width still free.
pub open spec fn spec_segment_width(l: PowerLimit, total_max: i64, bar_width: i64, used: i64) -> i64 {
    let share = if total_max > 0 {
        (l.power_value as int) * (bar_width as int) / (total_max as int)
    } else {
        0
    };
    if share > bar_width - used {
        (bar_width - used) as i64
    } else {
        share as i64
    }
}

/// The rendered limit segments: each limit, in order, becomes its display
/// tag with a width; zero-width segments are left out, and the layout stops
/// once the bar is full. `used` is the width already taken from the right.
pub open spec fn spec_segment_layout(
    segs: Seq<PowerLimit>,
    total_max: i64,
    bar_width: i64,
    used: i64,
) -> Seq<(u32, i64)>
    decreases segs.len(),
{
    if segs.len() == 0 || used >= bar_width {
        Seq::empty()
    } else {
        let w = spec_segment_width(segs[0], total_max, bar_width, used);
        if w > 0 {
            seq![(segs[0].color, w)] + spec_segment_layout(
                segs.drop_first(),
                total_max,
                bar_width,
                (used + w) as i64,
            )
        } else {
            spec_segment_layout(segs.drop_first(), total_max, bar_width, used)
        }
    }
}

/// Sum of the widths of a layout.
pub open spec fn spec_widths_sum(r: Seq<(u32, i64)>) -> int
    decreases r.len(),
{
    if r.len() == 0 {
        0
    } else {
        spec_widths_sum(r.drop_first()) + r[0].1
    }
}

/// Every segment of a layout is strictly positive and together they never
/// pass the width still free: segments are independently sized and never
/// exceed the remaining bar width.
pub proof fn lemma_segment_layout_fits(
    segs: Seq<PowerLimit>,
    total_max: i64,
    bar_width: i64,
    used: i64,
)
    requires
        all_wf(segs),
        0 <= total_max <= POWER_CAP,
        0 <= bar_width <= BAR_WIDTH_CAP,
        0 <= used <= bar_width,
    ensures
        ({
            let r = spec_segment_layout(segs, total_max, bar_width, used);
            spec_widths_sum(r) <= bar_width - used && (forall|i: int|
                0 <= i < r.len() ==> 0 < #[trigger] r[i].1 <= bar_width)
        }),
    decreases segs.len(),
{
    if segs.len() > 0 && used < bar_width {
        assert(segs[0].wf());
        let tail = segs.drop_first();
        assert(all_wf(tail)) by {
            assert(forall|i: int| 0 <= i < tail.len() ==> tail[i] == #[trigger] segs[i + 1]);
        }
        let w = spec_segment_width(segs[0], total_max, bar_width, used);
        if total_max > 0 {
            assert(0 <= (segs[0].power_value as int) * (bar_width as int)) by (nonlinear_arith)
                requires
                    0 <= segs[0].power_value,
                    0 <= bar_width,
            ;
        }
        assert(w <= bar_width - used);
        if w > 0 {
            lemma_segment_layout_fits(tail, total_max, bar_width, (used + w) as i64);
            let rest = spec_segment_layout(tail, total_max, bar_width, (used + w) as i64);
            let whole = seq![(segs[0].color, w)] + rest;
            assert(whole.drop_first() =~= rest);
            assert forall|i: int| 0 <= i < whole.len() implies 0 < #[trigger] whole[i].1
                <= bar_width by {
                if i > 0 {
                    assert(whole[i] == rest[i - 1]);
                }
            }
        } else {
            lemma_segment_layout_fits(tail, total_max, bar_width, used);
        }
    }
}

impl PowerLimits {
    /// Lay out the limit segments for rendering: each active limit, in
    /// order, paired with the width it takes from the right edge of a bar
    /// `bar_width` wide whose full width stands for `total_max`. Zero-width
    /// segments are left out and the layout stops once the bar is full.
    pub fn segment_layout(&self, total_max: i64, bar_width: i64) -> (r: Vec<(u32, i64)>)
        requires
            self.wf(),
            0 <= total_max <= POWER_CAP,
            0 <= bar_width <= BAR_WIDTH_CAP,
        ensures
            r@ == spec_segment_layout(self.limits@, total_max, bar_width, 0),
    {
        let n = self.limits.len();
        let mut r: Vec<(u32, i64)> = Vec::new();
        let mut used: i64 = 0;
        let mut i: usize = 0;
        proof {
            assert(self.limits@.skip(0) =~= self.limits@);
            assert(Seq::<(u32, i64)>::empty() + spec_segment_layout(
                self.limits@,
                total_max,
                bar_width,
                0,
            ) =~= spec_segment_layout(self.limits@, total_max, bar_width, 0));
        }
        while i < n && used < bar_width
            invariant
                n == self.limits@.len() <= MAX_LIMITS,
                0 <= i <= n,
                all_wf(self.limits@),
                0 <= total_max <= POWER_CAP,
                0 <= bar_width <= BAR_WIDTH_CAP,
                0 <= used <= bar_width,
                spec_segment_layout(self.limits@, total_max, bar_width, 0) == r@
                    + spec_segment_layout(self.limits@.skip(i as int), total_max, bar_width, used),
            decreases n - i,
        {
            proof {
                assert(self.limits@[i as int].wf());
                assert(self.limits@.skip(i as int).drop_first() =~= self.limits@.skip(i + 1));
                assert(self.limits@.skip(i as int)[0] == self.limits@[i as int]);
            }
            let l = &self.limits[i];
            let share = if total_max > 0 {
                proof {
                    assert(0 <= (l.power_value as int) * (bar_width as int) <= (POWER_CAP as int)
                        * (BAR_WIDTH_CAP as int)) by (nonlinear_arith)
                        requires
                            0 <= l.power_value <= POWER_CAP,
                            0 <= bar_width <= BAR_WIDTH_CAP,
                    ;
                }
                l.power_value * bar_width / total_max
            } else {
                0
            };
            let width = if share > bar_width - used {
                bar_width - used
            } else {
                share
            };
            proof {
                assert(width == spec_segment_width(
                    self.limits@[i as int],
                    total_max,
                    bar_width,
                    used,
                ));
            }
            if width > 0 {
                let ghost r_pre = r@;
                let ghost used_pre = used;
                r.push((l.color, width));
                used = used + width;
                proof {
                    let pre = spec_segment_layout(
                        self.limits@.skip(i as int),
                        total_max,
                        bar_width,
                        used_pre,
                    );
                    let post = spec_segment_layout(
                        self.limits@.skip(i + 1),
                        total_max,
                        bar_width,
                        used,
                    );
                    assert(pre =~= seq![(l.color, width)] + post);
                    assert(r@ =~= r_pre.push((l.color, width)));
                    assert(r_pre + pre =~= r@ + post);
                }
            }
            i += 1;
        }
        proof {
            if i == n {
                assert(self.limits@.skip(n as int) =~= Seq::<PowerLimit>::empty());
            }
            assert(spec_segment_layout(self.limits@.skip(i as int), total_max, bar_width, used)
                =~= Seq::<(u32, i64)>::empty());
            assert(r@ + Seq::<(u32, i64)>::empty() =~= r@);
        }
        r
    }
}

} // verus!
