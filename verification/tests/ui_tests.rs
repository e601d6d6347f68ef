use power_system::components::PowerBar;
use power_system::components::PowerRegeneration;
use power_system::ui::color_state;
use power_system::ui::fill_permille;
use power_system::ui::BarColorState;
use power_system::LimitType;
use power_system::PowerLimit;
use power_system::PowerLimits;

fn points_limit(id: u32, points: i64, color: u32) -> PowerLimit {
    PowerLimit::new(id, LimitType::Points(points), color, None, false, false)
}

#[test]
fn fill_reports_current_against_base_max() {
    let mut bar = PowerBar::new(100_000);
    assert_eq!(fill_permille(&bar), 1000);
    bar.current = 40_000;
    assert_eq!(fill_permille(&bar), 400);
    bar.base_max = 0;
    bar.max = 0;
    bar.current = 0;
    assert_eq!(fill_permille(&bar), 0);
}

#[test]
fn fill_clamps_a_pass_through_gain_at_full() {
    let mut bar = PowerBar::new(100_000);
    bar.spend(-50_000);
    assert_eq!(bar.current, 150_000);
    assert_eq!(fill_permille(&bar), 1000);
}

#[test]
fn color_state_prefers_knockout_then_regen_then_low() {
    let mut bar = PowerBar::new(100_000);
    let mut regen = PowerRegeneration::default();

    assert_eq!(color_state(&bar, &regen), BarColorState::Normal);

    bar.current = 29_999;
    assert_eq!(color_state(&bar, &regen), BarColorState::Low);

    regen.is_active = true;
    assert_eq!(color_state(&bar, &regen), BarColorState::Regenerating);

    bar.is_knocked_out = true;
    assert_eq!(color_state(&bar, &regen), BarColorState::KnockedOut);
}

#[test]
fn low_threshold_is_thirty_percent_of_the_effective_maximum() {
    let mut bar = PowerBar::new(100_000);
    let regen = PowerRegeneration::default();
    bar.current = 30_000;
    assert_eq!(color_state(&bar, &regen), BarColorState::Normal);
    bar.current = 29_999;
    assert_eq!(color_state(&bar, &regen), BarColorState::Low);
}

#[test]
fn segment_layout_sizes_each_limit_by_its_share() {
    let mut limits = PowerLimits::default();
    limits.add_limit(points_limit(1, 25_000, 10), 100_000);
    limits.add_limit(points_limit(2, 10_000, 11), 100_000);
    let layout = limits.segment_layout(100_000, 300);
    assert_eq!(layout, vec![(10, 75), (11, 30)]);
}

#[test]
fn segment_layout_never_exceeds_the_remaining_width() {
    let mut limits = PowerLimits::default();
    limits.add_limit(points_limit(1, 80_000, 10), 100_000);
    limits.add_limit(points_limit(2, 80_000, 11), 100_000);
    limits.add_limit(points_limit(3, 80_000, 12), 100_000);
    let layout = limits.segment_layout(100_000, 300);
    // The first takes 240 of 300 px, the second only the 60 px left; the
    // third gets nothing because the bar is full.
    assert_eq!(layout, vec![(10, 240), (11, 60)]);
    let total: i64 = layout.iter().map(|s| s.1).sum();
    assert!(total <= 300);
}

#[test]
fn segment_layout_skips_zero_width_segments() {
    let mut limits = PowerLimits::default();
    limits.add_limit(points_limit(1, 1, 10), 100_000);
    limits.add_limit(points_limit(2, 50_000, 11), 100_000);
    let layout = limits.segment_layout(100_000, 300);
    // One milli-point rounds to no pixels and is left out.
    assert_eq!(layout, vec![(11, 150)]);
}

#[test]
fn segment_layout_is_empty_on_an_empty_maximum() {
    let mut limits = PowerLimits::default();
    limits.add_limit(points_limit(1, 50_000, 10), 100_000);
    let layout = limits.segment_layout(0, 300);
    assert!(layout.is_empty());
}
