use power_system::CountdownTimer;
use power_system::LimitType;
use power_system::PowerLimit;
use power_system::PowerLimits;

fn points_limit(id: u32, points: i64) -> PowerLimit {
    PowerLimit::new(id, LimitType::Points(points), 0, None, false, false)
}

#[test]
fn new_limit_starts_unresolved() {
    let limit = points_limit(1, 30_000);
    assert_eq!(limit.power_value, 0);
    assert!(limit.is_permanent());
}

#[test]
fn calculate_value_resolves_points_as_they_are() {
    let mut limit = points_limit(1, 30_000);
    limit.calculate_value(100_000);
    assert_eq!(limit.power_value, 30_000);
}

#[test]
fn calculate_value_resolves_a_percentage_of_base_max() {
    // 25% of 100 points is 25 points.
    let mut limit = PowerLimit::new(2, LimitType::Percentage(25_000), 0, None, false, false);
    limit.calculate_value(100_000);
    assert_eq!(limit.power_value, 25_000);
}

#[test]
fn countdown_finishes_at_its_duration() {
    let mut timer = CountdownTimer::from_millis(5_000);
    timer.tick(4_990);
    assert!(!timer.finished());
    timer.tick(10);
    assert!(timer.finished());
}

#[test]
fn timed_limit_expires_with_its_countdown() {
    let mut limit = PowerLimit::new(3, LimitType::Points(10_000), 0, Some(5_000), false, false);
    assert!(!limit.is_permanent());
    assert!(!limit.update(4_990));
    assert!(limit.update(20));
}

#[test]
fn add_limit_freezes_the_value_at_insertion() {
    let mut limits = PowerLimits::default();
    let limit = PowerLimit::new(4, LimitType::Percentage(25_000), 0, None, false, false);
    limits.add_limit(limit, 100_000);
    assert_eq!(limits.limits.len(), 1);
    assert_eq!(limits.limits[0].power_value, 25_000);
}

#[test]
fn total_reduction_sums_all_values() {
    let mut limits = PowerLimits::default();
    limits.add_limit(points_limit(1, 30_000), 100_000);
    limits.add_limit(points_limit(2, 12_500), 100_000);
    assert_eq!(limits.total_reduction(), 42_500);
}

#[test]
fn remove_limit_takes_the_first_match_only() {
    let mut limits = PowerLimits::default();
    limits.add_limit(points_limit(9, 10_000), 100_000);
    limits.add_limit(points_limit(9, 20_000), 100_000);
    assert!(limits.remove_limit(9));
    assert_eq!(limits.limits.len(), 1);
    assert_eq!(limits.limits[0].power_value, 20_000);
    assert!(limits.remove_limit(9));
    assert!(limits.limits.is_empty());
}

#[test]
fn remove_limit_reports_an_absent_id() {
    let mut limits = PowerLimits::default();
    limits.add_limit(points_limit(1, 10_000), 100_000);
    assert!(!limits.remove_limit(2));
    assert_eq!(limits.limits.len(), 1);
}

#[test]
fn update_timers_removes_expired_and_keeps_permanent() {
    let mut limits = PowerLimits::default();
    limits.add_limit(
        PowerLimit::new(1, LimitType::Points(10_000), 0, Some(1_000), false, false),
        100_000,
    );
    limits.add_limit(points_limit(2, 20_000), 100_000);
    limits.add_limit(
        PowerLimit::new(3, LimitType::Points(5_000), 0, Some(3_000), false, false),
        100_000,
    );
    let removed = limits.update_timers(2_000);
    assert_eq!(removed, vec![1]);
    assert_eq!(limits.limits.len(), 2);
    assert_eq!(limits.limits[0].id, 2);
    assert_eq!(limits.limits[1].id, 3);
    let removed = limits.update_timers(1_000);
    assert_eq!(removed, vec![3]);
    assert_eq!(limits.limits.len(), 1);
    assert_eq!(limits.limits[0].id, 2);
}

#[test]
fn flag_queries_see_any_carrier() {
    let mut limits = PowerLimits::default();
    assert!(!limits.any_resets_cooldown());
    assert!(!limits.any_stops_regeneration());
    limits.add_limit(
        PowerLimit::new(1, LimitType::Points(1_000), 0, None, true, false),
        100_000,
    );
    limits.add_limit(
        PowerLimit::new(2, LimitType::Points(1_000), 0, None, false, true),
        100_000,
    );
    assert!(limits.any_resets_cooldown());
    assert!(limits.any_stops_regeneration());
}

#[test]
fn limit_segments_report_shares_of_the_maximum() {
    let mut limits = PowerLimits::default();
    limits.add_limit(points_limit(1, 25_000), 100_000);
    limits.add_limit(points_limit(2, 10_000), 100_000);
    let segments = limits.get_limit_segments(100_000);
    assert_eq!(segments.len(), 2);
    assert_eq!(segments[0].1, 250);
    assert_eq!(segments[1].1, 100);
}

#[test]
fn limit_segments_are_zero_on_an_empty_maximum() {
    let mut limits = PowerLimits::default();
    limits.add_limit(points_limit(1, 25_000), 100_000);
    let segments = limits.get_limit_segments(0);
    assert_eq!(segments.len(), 1);
    assert_eq!(segments[0].1, 0);
}
