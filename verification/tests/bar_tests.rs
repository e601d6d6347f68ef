use power_system::PowerBar;

#[test]
fn new_bar_is_full_and_awake() {
    let bar = PowerBar::new(100_000);
    assert_eq!(bar.current, 100_000);
    assert_eq!(bar.max, 100_000);
    assert_eq!(bar.base_max, 100_000);
    assert!(!bar.is_knocked_out);
}

#[test]
fn default_bar_holds_100_points() {
    let bar = PowerBar::default();
    assert_eq!(bar.current, 100_000);
    assert_eq!(bar.max, 100_000);
    assert_eq!(bar.base_max, 100_000);
    assert!(!bar.is_knocked_out);
}

#[test]
fn spend_reduces_by_exactly_the_amount() {
    let mut bar = PowerBar::new(100_000);
    assert!(bar.spend(30_000));
    assert_eq!(bar.current, 70_000);
    assert!(bar.spend(70_000));
    assert_eq!(bar.current, 0);
}

#[test]
fn spend_fails_when_short_and_leaves_state_unchanged() {
    let mut bar = PowerBar::new(100_000);
    assert!(!bar.spend(110_000));
    assert_eq!(bar.current, 100_000);
    assert_eq!(bar.max, 100_000);
    assert!(!bar.is_knocked_out);
}

#[test]
fn spend_fails_while_knocked_out_and_leaves_state_unchanged() {
    let mut bar = PowerBar::new(100_000);
    bar.is_knocked_out = true;
    assert!(!bar.spend(10_000));
    assert_eq!(bar.current, 100_000);
    assert!(bar.is_knocked_out);
}

#[test]
fn negative_spend_passes_through_as_a_gain() {
    // The balance check `current < amount` lets a negative amount through,
    // so it acts as a gain that is not clamped to the maximum.
    let mut bar = PowerBar::new(100_000);
    assert!(bar.spend(-50_000));
    assert_eq!(bar.current, 150_000);
    assert_eq!(bar.max, 100_000);
}

#[test]
fn add_clamps_to_the_effective_maximum() {
    let mut bar = PowerBar::new(100_000);
    assert!(bar.spend(40_000));
    bar.add(10_000);
    assert_eq!(bar.current, 70_000);
    bar.add(999_999);
    assert_eq!(bar.current, 100_000);
}

#[test]
fn add_is_a_no_op_while_knocked_out() {
    let mut bar = PowerBar::new(100_000);
    bar.is_knocked_out = true;
    bar.current = 0;
    bar.add(10_000);
    assert_eq!(bar.current, 0);
}

#[test]
fn revive_restores_up_to_the_maximum() {
    let mut bar = PowerBar::new(100_000);
    bar.is_knocked_out = true;
    bar.current = 0;
    bar.revive(30_000);
    assert!(!bar.is_knocked_out);
    assert_eq!(bar.current, 30_000);
}

#[test]
fn revive_caps_at_the_effective_maximum() {
    let mut bar = PowerBar::new(100_000);
    bar.max = 50_000;
    bar.current = 0;
    bar.is_knocked_out = true;
    bar.revive(80_000);
    assert!(!bar.is_knocked_out);
    assert_eq!(bar.current, 50_000);
}

#[test]
fn revive_is_a_no_op_while_awake() {
    let mut bar = PowerBar::new(100_000);
    bar.current = 40_000;
    bar.revive(90_000);
    assert_eq!(bar.current, 40_000);
}

#[test]
fn percentage_reports_thousandths() {
    let mut bar = PowerBar::new(100_000);
    assert_eq!(bar.percentage(), 1000);
    bar.current = 25_000;
    assert_eq!(bar.percentage(), 250);
}

#[test]
fn percentage_is_zero_on_an_empty_maximum() {
    let mut bar = PowerBar::new(100_000);
    bar.max = 0;
    assert_eq!(bar.percentage(), 0);
}
