use power_system::LimitType;
use power_system::PowerBundle;
use power_system::PowerIntent;
use power_system::PowerNotice;
use power_system::PowerSystem;

fn system_with(max_power: i64) -> PowerSystem {
    PowerSystem::new(PowerBundle::with_max_power(max_power))
}

#[test]
fn overspend_is_refused_then_exact_spend_empties_and_knocks_out() {
    // Spending 110 of 100 fails and leaves everything unchanged. Spending
    // exactly 100 succeeds, and the knockout sweep fires on current == 0
    // even though the maximum is still 100: either condition alone knocks
    // out.
    let mut system = system_with(100_000);
    system.spend(110_000);
    let notices = system.tick(0);
    assert!(notices.is_empty());
    assert_eq!(system.bundle.power_bar.current, 100_000);
    assert!(!system.bundle.power_bar.is_knocked_out);

    system.spend(100_000);
    let notices = system.tick(0);
    assert_eq!(notices, vec![PowerNotice::KnockedOut]);
    assert_eq!(system.bundle.power_bar.current, 0);
    assert_eq!(system.bundle.power_bar.max, 100_000);
    assert!(system.bundle.power_bar.is_knocked_out);
}

#[test]
fn full_point_limit_knocks_out_even_at_full_power() {
    // A 100-point limit on a 100-point base drives the maximum to zero;
    // knockout fires although current power was full before the clamp.
    let mut system = system_with(100_000);
    system.limit_points(1, 100_000, 0, None, false, false);
    let notices = system.tick(0);
    assert_eq!(notices, vec![PowerNotice::KnockedOut]);
    assert_eq!(system.bundle.power_bar.max, 0);
    assert_eq!(system.bundle.power_bar.current, 0);
    assert!(system.bundle.power_bar.is_knocked_out);
}

#[test]
fn level_ups_grant_diminishing_capacity_bonuses() {
    // The first level-up (1 -> 2) grants the full 20 points; the second
    // (2 -> 3) grants 20 / 1.2, about 16.67 points.
    let mut system = system_with(100_000);
    system.bundle.power_level.add_experience(100_000);
    let notices = system.tick(0);
    assert_eq!(
        notices,
        vec![PowerNotice::LevelUp { new_level: 2, power_bonus: 20_000 }]
    );
    assert_eq!(system.bundle.power_bar.base_max, 120_000);
    assert_eq!(system.bundle.power_bar.max, 120_000);

    system.bundle.power_level.add_experience(150_000);
    let notices = system.tick(0);
    assert_eq!(
        notices,
        vec![PowerNotice::LevelUp { new_level: 3, power_bonus: 16_666 }]
    );
    assert_eq!(system.bundle.power_bar.base_max, 136_666);
}

#[test]
fn percentage_limit_value_is_frozen_at_insertion() {
    // A 25% limit at base 100 takes 25 points. Leveling the base to 120
    // leaves the frozen value at 25, not 30.
    let mut system = system_with(100_000);
    system.limit_percentage(1, 25_000, 0, None, false, false);
    system.tick(0);
    assert_eq!(system.bundle.power_limits.limits[0].power_value, 25_000);
    assert_eq!(system.bundle.power_bar.max, 75_000);

    system.bundle.power_level.add_experience(100_000);
    system.tick(0);
    assert_eq!(system.bundle.power_bar.base_max, 120_000);
    assert_eq!(system.bundle.power_limits.limits[0].power_value, 25_000);
    assert_eq!(system.bundle.power_bar.max, 95_000);
}

#[test]
fn applying_then_lifting_a_limit_restores_the_maximum() {
    let mut system = system_with(100_000);
    system.limit_points(5, 30_000, 0, None, false, false);
    system.tick(0);
    assert_eq!(system.bundle.power_bar.max, 70_000);
    system.lift(5);
    system.tick(0);
    assert_eq!(system.bundle.power_bar.max, 100_000);
    assert!(!system.bundle.power_bar.is_knocked_out);
    assert!(system.bundle.power_limits.limits.is_empty());
}

#[test]
fn lifting_the_blocking_limit_revives_softly() {
    let mut system = system_with(100_000);
    system.limit_points(9, 100_000, 0, None, false, false);
    let notices = system.tick(0);
    assert_eq!(notices, vec![PowerNotice::KnockedOut]);
    assert!(system.bundle.power_bar.is_knocked_out);

    // Lifting the limit clears the knockout; with 2.5 s in the same tick
    // the ramp starts and refills some power, so the knockout sweep at the
    // end of the tick finds current power above zero and stays quiet.
    system.lift(9);
    let notices = system.tick(2_500);
    assert!(notices.is_empty());
    assert!(!system.bundle.power_bar.is_knocked_out);
    assert_eq!(system.bundle.power_bar.max, 100_000);
    assert_eq!(system.bundle.power_bar.current, 12_500);
}

#[test]
fn soft_revival_at_zero_power_is_caught_by_the_sweep() {
    // Lifting the blocking limit wakes the entity, but its current power is
    // still zero; with no time passing nothing regenerates, so the knockout
    // sweep at the end of the same tick knocks it out again.
    let mut system = system_with(100_000);
    system.limit_points(9, 100_000, 0, None, false, false);
    system.tick(0);

    system.lift(9);
    let notices = system.tick(0);
    assert_eq!(notices, vec![PowerNotice::KnockedOut]);
    assert!(system.bundle.power_bar.is_knocked_out);
    assert_eq!(system.bundle.power_bar.max, 100_000);
}

#[test]
fn timed_limit_is_present_before_its_duration_and_gone_after() {
    // A 5.0 s limit still stands at t = 4.99 s and is gone at t = 5.01 s,
    // with the maximum recomputed accordingly.
    let mut system = system_with(100_000);
    system.limit_points(3, 40_000, 0, Some(5_000), false, false);
    system.tick(0);
    assert_eq!(system.bundle.power_bar.max, 60_000);

    system.tick(4_990);
    assert_eq!(system.bundle.power_limits.limits.len(), 1);
    assert_eq!(system.bundle.power_bar.max, 60_000);

    system.tick(20);
    assert!(system.bundle.power_limits.limits.is_empty());
    assert_eq!(system.bundle.power_bar.max, 100_000);
}

#[test]
fn expiring_blocking_limit_revives_softly_then_the_sweep_decides() {
    let mut system = system_with(100_000);
    system.limit_points(3, 100_000, 0, Some(1_000), false, false);
    let notices = system.tick(0);
    assert_eq!(notices, vec![PowerNotice::KnockedOut]);

    // The expiry restores the maximum and clears the knockout, but the
    // entity was swept to zero power and regeneration was still gated off
    // earlier in this tick, so the sweep knocks it out again.
    let notices = system.tick(1_000);
    assert_eq!(system.bundle.power_bar.max, 100_000);
    assert!(system.bundle.power_limits.limits.is_empty());
    assert_eq!(notices, vec![PowerNotice::KnockedOut]);

    // An explicit revive then stands.
    system.revive(50_000);
    let notices = system.tick(0);
    assert!(notices.is_empty());
    assert!(!system.bundle.power_bar.is_knocked_out);
    assert_eq!(system.bundle.power_bar.current, 50_000);
}

#[test]
fn change_adds_when_positive_and_spends_when_negative() {
    let mut system = system_with(100_000);
    system.spend(50_000);
    system.tick(0);
    assert_eq!(system.bundle.power_bar.current, 50_000);

    system.change(30_000);
    system.tick(0);
    assert_eq!(system.bundle.power_bar.current, 80_000);

    system.change(-20_000);
    system.tick(0);
    assert_eq!(system.bundle.power_bar.current, 60_000);

    // A positive change clamps at the maximum.
    system.change(999_000);
    system.tick(0);
    assert_eq!(system.bundle.power_bar.current, 100_000);
}

#[test]
fn revive_intent_restores_a_knocked_out_entity() {
    let mut system = system_with(100_000);
    system.spend(100_000);
    system.tick(0);
    assert!(system.bundle.power_bar.is_knocked_out);

    system.revive(60_000);
    let notices = system.tick(0);
    assert!(notices.is_empty());
    assert!(!system.bundle.power_bar.is_knocked_out);
    assert_eq!(system.bundle.power_bar.current, 60_000);
}

#[test]
fn intents_apply_in_arrival_order() {
    let mut system = system_with(100_000);
    system.spend(80_000);
    system.change(30_000);
    system.spend(50_000);
    let notices = system.tick(0);
    // 100 - 80 = 20, + 30 = 50, - 50 = 0: the last spend only affords it
    // because the change came before.
    assert!(system.bundle.power_bar.is_knocked_out);
    assert_eq!(notices, vec![PowerNotice::KnockedOut]);
    assert_eq!(system.bundle.power_bar.current, 0);
}

#[test]
fn can_afford_requires_strictly_more_than_the_amount() {
    let mut system = system_with(100_000);
    assert!(system.can_afford(99_999));
    assert!(!system.can_afford(100_000));
    system.bundle.power_bar.is_knocked_out = true;
    assert!(!system.can_afford(0));
}

#[test]
fn try_spend_queues_only_what_is_affordable() {
    let mut system = system_with(100_000);
    assert!(!system.try_spend(100_000));
    assert!(system.pending.is_empty());
    assert!(system.try_spend(50_000));
    assert_eq!(system.pending.len(), 1);
    system.tick(0);
    assert_eq!(system.bundle.power_bar.current, 50_000);
}

#[test]
fn try_limit_points_refuses_a_knockout_inducing_limit() {
    let mut system = system_with(100_000);
    assert!(!system.try_limit_points(1, 100_000, 0, None, false, false));
    assert!(system.pending.is_empty());
    assert!(system.try_limit_points(1, 60_000, 0, None, false, false));
    system.tick(0);
    assert_eq!(system.bundle.power_bar.max, 40_000);
    assert!(!system.bundle.power_bar.is_knocked_out);
}

#[test]
fn try_limit_percentage_refuses_a_knockout_inducing_limit() {
    let mut system = system_with(100_000);
    assert!(!system.try_limit_percentage(1, 100_000, 0, None, false, false));
    assert!(system.pending.is_empty());
    assert!(system.try_limit_percentage(1, 40_000, 0, None, false, false));
    system.tick(0);
    assert_eq!(system.bundle.power_bar.max, 60_000);
}

#[test]
fn regeneration_refills_after_the_delay() {
    let mut system = system_with(100_000);
    system.spend(50_000);
    system.tick(0);
    assert_eq!(system.bundle.power_bar.current, 50_000);

    // Within the delay nothing comes back.
    system.tick(2_000);
    assert_eq!(system.bundle.power_bar.current, 50_000);

    // Crossing the delay starts the ramp and refills some power.
    system.tick(1_000);
    assert!(system.bundle.power_regeneration.is_active);
    assert!(system.bundle.power_bar.current > 50_000);
}

#[test]
fn spending_resets_the_regeneration_ramp() {
    let mut system = system_with(100_000);
    system.spend(50_000);
    system.tick(0);
    system.tick(3_000);
    assert!(system.bundle.power_regeneration.is_active);

    system.spend(10_000);
    system.tick(0);
    assert!(!system.bundle.power_regeneration.is_active);
    assert_eq!(system.bundle.power_regeneration.time_since_spend, 0);
    assert_eq!(system.bundle.power_regeneration.current_rate, 0);
}

#[test]
fn stopping_limit_suppresses_regeneration() {
    let mut system = system_with(100_000);
    system.spend(50_000);
    system.limit_points(1, 10_000, 0, None, false, true);
    system.tick(0);

    system.tick(10_000);
    assert!(!system.bundle.power_regeneration.is_active);
    assert_eq!(system.bundle.power_bar.current, 50_000);

    // Lifting the stopping limit lets the ramp run again.
    system.lift(1);
    system.tick(0);
    system.tick(10_000);
    assert!(system.bundle.power_regeneration.is_active);
    assert!(system.bundle.power_bar.current > 50_000);
}

#[test]
fn cooldown_resetting_limit_resets_the_ramp() {
    let mut system = system_with(100_000);
    system.spend(50_000);
    system.tick(0);
    system.tick(3_000);
    assert!(system.bundle.power_regeneration.is_active);

    system.limit_points(1, 10_000, 0, None, true, false);
    system.tick(0);
    assert!(!system.bundle.power_regeneration.is_active);
    assert_eq!(system.bundle.power_regeneration.time_since_spend, 0);
}

#[test]
fn knocked_out_entity_does_not_regenerate() {
    let mut system = system_with(100_000);
    system.spend(100_000);
    system.tick(0);
    assert!(system.bundle.power_bar.is_knocked_out);
    system.tick(100_000);
    assert_eq!(system.bundle.power_bar.current, 0);
    assert!(!system.bundle.power_regeneration.is_active);
}

#[test]
fn reapplying_a_knockout_limit_notifies_again() {
    let mut system = system_with(100_000);
    system.limit_points(1, 100_000, 0, None, false, false);
    let notices = system.tick(0);
    assert_eq!(notices.len(), 1);
    system.limit_points(2, 10_000, 0, None, false, false);
    let notices = system.tick(0);
    assert_eq!(notices, vec![PowerNotice::KnockedOut]);
}

#[test]
fn lifting_an_absent_id_changes_nothing() {
    let mut system = system_with(100_000);
    system.limit_points(1, 30_000, 0, None, false, false);
    system.tick(0);
    system.lift(2);
    let notices = system.tick(0);
    assert!(notices.is_empty());
    assert_eq!(system.bundle.power_bar.max, 70_000);
    assert_eq!(system.bundle.power_limits.limits.len(), 1);
}

#[test]
fn custom_bundle_uses_the_given_regeneration_settings() {
    let bundle = PowerBundle::custom(80_000, 1_000, 3_000, 9_000);
    assert_eq!(bundle.power_bar.max, 80_000);
    assert_eq!(bundle.power_regeneration.regen_delay, 1_000);
    assert_eq!(bundle.power_regeneration.base_rate, 3_000);
    assert_eq!(bundle.power_regeneration.max_rate, 9_000);
    assert_eq!(bundle.power_regeneration.ramp_speed, 2_000);
}

#[test]
fn new_bundle_uses_defaults() {
    let bundle = PowerBundle::new();
    assert_eq!(bundle.power_bar.max, 100_000);
    assert_eq!(bundle.power_level.level, 1);
    assert!(bundle.power_limits.limits.is_empty());
}

#[test]
fn invariant_holds_after_a_busy_tick() {
    let mut system = system_with(100_000);
    system.spend(60_000);
    system.limit_points(1, 20_000, 0, Some(5_000), false, false);
    system.change(15_000);
    system.limit_percentage(2, 10_000, 0, None, false, false);
    system.bundle.power_level.add_experience(100_000);
    system.tick(1_000);
    let bar = &system.bundle.power_bar;
    assert!(0 <= bar.current);
    assert!(bar.current <= bar.max);
    assert!(bar.max <= bar.base_max);
    // 100 - 60 + 15 = 55 current; limits take 20 + 10 of the base; the
    // level-up then adds 20 to both maxima.
    assert_eq!(bar.current, 55_000);
    assert_eq!(bar.max, 90_000);
    assert_eq!(bar.base_max, 120_000);
}

#[test]
fn a_full_stack_refuses_further_limits() {
    let mut bundle = PowerBundle::with_max_power(1_000_000_000);
    let mut notices = Vec::new();
    for i in 0..4096u32 {
        let applied = bundle.handle_apply_limit(
            i,
            LimitType::Points(1),
            0,
            None,
            false,
            false,
            &mut notices,
        );
        assert!(applied);
    }
    let applied = bundle.handle_apply_limit(
        5000,
        LimitType::Points(1),
        0,
        None,
        false,
        false,
        &mut notices,
    );
    assert!(!applied);
    assert_eq!(bundle.power_limits.limits.len(), 4096);
    assert_eq!(bundle.power_bar.max, 1_000_000_000 - 4096);
}

#[test]
fn points_and_percentage_intents_carry_their_kind() {
    let p = PowerIntent::points(1, 5_000, 7, None, false, false);
    match p {
        PowerIntent::ApplyLimit { id, limit_type, color, .. } => {
            assert_eq!(id, 1);
            assert_eq!(limit_type, LimitType::Points(5_000));
            assert_eq!(color, 7);
        }
        _ => panic!("expected an apply-limit intent"),
    }
    let q = PowerIntent::percentage(2, 25_000, 8, Some(1_000), true, true);
    match q {
        PowerIntent::ApplyLimit { id, limit_type, duration, .. } => {
            assert_eq!(id, 2);
            assert_eq!(limit_type, LimitType::Percentage(25_000));
            assert_eq!(duration, Some(1_000));
        }
        _ => panic!("expected an apply-limit intent"),
    }
}
