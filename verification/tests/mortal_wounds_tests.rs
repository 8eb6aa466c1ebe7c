use ttrpg_tool::mortal_wounds::{ConditionAndRecovery, HitDiceValue, MortalWoundsModifiers, MortalWoundsResult, TreatmentTiming};

fn mods(remaining: i32, max: i32) -> MortalWoundsModifiers {
    MortalWoundsModifiers::new(1, HitDiceValue::D8, remaining, max, 0, 0, false, TreatmentTiming::OneRound, 0)
}

#[test]
fn total_of_the_table() {
    let r = MortalWoundsResult::from_die(10, mods(-2, 10));
    assert_eq!(r.modified_roll, 22);
    assert_eq!(r.condition, ConditionAndRecovery::KnockedOut);
    let r = MortalWoundsResult::from_die(10, mods(-6, 10));
    assert_eq!(r.modified_roll, 12);
    assert_eq!(r.condition, ConditionAndRecovery::CriticallyWounded);
    let r = MortalWoundsResult::from_die(1, mods(-25, 10));
    assert_eq!(r.modified_roll, 1 + 1 + 4 - 20 + 2);
    assert_eq!(r.condition, ConditionAndRecovery::EvenMoreInstantDeath);
}

#[test]
fn share_thresholds() {
    assert_eq!(MortalWoundsResult::from_die(10, mods(-5, 20)).modified_roll, 22);
    assert_eq!(MortalWoundsResult::from_die(10, mods(-10, 20)).modified_roll, 15);
    assert_eq!(MortalWoundsResult::from_die(10, mods(-20, 20)).modified_roll, 12);
    assert_eq!(MortalWoundsResult::from_die(10, mods(-40, 20)).modified_roll, 7);
    assert_eq!(MortalWoundsResult::from_die(10, mods(0, 0)).modified_roll, -3);
    assert_eq!(MortalWoundsResult::from_die(10, mods(3, 0)).modified_roll, 22);
}

#[test]
fn every_modifier_counts() {
    let m = MortalWoundsModifiers::new(-1, HitDiceValue::D12, -1, 4, 3, 2, true, TreatmentTiming::OverOneDay, 5);
    assert_eq!(MortalWoundsResult::from_die(7, m).modified_roll, 7 - 1 + 8 + 5 + 3 + 2 + 2 - 10 + 5);
}

#[test]
fn conditions_by_total() {
    assert_eq!(ConditionAndRecovery::for_total(26), ConditionAndRecovery::Dazed);
    assert_eq!(ConditionAndRecovery::for_total(21), ConditionAndRecovery::KnockedOut);
    assert_eq!(ConditionAndRecovery::for_total(16), ConditionAndRecovery::InShock);
    assert_eq!(ConditionAndRecovery::for_total(6), ConditionAndRecovery::GrievouslyWounded);
    assert_eq!(ConditionAndRecovery::for_total(1), ConditionAndRecovery::MortallyWounded);
    assert_eq!(ConditionAndRecovery::for_total(-5), ConditionAndRecovery::InstantDeath);
    assert_eq!(ConditionAndRecovery::for_total(-6), ConditionAndRecovery::EvenMoreInstantDeath);
    assert_eq!(ConditionAndRecovery::InstantDeath.description(), "You were instantly killed.");
}

#[test]
fn rolled_result_is_in_range() {
    for _ in 0..100 {
        let r = MortalWoundsResult::roll(mods(-2, 10));
        assert!((1 + 12..=20 + 12).contains(&r.modified_roll));
    }
}
