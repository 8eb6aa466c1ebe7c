use ttrpg_tool::character::{Attr, Attributes, Health, SavingThrows};
use ttrpg_tool::class::{ArcaneValue, AttackThrowProgression, Class, DivineValue, SavingThrowProgressionType, ThiefSkill, ThiefSkills, Titles};

fn attrs(score: u8, wisdom: u8) -> Attributes {
    Attributes { strength: score, dexterity: score, constitution: score, intelligence: score, wisdom, charisma: score }
}

#[test]
fn attribute_modifiers() {
    let a = Attributes { strength: 18, dexterity: 3, constitution: 9, intelligence: 13, wisdom: 6, charisma: 16 };
    assert_eq!(a.modifier(Attr::STR), 3);
    assert_eq!(a.modifier(Attr::DEX), -3);
    assert_eq!(a.modifier(Attr::CON), 0);
    assert_eq!(a.modifier(Attr::INT), 1);
    assert_eq!(a.modifier(Attr::WIS), -1);
    assert_eq!(a.modifier(Attr::CHA), 2);
    assert_eq!(Attributes { wisdom: 4, ..a }.modifier(Attr::WIS), -2);
}

#[test]
fn random_attributes_are_three_dice() {
    for _ in 0..50 {
        let a = Attributes::random();
        for s in [a.strength, a.dexterity, a.constitution, a.intelligence, a.wisdom, a.charisma] {
            assert!((3..=18).contains(&s));
        }
    }
}

#[test]
fn new_health_is_zero() {
    assert_eq!(Health::new(), Health { max_hp: 0, current_hp: 0 });
}

#[test]
fn saving_throws_by_class_and_level() {
    assert_eq!(SavingThrows::calculate(SavingThrowProgressionType::Fighter, 1, attrs(9, 9)), SavingThrows::from(5, 6, 4, 4, 3));
    assert_eq!(SavingThrows::calculate(SavingThrowProgressionType::Fighter, 0, attrs(9, 9)), SavingThrows::from(4, 5, 3, 3, 2));
    assert_eq!(SavingThrows::calculate(SavingThrowProgressionType::Cleric, 5, attrs(9, 9)), SavingThrows::from(9, 12, 6, 9, 7));
    assert_eq!(SavingThrows::calculate(SavingThrowProgressionType::Mage, 7, attrs(9, 16)), SavingThrows::from(11, 11, 9, 13, 12));
    assert_eq!(SavingThrows::calculate(SavingThrowProgressionType::Thief, 3, attrs(9, 3)), SavingThrows::from(5, 5, 2, 4, 3));
    assert_eq!(SavingThrows::calculate(SavingThrowProgressionType::Fighter, 14, attrs(9, 9)), SavingThrows::from(14, 15, 13, 13, 12));
    assert_eq!(SavingThrows::calculate_simple(SavingThrowProgressionType::Fighter, 4), SavingThrows::from(7, 8, 6, 6, 5));
}

#[test]
fn saves_take_a_modifier() {
    assert_eq!(SavingThrows::from(1, 2, 3, 4, 5).apply_mod(-2), SavingThrows::from(-1, 0, 1, 2, 3));
    assert_eq!(SavingThrows::new(), SavingThrows::from(0, 0, 0, 0, 0));
}

#[test]
fn level_costs_of_the_default_class() {
    let c = Class::default();
    let costs: Vec<u32> = (0..=9).map(|l| c.calculate_next_level_cost(l)).collect();
    assert_eq!(costs, vec![100, 2000, 4000, 8000, 16000, 32000, 65000, 130000, 250000, 370000]);
}

#[test]
fn attack_throws() {
    assert_eq!(AttackThrowProgression::OnePerThree.calculate(0), 9);
    assert_eq!(AttackThrowProgression::OnePerThree.calculate(1), 10);
    assert_eq!(AttackThrowProgression::OnePerThree.calculate(4), 11);
    assert_eq!(AttackThrowProgression::TwoPerThree.calculate(3), 11);
    assert_eq!(AttackThrowProgression::TwoPerThree.calculate(4), 12);
    assert_eq!(AttackThrowProgression::ThreePerTwo.calculate(3), 13);
    assert_eq!(AttackThrowProgression::OnePerOne.calculate(14), 23);
}

#[test]
fn cleric_spell_slots() {
    assert_eq!(DivineValue::Two(false).get_max_spell_slots(2), [1, 0, 0, 0, 0]);
    assert_eq!(DivineValue::Two(false).get_max_spell_slots(9), [3, 3, 3, 2, 2]);
    assert_eq!(DivineValue::One(false).get_max_spell_slots(9), [2, 2, 0, 0, 0]);
    assert_eq!(DivineValue::Nothing.get_max_spell_slots(9), [0, 0, 0, 0, 0]);
}

#[test]
fn titles_by_level() {
    let t = Titles(vec!["Veteran".to_owned(), "Warrior".to_owned()]);
    assert_eq!(t.get(0), "Citizen");
    assert_eq!(t.get(2), "Warrior");
    assert_eq!(t.get(3), "ERROR: Something has gone wrong! There is no defined title for this level!");
}

#[test]
fn spell_slots_grow_with_the_level_within_a_full_casters() {
    let half = ArcaneValue::Two(false);
    let at5 = half.get_max_spell_slots(5);
    let at9 = half.get_max_spell_slots(9);
    let full9 = ArcaneValue::Four.get_max_spell_slots(9);
    assert_eq!(at5, [2, 1, 0, 0, 0, 0]);
    assert_eq!(at9, [2, 2, 1, 0, 0, 0]);
    assert_eq!(full9, [3, 3, 3, 2, 1, 0]);
    for i in 0..6 {
        assert!(at5[i] <= at9[i] && at9[i] <= full9[i]);
    }
    let d = DivineValue::Three(false).get_max_spell_slots(8);
    let dfull = DivineValue::Four(false).get_max_spell_slots(8);
    for i in 0..5 {
        assert!(d[i] <= dfull[i]);
    }
}

#[test]
fn a_thief_skill_is_listed_once() {
    let mut t = ThiefSkills::new();
    assert!(t.insert(ThiefSkill::OpenLocks));
    assert!(t.insert(ThiefSkill::Backstab));
    assert!(!t.insert(ThiefSkill::OpenLocks));
    assert_eq!(t.0, vec![ThiefSkill::OpenLocks, ThiefSkill::Backstab]);
}
