use ttrpg_tool::character::{Attr, SavingThrows};
use ttrpg_tool::class::SavingThrowProgressionType;
use ttrpg_tool::combat::StatModType;
use ttrpg_tool::player::{ArcaneSpellcaster, PlayerCharacter};
use ttrpg_tool::proficiency::{Proficiency, ProficiencyInstance};

fn fresh() -> PlayerCharacter {
    let mut p = PlayerCharacter::random();
    p.initialize();
    p
}

#[test]
fn random_character_starts_at_level_zero() {
    let p = PlayerCharacter::random();
    assert_eq!(p.level, 0);
    assert_eq!(p.xp, 0);
    assert_eq!(p.class.maximum_level, 14);
    assert_eq!(p.combat_stats.attack_throw, 10);
    assert!(p.divine_spells.is_none());
    assert!(p.arcane_spells.is_none());
    let a = p.combat_stats.attributes;
    for s in [a.strength, a.dexterity, a.constitution, a.intelligence, a.wisdom, a.charisma] {
        assert!((3..=18).contains(&s));
    }
}

#[test]
fn initialized_character_is_first_level() {
    let p = fresh();
    assert_eq!(p.level, 1);
    assert_eq!(p.xp_to_level, 2000);
    assert_eq!(p.combat_stats.saving_throws, SavingThrows::calculate_simple(SavingThrowProgressionType::Fighter, 1));
    assert_eq!(p.combat_stats.attack_throw, 10);
    let con = p.combat_stats.attributes.modifier(Attr::CON);
    assert!(p.combat_stats.health.max_hp >= 1);
    assert!(p.combat_stats.health.max_hp as i32 <= std::cmp::max(4 + con, 1));
    assert_eq!(p.combat_stats.health.current_hp, p.combat_stats.health.max_hp as i32);
    assert_eq!(p.proficiencies.class_slots, 1);
    let int = p.combat_stats.attributes.modifier(Attr::INT);
    assert_eq!(p.proficiencies.general_slots as i32, 1 + std::cmp::max(int, 0));
    assert_eq!(p.title, "ERROR: Something has gone wrong! There is no defined title for this level!");
}

#[test]
fn initialized_character_has_attribute_modifiers() {
    let mut p = fresh();
    let strength = p.combat_stats.attributes.modifier(Attr::STR);
    let dexterity = p.combat_stats.attributes.modifier(Attr::DEX);
    assert_eq!(p.combat_stats.modifiers.get_i32(StatModType::MeleeAttack).total(), strength);
    assert_eq!(p.combat_stats.modifiers.get_i32(StatModType::MissileAttack).total(), dexterity);
    assert_eq!(p.combat_stats.modifiers.get_i32(StatModType::Initiative).total(), dexterity);
    assert!(p.combat_stats.modifiers.xp_gain.has_modifier("prime_reqs"));
    assert_eq!(p.combat_stats.modifiers.xp_gain.total(), 0);
}

#[test]
fn experience_levels_up() {
    let mut p = fresh();
    p.add_xp(1999);
    assert_eq!(p.level, 1);
    p.add_xp(1);
    assert_eq!(p.xp, 2000);
    assert_eq!(p.level, 2);
    assert_eq!(p.xp_to_level, 4000);
    p.add_xp(30000);
    assert_eq!(p.level, 6);
    assert_eq!(p.xp_to_level, 65000);
}

#[test]
fn experience_bonus_is_rounded() {
    let mut p = fresh();
    p.combat_stats.modifiers.xp_gain.add("prime_reqs", 50);
    p.add_xp(30);
    assert_eq!(p.xp, 32);
    p.combat_stats.modifiers.xp_gain.add("prime_reqs", 100);
    p.add_xp(15);
    assert_eq!(p.xp, 32 + 17);
}

#[test]
fn levelling_stops_at_the_maximum() {
    let mut p = fresh();
    p.class.maximum_level = 2;
    p.level_up();
    assert_eq!(p.level, 2);
    let before = p.combat_stats.health.max_hp;
    p.level_up();
    assert_eq!(p.level, 2);
    assert_eq!(p.combat_stats.health.max_hp, before);
}

#[test]
fn divine_blessing_comes_and_goes() {
    let mut p = fresh();
    let before = p.combat_stats.modifiers.get_i32(StatModType::SavePD).total();
    p.add_prof("divine_blessing", ProficiencyInstance::from_prof(Proficiency::new()));
    assert!(p.has_prof("divine_blessing", None));
    assert_eq!(p.combat_stats.modifiers.get_i32(StatModType::SavePD).total(), before + 2);
    assert_eq!(p.combat_stats.modifiers.get_i32(StatModType::SaveSpells).total(), before + 2);
    p.remove_prof(&("divine_blessing".to_owned(), None));
    assert!(!p.has_prof("divine_blessing", None));
    assert_eq!(p.combat_stats.modifiers.get_i32(StatModType::SavePD).total(), before);
}

#[test]
fn other_proficiencies_leave_the_saves() {
    let mut p = fresh();
    let before = p.combat_stats.modifiers.get_i32(StatModType::SaveBB).total();
    p.add_prof("alertness", ProficiencyInstance::from_prof(Proficiency::new()));
    assert!(p.has_prof("alertness", None));
    assert!(!p.has_prof("alertness", Some("x")));
    assert_eq!(p.combat_stats.modifiers.get_i32(StatModType::SaveBB).total(), before);
}

#[test]
fn picking_a_general_proficiency() {
    let mut p = fresh();
    p.proficiencies.general_slots = 2;
    let mut prof = Proficiency::new();
    prof.name = "Alertness".to_owned();
    prof.max_level = 1;
    assert!(p.pick_proficiency(prof.clone(), true, "alertness", None));
    assert_eq!(p.proficiencies.general_slots, 1);
    assert!(p.has_prof("alertness", None));
    assert!(p.pick_proficiency(prof.clone(), true, "alertness", None));
    assert_eq!(p.proficiencies.general_slots, 0);
    assert_eq!(p.proficiencies.profs()[0].1.prof_level, 1);
    assert!(p.pick_proficiency(prof, true, "alertness", None));
    assert_eq!(p.proficiencies.profs()[0].1.prof_level, 1);
}

#[test]
fn picking_needs_an_allowed_specification() {
    let mut p = fresh();
    p.proficiencies.general_slots = 1;
    let mut prof = Proficiency::new();
    prof.requires_specification = true;
    prof.valid_specifications = Some(vec!["Jeweler".to_owned()]);
    assert!(!p.pick_proficiency(prof.clone(), true, "craft", Some("Smith".to_owned())));
    assert_eq!(p.proficiencies.general_slots, 1);
    assert!(!p.pick_proficiency(prof.clone(), true, "craft", None));
    assert!(p.pick_proficiency(prof, true, "craft", Some("Jeweler".to_owned())));
    assert!(p.has_prof("craft", Some("Jeweler")));
    assert_eq!(p.proficiencies.general_slots, 0);
}

#[test]
fn class_picks_need_the_class() {
    let mut p = fresh();
    let prof = Proficiency::new();
    assert!(p.pick_proficiency(prof.clone(), false, "fighting_style", None));
    assert!(!p.has_prof("fighting_style", None));
    assert_eq!(p.proficiencies.class_slots, 1);
    p.class.class_proficiencies.push(("fighting_style".to_owned(), None));
    assert!(p.pick_proficiency(prof, false, "fighting_style", None));
    assert!(p.has_prof("fighting_style", None));
    assert_eq!(p.proficiencies.class_slots, 0);
}

fn blank_arcane() -> ArcaneSpellcaster {
    ArcaneSpellcaster {
        spell_slots: [(0, 0); 6],
        spell_repertoire: [(vec![], 0), (vec![], 0), (vec![], 0), (vec![], 0), (vec![], 0), (vec![], 0)],
    }
}

#[test]
fn arcane_casters_learn_a_first_spell_once() {
    let mut p = fresh();
    p.arcane_spells = Some(blank_arcane());
    p.learn_first_arcane("magic_missile".to_owned());
    p.learn_first_arcane("magic_missile".to_owned());
    p.learn_first_arcane("sleep".to_owned());
    let known = &p.arcane_spells.as_ref().unwrap().spell_repertoire[0].0;
    assert_eq!(known, &vec!["magic_missile".to_owned(), "sleep".to_owned()]);
}

#[test]
fn non_casters_learn_nothing() {
    let mut p = fresh();
    p.learn_first_arcane("sleep".to_owned());
    assert!(p.arcane_spells.is_none());
}

#[test]
fn a_new_character_is_set_up() {
    let mut p = PlayerCharacter::random();
    let mut adventuring = Proficiency::new();
    adventuring.name = "Adventuring".to_owned();
    p.set_up(Some(adventuring), Some("sleep".to_owned()));
    assert_eq!(p.level, 1);
    assert!(p.has_prof("adventuring", None));
    assert!(p.arcane_spells.is_none());
    let mut q = PlayerCharacter::random();
    q.set_up(None, None);
    assert!(!q.has_prof("adventuring", None));
    assert_eq!(q.level, 1);
}
