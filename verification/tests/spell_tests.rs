use ttrpg_tool::spell::{Spell, SpellRegistry};

#[test]
fn random_arcane_spells_come_from_their_level() {
    let mut reg = SpellRegistry::new();
    assert_eq!(reg.random_arcane(0), None);
    assert_eq!(reg.random_arcane(9), None);
    reg.arcane[0].push(("sleep".to_owned(), Spell::default()));
    reg.arcane[0].push(("light".to_owned(), Spell::default()));
    let mut sleep = false;
    let mut light = false;
    for _ in 0..200 {
        match reg.random_arcane(0).as_deref() {
            Some("sleep") => sleep = true,
            Some("light") => light = true,
            other => panic!("unexpected {:?}", other),
        }
    }
    assert!(sleep && light);
    assert_eq!(reg.random_arcane(1), None);
}

#[test]
fn a_number_picks_the_spell_at_it_modulo_the_count() {
    let mut reg = SpellRegistry::new();
    reg.arcane[2].push(("light".to_owned(), Spell::default()));
    reg.arcane[2].push(("sleep".to_owned(), Spell::default()));
    reg.arcane[2].push(("web".to_owned(), Spell::default()));
    assert_eq!(reg.arcane_at(2, 0).as_deref(), Some("light"));
    assert_eq!(reg.arcane_at(2, 4).as_deref(), Some("sleep"));
    assert_eq!(reg.arcane_at(2, 8).as_deref(), Some("web"));
    assert_eq!(reg.arcane_at(2, usize::MAX).as_deref(), Some(["light", "sleep", "web"][usize::MAX % 3]));
    assert_eq!(reg.arcane_at(3, 1), None);
    assert_eq!(reg.arcane_at(9, 1), None);
}
