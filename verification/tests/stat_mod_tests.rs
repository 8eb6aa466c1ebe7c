use ttrpg_tool::combat::{StatModType, StatModifiers};
use ttrpg_tool::stat_mod::StatMod;

#[test]
fn modifiers_add_up() {
    let mut m = StatMod::new(0);
    assert_eq!(m.add("a", 3), None);
    assert_eq!(m.total(), 3);
    assert_eq!(m.add("b", -2), None);
    assert_eq!(m.total(), 1);
    assert_eq!(m.add("a", 5), Some(3));
    assert_eq!(m.total(), 3);
    assert!(m.has_modifier("a"));
    assert!(!m.has_modifier("c"));
    assert_eq!(m.view_all(), vec![("b".to_owned(), -2), ("a".to_owned(), 5)]);
}

#[test]
fn removing_a_modifier_takes_it_off_the_total() {
    let mut m = StatMod::new(10);
    assert_eq!(m.total(), 0);
    m.add("x", 4);
    assert_eq!(m.total(), 4);
    assert_eq!(m.remove("x"), Some(4));
    assert_eq!(m.total(), 0);
    assert_eq!(m.remove("x"), None);
    assert_eq!(m.total(), 0);
    assert!(m.view_all().is_empty());
    {
        let (_, amount) = m.new_mod_state();
        assert_eq!(*amount, 10);
    }
}

#[test]
fn modifier_typed_in_is_applied() {
    let mut m = StatMod::new(0);
    {
        let (id, amount) = m.new_mod_state();
        assert_eq!(*amount, 0);
        id.push_str("ring");
        *amount = 2;
    }
    m.apply_new_mod(0);
    assert_eq!(m.total(), 2);
    assert!(m.has_modifier("ring"));
    let (id, amount) = m.new_mod_state();
    assert!(id.is_empty());
    assert_eq!(*amount, 0);
}

#[test]
fn all_saves_together() {
    let mut s = StatModifiers::new();
    s.add_all_saves("wisdom", 2);
    for t in [StatModType::SavePP, StatModType::SavePD, StatModType::SaveBB, StatModType::SaveSW, StatModType::SaveSpells] {
        assert_eq!(s.get_i32(t).total(), 2);
    }
    assert_eq!(s.get_i32(StatModType::MeleeAttack).total(), 0);
    s.remove_all_saves("wisdom");
    assert_eq!(s.get_i32(StatModType::SaveSpells).total(), 0);
    assert!(!s.get_i32(StatModType::SavePP).has_modifier("wisdom"));
}

#[test]
fn a_modifier_added_then_removed_is_given_back() {
    let mut m = StatMod::new(0);
    m.add("a", 3);
    let before = m.view_all();
    assert!(!m.has_modifier("b"));
    m.add("b", 7);
    assert!(m.has_modifier("b"));
    assert_eq!(m.total(), 10);
    assert_eq!(m.remove("b"), Some(7));
    assert_eq!(m.view_all(), before);
    assert_eq!(m.total(), 3);
    assert_eq!(m.remove("b"), None);
}
