use ttrpg_tool::combat::{damage_roll, AttackType, CombatantStats, DamageRoll};
use ttrpg_tool::enemy::AttackRoutine;
use ttrpg_tool::map::{DungeonMap, Room};

fn two_rooms() -> DungeonMap {
    let mut m = DungeonMap::new();
    m.rooms.push(("1".to_owned(), Room::new()));
    m.rooms.push(("2".to_owned(), Room::new()));
    m
}

#[test]
fn a_two_way_connection_is_marked_in_both_rooms() {
    let mut m = two_rooms();
    m.connect("door".to_owned(), "1".to_owned(), "2".to_owned(), false);
    assert_eq!(m.connections.len(), 1);
    let (id, c) = &m.connections[0];
    assert_eq!(id, "door");
    assert_eq!(c.from, "1");
    assert_eq!(c.to, "2");
    assert!(!c.one_way);
    assert!(!c.passable && !c.locked && c.trapped.is_none() && c.description.is_empty());
    assert_eq!(m.rooms[0].1.connections, vec![("door".to_owned(), true)]);
    assert_eq!(m.rooms[1].1.connections, vec![("door".to_owned(), false)]);
}

#[test]
fn a_one_way_connection_is_marked_where_it_leaves_from() {
    let mut m = two_rooms();
    m.connect("chute".to_owned(), "2".to_owned(), "1".to_owned(), true);
    assert!(m.connections[0].1.one_way);
    assert!(m.rooms[0].1.connections.is_empty());
    assert_eq!(m.rooms[1].1.connections, vec![("chute".to_owned(), true)]);
}

#[test]
fn a_connection_made_again_under_its_id_replaces_it() {
    let mut m = two_rooms();
    m.connect("door".to_owned(), "1".to_owned(), "2".to_owned(), false);
    m.connect("door".to_owned(), "2".to_owned(), "1".to_owned(), true);
    assert_eq!(m.connections.len(), 1);
    assert_eq!(m.connections[0].1.from, "2");
    assert_eq!(m.rooms[0].1.connections, vec![("door".to_owned(), true)]);
    assert_eq!(m.rooms[1].1.connections, vec![("door".to_owned(), true)]);
}

#[test]
fn a_large_damage_modifier_is_added_in_full() {
    let mut s = CombatantStats::empty();
    s.damage = AttackRoutine::One(DamageRoll::new(1, 1, 0, AttackType::Melee));
    s.modifiers.melee_damage.add("giant", 0x5000_0000);
    assert_eq!(damage_roll(Some(&s), false), 0x5000_0001);
    assert_eq!(damage_roll(Some(&s), true), 0x5000_0002);
    assert_eq!(damage_roll(None, true), 1);
}
