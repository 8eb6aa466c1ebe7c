use ttrpg_tool::combat::{AttackAction, Combatant, CombatantStats, Fight, MovementAction, Owner, PreRoundAction, TurnType};
use ttrpg_tool::enemy::{Enemy, EnemyType};
use ttrpg_tool::map::Room;
use ttrpg_tool::party::Party;

fn goblins(n: usize) -> Room {
    let mut kind = EnemyType::default();
    kind.name = "Goblin".to_owned();
    let mut group = Vec::new();
    for _ in 0..n {
        group.push(Enemy { combat_stats: CombatantStats::empty() });
    }
    let mut room = Room::new();
    room.enemies.push(("goblin".to_owned(), (kind, group)));
    room
}

fn names(f: &Fight) -> Vec<String> {
    f.combatants.iter().map(|(_, c)| c.label()).collect()
}

#[test]
fn a_room_brings_its_enemies_once() {
    let mut f = Fight::new();
    let room = goblins(3);
    f.add_room_enemies(&"A".to_owned(), &room);
    assert_eq!(names(&f), vec!["Goblin".to_owned(), "Goblin 2".to_owned(), "Goblin 3".to_owned()]);
    assert!(f.combatants.iter().all(|(o, _)| matches!(o, Owner::DM)));
    f.add_room_enemies(&"A".to_owned(), &room);
    assert_eq!(f.combatants.len(), 3);
}

#[test]
fn a_party_brings_its_characters() {
    let mut f = Fight::new();
    let mut party = Party::new();
    party.members.push(("bob".to_owned(), "Hero".to_owned()));
    party.members.push(("alice".to_owned(), "Mage".to_owned()));
    f.add_party(&party);
    assert_eq!(names(&f), vec!["Hero".to_owned(), "Mage".to_owned()]);
    assert!(matches!(&f.combatants[1].0, Owner::Player(p) if p == "alice"));
    f.remove_combatant(&Owner::Player("bob".to_owned()), &Combatant::pc("bob".to_owned(), "Hero".to_owned()));
    assert_eq!(names(&f), vec!["Mage".to_owned()]);
    f.remove_combatant(&Owner::DM, &Combatant::pc("alice".to_owned(), "Mage".to_owned()));
    assert_eq!(f.combatants.len(), 1);
}

#[test]
fn the_dm_can_deny_a_declaration() {
    let mut f = Fight::new();
    f.started = true;
    let hero = Combatant::pc("bob".to_owned(), "Hero".to_owned());
    f.add_combatant(Owner::Player("bob".to_owned()), Combatant::pc("bob".to_owned(), "Hero".to_owned()));
    assert!(f.declare(&"bob".to_owned(), &hero, PreRoundAction::FullRetreat));
    assert_eq!(f.declarations.len(), 1);
    f.deny_declaration(&hero);
    assert!(f.declarations.is_empty());
}

#[test]
fn the_dm_takes_up_or_denies_a_request() {
    let mut f = Fight::new();
    f.current_turn = Some((0, TurnType::Movement { action: MovementAction::Nothing, player_action: Some(MovementAction::Run) }));
    assert!(f.take_player_action());
    assert!(matches!(f.current_turn, Some((0, TurnType::Movement { action: MovementAction::Run, player_action: Some(MovementAction::Run) }))));
    f.deny_player_action();
    assert!(matches!(f.current_turn, Some((0, TurnType::Movement { action: MovementAction::Run, player_action: None }))));
    assert!(!f.take_player_action());
    f.current_turn = Some((0, TurnType::Attack { action: AttackAction::Nothing, player_action: None }));
    assert!(!f.take_player_action());
}
