use ttrpg_tool::combat::{AttackAction, AttackResult, Combatant, Fight, MovementAction, Owner, PreRoundAction, TurnType};
use ttrpg_tool::spell::{MagicType, SpellRegistry};
use ttrpg_tool::turns::{apply_attack, attack_text, killed_text, TurnStep};
use ttrpg_tool::combat::{CombatantStats, DamageRoll, StatusEffect};
use ttrpg_tool::enemy::AttackRoutine;

fn hero() -> Combatant {
    Combatant::pc("bob".to_owned(), "Hero".to_owned())
}

fn goblin() -> Combatant {
    Combatant::enemy("cave".to_owned(), "goblin".to_owned(), 0, "Goblin".to_owned())
}

fn fight_on(turn: TurnType, declared: PreRoundAction) -> Fight {
    let mut f = Fight::new();
    f.started = true;
    f.combatants = vec![(Owner::Player("bob".to_owned()), hero()), (Owner::DM, goblin())];
    f.turn_order = vec![(Owner::Player("bob".to_owned()), hero(), declared)];
    f.current_turn = Some((0, turn));
    f
}

fn line_of(step: &TurnStep) -> Option<(String, bool)> {
    match step {
        TurnStep::Advance(Some(l)) => Some((l.text.clone(), l.warning)),
        _ => None,
    }
}

#[test]
fn running_is_logged_and_uses_up_the_attack() {
    let mut f = fight_on(TurnType::Movement { action: MovementAction::Run, player_action: None }, PreRoundAction::Nothing);
    let step = f.resolve_action(&SpellRegistry::new());
    assert_eq!(line_of(&step), Some(("Hero runs.".to_owned(), false)));
    match &f.current_turn {
        Some((0, TurnType::Attack { action: AttackAction::Nothing, player_action: None })) => {},
        _ => panic!("the attack should be used up"),
    }
}

#[test]
fn moving_keeps_the_attack() {
    let mut f = fight_on(TurnType::Movement { action: MovementAction::Move, player_action: None }, PreRoundAction::Nothing);
    let step = f.resolve_action(&SpellRegistry::new());
    assert_eq!(line_of(&step), Some(("Hero moves.".to_owned(), false)));
    assert!(matches!(f.current_turn, Some((0, TurnType::Movement { .. }))));
}

#[test]
fn an_attack_is_handed_on() {
    let mut f = fight_on(TurnType::Attack { action: AttackAction::Attack(goblin(), 2), player_action: None }, PreRoundAction::Nothing);
    match f.resolve_action(&SpellRegistry::new()) {
        TurnStep::Attack(a, t, m) => {
            assert!(a.same_as(&hero()));
            assert!(t.same_as(&goblin()));
            assert_eq!(m, 2);
        },
        _ => panic!("expected an attack"),
    }
}

#[test]
fn undeclared_spell_is_a_warning() {
    let mut f = fight_on(TurnType::Attack { action: AttackAction::CastSpell, player_action: None }, PreRoundAction::Nothing);
    let step = f.resolve_action(&SpellRegistry::new());
    assert_eq!(line_of(&step), Some(("Hero tries to cast a spell that they didn't declare.".to_owned(), true)));
}

#[test]
fn unknown_spell_is_named_as_such() {
    let decl = PreRoundAction::CastSpell("fireball".to_owned(), 3, MagicType::Arcane);
    let mut f = fight_on(TurnType::Attack { action: AttackAction::CastSpell, player_action: None }, decl);
    let step = f.resolve_action(&SpellRegistry::new());
    assert_eq!(line_of(&step), Some(("Hero casts Nonexistent Spell!".to_owned(), false)));
}

#[test]
fn no_turn_is_idle() {
    let mut f = Fight::new();
    assert!(matches!(f.resolve_action(&SpellRegistry::new()), TurnStep::Idle));
}

#[test]
fn attack_lines() {
    let dmg = "7".to_owned();
    assert_eq!(attack_text(&hero(), &goblin(), AttackResult::Fail, 1, &dmg), "Hero missed Goblin!");
    assert_eq!(attack_text(&hero(), &goblin(), AttackResult::Success, 1, &dmg), "Hero hit Goblin for 7 damage!");
    assert_eq!(attack_text(&hero(), &goblin(), AttackResult::CriticalSuccess, 1, &dmg),
        "Hero critically hit Goblin for a whopping 7 damage!");
    assert_eq!(attack_text(&hero(), &goblin(), AttackResult::CriticalFail, 2, &dmg), "Hero critically missed Goblin!");
    assert_eq!(killed_text(&goblin()), "Goblin was killed!");
}

#[test]
fn declarations_need_the_right_player() {
    let mut f = Fight::new();
    f.started = true;
    f.combatants = vec![(Owner::Player("bob".to_owned()), hero()), (Owner::DM, goblin())];
    assert!(f.declare(&"bob".to_owned(), &hero(), PreRoundAction::FullRetreat));
    assert_eq!(f.declarations.len(), 1);
    assert!(!f.declare(&"alice".to_owned(), &hero(), PreRoundAction::FightingWithdrawal));
    assert!(!f.declare(&"bob".to_owned(), &goblin(), PreRoundAction::FullRetreat));
    assert!(f.declare(&"bob".to_owned(), &hero(), PreRoundAction::Nothing));
    assert_eq!(f.declarations.len(), 0);
}

#[test]
fn players_decide_in_their_own_turn() {
    let mut f = fight_on(TurnType::Movement { action: MovementAction::Nothing, player_action: None }, PreRoundAction::Nothing);
    f.decide_movement(&"bob".to_owned(), MovementAction::Charge);
    assert!(matches!(f.current_turn, Some((0, TurnType::Movement { player_action: Some(MovementAction::Charge), .. }))));
    f.decide_movement(&"alice".to_owned(), MovementAction::Run);
    assert!(matches!(f.current_turn, Some((0, TurnType::Movement { player_action: Some(MovementAction::Charge), .. }))));
}

fn stats_with_hp(hp: i32) -> CombatantStats {
    let mut s = CombatantStats::empty();
    s.health.max_hp = 10;
    s.health.current_hp = hp;
    s
}

#[test]
fn a_landing_blow_can_kill() {
    let mut a = stats_with_hp(10);
    a.damage = AttackRoutine::Two(DamageRoll::melee(), DamageRoll::melee());
    let r = apply_attack(&hero(), &goblin(), AttackResult::Success, 0, 7, Some(a), Some(stats_with_hp(5)));
    assert_eq!(r.line, "Hero hit Goblin for 7 damage!");
    assert_eq!(r.killed, Some("Goblin was killed!".to_owned()));
    let t = r.target_stats.unwrap();
    assert_eq!(t.health.current_hp, -2);
    assert!(t.status_effects.is(StatusEffect::Dying));
    assert!(!r.turn_over);
    assert_eq!(r.attacker_stats.unwrap().attack_index, 1);
}

#[test]
fn a_miss_hurts_nobody_and_ends_a_single_attack_routine() {
    let r = apply_attack(&hero(), &goblin(), AttackResult::Fail, 0, 0, Some(stats_with_hp(10)), Some(stats_with_hp(5)));
    assert_eq!(r.line, "Hero missed Goblin!");
    assert!(r.killed.is_none());
    assert_eq!(r.target_stats.unwrap().health.current_hp, 5);
    assert!(r.turn_over);
    assert_eq!(r.attacker_stats.unwrap().attack_index, 0);
}

#[test]
fn attacking_oneself_hurts_the_attacker() {
    let r = apply_attack(&hero(), &hero(), AttackResult::Success, 0, 3, Some(stats_with_hp(10)), Some(stats_with_hp(10)));
    assert_eq!(r.attacker_stats.unwrap().health.current_hp, 7);
    assert_eq!(r.target_stats.unwrap().health.current_hp, 10);
    assert!(r.killed.is_none());
}

#[test]
fn an_attack_without_stats_ends_the_turn() {
    let r = Fight::make_attack(&hero(), &goblin(), None, None, 0);
    assert!(r.turn_over);
    assert!(r.attacker_stats.is_none());
    assert!(r.line.starts_with("Hero ") || r.line.starts_with("Whatever Hero"));
    assert!(r.line.contains("Goblin"));
}

#[test]
fn turn_parts_have_icons() {
    assert_eq!(TurnType::Movement { action: MovementAction::Nothing, player_action: None }.icon(), ttrpg_tool::tabs::TabIcon::SneakerMove);
    assert_eq!(TurnType::Attack { action: AttackAction::Nothing, player_action: None }.icon(), ttrpg_tool::tabs::TabIcon::Sword);
}

#[test]
fn an_effect_and_a_declaration_are_kept_once() {
    let mut s = CombatantStats::empty();
    s.status_effects.insert(StatusEffect::Sleeping);
    s.status_effects.insert(StatusEffect::Sleeping);
    assert_eq!(s.status_effects.effects.len(), 1);
    let mut f = Fight::new();
    f.started = true;
    f.combatants = vec![(Owner::Player("bob".to_owned()), hero())];
    assert!(f.declare(&"bob".to_owned(), &hero(), PreRoundAction::FightingWithdrawal));
    assert!(f.declare(&"bob".to_owned(), &hero(), PreRoundAction::FullRetreat));
    assert_eq!(f.declarations.len(), 1);
}
