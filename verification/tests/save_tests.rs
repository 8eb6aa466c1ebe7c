use ttrpg_tool::packets::ClientFacingError;
use ttrpg_tool::player::PlayerCharacter;
use ttrpg_tool::proficiency::Proficiency;
use ttrpg_tool::save::{initiative_infos, still_able_flags, SaveData, UserData};
use ttrpg_tool::spell::{Spell, SpellRegistry};
use ttrpg_tool::combat::{Combatant, Fight, Owner, PreRoundAction, StatusEffect};

fn with_accounts() -> SaveData {
    let mut s = SaveData::new();
    assert_eq!(s.create_account("  alice ", "pw1".to_owned()), ("alice".to_owned(), true));
    assert_eq!(s.create_account("bob", "pw2".to_owned()), ("bob".to_owned(), true));
    s
}

#[test]
fn accounts_are_trimmed_and_checked() {
    let mut s = with_accounts();
    assert_eq!(s.create_account("alice", "x".to_owned()), ("alice".to_owned(), false));
    assert_eq!(s.create_account(" server", "x".to_owned()), ("server".to_owned(), false));
    assert_eq!(s.create_account("   ", "x".to_owned()), ("".to_owned(), false));
    assert_eq!(s.known_users.len(), 2);
}

#[test]
fn login_needs_the_right_password_and_makes_user_data() {
    let mut s = with_accounts();
    assert!(!s.log_in(&"bob".to_owned(), &"pw1".to_owned()));
    assert!(!s.log_in(&"carol".to_owned(), &"pw1".to_owned()));
    assert!(s.user_data.is_empty());
    assert!(s.log_in(&"bob".to_owned(), &"pw2".to_owned()));
    assert_eq!(s.user_data.len(), 1);
    assert_eq!(s.user_data[0].0, "bob");
    assert!(s.log_in(&"bob".to_owned(), &"pw2".to_owned()));
    assert_eq!(s.user_data.len(), 1);
}

#[test]
fn new_characters_are_checked_and_kept() {
    let mut s = with_accounts();
    let bob = "bob".to_owned();
    assert_eq!(s.create_character(&bob, "Hero".to_owned(), PlayerCharacter::random(), None, &SpellRegistry::new()), None);
    assert!(s.log_in(&bob, &"pw2".to_owned()));
    let mut adventuring = Proficiency::new();
    adventuring.name = "Adventuring".to_owned();
    assert_eq!(s.create_character(&bob, "Hero".to_owned(), PlayerCharacter::random(), Some(adventuring), &SpellRegistry::new()), Some(Ok(())));
    let hero = s.get_player_char(&bob, &"Hero".to_owned()).unwrap();
    assert_eq!(hero.level, 1);
    assert!(hero.has_prof("adventuring", None));
    assert_eq!(s.create_character(&bob, "Hero".to_owned(), PlayerCharacter::random(), None, &SpellRegistry::new()),
        Some(Err(ClientFacingError::CharacterNameTaken)));
    assert_eq!(s.create_character(&bob, " ".to_owned(), PlayerCharacter::random(), None, &SpellRegistry::new()),
        Some(Err(ClientFacingError::CharacterNameInvalid)));
    assert_eq!(s.create_character(&bob, "x".repeat(41), PlayerCharacter::random(), None, &SpellRegistry::new()),
        Some(Err(ClientFacingError::CharacterNameTooLong)));
}

#[test]
fn characters_can_be_taken_out_and_put_back() {
    let mut s = with_accounts();
    let bob = "bob".to_owned();
    assert!(!s.put_player_char(&bob, "Hero".to_owned(), PlayerCharacter::random()));
    assert!(s.log_in(&bob, &"pw2".to_owned()));
    assert!(s.put_player_char(&bob, "Hero".to_owned(), PlayerCharacter::random()));
    let mut sheet = s.take_player_char(&bob, &"Hero".to_owned()).unwrap();
    assert!(s.get_player_char(&bob, &"Hero".to_owned()).is_none());
    assert!(s.take_player_char(&bob, &"Hero".to_owned()).is_none());
    sheet.notes = "brave".to_owned();
    assert!(s.put_player_char(&bob, "Hero".to_owned(), sheet));
    assert_eq!(s.get_player_char(&bob, &"Hero".to_owned()).unwrap().notes, "brave");
    assert!(s.set_notes(&bob, "session one".to_owned()));
    assert_eq!(s.user_data[0].1.notes, "session one");
    assert!(!s.set_notes(&"carol".to_owned(), "x".to_owned()));
}

#[test]
fn fresh_user_data_is_empty() {
    let u = UserData::new();
    assert!(u.characters.is_empty() && u.notes.is_empty());
}

#[test]
fn a_made_account_can_log_in() {
    let mut s = SaveData::new();
    let (name, made) = s.create_account(" carol ", "secret".to_owned());
    assert!(made);
    assert!(s.log_in(&name, &"secret".to_owned()));
}

#[test]
fn fighters_without_stats_or_able_to_act_are_told_apart() {
    let mut s = with_accounts();
    let bob = "bob".to_owned();
    assert!(s.log_in(&bob, &"pw2".to_owned()));
    let mut hero = PlayerCharacter::random();
    hero.combat_stats.modifiers.initiative.add("dexterity", 2);
    assert!(s.put_player_char(&bob, "Hero".to_owned(), hero));
    let mut sleeper = PlayerCharacter::random();
    sleeper.combat_stats.status_effects.insert(StatusEffect::Sleeping);
    assert!(s.put_player_char(&bob, "Sleeper".to_owned(), sleeper));
    let hero_c = Combatant::pc(bob.clone(), "Hero".to_owned());
    let sleeper_c = Combatant::pc(bob.clone(), "Sleeper".to_owned());
    let ghost = Combatant::enemy("A".to_owned(), "goblin".to_owned(), 0, "Goblin".to_owned());
    let mut f = Fight::new();
    f.add_combatant(Owner::Player(bob.clone()), Combatant::pc(bob.clone(), "Hero".to_owned()));
    f.add_combatant(Owner::Player(bob.clone()), Combatant::pc(bob.clone(), "Sleeper".to_owned()));
    f.add_combatant(Owner::DM, Combatant::enemy("A".to_owned(), "goblin".to_owned(), 0, "Goblin".to_owned()));
    let infos = initiative_infos(&f, &s, None);
    assert_eq!(infos.len(), 3);
    assert_eq!(infos[0].map(|i| (i.incapacitated, i.initiative)), Some((false, 2)));
    assert_eq!(infos[1].map(|i| i.incapacitated), Some(true));
    assert!(infos[2].is_none());
    f.turn_order = vec![(Owner::Player(bob.clone()), hero_c, PreRoundAction::Nothing),
        (Owner::Player(bob.clone()), sleeper_c, PreRoundAction::Nothing), (Owner::DM, ghost, PreRoundAction::Nothing)];
    assert_eq!(still_able_flags(&f, &s, None), vec![true, false, false]);
}

#[test]
fn a_new_arcane_caster_draws_its_first_spell_from_the_registry() {
    let mut s = with_accounts();
    let bob = "bob".to_owned();
    assert!(s.log_in(&bob, &"pw2".to_owned()));
    let mut spells = SpellRegistry::new();
    spells.arcane[0].push(("sleep".to_owned(), Spell::default()));
    assert_eq!(s.create_character(&bob, "Hero".to_owned(), PlayerCharacter::random(), None, &spells), Some(Ok(())));
    assert!(s.get_player_char(&bob, &"Hero".to_owned()).unwrap().arcane_spells.is_none());
}
