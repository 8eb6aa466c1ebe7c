use ttrpg_tool::chat::ChatMessage;
use ttrpg_tool::client::ClientState;
use ttrpg_tool::packets::{ClientFacingError, Request};
use ttrpg_tool::player::PlayerCharacter;

#[test]
fn chat_messages_go_first_and_count_as_unread() {
    let mut c = ClientState::new();
    c.receive_chat(ChatMessage::server("one".to_owned()));
    assert!(c.unread_msg_buffer);
    c.unread_msg_buffer = false;
    c.receive_chat(ChatMessage::server("two".to_owned()));
    assert!(!c.unread_msg_buffer);
    assert_eq!(c.unread_messages, 2);
    assert_eq!(c.logs[0].message, "two");
    assert_eq!(c.logs[1].message, "one");
}

#[test]
fn a_made_account_logs_in_next() {
    let mut c = ClientState::new();
    assert_eq!(c.account_created(false, "bob".to_owned(), "pw".to_owned()), None);
    assert_eq!(c.username, "");
    assert_eq!(c.account_created(true, "bob".to_owned(), "pw".to_owned()), Some(("bob".to_owned(), "pw".to_owned())));
    assert_eq!(c.username, "bob");
}

#[test]
fn new_characters_come_with_an_approved_request() {
    let mut c = ClientState::new();
    c.collect_new_characters();
    assert!(c.new_characters.is_empty());
    c.requests.make_request(Request::GenerateCharacters);
    c.collect_new_characters();
    assert!(c.new_characters.is_empty());
    c.requests.set_approval(Request::GenerateCharacters, true);
    c.collect_new_characters();
    assert_eq!(c.new_characters.len(), 5);
    assert!(c.requests.get_status(Request::GenerateCharacters).is_none());
    c.pick_character(1);
    assert_eq!(c.character_created(Err(ClientFacingError::CharacterNameTaken), "Hero".to_owned()), None);
    assert_eq!(c.new_char_name_error, Some(ClientFacingError::CharacterNameTaken));
    assert_eq!(c.new_characters.len(), 5);
    assert_eq!(c.character_created(Ok(()), "Hero".to_owned()), Some("Hero".to_owned()));
    assert_eq!(c.new_characters.len(), 4);
    assert!(c.picked_character.is_none() && c.new_char_name_error.is_none());
    c.drop_leftovers();
    assert_eq!(c.new_characters.len(), 4);
    c.pick_character(0);
    c.character_created(Ok(()), "Sidekick".to_owned());
    c.drop_leftovers();
    assert!(c.new_characters.is_empty());
}

#[test]
fn updated_sheets_keep_the_players_notes() {
    let mut c = ClientState::new();
    let mut first = PlayerCharacter::random();
    first.notes = "mine".to_owned();
    c.update_character("Hero".to_owned(), first);
    let mut second = PlayerCharacter::random();
    second.xp = 40;
    c.update_character("Hero".to_owned(), second);
    assert_eq!(c.characters.len(), 1);
    assert_eq!(c.characters[0].1.notes, "mine");
    assert_eq!(c.characters[0].1.xp, 40);
}

#[test]
fn unread_counts_show_once_settled() {
    assert_eq!(ttrpg_tool::chat::unread_badge(0, false), None);
    assert_eq!(ttrpg_tool::chat::unread_badge(3, true), None);
    assert_eq!(ttrpg_tool::chat::unread_badge(3, false), Some(3));
}
