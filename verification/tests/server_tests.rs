use ttrpg_tool::packets::ClientFacingError;
use ttrpg_tool::server::{byte_len, check_character_name, trimmed};

#[test]
fn trimming_removes_white_space_at_both_ends() {
    assert_eq!(trimmed("  bob \t\n"), "bob");
    assert_eq!(trimmed("a b"), "a b");
    assert_eq!(trimmed("   "), "");
}

#[test]
fn byte_length_counts_utf8() {
    assert_eq!(byte_len("abc"), 3);
    assert_eq!(byte_len("é"), 2);
    assert_eq!(byte_len("€"), 3);
}

#[test]
fn character_names_are_checked() {
    let existing = vec!["Hero".to_owned()];
    assert_eq!(check_character_name(&"Hero".to_owned(), &existing), Some(ClientFacingError::CharacterNameTaken));
    assert_eq!(check_character_name(&"  ".to_owned(), &existing), Some(ClientFacingError::CharacterNameInvalid));
    assert_eq!(check_character_name(&"a".repeat(41), &existing), Some(ClientFacingError::CharacterNameTooLong));
    assert_eq!(check_character_name(&"é".repeat(21), &existing), Some(ClientFacingError::CharacterNameTooLong));
    assert_eq!(check_character_name(&"a".repeat(40), &existing), None);
    assert_eq!(check_character_name(&"Sidekick".to_owned(), &existing), None);
}
