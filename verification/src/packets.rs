use vstd::prelude::*;

use crate::combat::Combatant;

verus! {

/// Something a player can ask the server for.
#[derive(Debug, Clone, Copy, PartialEq, Eq, Hash, Structural)]
pub enum Request {
    /// Generate a new set of characters.
    GenerateCharacters,
}

impl Request {
    pub fn label(&self) -> (s: &'static str)
        ensures
            s@ == "Generate a new set of characters."@,
    {
        match self {
            Request::GenerateCharacters => "Generate a new set of characters.",
        }
    }
}

/// What a player can do on their turn in a fight.
pub enum CombatAction {
    Attack(Combatant),
    RelinquishControl,
}

/// An error the server reports to a player.
#[derive(Debug, Clone, Copy, PartialEq, Eq, Hash, Structural)]
pub enum ClientFacingError {
    UsernameTaken,
    UsernameTooLong,
    UsernameInvalid,
    CharacterNameTaken,
    CharacterNameTooLong,
    CharacterNameInvalid,
    Generic,
}

impl ClientFacingError {
    pub open spec fn text(self) -> Seq<char> {
        match self {
            Self::Generic => "Something went wrong."@,
            Self::UsernameTaken => "There is already an account with that username."@,
            Self::UsernameTooLong => "That username is too long. Pick something shorter."@,
            Self::UsernameInvalid => "That username is disallowed."@,
            Self::CharacterNameTaken => "You already have a character with that name. Pick something else."@,
            Self::CharacterNameTooLong => "That name is too long. Pick something shorter."@,
            Self::CharacterNameInvalid => "That name is disallowed."@,
        }
    }

    /// The message the player is shown.
    pub fn message(&self) -> (s: &'static str)
        ensures
            s@ == self.text(),
    {
        match self {
            Self::Generic => "Something went wrong.",
            Self::UsernameTaken => "There is already an account with that username.",
            Self::UsernameTooLong => "That username is too long. Pick something shorter.",
            Self::UsernameInvalid => "That username is disallowed.",
            Self::CharacterNameTaken => "You already have a character with that name. Pick something else.",
            Self::CharacterNameTooLong => "That name is too long. Pick something shorter.",
            Self::CharacterNameInvalid => "That name is disallowed.",
        }
    }
}

} // verus!
