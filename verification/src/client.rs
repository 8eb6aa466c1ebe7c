use vstd::prelude::*;

use crate::chat::ChatMessage;
use crate::keyed::{unique_keys, keyed_map, lemma_keyed_push, lemma_keyed_update, key_position};
use crate::packets::{ClientFacingError, Request};
use crate::player::{PlayerCharacter, is_rolled};
use crate::requests::{Requests, RequestStatus};

verus! {

/// How many characters a player is offered to pick from.
pub const OFFERED_CHARACTERS: usize = 5;

/// What a player's window keeps of the game: the chat, the player's characters and notes, and
/// where the making of a new character stands.
pub struct ClientState {
    pub logged_in: bool,
    pub username: String,
    /// The chat, newest first.
    pub logs: Vec<ChatMessage>,
    pub unread_messages: u32,
    /// Set when a message comes in while none was unread.
    pub unread_msg_buffer: bool,
    /// The player's characters, by name.
    pub characters: Vec<(String, PlayerCharacter)>,
    pub notes: String,
    /// The characters offered to pick a new one from.
    pub new_characters: Vec<PlayerCharacter>,
    /// The offered character picked, by its place among them.
    pub picked_character: Option<usize>,
    /// The name being given to the picked character.
    pub new_char_name: Option<String>,
    /// Why the server refused the name given.
    pub new_char_name_error: Option<ClientFacingError>,
    pub requests: Requests,
}

impl ClientState {
    /// The player's characters by name.
    pub open spec fn sheets(&self) -> Map<Seq<char>, PlayerCharacter> {
        keyed_map(self.characters@)
    }

    pub open spec fn wf(&self) -> bool {
        unique_keys(self.characters@) && self.requests.wf()
    }

    pub fn new() -> (s: Self)
        ensures
            s.wf(),
            !s.logged_in,
            s.username@.len() == 0,
            s.logs@.len() == 0,
            s.unread_messages == 0,
            !s.unread_msg_buffer,
            s.sheets() == Map::<Seq<char>, PlayerCharacter>::empty(),
            s.characters@.len() == 0,
            s.notes@.len() == 0,
            s.new_characters@.len() == 0,
            s.picked_character is None,
            s.new_char_name is None,
            s.new_char_name_error is None,
            s.requests.statuses() == Map::<Request, RequestStatus>::empty(),
    {
        let s = Self {
            logged_in: false,
            username: String::new(),
            logs: Vec::new(),
            unread_messages: 0,
            unread_msg_buffer: false,
            characters: Vec::new(),
            notes: String::new(),
            new_characters: Vec::new(),
            picked_character: None,
            new_char_name: None,
            new_char_name_error: None,
            requests: Requests::new(),
        };
        assert(s.sheets() =~= Map::<Seq<char>, PlayerCharacter>::empty());
        s
    }

    /// A chat message came in: it goes first in the log and counts as unread.
    pub fn receive_chat(&mut self, msg: ChatMessage)
        requires
            old(self).unread_messages < u32::MAX,
        ensures
            final(self).logs@ == old(self).logs@.insert(0, msg),
            final(self).unread_messages == old(self).unread_messages + 1,
            final(self).unread_msg_buffer == (old(self).unread_messages == 0 || old(self).unread_msg_buffer),
            *final(self) == (ClientState { logs: final(self).logs, unread_messages: final(self).unread_messages,
                unread_msg_buffer: final(self).unread_msg_buffer, ..*old(self) }),
    {
        self.logs.insert(0, msg);
        if self.unread_messages == 0 {
            self.unread_msg_buffer = true;
        }
        self.unread_messages = self.unread_messages + 1;
    }

    /// The server made the account or refused it; a made account is logged in with next: the
    /// name and password to send are given back.
    pub fn account_created(&mut self, success: bool, username: String, password: String) -> (log_in: Option<(String, String)>)
        ensures
            success ==> final(self).username@ == username@ && log_in == Some((username, password)),
            !success ==> final(self).username == old(self).username && log_in is None,
            *final(self) == (ClientState { username: final(self).username, ..*old(self) }),
    {
        if success {
            self.username = username.clone();
            Some((username, password))
        } else {
            None
        }
    }

    /// The server took the picked character under `name` or refused the name. When it took it,
    /// the picked character is no longer offered and the name asked for back is given back.
    pub fn character_created(&mut self, result: Result<(), ClientFacingError>, name: String) -> (update: Option<String>)
        ensures
            match result {
                Err(e) => final(self).new_char_name_error == Some(e) && update is None
                    && final(self).new_characters == old(self).new_characters
                    && final(self).picked_character == old(self).picked_character
                    && final(self).new_char_name == old(self).new_char_name,
                Ok(()) => update == Some(name)
                    && final(self).new_characters@ == match old(self).picked_character {
                        Some(i) => if i < old(self).new_characters@.len() { old(self).new_characters@.remove(i as int) }
                            else { old(self).new_characters@ },
                        None => old(self).new_characters@,
                    }
                    && final(self).picked_character is None
                    && final(self).new_char_name is None
                    && final(self).new_char_name_error is None,
            },
            *final(self) == (ClientState { new_char_name_error: final(self).new_char_name_error,
                new_characters: final(self).new_characters, picked_character: final(self).picked_character,
                new_char_name: final(self).new_char_name, ..*old(self) }),
    {
        match result {
            Err(e) => {
                self.new_char_name_error = Some(e);
                None
            },
            Ok(()) => {
                match self.picked_character {
                    Some(i) => {
                        if i < self.new_characters.len() {
                            self.new_characters.remove(i);
                        }
                    },
                    None => {},
                }
                self.picked_character = None;
                self.new_char_name = None;
                self.new_char_name_error = None;
                Some(name)
            },
        }
    }

    /// The server sent a character sheet: it is kept under its name, with the notes the player
    /// wrote on the sheet it replaces.
    pub fn update_character(&mut self, name: String, character: PlayerCharacter)
        requires
            old(self).wf(),
        ensures
            final(self).wf(),
            final(self).sheets() == old(self).sheets().insert(name@,
                if old(self).sheets().contains_key(name@) {
                    PlayerCharacter { notes: old(self).sheets()[name@].notes, ..character }
                } else {
                    character
                }),
            *final(self) == (ClientState { characters: final(self).characters, ..*old(self) }),
    {
        let mut character = character;
        match key_position(&self.characters, &name) {
            Some(j) => {
                character.notes = self.characters[j].1.notes.clone();
                let ghost before = self.characters@;
                proof { lemma_keyed_update(before, j as int, character); }
                let (k, _) = self.characters.remove(j);
                self.characters.insert(j, (k, character));
                assert(self.characters@ == before.update(j as int, (before[j as int].0, character)));
            },
            None => {
                let ghost before = self.characters@;
                proof { lemma_keyed_push(before, (name, character)); }
                self.characters.push((name, character));
            },
        }
    }

    /// When no character is offered, an approved request for new ones brings the offer: five
    /// freshly rolled characters. A denied request is forgotten; one not yet answered is kept.
    pub fn collect_new_characters(&mut self)
        requires
            old(self).wf(),
        ensures
            final(self).wf(),
            *final(self) == (ClientState { new_characters: final(self).new_characters,
                requests: final(self).requests, ..*old(self) }),
            old(self).new_characters@.len() > 0 ==> final(self).new_characters == old(self).new_characters
                && final(self).requests == old(self).requests,
            old(self).new_characters@.len() == 0 ==> {
                let answer = if old(self).requests.statuses().contains_key(Request::GenerateCharacters) {
                    Some(old(self).requests.statuses()[Request::GenerateCharacters])
                } else {
                    None
                };
                &&& (answer == Some(RequestStatus::Approved) || answer == Some(RequestStatus::Denied)) ==>
                    final(self).requests.statuses() == old(self).requests.statuses().remove(Request::GenerateCharacters)
                &&& !(answer == Some(RequestStatus::Approved) || answer == Some(RequestStatus::Denied)) ==>
                    final(self).requests.statuses() == old(self).requests.statuses()
                &&& answer == Some(RequestStatus::Approved) ==> final(self).new_characters@.len() == OFFERED_CHARACTERS
                    && forall|i: int| 0 <= i < OFFERED_CHARACTERS ==> is_rolled(#[trigger] final(self).new_characters@[i])
                &&& answer != Some(RequestStatus::Approved) ==> final(self).new_characters@.len() == 0
            },
    {
        if self.new_characters.len() > 0 {
            return;
        }
        match self.requests.consume(Request::GenerateCharacters) {
            Some(true) => {
                let ghost req = self.requests;
                let ghost before = *self;
                let mut k: usize = 0;
                while k < OFFERED_CHARACTERS
                    invariant
                        *self == (ClientState { new_characters: self.new_characters, ..before }),
                        before.requests == req,
                        before.characters == old(self).characters,
                        before.logs == old(self).logs,
                        before.username == old(self).username,
                        before.notes == old(self).notes,
                        before.logged_in == old(self).logged_in,
                        before.unread_messages == old(self).unread_messages,
                        before.unread_msg_buffer == old(self).unread_msg_buffer,
                        before.picked_character == old(self).picked_character,
                        before.new_char_name == old(self).new_char_name,
                        before.new_char_name_error == old(self).new_char_name_error,
                        self.requests == req,
                        req.wf(),
                        self.characters == old(self).characters,
                        unique_keys(old(self).characters@),
                        k <= OFFERED_CHARACTERS,
                        self.new_characters@.len() == k,
                        forall|i: int| 0 <= i < k ==> is_rolled(#[trigger] self.new_characters@[i]),
                    decreases OFFERED_CHARACTERS - k,
                {
                    self.new_characters.push(PlayerCharacter::random());
                    k = k + 1;
                }
            },
            _ => {},
        }
    }

    /// The player picks one of the offered characters.
    pub fn pick_character(&mut self, index: usize)
        ensures
            *final(self) == (ClientState { picked_character: Some(index), ..*old(self) }),
    {
        self.picked_character = Some(index);
    }

    /// With no character picked, an offer worn down to three or fewer is dropped (two have been
    /// taken from the five).
    pub fn drop_leftovers(&mut self)
        ensures
            final(self).new_characters@ == if old(self).picked_character is None && old(self).new_characters@.len() <= 3 {
                Seq::<PlayerCharacter>::empty()
            } else {
                old(self).new_characters@
            },
            *final(self) == (ClientState { new_characters: final(self).new_characters, ..*old(self) }),
    {
        if self.picked_character.is_none() && self.new_characters.len() <= 3 {
            self.new_characters.clear();
        }
    }
}

} // verus!
