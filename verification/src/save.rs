use vstd::prelude::*;

use crate::keyed::{unique_keys, keyed_map, lemma_keyed_map, lemma_keyed_push, lemma_keyed_remove, lemma_keyed_update, key_position, key_names};
use crate::packets::ClientFacingError;
use crate::player::{set_up_as, can_prepare};
use crate::proficiency::Proficiency;
use crate::spell::SpellRegistry;
use crate::commands::texts;
use crate::party::Party;
use crate::map::{DungeonMap, Room};
use crate::combat::{Combatant, CombatantStats, Fight, InitiativeInfo, incapacitated};
use crate::enemy::{EnemyType, Enemy};
use crate::player::PlayerCharacter;
use crate::server::{trim, trimmed, utf8_len, check_character_name};

verus! {

/// What the server keeps of a user: their characters, by name, and their notes.
pub struct UserData {
    pub characters: Vec<(String, PlayerCharacter)>,
    pub notes: String,
}

impl UserData {
    /// No two characters share a name.
    pub open spec fn wf(&self) -> bool {
        unique_keys(self.characters@)
    }

    /// The user's characters by name.
    pub open spec fn sheets(&self) -> Map<Seq<char>, PlayerCharacter> {
        keyed_map(self.characters@)
    }

    /// A user with no character and no notes.
    pub open spec fn is_fresh(&self) -> bool {
        self.wf() && self.sheets() == Map::<Seq<char>, PlayerCharacter>::empty() && self.notes@.len() == 0
    }

    pub fn new() -> (u: Self)
        ensures
            u.is_fresh(),
    {
        let u = Self { characters: Vec::new(), notes: String::new() };
        assert(u.sheets() =~= Map::<Seq<char>, PlayerCharacter>::empty());
        u
    }
}

/// What the server saves: the accounts (name and password), each user's data and the parties.
pub struct SaveData {
    pub known_users: Vec<(String, String)>,
    pub user_data: Vec<(String, UserData)>,
    pub parties: Vec<(String, Party)>,
}

impl SaveData {
    /// The password of each account, by name.
    pub open spec fn accounts(&self) -> Map<Seq<char>, String> {
        keyed_map(self.known_users@)
    }

    /// The data of each user, by name.
    pub open spec fn users(&self) -> Map<Seq<char>, UserData> {
        keyed_map(self.user_data@)
    }

    /// No name is kept twice, and each user's characters have distinct names.
    pub open spec fn wf(&self) -> bool {
        &&& unique_keys(self.known_users@)
        &&& unique_keys(self.user_data@)
        &&& unique_keys(self.parties@)
        &&& forall|u: Seq<char>| #[trigger] self.users().contains_key(u) ==> self.users()[u].wf()
    }

    /// Whether `user` has a character called `name`.
    pub open spec fn has_sheet(&self, user: Seq<char>, name: Seq<char>) -> bool {
        self.users().contains_key(user) && self.users()[user].sheets().contains_key(name)
    }

    pub fn new() -> (s: Self)
        ensures
            s.wf(),
            s.accounts() == Map::<Seq<char>, String>::empty(),
            s.users() == Map::<Seq<char>, UserData>::empty(),
            s.parties@.len() == 0,
    {
        let s = Self { known_users: Vec::new(), user_data: Vec::new(), parties: Vec::new() };
        assert(s.accounts() =~= Map::<Seq<char>, String>::empty());
        assert(s.users() =~= Map::<Seq<char>, UserData>::empty());
        s
    }

    /// Where the data of `user` is kept.
    fn user_position(&self, user: &String) -> (r: Option<usize>)
        requires
            self.wf(),
        ensures
            match r {
                Some(i) => i < self.user_data@.len() && self.user_data@[i as int].0@ == user@
                    && self.users().contains_key(user@) && self.users()[user@] == self.user_data@[i as int].1,
                None => !self.users().contains_key(user@),
            },
    {
        key_position(&self.user_data, user)
    }

    /// Puts `u` back as the data of the user at `i`.
    fn restore_user(&mut self, i: usize, name: String, u: UserData)
        requires
            i <= old(self).user_data@.len(),
        ensures
            final(self).user_data@ == old(self).user_data@.insert(i as int, (name, u)),
            final(self).known_users == old(self).known_users,
            final(self).parties == old(self).parties,
    {
        self.user_data.insert(i, (name, u));
    }

    /// Checks a log in. On success a user seen for the first time gets empty data.
    pub fn log_in(&mut self, user: &String, password: &String) -> (ok: bool)
        requires
            old(self).wf(),
        ensures
            final(self).wf(),
            ok == (old(self).accounts().contains_key(user@) && old(self).accounts()[user@]@ == password@),
            final(self).accounts() == old(self).accounts(),
            final(self).parties == old(self).parties,
            if ok && !old(self).users().contains_key(user@) {
                final(self).users() == old(self).users().insert(user@, final(self).users()[user@])
                    && final(self).users()[user@].is_fresh()
            } else {
                final(self).users() == old(self).users()
            },
    {
        let ok = match key_position(&self.known_users, user) {
            Some(i) => self.known_users[i].1 == *password,
            None => false,
        };
        if ok && self.user_position(user).is_none() {
            let ghost before = self.user_data@;
            let fresh = UserData::new();
            let ghost f = fresh;
            proof { lemma_keyed_push(before, (*user, f)); }
            self.user_data.push((user.clone(), fresh));
            proof {
                assert(self.user_data@ == before.push((*user, f)));
                assert forall|u: Seq<char>| #[trigger] self.users().contains_key(u) implies self.users()[u].wf() by {
                    if u != user@ {
                        assert(keyed_map(before).contains_key(u));
                    }
                }
            }
        }
        ok
    }

    /// Makes an account for a name, trimmed: refused when the name is taken, is "server" or is
    /// empty. Gives back the trimmed name and whether the account was made.
    pub fn create_account(&mut self, username: &str, password: String) -> (r: (String, bool))
        requires
            old(self).wf(),
        ensures
            final(self).wf(),
            r.0@ == trim(username@),
            r.1 == (!old(self).accounts().contains_key(trim(username@)) && trim(username@) != "server"@
                && trim(username@).len() > 0),
            final(self).accounts() == if r.1 { old(self).accounts().insert(trim(username@), password) } else { old(self).accounts() },
            final(self).users() == old(self).users(),
            final(self).parties == old(self).parties,
    {
        let name = trimmed(username);
        let free = key_position(&self.known_users, &name).is_none() && !(name == "server".to_owned())
            && name.unicode_len() > 0;
        if free {
            let ghost before = self.known_users@;
            let ghost entry = (name, password);
            proof { lemma_keyed_push(before, entry); }
            self.known_users.push((name.clone(), password));
            assert(self.known_users@ == before.push(entry));
        }
        assert(self.users() == old(self).users());
        (name, free)
    }

    /// The character `name` of `user`, if there is one.
    pub fn get_player_char(&self, user: &String, name: &String) -> (r: Option<&PlayerCharacter>)
        requires
            self.wf(),
        ensures
            r is Some <==> self.has_sheet(user@, name@),
            r matches Some(c) ==> *c == self.users()[user@].sheets()[name@],
    {
        match self.user_position(user) {
            Some(i) => {
                let u = &self.user_data[i].1;
                assert(u.wf());
                match key_position(&u.characters, name) {
                    Some(j) => Some(&u.characters[j].1),
                    None => None,
                }
            },
            None => None,
        }
    }

    /// Takes the character `name` of `user` out of the save, when there is one, to work on it.
    pub fn take_player_char(&mut self, user: &String, name: &String) -> (r: Option<PlayerCharacter>)
        requires
            old(self).wf(),
        ensures
            final(self).wf(),
            final(self).accounts() == old(self).accounts(),
            final(self).parties == old(self).parties,
            match r {
                Some(c) => old(self).has_sheet(user@, name@) && c == old(self).users()[user@].sheets()[name@]
                    && final(self).users() == old(self).users().insert(user@, final(self).users()[user@])
                    && final(self).users()[user@].sheets() == old(self).users()[user@].sheets().remove(name@)
                    && final(self).users()[user@].notes == old(self).users()[user@].notes,
                None => !old(self).has_sheet(user@, name@) && final(self).users() == old(self).users(),
            },
    {
        let i = match self.user_position(user) {
            Some(i) => i,
            None => return None,
        };
        let j = match key_position(&self.user_data[i].1.characters, name) {
            Some(j) => j,
            None => return None,
        };
        let ghost before = self.user_data@;
        let (key, mut u) = self.user_data.remove(i);
        let ghost u0 = u;
        assert(u0.wf());
        proof { lemma_keyed_remove(u0.characters@, j as int); }
        let (_, sheet) = u.characters.remove(j);
        proof {
            lemma_keyed_update(before, i as int, u);
            assert(before.remove(i as int).insert(i as int, (key, u)) == before.update(i as int, (before[i as int].0, u)));
        }
        self.restore_user(i, key, u);
        proof {
            assert forall|k: Seq<char>| #[trigger] self.users().contains_key(k) implies self.users()[k].wf() by {
                if k != user@ {
                    assert(keyed_map(before).contains_key(k));
                }
            }
        }
        Some(sheet)
    }

    /// Keeps `sheet` as the character `name` of `user`, in place of one of that name; nothing is
    /// kept when the user has no data. Says whether it was kept.
    pub fn put_player_char(&mut self, user: &String, name: String, sheet: PlayerCharacter) -> (stored: bool)
        requires
            old(self).wf(),
        ensures
            final(self).wf(),
            stored == old(self).users().contains_key(user@),
            final(self).accounts() == old(self).accounts(),
            final(self).parties == old(self).parties,
            if stored {
                final(self).users() == old(self).users().insert(user@, final(self).users()[user@])
                    && final(self).users()[user@].sheets() == old(self).users()[user@].sheets().insert(name@, sheet)
                    && final(self).users()[user@].notes == old(self).users()[user@].notes
            } else {
                final(self).users() == old(self).users()
            },
    {
        let i = match self.user_position(user) {
            Some(i) => i,
            None => return false,
        };
        let ghost before = self.user_data@;
        let (key, mut u) = self.user_data.remove(i);
        let ghost u0 = u;
        assert(u0.wf());
        match key_position(&u.characters, &name) {
            Some(j) => {
                proof { lemma_keyed_update(u0.characters@, j as int, sheet); }
                let (k, _) = u.characters.remove(j);
                u.characters.insert(j, (k, sheet));
                assert(u.characters@ == u0.characters@.update(j as int, (u0.characters@[j as int].0, sheet)));
            },
            None => {
                proof { lemma_keyed_push(u0.characters@, (name, sheet)); }
                u.characters.push((name, sheet));
            },
        }
        proof {
            lemma_keyed_update(before, i as int, u);
            assert(before.remove(i as int).insert(i as int, (key, u)) == before.update(i as int, (before[i as int].0, u)));
        }
        self.restore_user(i, key, u);
        proof {
            assert forall|k: Seq<char>| #[trigger] self.users().contains_key(k) implies self.users()[k].wf() by {
                if k != user@ {
                    assert(keyed_map(before).contains_key(k));
                }
            }
        }
        true
    }

    /// Replaces the notes of `user`, when the user has data. Says whether they were replaced.
    pub fn set_notes(&mut self, user: &String, notes: String) -> (stored: bool)
        requires
            old(self).wf(),
        ensures
            final(self).wf(),
            stored == old(self).users().contains_key(user@),
            final(self).accounts() == old(self).accounts(),
            final(self).parties == old(self).parties,
            if stored {
                final(self).users() == old(self).users().insert(user@, final(self).users()[user@])
                    && final(self).users()[user@].sheets() == old(self).users()[user@].sheets()
                    && final(self).users()[user@].notes == notes
            } else {
                final(self).users() == old(self).users()
            },
    {
        let i = match self.user_position(user) {
            Some(i) => i,
            None => return false,
        };
        let ghost before = self.user_data@;
        let (key, mut u) = self.user_data.remove(i);
        assert(u.wf());
        u.notes = notes;
        proof {
            lemma_keyed_update(before, i as int, u);
            assert(before.remove(i as int).insert(i as int, (key, u)) == before.update(i as int, (before[i as int].0, u)));
        }
        self.restore_user(i, key, u);
        proof {
            assert forall|k: Seq<char>| #[trigger] self.users().contains_key(k) implies self.users()[k].wf() by {
                if k != user@ {
                    assert(keyed_map(before).contains_key(k));
                }
            }
        }
        true
    }
}

/// Why a new character of `user` cannot be called `name`, when it cannot: one of the user's
/// characters has that name, the name is only white space, or it takes more than 40 bytes.
pub open spec fn new_name_problem(u: UserData, name: Seq<char>) -> Option<ClientFacingError> {
    if u.sheets().contains_key(name) {
        Some(ClientFacingError::CharacterNameTaken)
    } else if trim(name).len() == 0 {
        Some(ClientFacingError::CharacterNameInvalid)
    } else if utf8_len(name) > 40 {
        Some(ClientFacingError::CharacterNameTooLong)
    } else {
        None
    }
}

/// `drawn` is what drawing a first level arcane spell from `spells` can give: the pick of some
/// number, so none when there is no such spell, else the id of one of them.
pub open spec fn first_level_draw(spells: SpellRegistry, drawn: Option<String>) -> bool {
    &&& exists|r: usize| match drawn {
        Some(k) => #[trigger] spells.arcane_pick(0, r) == Some(k@),
        None => spells.arcane_pick(0, r) is None,
    }
    &&& drawn is None <==> spells.arcane@[0]@.len() == 0
    &&& drawn matches Some(k) ==> exists|i: int| 0 <= i < spells.arcane@[0]@.len() && k@ == #[trigger] spells.arcane@[0]@[i].0@
}

impl SaveData {
    /// Takes a new character a user made: when the user has data and the name is free and
    /// fit, the character is readied (`set_up`, with a first level arcane spell drawn from
    /// `spells` for an arcane caster) and kept under that name. Gives `None` when the user has
    /// no data, else the outcome the user is told.
    pub fn create_character(&mut self, user: &String, name: String, character: PlayerCharacter,
        adventuring: Option<Proficiency>, spells: &SpellRegistry) -> (r: Option<Result<(), ClientFacingError>>)
        requires
            old(self).wf(),
            can_prepare(character),
            character.proficiencies.wf(),
            utf8_len(name@) <= usize::MAX,
        ensures
            final(self).wf(),
            final(self).accounts() == old(self).accounts(),
            final(self).parties == old(self).parties,
            match r {
                None => !old(self).users().contains_key(user@) && final(self).users() == old(self).users(),
                Some(Err(e)) => old(self).users().contains_key(user@)
                    && new_name_problem(old(self).users()[user@], name@) == Some(e)
                    && final(self).users() == old(self).users(),
                Some(Ok(())) => old(self).users().contains_key(user@)
                    && new_name_problem(old(self).users()[user@], name@) is None
                    && final(self).users() == old(self).users().insert(user@, final(self).users()[user@])
                    && final(self).users()[user@].notes == old(self).users()[user@].notes
                    && exists|sheet: PlayerCharacter, drawn: Option<String>| first_level_draw(*spells, drawn)
                        && set_up_as(character, sheet, adventuring, drawn)
                        && #[trigger] final(self).users()[user@].sheets() == old(self).users()[user@].sheets().insert(name@, sheet),
            },
    {
        let i = match self.user_position(user) {
            Some(i) => i,
            None => return None,
        };
        let names = key_names(&self.user_data[i].1.characters);
        proof {
            let u = self.user_data@[i as int].1;
            assert(u.wf());
            lemma_keyed_map(u.characters@, name@);
            if texts(names@).contains(name@) {
                let k = choose|k: int| 0 <= k < texts(names@).len() && texts(names@)[k] == name@;
                assert(u.characters@[k].0@ == name@);
            }
            if u.sheets().contains_key(name@) {
                let k = choose|k: int| 0 <= k < u.characters@.len() && (#[trigger] u.characters@[k]).0@ == name@;
                assert(texts(names@)[k] == name@);
            }
        }
        match check_character_name(&name, &names) {
            Some(e) => return Some(Err(e)),
            None => {},
        }
        let first_spell = spells.random_arcane(0);
        let ghost drawn = first_spell;
        let mut sheet = character;
        sheet.set_up(adventuring, first_spell);
        let ghost ready = sheet;
        self.put_player_char(user, name, sheet);
        assert(first_level_draw(*spells, drawn));
        assert(self.users()[user@].sheets() == old(self).users()[user@].sheets().insert(name@, ready));
        Some(Ok(()))
    }
}

/// What a user holds: their characters by name and their notes.
pub open spec fn same_holdings(a: Map<Seq<char>, UserData>, b: Map<Seq<char>, UserData>) -> bool {
    &&& a.dom() == b.dom()
    &&& forall|u: Seq<char>| #[trigger] a.contains_key(u) ==> a[u].sheets() == b[u].sheets() && a[u].notes == b[u].notes
}

/// An account just made logs in with the trimmed name and the password it was made with.
pub proof fn made_account_logs_in(a: SaveData, b: SaveData, username: Seq<char>, password: String)
    requires
        b.accounts() == a.accounts().insert(trim(username), password),
    ensures
        b.accounts().contains_key(trim(username)) && b.accounts()[trim(username)]@ == password@,
{
}

/// A character kept for a user is the one read back under its name.
pub proof fn kept_character_is_read_back(a: SaveData, b: SaveData, user: Seq<char>, name: Seq<char>, sheet: PlayerCharacter)
    requires
        a.users().contains_key(user),
        b.users() == a.users().insert(user, b.users()[user]),
        b.users()[user].sheets() == a.users()[user].sheets().insert(name, sheet),
    ensures
        b.has_sheet(user, name),
        b.users()[user].sheets()[name] == sheet,
{
}

/// Taking a character out and putting it back under the same name leaves every user's
/// characters and notes as they were.
pub proof fn take_then_put_back_restores(a: SaveData, b: SaveData, c: SaveData, user: Seq<char>, name: Seq<char>, sheet: PlayerCharacter)
    requires
        a.has_sheet(user, name),
        sheet == a.users()[user].sheets()[name],
        b.users() == a.users().insert(user, b.users()[user]),
        b.users()[user].sheets() == a.users()[user].sheets().remove(name),
        b.users()[user].notes == a.users()[user].notes,
        c.users() == b.users().insert(user, c.users()[user]),
        c.users()[user].sheets() == b.users()[user].sheets().insert(name, sheet),
        c.users()[user].notes == b.users()[user].notes,
    ensures
        same_holdings(a.users(), c.users()),
{
    assert(c.users()[user].sheets() =~= a.users()[user].sheets());
    assert(a.users().dom() =~= c.users().dom());
}

/// The enemy `index` of kind `type_id` in room `room` of `map`, if there is one.
pub open spec fn map_enemy(map: DungeonMap, room: Seq<char>, type_id: Seq<char>, index: int) -> Option<Enemy> {
    let rooms = keyed_map(map.rooms@);
    if rooms.contains_key(room) {
        let groups = keyed_map(rooms[room].enemies@);
        if groups.contains_key(type_id) && 0 <= index < groups[type_id].1@.len() {
            Some(groups[type_id].1@[index])
        } else {
            None
        }
    } else {
        None
    }
}

/// Whether the rooms of `map`, and the kinds of enemy in each room, have distinct names.
pub open spec fn map_keys_unique(map: DungeonMap) -> bool {
    &&& unique_keys(map.rooms@)
    &&& forall|i: int| 0 <= i < map.rooms@.len() ==> unique_keys(#[trigger] map.rooms@[i].1.enemies@)
}

/// The stats of a combatant as `save` and the loaded map hold them, if they can be found.
pub open spec fn stats_of(save: SaveData, map: Option<DungeonMap>, c: Combatant) -> Option<CombatantStats> {
    match c {
        Combatant::Enemy { room, type_id, index, .. } => match map {
            Some(m) => match map_enemy(m, room@, type_id@, index as int) {
                Some(e) => Some(e.combat_stats),
                None => None,
            },
            None => None,
        },
        Combatant::PC { user, name } => if save.has_sheet(user@, name@) {
            Some(save.users()[user@].sheets()[name@].combat_stats)
        } else {
            None
        },
    }
}

/// Finds the stats of a combatant: a character of a user in the save, or an enemy in a room of
/// the loaded map.
pub fn combatant_stats<'a>(save: &'a SaveData, map: Option<&'a DungeonMap>, c: &Combatant) -> (r: Option<&'a CombatantStats>)
    requires
        save.wf(),
        map matches Some(m) ==> map_keys_unique(*m),
    ensures
        match stats_of(*save, match map { Some(m) => Some(*m), None => None }, *c) {
            Some(s) => r matches Some(x) && *x == s,
            None => r is None,
        },
{
    match c {
        Combatant::Enemy { room, type_id, index, .. } => {
            let m = match map {
                Some(m) => m,
                None => return None,
            };
            let i = match key_position(&m.rooms, room) {
                Some(i) => i,
                None => return None,
            };
            let r = &m.rooms[i].1;
            assert(unique_keys(m.rooms@[i as int].1.enemies@));
            let j = match key_position(&r.enemies, type_id) {
                Some(j) => j,
                None => return None,
            };
            let group = &r.enemies[j].1.1;
            if *index < group.len() {
                Some(&group[*index].combat_stats)
            } else {
                None
            }
        },
        Combatant::PC { user, name } => {
            match save.get_player_char(user, name) {
                Some(sheet) => Some(&sheet.combat_stats),
                None => None,
            }
        },
    }
}

/// `map` as a plain value.
pub open spec fn loaded(map: Option<&DungeonMap>) -> Option<DungeonMap> {
    match map { Some(m) => Some(*m), None => None }
}

/// Whether a combatant can still act: its stats can be found and it is not incapacitated.
pub open spec fn able(save: SaveData, map: Option<DungeonMap>, c: Combatant) -> bool {
    match stats_of(save, map, c) {
        Some(s) => !incapacitated(s.status_effects@),
        None => false,
    }
}

/// What a combatant tells a new round: whether it cannot act and its initiative modifier, when
/// its stats can be found.
pub open spec fn initiative_of(save: SaveData, map: Option<DungeonMap>, c: Combatant) -> Option<InitiativeInfo> {
    match stats_of(save, map, c) {
        Some(s) => Some(InitiativeInfo {
            incapacitated: incapacitated(s.status_effects@),
            initiative: s.modifiers.initiative.spec_total() as i32,
        }),
        None => None,
    }
}

/// For each entry of the fight's turn order, whether that combatant can still act; what
/// `Fight::next_turn` keeps the order by.
pub fn still_able_flags(fight: &Fight, save: &SaveData, map: Option<&DungeonMap>) -> (flags: Vec<bool>)
    requires
        save.wf(),
        map matches Some(m) ==> map_keys_unique(*m),
    ensures
        flags@.len() == fight.turn_order@.len(),
        forall|i: int| 0 <= i < flags@.len() ==> #[trigger] flags@[i] == able(*save, loaded(map), fight.turn_order@[i].1),
{
    let mut flags: Vec<bool> = Vec::new();
    let n = fight.turn_order.len();
    for i in 0..n
        invariant
            n == fight.turn_order@.len(),
            save.wf(),
            map matches Some(m) ==> map_keys_unique(*m),
            flags@.len() == i,
            forall|j: int| 0 <= j < i ==> #[trigger] flags@[j] == able(*save, loaded(map), fight.turn_order@[j].1),
    {
        let b = match combatant_stats(save, map, &fight.turn_order[i].1) {
            Some(st) => !st.status_effects.is_incapacitated(),
            None => false,
        };
        flags.push(b);
    }
    flags
}

/// For each combatant of the fight, what it tells a new round; what `Fight::start_round` takes.
pub fn initiative_infos(fight: &Fight, save: &SaveData, map: Option<&DungeonMap>) -> (infos: Vec<Option<InitiativeInfo>>)
    requires
        save.wf(),
        map matches Some(m) ==> map_keys_unique(*m),
    ensures
        infos@.len() == fight.combatants@.len(),
        forall|i: int| 0 <= i < infos@.len() ==> #[trigger] infos@[i] == initiative_of(*save, loaded(map), fight.combatants@[i].1),
{
    let mut infos: Vec<Option<InitiativeInfo>> = Vec::new();
    let n = fight.combatants.len();
    for i in 0..n
        invariant
            n == fight.combatants@.len(),
            save.wf(),
            map matches Some(m) ==> map_keys_unique(*m),
            infos@.len() == i,
            forall|j: int| 0 <= j < i ==> #[trigger] infos@[j] == initiative_of(*save, loaded(map), fight.combatants@[j].1),
    {
        let info = match combatant_stats(save, map, &fight.combatants[i].1) {
            Some(st) => Some(InitiativeInfo {
                incapacitated: st.status_effects.is_incapacitated(),
                initiative: st.modifiers.initiative.total(),
            }),
            None => None,
        };
        infos.push(info);
    }
    infos
}

} // verus!
