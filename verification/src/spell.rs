use vstd::prelude::*;
use vstd::string::*;

use crate::text::{nat_digits, push_decimal};
use crate::keyed::unique_keys;

verus! {

pub struct Spell {
    pub magic_type: MagicType,
    pub name: String,
    pub description: String,
    pub spell_level: u8,
    pub reversed: Option<String>,
    pub range: SpellRange,
    pub duration: SpellDuration,
}

impl Spell {
    pub fn default() -> (s: Self)
        ensures
            s.magic_type == MagicType::Arcane,
            s.name@.len() == 0,
            s.description@.len() == 0,
            s.spell_level == 0,
            s.reversed is None,
            s.range == SpellRange::OnSelf,
            s.duration == SpellDuration::Instant,
    {
        Self {
            magic_type: MagicType::Arcane,
            name: String::new(),
            description: String::new(),
            spell_level: 0,
            reversed: None,
            range: SpellRange::OnSelf,
            duration: SpellDuration::Instant,
        }
    }
}

#[derive(Debug, Clone, Copy, PartialEq, Eq, Hash, Structural)]
pub enum MagicType {
    Arcane,
    Divine,
}

impl MagicType {
    pub fn label(&self) -> (s: &'static str)
        ensures
            s@ == match *self {
                Self::Arcane => "Arcane"@,
                Self::Divine => "Divine"@,
            },
    {
        match self {
            Self::Arcane => "Arcane",
            Self::Divine => "Divine",
        }
    }
}

#[derive(Debug, Clone, Copy, PartialEq, Eq, Hash, Structural)]
pub enum SpellRange {
    OnSelf,
    Touch,
    Feet(u32),
    RadiusFeet(u32),
    Unlimited,
    Special,
}

impl SpellRange {
    pub fn display(&self) -> (s: String)
        ensures
            s@ == match *self {
                Self::OnSelf => "Self"@,
                Self::Touch => "Touch"@,
                Self::Feet(_) => "Feet"@,
                Self::RadiusFeet(_) => "Feet Radius"@,
                Self::Unlimited => "Unlimited"@,
                Self::Special => "Special"@,
            },
    {
        match self {
            Self::OnSelf => "Self",
            Self::Touch => "Touch",
            Self::Feet(_) => "Feet",
            Self::RadiusFeet(_) => "Feet Radius",
            Self::Unlimited => "Unlimited",
            Self::Special => "Special",
        }.to_owned()
    }

    pub open spec fn words(self) -> Seq<char> {
        match self {
            Self::OnSelf => "self"@,
            Self::Touch => "touch"@,
            Self::Feet(n) => nat_digits(n as nat) + "'"@,
            Self::RadiusFeet(n) => nat_digits(n as nat) + "' radius"@,
            Self::Unlimited => "unlimited"@,
            Self::Special => "special"@,
        }
    }

    /// The range as it reads in a spell's description.
    pub fn label(&self) -> (s: String)
        ensures
            s@ == self.words(),
    {
        match self {
            Self::OnSelf => "self".to_owned(),
            Self::Touch => "touch".to_owned(),
            Self::Feet(n) => {
                let mut s = String::new();
                push_decimal(&mut s, *n as u64);
                s.append("'");
                s
            },
            Self::RadiusFeet(n) => {
                let mut s = String::new();
                push_decimal(&mut s, *n as u64);
                s.append("' radius");
                s
            },
            Self::Unlimited => "unlimited".to_owned(),
            Self::Special => "special".to_owned(),
        }
    }
}

#[derive(Debug, Clone, Copy, PartialEq, Eq, Hash, Structural)]
pub enum SpellDuration {
    Instant,
    Rounds(u32),
    RoundsPerLevel(u32),
    Turns(u32),
    TurnsPerLevel(u32),
    Days(u32),
    DaysPerLevel(u32),
    Concentration,
    Permanent,
    Special,
}

impl SpellDuration {
    pub fn display(&self) -> (s: String)
        ensures
            s@ == match *self {
                Self::Instant => "Instantaneous"@,
                Self::Rounds(_) => "Rounds"@,
                Self::RoundsPerLevel(_) => "Rounds per Level"@,
                Self::Turns(_) => "Turns"@,
                Self::TurnsPerLevel(_) => "Turns per Level"@,
                Self::Days(_) => "Days"@,
                Self::DaysPerLevel(_) => "Days per Level"@,
                Self::Concentration => "Concentration"@,
                Self::Permanent => "Permanent"@,
                Self::Special => "Special"@,
            },
    {
        match self {
            Self::Instant => "Instantaneous",
            Self::Rounds(_) => "Rounds",
            Self::RoundsPerLevel(_) => "Rounds per Level",
            Self::Turns(_) => "Turns",
            Self::TurnsPerLevel(_) => "Turns per Level",
            Self::Days(_) => "Days",
            Self::DaysPerLevel(_) => "Days per Level",
            Self::Concentration => "Concentration",
            Self::Permanent => "Permanent",
            Self::Special => "Special",
        }.to_owned()
    }

    pub open spec fn words(self) -> Seq<char> {
        match self {
            Self::Instant => "instantaneous"@,
            Self::Rounds(n) => nat_digits(n as nat) + " rounds"@,
            Self::RoundsPerLevel(n) => nat_digits(n as nat) + " rounds per level"@,
            Self::Turns(n) => nat_digits(n as nat) + " turns"@,
            Self::TurnsPerLevel(n) => nat_digits(n as nat) + " turns per level"@,
            Self::Days(n) => nat_digits(n as nat) + " days"@,
            Self::DaysPerLevel(n) => nat_digits(n as nat) + " days per level"@,
            Self::Concentration => "concentration"@,
            Self::Permanent => "permanent"@,
            Self::Special => "special"@,
        }
    }

    /// The duration as it reads in a spell's description.
    pub fn label(&self) -> (s: String)
        ensures
            s@ == self.words(),
    {
        let (n, unit): (u32, &str) = match self {
            Self::Instant => { return "instantaneous".to_owned(); },
            Self::Rounds(n) => (*n, " rounds"),
            Self::RoundsPerLevel(n) => (*n, " rounds per level"),
            Self::Turns(n) => (*n, " turns"),
            Self::TurnsPerLevel(n) => (*n, " turns per level"),
            Self::Days(n) => (*n, " days"),
            Self::DaysPerLevel(n) => (*n, " days per level"),
            Self::Concentration => { return "concentration".to_owned(); },
            Self::Permanent => { return "permanent".to_owned(); },
            Self::Special => { return "special".to_owned(); },
        };
        let mut s = String::new();
        push_decimal(&mut s, n as u64);
        s.append(unit);
        s
    }
}

/// Every known spell, by magic type and spell level, each under its id (no id twice in a level).
pub struct SpellRegistry {
    pub divine: [Vec<(String, Spell)>; 7],
    pub arcane: [Vec<(String, Spell)>; 9],
}

/// The name of the spell with id `id` in `level`, if there is one (the first such, ids being unique).
pub open spec fn spell_name(level: Seq<(String, Spell)>, id: Seq<char>) -> Option<Seq<char>>
    decreases level.len(),
{
    if level.len() == 0 {
        None
    } else if level[0].0@ == id {
        Some(level[0].1.name@)
    } else {
        spell_name(level.drop_first(), id)
    }
}

/// A random number, from `rand::random::<usize>()`: any `usize` can come.
#[verifier::external_body]
fn random_usize() -> usize {
    rand::random::<usize>()
}

impl SpellRegistry {
    pub fn new() -> (r: Self)
        ensures
            forall|i: int| 0 <= i < 7 ==> (#[trigger] r.divine@[i])@.len() == 0,
            forall|i: int| 0 <= i < 9 ==> (#[trigger] r.arcane@[i])@.len() == 0,
            r.wf(),
    {
        Self {
            divine: [Vec::new(), Vec::new(), Vec::new(), Vec::new(), Vec::new(), Vec::new(), Vec::new()],
            arcane: [Vec::new(), Vec::new(), Vec::new(), Vec::new(), Vec::new(), Vec::new(), Vec::new(),
                Vec::new(), Vec::new()],
        }
    }

    /// No id occurs twice in a level.
    pub open spec fn wf(&self) -> bool {
        &&& forall|i: int| 0 <= i < 7 ==> unique_keys(#[trigger] self.divine@[i]@)
        &&& forall|i: int| 0 <= i < 9 ==> unique_keys(#[trigger] self.arcane@[i]@)
    }

    /// The id that the number `r` picks among the arcane spells of `level`: the one at `r`
    /// modulo their count, or `None` when the level has none.
    pub open spec fn arcane_pick(&self, level: u8, r: usize) -> Option<Seq<char>> {
        if level >= 9 || self.arcane@[level as int]@.len() == 0 {
            None
        } else {
            let spells = self.arcane@[level as int]@;
            Some(spells[(r as int) % (spells.len() as int)].0@)
        }
    }

    /// The id of the arcane spell of `level` that the number `r` picks.
    pub fn arcane_at(&self, level: u8, r: usize) -> (id: Option<String>)
        ensures
            match id {
                Some(k) => self.arcane_pick(level, r) == Some(k@),
                None => self.arcane_pick(level, r) is None,
            },
    {
        if level < 9 {
            let spells = &self.arcane[level as usize];
            if spells.len() == 0 {
                None
            } else {
                let i = r % spells.len();
                Some(spells[i].0.clone())
            }
        } else {
            None
        }
    }

    /// The id of a randomly picked arcane spell of `level`, or `None` when there is none: the
    /// pick of some number drawn from `rand`.
    pub fn random_arcane(&self, level: u8) -> (id: Option<String>)
        ensures
            exists|r: usize| match id {
                Some(k) => #[trigger] self.arcane_pick(level, r) == Some(k@),
                None => self.arcane_pick(level, r) is None,
            },
            level >= 9 ==> id is None,
            level < 9 ==> (id is None <==> self.arcane@[level as int]@.len() == 0),
            id matches Some(k) ==> exists|i: int| 0 <= i < self.arcane@[level as int]@.len()
                && k@ == #[trigger] self.arcane@[level as int]@[i].0@,
    {
        let r = random_usize();
        let id = self.arcane_at(level, r);
        proof {
            if level < 9 && self.arcane@[level as int]@.len() > 0 {
                let spells = self.arcane@[level as int]@;
                let i = (r as int) % (spells.len() as int);
                assert(0 <= i < spells.len());
            }
        }
        id
    }

    /// The name of the spell `id` of the given level and type, or `default` when it is unknown.
    pub fn get_spell_name_or<'a>(&'a self, id: &str, lvl: u8, magic_type: MagicType, default: &'a str) -> (name: &'a str)
        ensures
            name@ == match magic_type {
                MagicType::Divine => if lvl < 7 { match spell_name(self.divine@[lvl as int]@, id@) {
                    Some(n) => n, None => default@ } } else { default@ },
                MagicType::Arcane => if lvl < 9 { match spell_name(self.arcane@[lvl as int]@, id@) {
                    Some(n) => n, None => default@ } } else { default@ },
            },
    {
        let level = match magic_type {
            MagicType::Divine => if lvl < 7 { &self.divine[lvl as usize] } else { return default; },
            MagicType::Arcane => if lvl < 9 { &self.arcane[lvl as usize] } else { return default; },
        };
        let id_string = id.to_owned();
        let n = level.len();
        assert(level@.skip(0) == level@);
        for i in 0..n
            invariant
                n == level@.len(),
                id_string@ == id@,
                magic_type == MagicType::Divine ==> lvl < 7 && level@ == self.divine@[lvl as int]@,
                magic_type == MagicType::Arcane ==> lvl < 9 && level@ == self.arcane@[lvl as int]@,
                spell_name(level@, id@) == spell_name(level@.skip(i as int), id@),
        {
            proof {
                assert(level@.skip(i + 1) == level@.skip(i as int).drop_first());
                assert(level@.skip(i as int)[0] == level@[i as int]);
            }
            if level[i].0 == id_string {
                return level[i].1.name.as_str();
            }
        }
        assert(level@.skip(n as int).len() == 0);
        default
    }

    pub fn get_spell_name_or_default<'a>(&'a self, id: &str, lvl: u8, magic_type: MagicType) -> (name: &'a str)
        ensures
            name@ == match magic_type {
                MagicType::Divine => if lvl < 7 { match spell_name(self.divine@[lvl as int]@, id@) {
                    Some(n) => n, None => "Nonexistent Spell"@ } } else { "Nonexistent Spell"@ },
                MagicType::Arcane => if lvl < 9 { match spell_name(self.arcane@[lvl as int]@, id@) {
                    Some(n) => n, None => "Nonexistent Spell"@ } } else { "Nonexistent Spell"@ },
            },
    {
        self.get_spell_name_or(id, lvl, magic_type, "Nonexistent Spell")
    }
}

} // verus!
