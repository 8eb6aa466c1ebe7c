use vstd::prelude::*;

use crate::dice::{DiceRoll, roll, possible_result, Drop};
use crate::class::SavingThrowProgressionType;

verus! {

/// The six basic attributes (ability scores).
#[derive(Debug, Copy, Clone, PartialEq, Eq, Structural)]
pub struct Attributes {
    pub strength: u8,
    pub dexterity: u8,
    pub constitution: u8,
    pub intelligence: u8,
    pub wisdom: u8,
    pub charisma: u8,
}

#[derive(Debug, Clone, Copy, PartialEq, Eq, Hash, Structural)]
pub enum Attr {
    STR,
    DEX,
    CON,
    INT,
    WIS,
    CHA,
}

impl Attr {
    /// The attribute's short name.
    pub fn label(&self) -> (s: &'static str)
        ensures
            s@ == match *self {
                Attr::STR => "STR"@,
                Attr::DEX => "DEX"@,
                Attr::CON => "CON"@,
                Attr::INT => "INT"@,
                Attr::WIS => "WIS"@,
                Attr::CHA => "CHA"@,
            },
    {
        match self {
            Attr::STR => "STR",
            Attr::DEX => "DEX",
            Attr::CON => "CON",
            Attr::INT => "INT",
            Attr::WIS => "WIS",
            Attr::CHA => "CHA",
        }
    }
}

/// The modifier that an attribute score gives.
pub open spec fn score_modifier(a: int) -> int {
    if a >= 18 { 3 }
    else if a >= 16 { 2 }
    else if a >= 13 { 1 }
    else if a >= 9 { 0 }
    else if a >= 6 { -1 }
    else if a >= 4 { -2 }
    else { -3 }
}

/// Whether `v` is a value that rolling three six-sided dice can give.
pub open spec fn three_d6(v: u8) -> bool {
    possible_result(DiceRoll::spec_simple(3, 6, 0, Drop::Nothing), v as int)
}

impl Attributes {
    pub open spec fn score(self, attr: Attr) -> u8 {
        match attr {
            Attr::STR => self.strength,
            Attr::DEX => self.dexterity,
            Attr::CON => self.constitution,
            Attr::INT => self.intelligence,
            Attr::WIS => self.wisdom,
            Attr::CHA => self.charisma,
        }
    }

    /// Six scores, each rolled on three six-sided dice.
    pub fn random() -> (a: Self)
        ensures
            three_d6(a.strength),
            three_d6(a.dexterity),
            three_d6(a.constitution),
            three_d6(a.intelligence),
            three_d6(a.wisdom),
            three_d6(a.charisma),
    {
        Self {
            strength: roll_score(DiceRoll::simple(3, 6)),
            dexterity: roll_score(DiceRoll::simple(3, 6)),
            constitution: roll_score(DiceRoll::simple(3, 6)),
            intelligence: roll_score(DiceRoll::simple(3, 6)),
            wisdom: roll_score(DiceRoll::simple(3, 6)),
            charisma: roll_score(DiceRoll::simple(3, 6)),
        }
    }

    /// Gets the attribute modifier for the specified attribute.
    pub fn modifier(&self, attr: Attr) -> (m: i32)
        ensures
            m == score_modifier(self.score(attr) as int),
    {
        let a = match attr {
            Attr::STR => self.strength,
            Attr::DEX => self.dexterity,
            Attr::CON => self.constitution,
            Attr::INT => self.intelligence,
            Attr::WIS => self.wisdom,
            Attr::CHA => self.charisma,
        };
        if a >= 18 { 3 }
        else if a >= 16 { 2 }
        else if a >= 13 { 1 }
        else if a >= 9 { 0 }
        else if a >= 6 { -1 }
        else if a >= 4 { -2 }
        else { -3 }
    }
}

/// Rolls three or four six-sided dice (keeping three) for an attribute score.
pub fn roll_score(r: DiceRoll) -> (v: u8)
    requires
        r == DiceRoll::spec_simple(3, 6, 0, Drop::Nothing)
            || r == DiceRoll::spec_simple(4, 6, 0, Drop::DropHighest(1))
            || r == DiceRoll::spec_simple(4, 6, 0, Drop::DropLowest(1)),
    ensures
        possible_result(r, v as int),
{
    let x = roll(r);
    proof { crate::dice::lemma_small_roll_range(r, x as int); }
    x as u8
}

/// All the information relating to an entity's health, i.e. its current and max hp.
#[derive(Debug, Copy, Clone, PartialEq, Eq, Structural)]
pub struct Health {
    pub max_hp: u32,
    pub current_hp: i32,
}

impl Health {
    pub fn new() -> (h: Self)
        ensures
            h == (Health { max_hp: 0, current_hp: 0 }),
    {
        Self { max_hp: 0, current_hp: 0 }
    }
}

/// The saving throw modifiers. Note this is target 20 rather than the way ACKS normally does it
/// (normally, saving throw of 15+ means roll 1d20 + modifiers, 15 or more is success. In target
/// 20, roll 1d20 + saving throw + modifiers, 20 or more is success. To convert, simply do
/// 20 - old target = new modifier).
#[derive(Debug, Clone, Copy, PartialEq, Eq, Structural)]
pub struct SavingThrows {
    pub petrification_paralysis: i32,
    pub poison_death: i32,
    pub blast_breath: i32,
    pub staffs_wands: i32,
    pub spells: i32,
}

/// The saves with `m` added to each.
pub open spec fn saves_plus(s: SavingThrows, m: int) -> SavingThrows {
    SavingThrows {
        petrification_paralysis: (s.petrification_paralysis + m) as i32,
        poison_death: (s.poison_death + m) as i32,
        blast_breath: (s.blast_breath + m) as i32,
        staffs_wands: (s.staffs_wands + m) as i32,
        spells: (s.spells + m) as i32,
    }
}

pub open spec fn saves_fit(s: SavingThrows, m: int) -> bool {
    &&& i32::MIN <= s.petrification_paralysis + m <= i32::MAX
    &&& i32::MIN <= s.poison_death + m <= i32::MAX
    &&& i32::MIN <= s.blast_breath + m <= i32::MAX
    &&& i32::MIN <= s.staffs_wands + m <= i32::MAX
    &&& i32::MIN <= s.spells + m <= i32::MAX
}

pub open spec fn saves_of(pp: int, pd: int, bb: int, sw: int, sp: int) -> SavingThrows {
    SavingThrows {
        petrification_paralysis: pp as i32,
        poison_death: pd as i32,
        blast_breath: bb as i32,
        staffs_wands: sw as i32,
        spells: sp as i32,
    }
}

/// The base saves of a progression, before levels and wisdom.
pub open spec fn base_saves(t: SavingThrowProgressionType) -> SavingThrows {
    match t {
        SavingThrowProgressionType::Fighter => saves_of(5, 6, 4, 4, 3),
        SavingThrowProgressionType::Cleric => saves_of(7, 10, 4, 7, 5),
        SavingThrowProgressionType::Mage => saves_of(7, 7, 5, 9, 8),
        SavingThrowProgressionType::Thief => saves_of(7, 7, 4, 6, 5),
    }
}

/// How much the saves have improved by `level` (at least 1).
pub open spec fn save_level_bonus(t: SavingThrowProgressionType, level: int) -> int {
    match t {
        SavingThrowProgressionType::Fighter => {
            if level <= 1 { 0 }
            else if level <= 3 { 1 }
            else if level == 4 { 2 }
            else if level <= 6 { 3 }
            else if level == 7 { 4 }
            else if level <= 9 { 5 }
            else if level == 10 { 6 }
            else if level <= 12 { 7 }
            else if level == 13 { 8 }
            else { 9 }
        },
        SavingThrowProgressionType::Cleric | SavingThrowProgressionType::Thief => (level - 1) / 2,
        SavingThrowProgressionType::Mage => (level - 1) / 3,
    }
}

/// The saves of a character of the given progression and level with the given attributes.
pub open spec fn saves_for(t: SavingThrowProgressionType, level: u8, attrs: Attributes) -> SavingThrows {
    let wis = score_modifier(attrs.wisdom as int);
    if level == 0 {
        saves_plus(saves_of(4, 5, 3, 3, 2), wis)
    } else {
        saves_plus(saves_plus(base_saves(t), save_level_bonus(t, level as int)), wis)
    }
}

impl SavingThrows {
    pub fn new() -> (s: Self)
        ensures
            s == saves_of(0, 0, 0, 0, 0),
    {
        Self { petrification_paralysis: 0, poison_death: 0, blast_breath: 0, staffs_wands: 0, spells: 0 }
    }

    pub fn from(petrification_paralysis: i32, poison_death: i32, blast_breath: i32, staffs_wands: i32, spells: i32) -> (s: Self)
        ensures
            s == (SavingThrows { petrification_paralysis, poison_death, blast_breath, staffs_wands, spells }),
    {
        Self { petrification_paralysis, poison_death, blast_breath, staffs_wands, spells }
    }

    /// Adds `modifier` to every save.
    pub fn apply_mod(self, modifier: i32) -> (s: Self)
        requires
            saves_fit(self, modifier as int),
        ensures
            s == saves_plus(self, modifier as int),
    {
        let mut s = self;
        s.blast_breath = s.blast_breath + modifier;
        s.petrification_paralysis = s.petrification_paralysis + modifier;
        s.poison_death = s.poison_death + modifier;
        s.spells = s.spells + modifier;
        s.staffs_wands = s.staffs_wands + modifier;
        s
    }

    pub fn calculate(save_type: SavingThrowProgressionType, level: u8, attrs: Attributes) -> (s: Self)
        ensures
            s == saves_for(save_type, level, attrs),
    {
        let wis = attrs.modifier(Attr::WIS);
        if level == 0 {
            return Self::from(4, 5, 3, 3, 2).apply_mod(wis);
        }
        let base = match save_type {
            SavingThrowProgressionType::Fighter => Self::from(5, 6, 4, 4, 3),
            SavingThrowProgressionType::Cleric => Self::from(7, 10, 4, 7, 5),
            SavingThrowProgressionType::Mage => Self::from(7, 7, 5, 9, 8),
            SavingThrowProgressionType::Thief => Self::from(7, 7, 4, 6, 5),
        };
        let level_mod: i32 = match save_type {
            SavingThrowProgressionType::Fighter => {
                if level <= 1 { 0 }
                else if level <= 3 { 1 }
                else if level == 4 { 2 }
                else if level <= 6 { 3 }
                else if level == 7 { 4 }
                else if level <= 9 { 5 }
                else if level == 10 { 6 }
                else if level <= 12 { 7 }
                else if level == 13 { 8 }
                else { 9 }
            },
            SavingThrowProgressionType::Cleric | SavingThrowProgressionType::Thief => (level as i32 - 1) / 2,
            SavingThrowProgressionType::Mage => (level as i32 - 1) / 3,
        };
        base.apply_mod(level_mod).apply_mod(wis)
    }

    /// The saves with every attribute at 9 (no wisdom modifier).
    pub fn calculate_simple(save_type: SavingThrowProgressionType, level: u8) -> (s: Self)
        ensures
            s == saves_for(save_type, level, average_attributes()),
    {
        Self::calculate(save_type, level, Attributes {
            strength: 9,
            dexterity: 9,
            constitution: 9,
            intelligence: 9,
            wisdom: 9,
            charisma: 9,
        })
    }
}

pub open spec fn average_attributes() -> Attributes {
    Attributes { strength: 9, dexterity: 9, constitution: 9, intelligence: 9, wisdom: 9, charisma: 9 }
}

} // verus!
