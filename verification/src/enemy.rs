use vstd::prelude::*;
use vstd::string::*;

use crate::character::{Attributes, SavingThrows, three_d6, saves_of};
use crate::combat::{CombatantStats, DamageRoll};
use crate::dice::{DiceRoll, Drop, ModifierType, roll, can_roll, possible_result};
use crate::text::{nat_digits, signed_text, push_decimal, push_signed};

verus! {

pub struct Enemy {
    pub combat_stats: CombatantStats,
}

pub struct EnemyType {
    pub name: String,
    pub description: String,
    pub hit_dice: EnemyHitDice,
    pub base_armor_class: i32,
    pub base_attack_throw: i32,
    pub base_damage: AttackRoutine,
    pub xp: u32,
    pub morale: i32,
    /// The categories the enemy belongs to; none twice.
    pub categories: Vec<EnemyCategory>,
    pub alignment: Alignment,
    pub saves: SavingThrows,
}

#[derive(Debug, Clone, Copy, PartialEq, Eq, Hash, Structural)]
pub enum EnemyCategory {
    Animal,
    Beastman,
    Construct,
    Enchanted,
    Fantastic,
    GiantHumanoid,
    Humanoid,
    Ooze,
    Summoned,
    Undead,
    Vermin,
}

#[derive(Debug, Clone, Copy, PartialEq, Eq, Hash, Structural)]
pub enum Alignment {
    Lawful,
    Neutral,
    Chaotic,
}

#[derive(Debug, Clone, Copy, PartialEq, Eq, Structural)]
pub enum EnemyHitDice {
    Standard(u32),
    WithModifier(u32, i32),
    Special(DiceRoll),
}

#[derive(Debug, Clone, Copy, PartialEq, Eq, Hash, Structural)]
pub enum AttackRoutine {
    One(DamageRoll),
    Two(DamageRoll, DamageRoll),
    Three(DamageRoll, DamageRoll, DamageRoll),
}

/// The roll that gives an enemy's hit points.
pub open spec fn hit_point_roll(hd: EnemyHitDice) -> DiceRoll {
    match hd {
        EnemyHitDice::Standard(amount) => DiceRoll {
            amount, sides: 8, modifier: 0, modifier_type: ModifierType::Add,
            apply_modifier_to_all: false, drop: Drop::Nothing, min_value: 1,
        },
        EnemyHitDice::WithModifier(amount, modifier) => DiceRoll {
            amount, sides: 8, modifier, modifier_type: ModifierType::Add,
            apply_modifier_to_all: false, drop: Drop::Nothing, min_value: 1,
        },
        EnemyHitDice::Special(r) => DiceRoll { min_value: 1, ..r },
    }
}

impl Enemy {
    /// A fresh enemy of the given type: random attributes and hit points rolled on its hit dice.
    pub fn from_type(typ: &EnemyType) -> (e: Self)
        requires
            can_roll(hit_point_roll(typ.hit_dice)),
        ensures
            possible_result(hit_point_roll(typ.hit_dice), e.combat_stats.health.current_hp as int),
            e.combat_stats.health.max_hp == e.combat_stats.health.current_hp,
            three_d6(e.combat_stats.attributes.strength),
            three_d6(e.combat_stats.attributes.dexterity),
            three_d6(e.combat_stats.attributes.constitution),
            three_d6(e.combat_stats.attributes.intelligence),
            three_d6(e.combat_stats.attributes.wisdom),
            three_d6(e.combat_stats.attributes.charisma),
            e.combat_stats.armor_class == typ.base_armor_class,
            e.combat_stats.attack_throw == typ.base_attack_throw,
            e.combat_stats.saving_throws == typ.saves,
            e.combat_stats.damage == typ.base_damage,
            e.combat_stats.attack_index == 0,
            e.combat_stats.status_effects.effects@.len() == 0,
            e.combat_stats.modifiers.wf(),
    {
        let mut s = Self { combat_stats: CombatantStats::empty() };
        s.combat_stats.attributes = Attributes::random();
        let r = match typ.hit_dice {
            EnemyHitDice::Standard(amount) => DiceRoll::new(amount, 8, 0, ModifierType::Add, false, Drop::Nothing, 1),
            EnemyHitDice::WithModifier(amount, modifier) => DiceRoll::new(amount, 8, modifier, ModifierType::Add, false, Drop::Nothing, 1),
            EnemyHitDice::Special(r) => {
                let mut r = r;
                r.min_value = 1;
                r
            },
        };
        let hp = roll(r);
        proof { crate::dice::lemma_min_one(r, hp as int); }
        s.combat_stats.health.max_hp = hp as u32;
        s.combat_stats.health.current_hp = hp;
        s.combat_stats.armor_class = typ.base_armor_class;
        s.combat_stats.attack_throw = typ.base_attack_throw;
        s.combat_stats.saving_throws = typ.saves;
        s.combat_stats.damage = typ.base_damage;
        s
    }
}

impl EnemyType {
    pub fn default() -> (e: Self)
        ensures
            e.name@.len() == 0,
            e.description@.len() == 0,
            e.hit_dice == EnemyHitDice::Standard(1),
            e.base_armor_class == 0,
            e.base_attack_throw == 10,
            e.base_damage == AttackRoutine::One(DamageRoll::spec_default()),
            e.xp == 0,
            e.morale == 0,
            e.categories@.len() == 0,
            e.alignment == Alignment::Neutral,
            e.saves == saves_of(0, 0, 0, 0, 0),
    {
        Self {
            name: String::new(),
            description: String::new(),
            hit_dice: EnemyHitDice::Standard(1),
            base_armor_class: 0,
            base_attack_throw: 10,
            base_damage: AttackRoutine::One(DamageRoll::default()),
            xp: 0,
            morale: 0,
            categories: Vec::new(),
            alignment: Alignment::Neutral,
            saves: SavingThrows::new(),
        }
    }
}

impl EnemyCategory {
    pub fn label(&self) -> (s: &'static str)
        ensures
            s@ == match *self {
                Self::Animal => "Animal"@,
                Self::Beastman => "Beastman"@,
                Self::Construct => "Construct"@,
                Self::Enchanted => "Enchanted Creature"@,
                Self::Fantastic => "Fantastic Creature"@,
                Self::GiantHumanoid => "Giant Humanoid"@,
                Self::Humanoid => "Humanoid"@,
                Self::Ooze => "Ooze"@,
                Self::Summoned => "Summoned Creature"@,
                Self::Undead => "Undead"@,
                Self::Vermin => "Vermin"@,
            },
    {
        match self {
            Self::Animal => "Animal",
            Self::Beastman => "Beastman",
            Self::Construct => "Construct",
            Self::Enchanted => "Enchanted Creature",
            Self::Fantastic => "Fantastic Creature",
            Self::GiantHumanoid => "Giant Humanoid",
            Self::Humanoid => "Humanoid",
            Self::Ooze => "Ooze",
            Self::Summoned => "Summoned Creature",
            Self::Undead => "Undead",
            Self::Vermin => "Vermin",
        }
    }
}

impl Alignment {
    pub fn label(&self) -> (s: &'static str)
        ensures
            s@ == match *self {
                Self::Lawful => "Lawful"@,
                Self::Neutral => "Neutral"@,
                Self::Chaotic => "Chaotic"@,
            },
    {
        match self {
            Self::Lawful => "Lawful",
            Self::Neutral => "Neutral",
            Self::Chaotic => "Chaotic",
        }
    }
}

impl EnemyHitDice {
    /// The kind of hit dice.
    pub fn label(&self) -> (s: &'static str)
        ensures
            s@ == match *self {
                Self::Standard(_) => "Standard"@,
                Self::WithModifier(_, _) => "With Modifier"@,
                Self::Special(_) => "Custom"@,
            },
    {
        match self {
            Self::Standard(_) => "Standard",
            Self::WithModifier(_, _) => "With Modifier",
            Self::Special(_) => "Custom",
        }
    }

    pub open spec fn text(self) -> Seq<char> {
        match self {
            Self::Standard(n) => nat_digits(n as nat),
            Self::WithModifier(n, m) => nat_digits(n as nat) + signed_text(m as int),
            Self::Special(r) => r.notation(),
        }
    }

    pub fn display(&self) -> (s: String)
        ensures
            s@ == self.text(),
    {
        match self {
            Self::Standard(n) => {
                let mut s = String::new();
                push_decimal(&mut s, *n as u64);
                s
            },
            Self::WithModifier(n, m) => {
                let mut s = String::new();
                push_decimal(&mut s, *n as u64);
                push_signed(&mut s, *m as i64);
                s
            },
            Self::Special(roll) => roll.to_notation(),
        }
    }
}

impl AttackRoutine {
    /// How many attacks the routine makes each round.
    pub fn label(&self) -> (s: &'static str)
        ensures
            s@ == match *self {
                Self::One(_) => "One per round"@,
                Self::Two(_, _) => "Two per round"@,
                Self::Three(_, _, _) => "Three per round"@,
            },
    {
        match self {
            Self::One(_) => "One per round",
            Self::Two(_, _) => "Two per round",
            Self::Three(_, _, _) => "Three per round",
        }
    }

    pub open spec fn text(self) -> Seq<char> {
        match self {
            Self::One(r1) => r1.notation(),
            Self::Two(r1, r2) => r1.notation() + "/"@ + r2.notation(),
            Self::Three(r1, r2, r3) => r1.notation() + "/"@ + r2.notation() + "/"@ + r3.notation(),
        }
    }

    pub fn display(&self) -> (s: String)
        ensures
            s@ == self.text(),
    {
        match self {
            Self::One(r1) => r1.to_notation(),
            Self::Two(r1, r2) => {
                let mut s = r1.to_notation();
                s.append("/");
                s.append(r2.to_notation().as_str());
                s
            },
            Self::Three(r1, r2, r3) => {
                let mut s = r1.to_notation();
                s.append("/");
                s.append(r2.to_notation().as_str());
                s.append("/");
                s.append(r3.to_notation().as_str());
                s
            },
        }
    }
}

} // verus!
