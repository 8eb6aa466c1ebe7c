use vstd::prelude::*;
use vstd::string::*;

use crate::combat::DamageRoll;
use crate::text::{nat_digits, push_decimal};

verus! {

pub struct ItemType {
    pub name: String,
    pub description: String,
    pub value: Value,
    pub encumbrance: Encumbrance,
    /// The item's tags; none twice.
    pub tags: Vec<String>,
    pub weapon_stats: Option<WeaponStats>,
    pub armor_stats: Option<ArmorValue>,
    pub shield_stats: Option<ArmorValue>,
    pub container_stats: Option<ContainerStats>,
}

/// How much an item is worth, in copper pieces.
#[derive(Debug, Clone, Copy, PartialEq, Eq, Structural)]
pub struct Value(pub i64);

impl Value {
    pub fn from_copper(amount: i64) -> (v: Self)
        ensures
            v.0 == amount,
    {
        Self(amount)
    }

    pub fn from_silver(amount: i64) -> (v: Self)
        requires
            i64::MIN <= amount * 10 <= i64::MAX,
        ensures
            v.0 == amount * 10,
    {
        Self(amount * 10)
    }

    pub fn from_electrum(amount: i64) -> (v: Self)
        requires
            i64::MIN <= amount * 50 <= i64::MAX,
        ensures
            v.0 == amount * 50,
    {
        Self(amount * 50)
    }

    pub fn from_gold(amount: i64) -> (v: Self)
        requires
            i64::MIN <= amount * 100 <= i64::MAX,
        ensures
            v.0 == amount * 100,
    {
        Self(amount * 100)
    }

    pub fn from_platinum(amount: i64) -> (v: Self)
        requires
            i64::MIN <= amount * 500 <= i64::MAX,
        ensures
            v.0 == amount * 500,
    {
        Self(amount * 500)
    }
}

#[derive(Debug, Clone, Copy, PartialEq, Eq, Hash, Structural)]
pub enum Encumbrance {
    Negligible,
    /// 1/1,000 of a stone.
    Treasure,
    OneSixth,
    OneHalf,
    OneStone,
    VeryHeavy(u32),
}

/// A six-thousandth of a stone: the unit in which weights are counted, so that every encumbrance
/// is a whole number of it.
pub open spec fn weight_units(e: Encumbrance) -> nat {
    match e {
        Encumbrance::Negligible => 0,
        Encumbrance::Treasure => 6,
        Encumbrance::OneSixth => 1000,
        Encumbrance::OneHalf => 3000,
        Encumbrance::OneStone => 6000,
        Encumbrance::VeryHeavy(n) => 6000 * n as nat,
    }
}

impl Encumbrance {
    /// The weight, in six-thousandths of a stone.
    pub fn units(&self) -> (w: u64)
        ensures
            w == weight_units(*self),
    {
        match self {
            Encumbrance::Negligible => 0,
            Encumbrance::Treasure => 6,
            Encumbrance::OneSixth => 1000,
            Encumbrance::OneHalf => 3000,
            Encumbrance::OneStone => 6000,
            Encumbrance::VeryHeavy(n) => 6000 * *n as u64,
        }
    }

    pub open spec fn text(self) -> Seq<char> {
        match self {
            Self::Negligible => "0 Stone"@,
            Self::Treasure => "1 stone per 1,000"@,
            Self::OneSixth => "1/6 Stone"@,
            Self::OneHalf => "1/2 Stone"@,
            Self::OneStone => "1 Stone"@,
            Self::VeryHeavy(s) => nat_digits(s as nat) + " Stone"@,
        }
    }

    pub fn display(&self) -> (s: String)
        ensures
            s@ == self.text(),
    {
        match self {
            Self::Negligible => "0 Stone".to_owned(),
            Self::Treasure => "1 stone per 1,000".to_owned(),
            Self::OneSixth => "1/6 Stone".to_owned(),
            Self::OneHalf => "1/2 Stone".to_owned(),
            Self::OneStone => "1 Stone".to_owned(),
            Self::VeryHeavy(s) => {
                let mut t = String::new();
                push_decimal(&mut t, *s as u64);
                t.append(" Stone");
                t
            },
        }
    }

    pub fn label(&self) -> (s: &'static str)
        ensures
            s@ == match *self {
                Self::Negligible => "Negligible"@,
                Self::Treasure => "Treasure (1/1,000 of a stone)"@,
                Self::OneSixth => "1/6 of a stone"@,
                Self::OneHalf => "1/2 of a stone"@,
                Self::OneStone => "One stone"@,
                Self::VeryHeavy(_) => "Very Heavy"@,
            },
    {
        match self {
            Self::Negligible => "Negligible",
            Self::Treasure => "Treasure (1/1,000 of a stone)",
            Self::OneSixth => "1/6 of a stone",
            Self::OneHalf => "1/2 of a stone",
            Self::OneStone => "One stone",
            Self::VeryHeavy(_) => "Very Heavy",
        }
    }
}

pub struct WeaponStats {
    pub damage: WeaponDamage,
}

impl WeaponStats {
    pub fn default() -> (w: Self)
        ensures
            w.damage matches WeaponDamage::Melee(MeleeDamage::OneHanded(d)) && d == DamageRoll::spec_default(),
    {
        Self { damage: WeaponDamage::Melee(MeleeDamage::OneHanded(DamageRoll::default())) }
    }
}

pub enum WeaponDamage {
    Melee(MeleeDamage),
    /// The damage and the kind of ammunition.
    Missile(DamageRoll, String),
}

impl WeaponDamage {
    pub fn display(&self) -> (s: String)
        ensures
            s@ == match *self {
                Self::Melee(_) => "Melee"@,
                Self::Missile(_, _) => "Missile"@,
            },
    {
        match self {
            Self::Melee(_) => "Melee".to_owned(),
            Self::Missile(_, _) => "Missile".to_owned(),
        }
    }
}

#[derive(Debug, Clone, Copy, PartialEq, Eq, Structural)]
pub enum MeleeDamage {
    OneHanded(DamageRoll),
    Versatile(DamageRoll, DamageRoll),
    TwoHanded(DamageRoll),
}

impl MeleeDamage {
    pub fn display(&self) -> (s: String)
        ensures
            s@ == match *self {
                Self::OneHanded(_) => "One-Handed"@,
                Self::Versatile(_, _) => "Versatile"@,
                Self::TwoHanded(_) => "Two-Handed"@,
            },
    {
        match self {
            Self::OneHanded(_) => "One-Handed".to_owned(),
            Self::Versatile(_, _) => "Versatile".to_owned(),
            Self::TwoHanded(_) => "Two-Handed".to_owned(),
        }
    }
}

pub type ArmorValue = u32;

#[derive(Debug, Clone, Copy, PartialEq, Eq, Structural)]
pub enum ContainerStats {
    Items(u32),
    Stone(u32),
}

impl ContainerStats {
    pub fn label(&self) -> (s: &'static str)
        ensures
            s@ == match *self {
                Self::Items(_) => "Items"@,
                Self::Stone(_) => "Stone"@,
            },
    {
        match self {
            Self::Items(_) => "Items",
            Self::Stone(_) => "Stone",
        }
    }
}

pub struct Item {
    pub item_type: ItemType,
    pub count: u32,
}

impl Item {
    pub fn from_type(item_type: ItemType, count: u32) -> (i: Self)
        ensures
            i == (Item { item_type, count }),
    {
        Self { item_type, count }
    }

    /// The weight of the whole stack, in six-thousandths of a stone.
    pub open spec fn weight(self) -> nat {
        weight_units(self.item_type.encumbrance) * self.count as nat
    }
}

/// The kinds of coin, from the least worth to the most.
#[derive(Debug, Clone, Copy, PartialEq, Eq, Hash, Structural)]
pub enum Currency {
    CP,
    SP,
    EP,
    GP,
    PP,
}

/// The tag that marks a coin of the given kind.
pub open spec fn currency_tag(c: Currency) -> Seq<char> {
    match c {
        Currency::CP => "cp"@,
        Currency::SP => "sp"@,
        Currency::EP => "ep"@,
        Currency::GP => "gp"@,
        Currency::PP => "pp"@,
    }
}

pub open spec fn currency_value(c: Currency) -> i64 {
    match c {
        Currency::CP => 1,
        Currency::SP => 10,
        Currency::EP => 50,
        Currency::GP => 100,
        Currency::PP => 500,
    }
}

pub open spec fn currency_name(c: Currency) -> Seq<char> {
    match c {
        Currency::CP => "Copper Piece"@,
        Currency::SP => "Silver Piece"@,
        Currency::EP => "Electrum Piece"@,
        Currency::GP => "Gold Piece"@,
        Currency::PP => "Platinum Piece"@,
    }
}

pub open spec fn currency_description(c: Currency) -> Seq<char> {
    match c {
        Currency::CP => "A copper coin."@,
        Currency::SP => "A silver coin."@,
        Currency::EP => "An electrum coin."@,
        Currency::GP => "A gold coin."@,
        Currency::PP => "A platinum coin."@,
    }
}

/// Whether `t` is the item type of one coin of kind `c`.
pub open spec fn is_coin(t: ItemType, c: Currency) -> bool {
    &&& t.name@ == currency_name(c)
    &&& t.description@ == currency_description(c)
    &&& t.value.0 == currency_value(c)
    &&& t.encumbrance == Encumbrance::Treasure
    &&& t.tags@.len() == 1
    &&& t.tags@[0]@ == currency_tag(c)
    &&& t.weapon_stats is None
    &&& t.armor_stats is None
    &&& t.shield_stats is None
    &&& t.container_stats is None
}

impl ItemType {
    pub fn default() -> (t: Self)
        ensures
            t.name@.len() == 0,
            t.description@.len() == 0,
            t.value.0 == 0,
            t.encumbrance == Encumbrance::OneSixth,
            t.tags@.len() == 0,
            t.weapon_stats is None,
            t.armor_stats is None,
            t.shield_stats is None,
            t.container_stats is None,
    {
        Self {
            name: String::new(),
            description: String::new(),
            value: Value(0),
            encumbrance: Encumbrance::OneSixth,
            tags: Vec::new(),
            weapon_stats: None,
            armor_stats: None,
            shield_stats: None,
            container_stats: None,
        }
    }

    /// The item type of one coin of kind `c`.
    pub fn coin(c: Currency) -> (t: Self)
        ensures
            is_coin(t, c),
    {
        let (name, description, value, tag) = match c {
            Currency::CP => ("Copper Piece", "A copper coin.", 1i64, "cp"),
            Currency::SP => ("Silver Piece", "A silver coin.", 10i64, "sp"),
            Currency::EP => ("Electrum Piece", "An electrum coin.", 50i64, "ep"),
            Currency::GP => ("Gold Piece", "A gold coin.", 100i64, "gp"),
            Currency::PP => ("Platinum Piece", "A platinum coin.", 500i64, "pp"),
        };
        let mut tags = Vec::new();
        tags.push(tag.to_owned());
        Self {
            name: name.to_owned(),
            description: description.to_owned(),
            value: Value(value),
            encumbrance: Encumbrance::Treasure,
            tags,
            weapon_stats: None,
            armor_stats: None,
            shield_stats: None,
            container_stats: None,
        }
    }

    pub fn platinum() -> (t: Self)
        ensures
            is_coin(t, Currency::PP),
    {
        Self::coin(Currency::PP)
    }

    pub fn gold() -> (t: Self)
        ensures
            is_coin(t, Currency::GP),
    {
        Self::coin(Currency::GP)
    }

    pub fn electrum() -> (t: Self)
        ensures
            is_coin(t, Currency::EP),
    {
        Self::coin(Currency::EP)
    }

    pub fn silver() -> (t: Self)
        ensures
            is_coin(t, Currency::SP),
    {
        Self::coin(Currency::SP)
    }

    pub fn copper() -> (t: Self)
        ensures
            is_coin(t, Currency::CP),
    {
        Self::coin(Currency::CP)
    }

    /// Whether the item carries the tag `tag`.
    pub open spec fn has_tag(self, tag: Seq<char>) -> bool {
        exists|i: int| 0 <= i < self.tags@.len() && #[trigger] self.tags@[i]@ == tag
    }

    pub fn tagged(&self, tag: &str) -> (b: bool)
        ensures
            b == self.has_tag(tag@),
    {
        let t = tag.to_owned();
        let n = self.tags.len();
        for i in 0..n
            invariant
                n == self.tags@.len(),
                t@ == tag@,
                forall|j: int| 0 <= j < i ==> #[trigger] self.tags@[j]@ != tag@,
        {
            if self.tags[i] == t {
                return true;
            }
        }
        false
    }
}

} // verus!
