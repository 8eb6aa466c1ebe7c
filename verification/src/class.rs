use vstd::prelude::*;
use vstd::string::*;

use crate::character::Attr;
use crate::race::Race;

verus! {

/// A character class.
pub struct Class {
    pub race: Race,
    pub name: String,
    pub description: String,
    /// The prime requisites; none occurs twice.
    pub prime_reqs: Vec<Attr>,
    pub maximum_level: u8,
    pub titles: Titles,
    pub hit_die: HitDie,
    pub base_xp_cost: u32,
    /// Proficiency id, and the specifications allowed for it (any, when `None`); no id occurs twice.
    pub class_proficiencies: Vec<(String, Option<Vec<String>>)>,
    pub saving_throw_progression_type: SavingThrowProgressionType,
    pub attack_throw_progression: AttackThrowProgression,
    pub weapon_selection: WeaponSelection,
    pub armor_selection: ArmorSelection,
    pub fighting_styles: FightingStyles,
    pub class_damage_bonus: ClassDamageBonus,
    pub cleaves: Cleaves,
    pub thief_skills: ThiefSkills,
    pub divine_value: DivineValue,
    pub arcane_value: ArcaneValue,
}

#[derive(Debug, Clone, Copy, PartialEq, Eq, Hash, Structural)]
pub enum HitDie {
    D4,
    D6,
    D8,
    D10,
    D12,
}

#[derive(Debug, Clone, Copy, PartialEq, Eq, Hash, Structural)]
pub enum SavingThrowProgressionType {
    Fighter,
    Thief,
    Cleric,
    Mage,
}

#[derive(Debug, Clone, Copy, PartialEq, Eq, Hash, Structural)]
pub enum AttackThrowProgression {
    OnePerThree,
    OnePerTwo,
    TwoPerThree,
    OnePerOne,
    ThreePerTwo,
}

#[derive(Debug, Clone, Copy, PartialEq, Eq, Hash, Structural)]
pub enum Cleaves {
    Nothing,
    Half,
    Full,
}

#[derive(Debug, Clone, Copy, PartialEq, Eq, Hash, Structural)]
pub enum ClassDamageBonus {
    Nothing,
    MeleeOnly,
    MissileOnly,
    Both,
}

#[derive(Debug, Clone, Copy, PartialEq, Eq, Structural)]
pub struct FightingStyles {
    pub two_weapons: bool,
    pub weapon_and_shield: bool,
    pub two_handed: bool,
}

#[derive(Debug, Clone, Copy, PartialEq, Eq, Hash, Structural)]
pub enum ArmorSelection {
    Forbidden,
    Restricted,
    Narrow,
    Broad,
    Unrestricted,
}

pub enum WeaponSelection {
    Restricted([RestrictedWeapons; 4]),
    Narrow([NarrowWeapons; 2]),
    Broad([BroadWeapons; 2]),
    Unrestricted,
}

#[derive(Debug, Clone, Copy, PartialEq, Eq, Hash, Structural)]
pub enum RestrictedWeapons {
    Club,
    Dagger,
    Bola,
    Dart,
    Sling,
    Sap,
    Staff,
    Whip,
}

pub enum NarrowWeapons {
    Axes,
    BowsCrossbows,
    FlailsHammersMaces,
    SwordsDaggers,
    SpearsPolearms,
    Special,
    AnyThree(String, String, String),
}

pub enum BroadWeapons {
    OneHanded,
    TwoHanded,
    AxesFlailsHammersMaces,
    SwordsDaggersSpearsPolearms,
    Missile,
    AnyFive(String, String, String, String, String),
}

/// Titles by level: the title of level `n` (from 1) is at index `n - 1`.
pub struct Titles(pub Vec<String>);

/// The thief skills of a class, none twice, in the order they were given.
pub struct ThiefSkills(pub Vec<ThiefSkill>);

#[derive(Debug, Clone, Copy, PartialEq, Eq, Hash, Structural)]
pub enum ThiefSkill {
    OpenLocks,
    FindTraps,
    RemoveTraps,
    PickPockets,
    MoveSilently,
    ClimbWalls,
    HideInShadows,
    HearNoise,
    Backstab,
    ReadLanguages,
    UseScrolls,
}

#[derive(Debug, Clone, Copy, PartialEq, Eq, Hash, Structural)]
pub enum DivineValue {
    Nothing,
    One(bool),
    Two(bool),
    Three(bool),
    Four(bool),
}

#[derive(Debug, Clone, Copy, PartialEq, Eq, Hash, Structural)]
pub enum ArcaneValue {
    Nothing,
    One(bool),
    Two(bool),
    Three(bool),
    Four,
}

// ---------------------------------------------------------------------------------------------
// Experience.
// ---------------------------------------------------------------------------------------------

/// The experience needed to go from `level` to the next.
pub open spec fn level_cost(base: int, t: SavingThrowProgressionType, level: int) -> int
    decreases level,
{
    if level <= 0 {
        100
    } else if level <= 5 {
        base * vstd::arithmetic::power2::pow2((level - 1) as nat)
    } else if level == 6 {
        round_to_5000(base * 32)
    } else if level == 7 {
        level_cost(base, t, 6) * 2
    } else {
        level_cost(base, t, 7) + max_xp_cost(t) * (level - 7)
    }
}

/// `x` rounded to a multiple of 5000, down when at most 2500 above one.
pub open spec fn round_to_5000(x: int) -> int {
    let m = x % 5000;
    if m <= 2500 { x - m } else { x + (5000 - m) }
}

pub open spec fn max_xp_cost(t: SavingThrowProgressionType) -> int {
    match t {
        SavingThrowProgressionType::Fighter => 120000,
        SavingThrowProgressionType::Cleric | SavingThrowProgressionType::Thief => 100000,
        SavingThrowProgressionType::Mage => 150000,
    }
}

/// Whether computing the cost of `level` keeps every value within a `u32`.
pub open spec fn level_cost_fits(base: int, t: SavingThrowProgressionType, level: int) -> bool
    decreases level,
{
    if level <= 0 {
        true
    } else if level <= 5 {
        level_cost(base, t, level) <= u32::MAX
    } else if level == 6 {
        base * 32 <= u32::MAX && level_cost(base, t, 6) <= u32::MAX
    } else if level == 7 {
        level_cost_fits(base, t, 6) && level_cost(base, t, 7) <= u32::MAX
    } else {
        level_cost_fits(base, t, 7) && level_cost(base, t, level) <= u32::MAX
    }
}

impl SavingThrowProgressionType {
    pub fn get_max_xp_cost(&self) -> (c: u32)
        ensures
            c == max_xp_cost(*self),
    {
        match self {
            Self::Fighter => 120000,
            Self::Cleric | Self::Thief => 100000,
            Self::Mage => 150000,
        }
    }
}

impl Class {
    pub fn calculate_next_level_cost(&self, current_level: u8) -> (c: u32)
        requires
            level_cost_fits(self.base_xp_cost as int, self.saving_throw_progression_type, current_level as int),
        ensures
            c == level_cost(self.base_xp_cost as int, self.saving_throw_progression_type, current_level as int),
        decreases current_level,
    {
        let base = self.base_xp_cost;
        proof {
            vstd::arithmetic::power2::lemma2_to64();
        }
        if current_level == 0 {
            100
        } else if current_level <= 5 {
            let mult: u32 = if current_level == 1 { 1 } else if current_level == 2 { 2 }
                else if current_level == 3 { 4 } else if current_level == 4 { 8 } else { 16 };
            assert(base * mult == level_cost(base as int, self.saving_throw_progression_type, current_level as int));
            base * mult
        } else if current_level == 6 {
            let mut unrounded = base * 32;
            let modulo = unrounded % 5000;
            if modulo <= 2500 {
                unrounded = unrounded - modulo;
            } else {
                unrounded = unrounded + (5000 - modulo);
            }
            unrounded
        } else if current_level == 7 {
            self.calculate_next_level_cost(6) * 2
        } else {
            let prev = self.calculate_next_level_cost(7);
            let extra = self.saving_throw_progression_type.get_max_xp_cost() as u64 * (current_level as u64 - 7);
            assert(extra == max_xp_cost(self.saving_throw_progression_type) * (current_level - 7));
            (prev as u64 + extra) as u32
        }
    }
}

// ---------------------------------------------------------------------------------------------
// Attack throws.
// ---------------------------------------------------------------------------------------------

/// The attack throw at `level`.
pub open spec fn attack_throw(p: AttackThrowProgression, level: int) -> int {
    if level == 0 {
        9
    } else {
        10 + match p {
            AttackThrowProgression::OnePerThree => (level - 1) / 3,
            AttackThrowProgression::OnePerTwo => (level - 1) / 2,
            // (level - 1) * 2/3, to the nearest whole number (never a half)
            AttackThrowProgression::TwoPerThree => (2 * (level - 1) + 1) / 3,
            AttackThrowProgression::OnePerOne => level - 1,
            // (level - 1) * 3/2, rounded down
            AttackThrowProgression::ThreePerTwo => (3 * (level - 1)) / 2,
        }
    }
}

impl AttackThrowProgression {
    pub fn calculate(&self, current_level: u8) -> (t: i32)
        ensures
            t == attack_throw(*self, current_level as int),
    {
        if current_level == 0 {
            return 9;
        }
        let l = current_level as i32 - 1;
        10 + match self {
            Self::OnePerThree => l / 3,
            Self::OnePerTwo => l / 2,
            Self::TwoPerThree => (2 * l + 1) / 3,
            Self::OnePerOne => l,
            Self::ThreePerTwo => (3 * l) / 2,
        }
    }
}

// ---------------------------------------------------------------------------------------------
// Spell slots.
// ---------------------------------------------------------------------------------------------

/// The cleric's spell slots by (effective) level.
pub open spec fn cleric_slots(level: int) -> Seq<u32> {
    if level <= 1 { seq![0, 0, 0, 0, 0] }
    else if level == 2 { seq![1, 0, 0, 0, 0] }
    else if level == 3 { seq![2, 0, 0, 0, 0] }
    else if level == 4 { seq![2, 1, 0, 0, 0] }
    else if level == 5 { seq![2, 2, 0, 0, 0] }
    else if level == 6 { seq![2, 2, 1, 1, 0] }
    else if level == 7 { seq![2, 2, 2, 1, 1] }
    else if level == 8 { seq![3, 3, 2, 2, 1] }
    else if level == 9 { seq![3, 3, 3, 2, 2] }
    else if level == 10 { seq![4, 4, 3, 3, 2] }
    else if level == 11 { seq![4, 4, 4, 3, 3] }
    else if level == 12 { seq![5, 5, 4, 4, 3] }
    else if level == 13 { seq![5, 5, 5, 4, 3] }
    else { seq![6, 5, 5, 5, 4] }
}

/// The mage's spell slots by (effective) level.
pub open spec fn mage_slots(level: int) -> Seq<u32> {
    if level <= 0 { seq![0, 0, 0, 0, 0, 0] }
    else if level == 1 { seq![1, 0, 0, 0, 0, 0] }
    else if level == 2 { seq![2, 0, 0, 0, 0, 0] }
    else if level == 3 { seq![2, 1, 0, 0, 0, 0] }
    else if level == 4 { seq![2, 2, 0, 0, 0, 0] }
    else if level == 5 { seq![2, 2, 1, 0, 0, 0] }
    else if level == 6 { seq![2, 2, 2, 0, 0, 0] }
    else if level == 7 { seq![3, 2, 2, 1, 0, 0] }
    else if level == 8 { seq![3, 3, 2, 2, 0, 0] }
    else if level == 9 { seq![3, 3, 3, 2, 1, 0] }
    else if level == 10 { seq![3, 3, 3, 3, 2, 0] }
    else if level == 11 { seq![4, 3, 3, 3, 2, 1] }
    else if level == 12 { seq![4, 4, 3, 3, 3, 2] }
    else if level == 13 { seq![4, 4, 4, 3, 3, 2] }
    else { seq![4, 4, 4, 4, 3, 3] }
}

/// The divine spell slots at `level`.
pub open spec fn divine_slots(v: DivineValue, level: int) -> Seq<u32> {
    match v {
        DivineValue::Nothing => seq![0, 0, 0, 0, 0],
        // half the level, rounded up
        DivineValue::One(_) => cleric_slots((level + 1) / 2),
        DivineValue::Two(_) => cleric_slots(level),
        // a third more, to the nearest slot
        DivineValue::Three(_) => cleric_slots(level).map_values(|i: u32| (i + (2 * i + 3) / 6) as u32),
        // half as many more, halves rounded up, and at least one first-level slot
        DivineValue::Four(_) => {
            let more = cleric_slots(level).map_values(|i: u32| (i + (i + 1) / 2) as u32);
            if more[0] == 0 { more.update(0, 1) } else { more }
        },
    }
}

/// The level at which an arcane caster of value `v` casts like a mage.
pub open spec fn arcane_level(v: ArcaneValue, level: int) -> int {
    match v {
        ArcaneValue::Nothing => 0,
        ArcaneValue::One(delayed) => if delayed { if level > 7 { level - 7 } else { 0 } } else { level / 3 },
        ArcaneValue::Two(delayed) => if delayed {
            if level > 5 { level - 5 } else { 0 }
        } else if level == 1 {
            0
        } else {
            // half the level, halves rounded up
            (level + 1) / 2
        },
        ArcaneValue::Three(delayed) => if delayed {
            if level > 3 { level - 3 } else { 0 }
        } else {
            // two thirds of the level, to the nearest whole level (never a half)
            (2 * level + 1) / 3
        },
        ArcaneValue::Four => level,
    }
}

pub open spec fn arcane_slots(v: ArcaneValue, level: int) -> Seq<u32> {
    if v == ArcaneValue::Nothing { seq![0, 0, 0, 0, 0, 0] } else { mage_slots(arcane_level(v, level)) }
}

/// The number of spells in a repertoire: the slots, each non-empty one raised by a positive
/// intelligence modifier.
pub open spec fn repertoire(slots: Seq<u32>, int_mod: int) -> Seq<u32> {
    slots.map_values(|i: u32| if int_mod > 0 && i > 0 { (i + int_mod) as u32 } else { i })
}

/// The mage's slots of one level are no more than those of the next.
proof fn lemma_mage_step(n: int)
    ensures
        forall|i: int| 0 <= i < 6 ==> #[trigger] mage_slots(n)[i] <= mage_slots(n + 1)[i],
{
    assert(mage_slots(n).len() == 6 && mage_slots(n + 1).len() == 6);
}

/// The mage's slots never drop as the level rises.
proof fn lemma_mage_monotone(a: int, b: int)
    requires
        a <= b,
    ensures
        forall|i: int| 0 <= i < 6 ==> #[trigger] mage_slots(a)[i] <= mage_slots(b)[i],
    decreases b - a,
{
    if a < b {
        lemma_mage_monotone(a, b - 1);
        lemma_mage_step(b - 1);
        assert forall|i: int| 0 <= i < 6 implies #[trigger] mage_slots(a)[i] <= mage_slots(b)[i] by {
            assert(mage_slots(a)[i] <= mage_slots(b - 1)[i]);
            assert(mage_slots(b - 1)[i] <= mage_slots(b)[i]);
        }
    }
}

/// An arcane caster gains no slot by losing levels, and has no more slots at any level than a
/// full caster (a mage) of that level: for levels `l1 <= l2`, each slot count at `l1` is at most
/// that at `l2`, which is at most a full caster's at `l2`.
pub proof fn arcane_slots_grow_within_a_full_casters(v: ArcaneValue, l1: int, l2: int)
    requires
        0 <= l1 <= l2,
    ensures
        forall|i: int| 0 <= i < 6 ==> #[trigger] arcane_slots(v, l1)[i] <= arcane_slots(v, l2)[i],
        forall|i: int| 0 <= i < 6 ==> #[trigger] arcane_slots(v, l2)[i] <= arcane_slots(ArcaneValue::Four, l2)[i],
{
    if v != ArcaneValue::Nothing {
        let a = arcane_level(v, l1);
        let b = arcane_level(v, l2);
        assert(a <= b);
        assert(b <= l2);
        lemma_mage_monotone(a, b);
        lemma_mage_monotone(b, l2);
    } else {
        assert forall|i: int| 0 <= i < 6 implies #[trigger] arcane_slots(v, l2)[i] <= arcane_slots(ArcaneValue::Four, l2)[i] by {
            assert(arcane_slots(v, l2)[i] == 0);
        }
    }
}

/// The cleric's slots of one level are no more than those of the next.
proof fn lemma_cleric_step(n: int)
    ensures
        forall|i: int| 0 <= i < 5 ==> #[trigger] cleric_slots(n)[i] <= cleric_slots(n + 1)[i],
{
    assert(cleric_slots(n).len() == 5 && cleric_slots(n + 1).len() == 5);
}

/// A cleric has at most six slots of a level.
proof fn lemma_cleric_most(n: int)
    ensures
        forall|i: int| 0 <= i < 5 ==> #[trigger] cleric_slots(n)[i] <= 6,
{
    assert(cleric_slots(n).len() == 5);
}

/// The cleric's slots never drop as the level rises.
proof fn lemma_cleric_monotone(a: int, b: int)
    requires
        a <= b,
    ensures
        forall|i: int| 0 <= i < 5 ==> #[trigger] cleric_slots(a)[i] <= cleric_slots(b)[i],
        cleric_slots(a).len() == 5,
    decreases b - a,
{
    if a < b {
        lemma_cleric_monotone(a, b - 1);
        lemma_cleric_step(b - 1);
        assert forall|i: int| 0 <= i < 5 implies #[trigger] cleric_slots(a)[i] <= cleric_slots(b)[i] by {
            assert(cleric_slots(a)[i] <= cleric_slots(b - 1)[i]);
            assert(cleric_slots(b - 1)[i] <= cleric_slots(b)[i]);
        }
    }
}

/// A divine caster gains no slot by losing levels, and has no more slots at any level than a
/// full divine caster of that level: for levels `l1 <= l2`, each slot count at `l1` is at most
/// that at `l2`, which is at most a full caster's at `l2`.
pub proof fn divine_slots_grow_within_a_full_casters(v: DivineValue, l1: int, l2: int)
    requires
        0 <= l1 <= l2,
    ensures
        forall|i: int| 0 <= i < 5 ==> #[trigger] divine_slots(v, l1)[i] <= divine_slots(v, l2)[i],
        forall|i: int| 0 <= i < 5 ==> #[trigger] divine_slots(v, l2)[i] <= divine_slots(DivineValue::Four(false), l2)[i],
{
    assert forall|i: int| 0 <= i < 5 implies #[trigger] divine_slots(v, l1)[i] <= divine_slots(v, l2)[i]
        && divine_slots(v, l2)[i] <= divine_slots(DivineValue::Four(false), l2)[i] by {
        lemma_divine_slot(v, l1, l2, i);
    }
}

/// One slot count of the divine law above.
proof fn lemma_divine_slot(v: DivineValue, l1: int, l2: int, i: int)
    requires
        0 <= l1 <= l2,
        0 <= i < 5,
    ensures
        divine_slots(v, l1)[i] <= divine_slots(v, l2)[i],
        divine_slots(v, l2)[i] <= divine_slots(DivineValue::Four(false), l2)[i],
{
    lemma_cleric_monotone(l1, l2);
    lemma_cleric_monotone((l1 + 1) / 2, (l2 + 1) / 2);
    lemma_cleric_monotone((l2 + 1) / 2, l2);
    lemma_cleric_monotone(l2, l2);
    lemma_cleric_most(l1);
    lemma_cleric_most(l2);
    let c1 = cleric_slots(l1);
    let c2 = cleric_slots(l2);
    let x = c1[i];
    let y = c2[i];
    assert(x <= y && y <= 6);
    let full = c2.map_values(|j: u32| (j + (j + 1) / 2) as u32);
    assert(full[i] == (y + (y + 1) / 2) as u32);
    assert(divine_slots(DivineValue::Four(false), l2)[i] >= full[i]);
    match v {
        DivineValue::Three(_) => {
            let m1 = c1.map_values(|j: u32| (j + (2 * j + 3) / 6) as u32);
            let m2 = c2.map_values(|j: u32| (j + (2 * j + 3) / 6) as u32);
            assert(m1[i] == (x + (2 * x + 3) / 6) as u32);
            assert(m2[i] == (y + (2 * y + 3) / 6) as u32);
        },
        DivineValue::Four(_) => {
            let m1 = c1.map_values(|j: u32| (j + (j + 1) / 2) as u32);
            assert(m1[i] == (x + (x + 1) / 2) as u32);
        },
        _ => {},
    }
}

fn cleric_table(level: u8) -> (t: [u32; 5])
    ensures

        t@ == cleric_slots(level as int),
{
    let t = if level <= 1 { [0, 0, 0, 0, 0] }
    else if level == 2 { [1, 0, 0, 0, 0] }
    else if level == 3 { [2, 0, 0, 0, 0] }
    else if level == 4 { [2, 1, 0, 0, 0] }
    else if level == 5 { [2, 2, 0, 0, 0] }
    else if level == 6 { [2, 2, 1, 1, 0] }
    else if level == 7 { [2, 2, 2, 1, 1] }
    else if level == 8 { [3, 3, 2, 2, 1] }
    else if level == 9 { [3, 3, 3, 2, 2] }
    else if level == 10 { [4, 4, 3, 3, 2] }
    else if level == 11 { [4, 4, 4, 3, 3] }
    else if level == 12 { [5, 5, 4, 4, 3] }
    else if level == 13 { [5, 5, 5, 4, 3] }
    else { [6, 5, 5, 5, 4] };
    assert(t@ == cleric_slots(level as int));
    t
}

fn mage_table(level: u8) -> (t: [u32; 6])
    ensures
        t@ == mage_slots(level as int),
{
    let t = if level == 0 { [0, 0, 0, 0, 0, 0] }
    else if level == 1 { [1, 0, 0, 0, 0, 0] }
    else if level == 2 { [2, 0, 0, 0, 0, 0] }
    else if level == 3 { [2, 1, 0, 0, 0, 0] }
    else if level == 4 { [2, 2, 0, 0, 0, 0] }
    else if level == 5 { [2, 2, 1, 0, 0, 0] }
    else if level == 6 { [2, 2, 2, 0, 0, 0] }
    else if level == 7 { [3, 2, 2, 1, 0, 0] }
    else if level == 8 { [3, 3, 2, 2, 0, 0] }
    else if level == 9 { [3, 3, 3, 2, 1, 0] }
    else if level == 10 { [3, 3, 3, 3, 2, 0] }
    else if level == 11 { [4, 3, 3, 3, 2, 1] }
    else if level == 12 { [4, 4, 3, 3, 3, 2] }
    else if level == 13 { [4, 4, 4, 3, 3, 2] }
    else { [4, 4, 4, 4, 3, 3] };
    assert(t@ == mage_slots(level as int));
    t
}

impl DivineValue {
    pub fn get_max_spell_slots(&self, level: u8) -> (slots: [u32; 5])
        ensures
            slots@ == divine_slots(*self, level as int),
    {
        let effective = match self {
            Self::One(_) => ((level as u16 + 1) / 2) as u8,
            _ => level,
        };
        let cleric = cleric_table(effective);
        match self {
            Self::Nothing => [0, 0, 0, 0, 0],
            Self::One(_) => cleric,
            Self::Two(_) => cleric,
            Self::Three(_) => {
                let mut out = cleric;
                let mut i: usize = 0;
                while i < 5
                    invariant
                        i <= 5,
                        cleric@ == cleric_slots(level as int),
                        forall|j: int| 0 <= j < 5 ==> #[trigger] cleric@[j] <= 6,
                        forall|j: int| 0 <= j < i ==> #[trigger] out@[j] == (cleric@[j] + (2 * cleric@[j] + 3) / 6) as u32,
                        forall|j: int| i <= j < 5 ==> #[trigger] out@[j] == cleric@[j],
                    decreases 5 - i,
                {
                    let v = out[i];
                    out.set(i, v + (2 * v + 3) / 6);
                    i = i + 1;
                }
                assert(out@ == divine_slots(*self, level as int));
                out
            },
            Self::Four(_) => {
                let mut out = cleric;
                let mut i: usize = 0;
                while i < 5
                    invariant
                        i <= 5,
                        cleric@ == cleric_slots(level as int),
                        forall|j: int| 0 <= j < 5 ==> #[trigger] cleric@[j] <= 6,
                        forall|j: int| 0 <= j < i ==> #[trigger] out@[j] == (cleric@[j] + (cleric@[j] + 1) / 2) as u32,
                        forall|j: int| i <= j < 5 ==> #[trigger] out@[j] == cleric@[j],
                    decreases 5 - i,
                {
                    let v = out[i];
                    out.set(i, v + (v + 1) / 2);
                    i = i + 1;
                }
                if out[0] == 0 {
                    out.set(0, 1);
                }
                assert(out@ == divine_slots(*self, level as int));
                out
            },
        }
    }
}

impl ArcaneValue {
    pub fn get_max_spell_slots(&self, level: u8) -> (slots: [u32; 6])
        ensures
            slots@ == arcane_slots(*self, level as int),
    {
        let effective: u8 = match self {
            Self::Nothing => {
                return [0, 0, 0, 0, 0, 0];
            },
            Self::One(delayed) => if *delayed { if level > 7 { level - 7 } else { 0 } } else { level / 3 },
            Self::Two(delayed) => if *delayed {
                if level > 5 { level - 5 } else { 0 }
            } else if level == 1 {
                0
            } else {
                ((level as u16 + 1) / 2) as u8
            },
            Self::Three(delayed) => if *delayed {
                if level > 3 { level - 3 } else { 0 }
            } else {
                ((2 * level as u16 + 1) / 3) as u8
            },
            Self::Four => level,
        };
        mage_table(effective)
    }

    pub fn get_repertoire_size(&self, level: u8, int_mod: i32) -> (rep: [u32; 6])
        ensures
            rep@ == repertoire(arcane_slots(*self, level as int), int_mod as int),
    {
        let slots = self.get_max_spell_slots(level);
        let mut rep = slots;
        if int_mod > 0 {
            let mut i: usize = 0;
            while i < 6
                invariant
                    i <= 6,
                    int_mod > 0,
                    forall|j: int| 0 <= j < 6 ==> #[trigger] slots@[j] <= 4,
                    forall|j: int| 0 <= j < i ==> #[trigger] rep@[j] == (if slots@[j] > 0 { (slots@[j] + int_mod) as u32 } else { slots@[j] }),
                    forall|j: int| i <= j < 6 ==> #[trigger] rep@[j] == slots@[j],
                decreases 6 - i,
            {
                let v = rep[i];
                if v > 0 {
                    rep.set(i, v + int_mod as u32);
                }
                i = i + 1;
            }
        }
        assert(rep@ == repertoire(slots@, int_mod as int));
        rep
    }
}

// ---------------------------------------------------------------------------------------------
// Descriptions.
// ---------------------------------------------------------------------------------------------

impl FightingStyles {
    pub fn new(two_weapons: bool, weapon_and_shield: bool, two_handed: bool) -> (f: Self)
        ensures
            f == (FightingStyles { two_weapons, weapon_and_shield, two_handed }),
    {
        Self { two_weapons, weapon_and_shield, two_handed }
    }

    pub fn all() -> (f: Self)
        ensures
            f == (FightingStyles { two_weapons: true, weapon_and_shield: true, two_handed: true }),
    {
        Self { two_weapons: true, weapon_and_shield: true, two_handed: true }
    }

    /// The names of the styles allowed, in a fixed order.
    pub open spec fn allowed(self) -> Seq<Seq<char>> {
        (if self.two_weapons { seq!["two weapons"@] } else { seq![] })
            + (if self.weapon_and_shield { seq!["a weapon and shield"@] } else { seq![] })
            + (if self.two_handed { seq!["two-handed weapons"@] } else { seq![] })
    }

    pub open spec fn description(self, class_name: Seq<char>) -> Seq<char> {
        let l = self.allowed();
        if l.len() == 0 {
            "The "@ + class_name + " class may not fight in any style."@
        } else {
            "The "@ + class_name + " class may fight with "@ + if l.len() == 1 {
                l[0] + "."@
            } else if l.len() == 2 {
                l[0] + " and "@ + l[1] + "."@
            } else {
                l[0] + ", "@ + l[1] + ", and "@ + l[2] + "."@
            }
        }
    }

    pub fn display(&self, class_name: &str) -> (s: String)
        ensures
            s@ == self.description(class_name@),
    {
        proof {
            reveal_strlit("two weapons");
            reveal_strlit("a weapon and shield");
            reveal_strlit("two-handed weapons");
        }
        let mut list: Vec<&str> = Vec::new();
        if self.two_weapons {
            list.push("two weapons");
        }
        if self.weapon_and_shield {
            list.push("a weapon and shield");
        }
        if self.two_handed {
            list.push("two-handed weapons");
        }
        let ghost l = self.allowed();
        assert(list@.map_values(|x: &str| x@) == l);
        assert(list@.len() == l.len());
        assert(forall|i: int| 0 <= i < l.len() ==> #[trigger] l[i] == list@[i]@);
        let mut s = "The ".to_owned();
        s.append(class_name);
        if list.len() == 0 {
            s.append(" class may not fight in any style.");
            return s;
        }
        s.append(" class may fight with ");
        if list.len() == 1 {
            s.append(list[0]);
            s.append(".");
        } else if list.len() == 2 {
            s.append(list[0]);
            s.append(" and ");
            s.append(list[1]);
            s.append(".");
        } else {
            s.append(list[0]);
            s.append(", ");
            s.append(list[1]);
            s.append(", and ");
            s.append(list[2]);
            s.append(".");
        }
        s
    }
}

impl ArmorSelection {
    pub open spec fn description(self) -> Seq<char> {
        match self {
            Self::Forbidden => "They may not wear armor."@,
            Self::Restricted => "They can only wear hide armor or lighter."@,
            Self::Narrow => "They can only wear leather armor or lighter."@,
            Self::Broad => "They can wear chain armor or lighter."@,
            Self::Unrestricted => "They may wear any armor."@,
        }
    }

    pub fn display(&self) -> (s: String)
        ensures
            s@ == self.description(),
    {
        match self {
            Self::Forbidden => "They may not wear armor.",
            Self::Restricted => "They can only wear hide armor or lighter.",
            Self::Narrow => "They can only wear leather armor or lighter.",
            Self::Broad => "They can wear chain armor or lighter.",
            Self::Unrestricted => "They may wear any armor.",
        }.to_owned()
    }

    /// The short name of the selection.
    pub fn label(&self) -> (s: &'static str)
        ensures
            s@ == match *self {
                Self::Forbidden => "Forbidden"@,
                Self::Restricted => "Restricted (hide or less)"@,
                Self::Narrow => "Narrow (leather or less)"@,
                Self::Broad => "Broad (chain or less)"@,
                Self::Unrestricted => "Unrestricted"@,
            },
    {
        match self {
            Self::Forbidden => "Forbidden",
            Self::Restricted => "Restricted (hide or less)",
            Self::Narrow => "Narrow (leather or less)",
            Self::Broad => "Broad (chain or less)",
            Self::Unrestricted => "Unrestricted",
        }
    }
}

impl RestrictedWeapons {
    /// The weapons' name within a sentence.
    pub open spec fn words(self) -> Seq<char> {
        match self {
            Self::Club => "clubs"@,
            Self::Dagger => "daggers"@,
            Self::Bola => "bolas"@,
            Self::Dart => "darts"@,
            Self::Sling => "slings"@,
            Self::Sap => "saps"@,
            Self::Staff => "staves"@,
            Self::Whip => "whips"@,
        }
    }

    pub fn label(&self) -> (s: &'static str)
        ensures
            s@ == self.words(),
    {
        match self {
            Self::Club => "clubs",
            Self::Dagger => "daggers",
            Self::Bola => "bolas",
            Self::Dart => "darts",
            Self::Sling => "slings",
            Self::Sap => "saps",
            Self::Staff => "staves",
            Self::Whip => "whips",
        }
    }

    pub fn display(&self) -> (s: String)
        ensures
            s@ == match *self {
                Self::Club => "Clubs"@,
                Self::Dagger => "Daggers"@,
                Self::Bola => "Bolas"@,
                Self::Dart => "Darts"@,
                Self::Sling => "Slings"@,
                Self::Sap => "Saps"@,
                Self::Staff => "Staves"@,
                Self::Whip => "Whips"@,
            },
    {
        match self {
            Self::Club => "Clubs",
            Self::Dagger => "Daggers",
            Self::Bola => "Bolas",
            Self::Dart => "Darts",
            Self::Sling => "Slings",
            Self::Sap => "Saps",
            Self::Staff => "Staves",
            Self::Whip => "Whips",
        }.to_owned()
    }
}

impl NarrowWeapons {
    /// The weapons' name within a sentence.
    pub open spec fn words(self) -> Seq<char> {
        match self {
            Self::Axes => "axes"@,
            Self::BowsCrossbows => "bows/crossbows"@,
            Self::FlailsHammersMaces => "flails, hammers, maces"@,
            Self::SwordsDaggers => "swords, daggers"@,
            Self::SpearsPolearms => "spears, polearms"@,
            Self::Special => "bolas, darts, nets, slings, saps, staves"@,
            Self::AnyThree(a, b, c) => a@ + "s, "@ + b@ + "s, "@ + c@ + "s"@,
        }
    }

    pub fn label(&self) -> (s: String)
        ensures
            s@ == self.words(),
    {
        proof {
            reveal_strlit("s, ");
            reveal_strlit("s");
        }
        match self {
            Self::Axes => "axes".to_owned(),
            Self::BowsCrossbows => "bows/crossbows".to_owned(),
            Self::FlailsHammersMaces => "flails, hammers, maces".to_owned(),
            Self::SwordsDaggers => "swords, daggers".to_owned(),
            Self::SpearsPolearms => "spears, polearms".to_owned(),
            Self::Special => "bolas, darts, nets, slings, saps, staves".to_owned(),
            Self::AnyThree(a, b, c) => {
                let mut s = a.clone();
                s.append("s, ");
                s.append(b.as_str());
                s.append("s, ");
                s.append(c.as_str());
                s.append("s");
                s
            },
        }
    }

    pub fn display(&self) -> (s: String)
        ensures
            s@ == match *self {
                Self::Axes => "Axes"@,
                Self::BowsCrossbows => "Bows and Crossbows"@,
                Self::FlailsHammersMaces => "Flails, Hammers, and Maces"@,
                Self::SwordsDaggers => "Swords and Daggers"@,
                Self::SpearsPolearms => "Spears and Polearms"@,
                Self::Special => "Bolas, Darts, Nets, Slings, Saps, and Staves"@,
                Self::AnyThree(_, _, _) => "Any Three Weapons"@,
            },
    {
        match self {
            Self::Axes => "Axes",
            Self::BowsCrossbows => "Bows and Crossbows",
            Self::FlailsHammersMaces => "Flails, Hammers, and Maces",
            Self::SwordsDaggers => "Swords and Daggers",
            Self::SpearsPolearms => "Spears and Polearms",
            Self::Special => "Bolas, Darts, Nets, Slings, Saps, and Staves",
            Self::AnyThree(_, _, _) => "Any Three Weapons",
        }.to_owned()
    }
}

impl BroadWeapons {
    /// The weapons' name within a sentence.
    pub open spec fn words(self) -> Seq<char> {
        match self {
            Self::OneHanded => "one-handed weapons"@,
            Self::TwoHanded => "two-handed weapons"@,
            Self::AxesFlailsHammersMaces => "axes, flails, hammers, maces"@,
            Self::SwordsDaggersSpearsPolearms => "swords, daggers, spears, polearms"@,
            Self::Missile => "missile weapons"@,
            Self::AnyFive(a, b, c, d, e) => a@ + "s, "@ + b@ + "s, "@ + c@ + "s, "@ + d@ + "s, "@ + e@ + "s"@,
        }
    }

    pub fn label(&self) -> (s: String)
        ensures
            s@ == self.words(),
    {
        proof {
            reveal_strlit("s, ");
            reveal_strlit("s");
        }
        match self {
            Self::OneHanded => "one-handed weapons".to_owned(),
            Self::TwoHanded => "two-handed weapons".to_owned(),
            Self::AxesFlailsHammersMaces => "axes, flails, hammers, maces".to_owned(),
            Self::SwordsDaggersSpearsPolearms => "swords, daggers, spears, polearms".to_owned(),
            Self::Missile => "missile weapons".to_owned(),
            Self::AnyFive(a, b, c, d, e) => {
                let mut s = a.clone();
                s.append("s, ");
                s.append(b.as_str());
                s.append("s, ");
                s.append(c.as_str());
                s.append("s, ");
                s.append(d.as_str());
                s.append("s, ");
                s.append(e.as_str());
                s.append("s");
                s
            },
        }
    }

    pub fn display(&self) -> (s: String)
        ensures
            s@ == match *self {
                Self::OneHanded => "Any One-Handed Weapon"@,
                Self::TwoHanded => "Any Two-Handed Weapon"@,
                Self::AxesFlailsHammersMaces => "Axes, Flails, Hammers, and Maces"@,
                Self::SwordsDaggersSpearsPolearms => "Swords, Daggers, Spears, and Polearms"@,
                Self::Missile => "Any Missile Weapon"@,
                Self::AnyFive(_, _, _, _, _) => "Any Five Weapons"@,
            },
    {
        match self {
            Self::OneHanded => "Any One-Handed Weapon",
            Self::TwoHanded => "Any Two-Handed Weapon",
            Self::AxesFlailsHammersMaces => "Axes, Flails, Hammers, and Maces",
            Self::SwordsDaggersSpearsPolearms => "Swords, Daggers, Spears, and Polearms",
            Self::Missile => "Any Missile Weapon",
            Self::AnyFive(_, _, _, _, _) => "Any Five Weapons",
        }.to_owned()
    }
}

impl WeaponSelection {
    pub open spec fn description(self) -> Seq<char> {
        match self {
            Self::Unrestricted => "They may use any type of melee or missile weapon."@,
            Self::Broad(b) => "They may use "@ + b@[0].words() + " and "@ + b@[1].words() + "."@,
            Self::Narrow(n) => "They can only use "@ + n@[0].words() + " and "@ + n@[1].words() + "."@,
            Self::Restricted(r) => "They can only use "@ + r@[0].words() + ", "@ + r@[1].words() + ", "@
                + r@[2].words() + ", and "@ + r@[3].words() + "."@,
        }
    }

    pub fn display(&self) -> (s: String)
        ensures
            s@ == self.description(),
    {
        match self {
            Self::Unrestricted => "They may use any type of melee or missile weapon.".to_owned(),
            Self::Broad(b) => {
                let mut s = "They may use ".to_owned();
                s.append(b[0].label().as_str());
                s.append(" and ");
                s.append(b[1].label().as_str());
                s.append(".");
                s
            },
            Self::Narrow(n) => {
                let mut s = "They can only use ".to_owned();
                s.append(n[0].label().as_str());
                s.append(" and ");
                s.append(n[1].label().as_str());
                s.append(".");
                s
            },
            Self::Restricted(r) => {
                let mut s = "They can only use ".to_owned();
                s.append(r[0].label());
                s.append(", ");
                s.append(r[1].label());
                s.append(", ");
                s.append(r[2].label());
                s.append(", and ");
                s.append(r[3].label());
                s.append(".");
                s
            },
        }
    }
}

pub open spec fn missing_title() -> Seq<char> {
    "ERROR: Something has gone wrong! There is no defined title for this level!"@
}

impl Titles {
    pub fn new() -> (t: Self)
        ensures
            t.0@.len() == 0,
    {
        Self(Vec::new())
    }

    /// The title of `level`: "Citizen" at level 0.
    pub open spec fn title(self, level: int) -> Seq<char> {
        if level == 0 {
            "Citizen"@
        } else if level - 1 < self.0@.len() {
            self.0@[level - 1]@
        } else {
            missing_title()
        }
    }

    pub fn get(&self, current_level: u8) -> (s: String)
        ensures
            s@ == self.title(current_level as int),
    {
        if current_level == 0 {
            return "Citizen".to_owned();
        }
        let i = current_level as usize - 1;
        if i < self.0.len() {
            self.0[i].clone()
        } else {
            "ERROR: Something has gone wrong! There is no defined title for this level!".to_owned()
        }
    }
}

impl ThiefSkill {
    pub open spec fn words(self) -> Seq<char> {
        match self {
            Self::OpenLocks => "Open Locks"@,
            Self::FindTraps => "Find Traps"@,
            Self::RemoveTraps => "Remove Traps"@,
            Self::PickPockets => "Pick Pockets"@,
            Self::MoveSilently => "Move Silently"@,
            Self::ClimbWalls => "Climb Walls"@,
            Self::HideInShadows => "Hide in Shadows"@,
            Self::HearNoise => "Hear Noise"@,
            Self::Backstab => "Backstab"@,
            Self::ReadLanguages => "Read Languages"@,
            Self::UseScrolls => "Use Scrolls"@,
        }
    }

    pub fn label(&self) -> (s: &'static str)
        ensures
            s@ == self.words(),
    {
        match self {
            Self::OpenLocks => "Open Locks",
            Self::FindTraps => "Find Traps",
            Self::RemoveTraps => "Remove Traps",
            Self::PickPockets => "Pick Pockets",
            Self::MoveSilently => "Move Silently",
            Self::ClimbWalls => "Climb Walls",
            Self::HideInShadows => "Hide in Shadows",
            Self::HearNoise => "Hear Noise",
            Self::Backstab => "Backstab",
            Self::ReadLanguages => "Read Languages",
            Self::UseScrolls => "Use Scrolls",
        }
    }
}

/// The sentence listing the skills `s` before index `upto`: the last
/// one after ", and ", the first alone, the others after ", ".
pub open spec fn skill_list(s: Seq<ThiefSkill>, upto: int) -> Seq<char>
    decreases upto,
{
    if upto <= 0 {
        Seq::empty()
    } else {
        let i = upto - 1;
        skill_list(s, i) + if i == s.len() - 1 {
            ", and "@ + s[i].words() + "."@
        } else if i == 0 {
            s[i].words()
        } else {
            ", "@ + s[i].words()
        }
    }
}

impl ThiefSkills {
    /// No skill is listed twice.
    pub open spec fn wf(self) -> bool {
        self.0@.no_duplicates()
    }

    /// The skills, as a set.
    pub open spec fn skills(self) -> Set<ThiefSkill> {
        self.0@.to_set()
    }

    pub fn new() -> (t: Self)
        ensures
            t.wf(),
            t.0@.len() == 0,
            t.skills() == Set::<ThiefSkill>::empty(),
    {
        let t = ThiefSkills(Vec::new());
        assert(t.skills() =~= Set::<ThiefSkill>::empty());
        t
    }

    /// Gives the class a skill, unless it has it already; says whether it was added.
    pub fn insert(&mut self, skill: ThiefSkill) -> (added: bool)
        ensures
            added == !old(self).skills().contains(skill),
            final(self).skills() == old(self).skills().insert(skill),
            added ==> final(self).0@ == old(self).0@.push(skill),
            !added ==> *final(self) == *old(self),
            old(self).wf() ==> final(self).wf(),
    {
        let n = self.0.len();
        for i in 0..n
            invariant
                n == self.0@.len(),
                forall|j: int| 0 <= j < i ==> self.0@[j] != skill,
        {
            if self.0[i] == skill {
                assert(self.0@[i as int] == skill);
                assert(self.skills() =~= self.skills().insert(skill));
                return false;
            }
        }
        assert(!self.skills().contains(skill));
        let ghost before = self.0@;
        self.0.push(skill);
        proof {
            assert(self.0@ == before.push(skill));
            assert forall|x: ThiefSkill| self.skills().contains(x) <==> before.to_set().insert(skill).contains(x) by {
                if before.contains(x) {
                    let j = choose|j: int| 0 <= j < before.len() && before[j] == x;
                    assert(self.0@[j] == x);
                }
                if x == skill {
                    assert(self.0@[before.len() as int] == x);
                }
                if self.0@.contains(x) && x != skill {
                    let j = choose|j: int| 0 <= j < self.0@.len() && self.0@[j] == x;
                    assert(before[j] == x);
                }
            }
            assert(self.skills() =~= old(self).skills().insert(skill));
            if old(self).wf() {
                assert forall|a: int, b: int| 0 <= a < self.0@.len() && 0 <= b < self.0@.len() && a != b
                    implies self.0@[a] != self.0@[b] by {
                    if b == before.len() {
                        assert(before[a] != skill);
                    } else if a == before.len() {
                        assert(before[b] != skill);
                    }
                }
            }
        }
        true
    }

    pub open spec fn description(self, class_name: Seq<char>) -> Seq<char> {
        "The "@ + class_name + " class can "@ + skill_list(self.0@, self.0@.len() as int)
    }

    pub fn display(&self, class_name: &str) -> (s: String)
        ensures
            s@ == self.description(class_name@),
    {
        let mut s = "The ".to_owned();
        s.append(class_name);
        s.append(" class can ");
        let n = self.0.len();
        let ghost prefix = s@;
        for i in 0..n
            invariant
                n == self.0@.len(),
                s@ == prefix + skill_list(self.0@, i as int),
        {
            let skill = self.0[i];
            if i == n - 1 {
                s.append(", and ");
                s.append(skill.label());
                s.append(".");
            } else if i == 0 {
                s.append(skill.label());
            } else {
                s.append(", ");
                s.append(skill.label());
            }
        }
        s
    }
}

/// All the thief skills, in order.
pub const THIEF_SKILLS: [ThiefSkill; 11] = [
    ThiefSkill::OpenLocks,
    ThiefSkill::FindTraps,
    ThiefSkill::RemoveTraps,
    ThiefSkill::PickPockets,
    ThiefSkill::MoveSilently,
    ThiefSkill::ClimbWalls,
    ThiefSkill::HideInShadows,
    ThiefSkill::HearNoise,
    ThiefSkill::Backstab,
    ThiefSkill::ReadLanguages,
    ThiefSkill::UseScrolls,
];

impl Class {
    /// A human class of fourteen levels, with no name or description, no prime requisites,
    /// titles, proficiencies or thief skills, a four-sided hit die, a base cost of 2000 experience,
    /// fighter saves, one attack throw per three levels, every weapon, armor and fighting style,
    /// and no damage bonus, cleaves or spells.
    pub open spec fn is_default(self) -> bool {
        &&& self.race == Race::Human
        &&& self.name@.len() == 0
        &&& self.description@.len() == 0
        &&& self.prime_reqs@.len() == 0
        &&& self.maximum_level == 14
        &&& self.titles.0@.len() == 0
        &&& self.hit_die == HitDie::D4
        &&& self.base_xp_cost == 2000
        &&& self.class_proficiencies@.len() == 0
        &&& self.saving_throw_progression_type == SavingThrowProgressionType::Fighter
        &&& self.attack_throw_progression == AttackThrowProgression::OnePerThree
        &&& self.weapon_selection is Unrestricted
        &&& self.armor_selection == ArmorSelection::Unrestricted
        &&& self.fighting_styles == (FightingStyles { two_weapons: true, weapon_and_shield: true, two_handed: true })
        &&& self.class_damage_bonus == ClassDamageBonus::Nothing
        &&& self.cleaves == Cleaves::Nothing
        &&& self.thief_skills.0@.len() == 0
        &&& self.divine_value == DivineValue::Nothing
        &&& self.arcane_value == ArcaneValue::Nothing
    }

    pub fn default() -> (c: Self)
        ensures
            c.is_default(),
    {
        Self {
            race: Race::Human,
            name: String::new(),
            description: String::new(),
            prime_reqs: Vec::new(),
            maximum_level: 14,
            titles: Titles::new(),
            hit_die: HitDie::D4,
            base_xp_cost: 2000,
            class_proficiencies: Vec::new(),
            saving_throw_progression_type: SavingThrowProgressionType::Fighter,
            attack_throw_progression: AttackThrowProgression::OnePerThree,
            weapon_selection: WeaponSelection::Unrestricted,
            armor_selection: ArmorSelection::Unrestricted,
            fighting_styles: FightingStyles::all(),
            class_damage_bonus: ClassDamageBonus::Nothing,
            cleaves: Cleaves::Nothing,
            thief_skills: ThiefSkills(Vec::new()),
            divine_value: DivineValue::Nothing,
            arcane_value: ArcaneValue::Nothing,
        }
    }
}

} // verus!
