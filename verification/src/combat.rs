use vstd::prelude::*;
use crate::chat::{ChatMessage, MessageView, ChatFlags, MessageColor, SenderView, plain_message};
use vstd::string::*;

use crate::character::{Attributes, Health, SavingThrows, saves_of};
use crate::dice::{DiceRoll, Drop, roll, possible_result};
use crate::enemy::AttackRoutine;
use crate::spell::MagicType;
use crate::stat_mod::StatMod;
use crate::text::{nat_digits, signed_text, push_decimal, push_signed};

verus! {

// ---------------------------------------------------------------------------------------------
// Status effects.
// ---------------------------------------------------------------------------------------------

#[derive(Debug, Clone, Copy, PartialEq, Eq, Hash, Structural)]
pub enum StatusEffect {
    Dead,
    Dying,
    Sleeping,
    Paralyzed,
    Concentrating,
}

impl StatusEffect {
    pub fn iterate() -> (all: Vec<StatusEffect>)
        ensures
            all@ == seq![StatusEffect::Dead, StatusEffect::Dying, StatusEffect::Sleeping,
                StatusEffect::Paralyzed, StatusEffect::Concentrating],
    {
        let mut all = Vec::new();
        all.push(Self::Dead);
        all.push(Self::Dying);
        all.push(Self::Sleeping);
        all.push(Self::Paralyzed);
        all.push(Self::Concentrating);
        all
    }

    pub fn label(&self) -> (s: &'static str)
        ensures
            s@ == match *self {
                Self::Dead => "Dead"@,
                Self::Dying => "Dying"@,
                Self::Sleeping => "Sleeping"@,
                Self::Paralyzed => "Paralyzed"@,
                Self::Concentrating => "Concentrating"@,
            },
    {
        match self {
            Self::Dead => "Dead",
            Self::Dying => "Dying",
            Self::Sleeping => "Sleeping",
            Self::Paralyzed => "Paralyzed",
            Self::Concentrating => "Concentrating",
        }
    }
}

/// The ailments affecting a combatant.
pub struct StatusEffects {
    pub effects: Vec<StatusEffect>,
}

impl View for StatusEffects {
    type V = Set<StatusEffect>;

    open spec fn view(&self) -> Set<StatusEffect> {
        self.effects@.to_set()
    }
}

pub open spec fn helpless(s: Set<StatusEffect>) -> bool {
    s.contains(StatusEffect::Sleeping) || s.contains(StatusEffect::Paralyzed)
}

pub open spec fn untargetable(s: Set<StatusEffect>) -> bool {
    s.contains(StatusEffect::Dead) || s.contains(StatusEffect::Dying)
}

pub open spec fn incapacitated(s: Set<StatusEffect>) -> bool {
    helpless(s) || untargetable(s)
}

impl StatusEffects {
    /// No effect is listed twice.
    pub open spec fn wf(&self) -> bool {
        self.effects@.no_duplicates()
    }

    pub fn new() -> (s: Self)
        ensures
            s@ == Set::<StatusEffect>::empty(),
            s.effects@.len() == 0,
            s.wf(),
    {
        let s = Self { effects: Vec::new() };
        assert(s@ =~= Set::<StatusEffect>::empty());
        s
    }

    pub fn is(&self, effect: StatusEffect) -> (b: bool)
        ensures
            b == self@.contains(effect),
    {
        let n = self.effects.len();
        for i in 0..n
            invariant
                n == self.effects@.len(),
                forall|j: int| 0 <= j < i ==> self.effects@[j] != effect,
        {
            if self.effects[i] == effect {
                assert(self.effects@[i as int] == effect);
                return true;
            }
        }
        false
    }

    /// Adds an effect (nothing changes if it is already there).
    pub fn insert(&mut self, effect: StatusEffect)
        ensures
            final(self)@ == old(self)@.insert(effect),
            old(self).wf() ==> final(self).wf(),
    {
        if !self.is(effect) {
            let ghost before = self.effects@;
            self.effects.push(effect);
            assert(self.effects@ == before.push(effect));
            assert(old(self).wf() ==> self.wf()) by {
                if old(self).wf() {
                    assert forall|i: int, j: int| 0 <= i < self.effects@.len() && 0 <= j < self.effects@.len() && i != j
                        implies self.effects@[i] != self.effects@[j] by {
                        if j == before.len() {
                            assert(before.contains(before[i]));
                        } else if i == before.len() {
                            assert(before.contains(before[j]));
                        }
                    }
                }
            }
            assert forall|x: StatusEffect| self@.contains(x) <==> old(self)@.insert(effect).contains(x) by {
                if old(self)@.contains(x) {
                    let j = choose|j: int| 0 <= j < old(self).effects@.len() && old(self).effects@[j] == x;
                    assert(self.effects@[j] == x);
                }
                if x == effect {
                    assert(self.effects@[self.effects@.len() - 1] == x);
                }
                if self@.contains(x) && x != effect {
                    let j = choose|j: int| 0 <= j < self.effects@.len() && self.effects@[j] == x;
                    assert(old(self).effects@[j] == x);
                }
            }
        }
        assert(self@ =~= old(self)@.insert(effect));
    }

    /// Takes an effect away.
    pub fn remove(&mut self, effect: StatusEffect)
        ensures
            final(self)@ == old(self)@.remove(effect),
            old(self).wf() ==> final(self).wf(),
    {
        let mut kept: Vec<StatusEffect> = Vec::new();
        let n = self.effects.len();
        for i in 0..n
            invariant
                n == self.effects@.len(),
                self.wf() ==> kept@.no_duplicates(),
                forall|x: StatusEffect| kept@.contains(x) <==> (x != effect && exists|j: int| 0 <= j < i && self.effects@[j] == x),
        {
            let e = self.effects[i];
            let ghost before = kept@;
            if e != effect {
                proof {
                    if self.wf() && before.contains(e) {
                        let j = choose|j: int| 0 <= j < i && self.effects@[j] == e;
                        assert(self.effects@[i as int] == e);
                    }
                }
                kept.push(e);
                assert(kept@ == before.push(e));
                assert(self.wf() ==> kept@.no_duplicates()) by {
                    if self.wf() {
                        assert forall|a: int, b: int| 0 <= a < kept@.len() && 0 <= b < kept@.len() && a != b
                            implies kept@[a] != kept@[b] by {
                            if b == before.len() {
                                assert(before.contains(before[a]));
                            } else if a == before.len() {
                                assert(before.contains(before[b]));
                            }
                        }
                    }
                }
            }
            assert forall|x: StatusEffect| kept@.contains(x) <==> (x != effect && exists|j: int| 0 <= j < i + 1 && self.effects@[j] == x) by {
                if x != effect && exists|j: int| 0 <= j < i + 1 && self.effects@[j] == x {
                    let j = choose|j: int| 0 <= j < i + 1 && self.effects@[j] == x;
                    if j == i {
                        assert(kept@[kept@.len() - 1] == x);
                    } else {
                        assert(before.contains(x));
                        let k = choose|k: int| 0 <= k < before.len() && before[k] == x;
                        assert(kept@[k] == x);
                    }
                }
                if kept@.contains(x) {
                    let k = choose|k: int| 0 <= k < kept@.len() && kept@[k] == x;
                    if k < before.len() {
                        assert(before[k] == x);
                        assert(before.contains(x));
                    } else {
                        assert(self.effects@[i as int] == x);
                    }
                }
            }
        }
        let ghost before = self@;
        self.effects = kept;
        assert forall|x: StatusEffect| self@.contains(x) <==> old(self)@.remove(effect).contains(x) by {
            if old(self)@.contains(x) {
                let j = choose|j: int| 0 <= j < old(self).effects@.len() && old(self).effects@[j] == x;
            }
        }
        assert(self@ =~= old(self)@.remove(effect));
    }

    pub fn is_helpless(&self) -> (b: bool)
        ensures
            b == helpless(self@),
    {
        self.is(StatusEffect::Sleeping) || self.is(StatusEffect::Paralyzed)
    }

    pub fn is_untargetable(&self) -> (b: bool)
        ensures
            b == untargetable(self@),
    {
        self.is(StatusEffect::Dead) || self.is(StatusEffect::Dying)
    }

    pub fn is_incapacitated(&self) -> (b: bool)
        ensures
            b == incapacitated(self@),
    {
        self.is_helpless() || self.is_untargetable()
    }
}

// ---------------------------------------------------------------------------------------------
// Damage rolls.
// ---------------------------------------------------------------------------------------------

#[derive(Debug, Clone, Copy, PartialEq, Eq, Hash, Structural)]
pub enum SavingThrowType {
    PetrificationParalysis,
    PoisonDeath,
    BlastBreath,
    StaffsWands,
    Spells,
}

impl SavingThrowType {
    pub open spec fn name(self) -> Seq<char> {
        match self {
            Self::PetrificationParalysis => "Petrification & Paralysis"@,
            Self::PoisonDeath => "Poison & Death"@,
            Self::BlastBreath => "Blast & Breath"@,
            Self::StaffsWands => "Staffs & Wands"@,
            Self::Spells => "Spells"@,
        }
    }

    pub fn label(&self) -> (s: &'static str)
        ensures
            s@ == self.name(),
    {
        match self {
            Self::PetrificationParalysis => "Petrification & Paralysis",
            Self::PoisonDeath => "Poison & Death",
            Self::BlastBreath => "Blast & Breath",
            Self::StaffsWands => "Staffs & Wands",
            Self::Spells => "Spells",
        }
    }
}

#[derive(Debug, Clone, Copy, PartialEq, Eq, Hash, Structural)]
pub enum AttackType {
    Melee,
    Missile,
}

/// Represents the base damage roll for something.
#[derive(Debug, Clone, Copy, PartialEq, Eq, Hash, Structural)]
pub struct DamageRoll {
    pub amount: u32,
    pub sides: u32,
    pub modifier: i32,
    pub attack_type: AttackType,
}

impl DamageRoll {
    pub open spec fn spec_default() -> DamageRoll {
        DamageRoll { amount: 1, sides: 2, modifier: 0, attack_type: AttackType::Melee }
    }

    pub fn new(amount: u32, sides: u32, modifier: i32, attack_type: AttackType) -> (d: Self)
        ensures
            d == (DamageRoll { amount, sides, modifier, attack_type }),
    {
        Self { amount, sides, modifier, attack_type }
    }

    pub fn default() -> (d: Self)
        ensures
            d == Self::spec_default(),
    {
        Self { amount: 1, sides: 2, modifier: 0, attack_type: AttackType::Melee }
    }

    pub fn melee() -> (d: Self)
        ensures
            d == (DamageRoll { amount: 1, sides: 2, modifier: 0, attack_type: AttackType::Melee }),
    {
        Self { amount: 1, sides: 2, modifier: 0, attack_type: AttackType::Melee }
    }

    pub fn missile() -> (d: Self)
        ensures
            d == (DamageRoll { amount: 1, sides: 2, modifier: 0, attack_type: AttackType::Missile }),
    {
        Self { amount: 1, sides: 2, modifier: 0, attack_type: AttackType::Missile }
    }

    pub open spec fn dice(self) -> DiceRoll {
        DiceRoll::spec_simple(self.amount, self.sides, self.modifier, Drop::Nothing)
    }

    pub fn as_diceroll(&self) -> (r: DiceRoll)
        ensures
            r == self.dice(),
    {
        DiceRoll::simple_modifier(self.amount, self.sides, self.modifier)
    }

    pub open spec fn notation(self) -> Seq<char> {
        nat_digits(self.amount as nat) + "d"@ + nat_digits(self.sides as nat)
            + if self.modifier == 0 { Seq::empty() } else { signed_text(self.modifier as int) }
    }

    pub fn to_notation(&self) -> (s: String)
        ensures
            s@ == self.notation(),
    {
        let mut s = String::new();
        push_decimal(&mut s, self.amount as u64);
        s.append("d");
        push_decimal(&mut s, self.sides as u64);
        if self.modifier != 0 {
            push_signed(&mut s, self.modifier as i64);
        }
        s
    }

    pub fn roll(&self) -> (r: i32)
        requires
            crate::dice::can_roll(self.dice()),
        ensures
            possible_result(self.dice(), r as int),
            self.amount >= 1 && self.sides >= 1 ==> {
                let low = self.amount + self.modifier;
                let high = self.amount * self.sides + self.modifier;
                &&& (if low < 1 { 1 } else { low }) <= r
                &&& r <= (if high < 1 { 1 } else { high })
            },
    {
        let r = self.as_diceroll().roll();
        proof { crate::dice::lemma_simple_roll_range(self.dice(), r as int); }
        r
    }
}

// ---------------------------------------------------------------------------------------------
// Stat modifiers.
// ---------------------------------------------------------------------------------------------

#[derive(Debug, Clone, Copy, PartialEq, Eq, Hash, Structural)]
pub enum StatModType {
    MeleeAttack,
    MissileAttack,
    MeleeDamage,
    MissileDamage,
    Initiative,
    Surprise,
    ArmorClass,
    SavePP,
    SavePD,
    SaveBB,
    SaveSW,
    SaveSpells,
}

/// Stores ALL active modifiers for every stat, including permanent and temporary modifiers. Each
/// modifier needs a unique key that specifies where it came from (proficiencies, class bonuses, etc).
/// The experience gain is kept in tenths of a percent.
pub struct StatModifiers {
    pub melee_attack: StatMod,
    pub missile_attack: StatMod,
    pub melee_damage: StatMod,
    pub missile_damage: StatMod,
    pub initiative: StatMod,
    pub surprise: StatMod,
    pub armor_class: StatMod,
    pub xp_gain: StatMod,
    pub save_petrification_paralysis: StatMod,
    pub save_poison_death: StatMod,
    pub save_blast_breath: StatMod,
    pub save_staffs_wands: StatMod,
    pub save_spells: StatMod,
}

/// `new` is `old` with the modifier `key` set to `v`.
pub open spec fn added(old: StatMod, new: StatMod, key: Seq<char>, v: i32) -> bool {
    &&& new.wf()
    &&& new.modifiers() == old.modifiers().insert(key, v)
    &&& new.spec_total() == old.spec_total() - (if old.modifiers().contains_key(key) { old.modifiers()[key] as int } else { 0 }) + v
}

/// Whether setting the modifier `key` to `v` keeps the total within an `i32` at every step.
pub open spec fn can_add(m: StatMod, key: Seq<char>, v: i32) -> bool {
    &&& m.wf()
    &&& m.modifiers().contains_key(key) ==> i32::MIN <= m.spec_total() - m.modifiers()[key] <= i32::MAX
    &&& i32::MIN <= m.spec_total() - (if m.modifiers().contains_key(key) { m.modifiers()[key] as int } else { 0 }) + v <= i32::MAX
}

/// `new` is `old` with the modifier `key` taken out.
pub open spec fn removed(old: StatMod, new: StatMod, key: Seq<char>) -> bool {
    &&& new.wf()
    &&& new.modifiers() == old.modifiers().remove(key)
    &&& new.spec_total() == old.spec_total() - (if old.modifiers().contains_key(key) { old.modifiers()[key] as int } else { 0 })
}

pub open spec fn can_remove(m: StatMod, key: Seq<char>) -> bool {
    &&& m.wf()
    &&& m.modifiers().contains_key(key) ==> i32::MIN <= m.spec_total() - m.modifiers()[key] <= i32::MAX
}

/// Whether setting the modifier `key` of all five saves to `v` keeps each total within an `i32`.
pub open spec fn saves_can_add(m: StatModifiers, key: Seq<char>, v: i32) -> bool {
    &&& can_add(m.save_petrification_paralysis, key, v)
    &&& can_add(m.save_poison_death, key, v)
    &&& can_add(m.save_blast_breath, key, v)
    &&& can_add(m.save_staffs_wands, key, v)
    &&& can_add(m.save_spells, key, v)
}

/// Whether taking the modifier `key` out of all five saves keeps each total within an `i32`.
pub open spec fn saves_can_remove(m: StatModifiers, key: Seq<char>) -> bool {
    &&& can_remove(m.save_petrification_paralysis, key)
    &&& can_remove(m.save_poison_death, key)
    &&& can_remove(m.save_blast_breath, key)
    &&& can_remove(m.save_staffs_wands, key)
    &&& can_remove(m.save_spells, key)
}

/// The stats other than the saves are as they were.
pub open spec fn same_but_saves(a: StatModifiers, b: StatModifiers) -> bool {
    &&& b.melee_attack == a.melee_attack
    &&& b.missile_attack == a.missile_attack
    &&& b.melee_damage == a.melee_damage
    &&& b.missile_damage == a.missile_damage
    &&& b.initiative == a.initiative
    &&& b.surprise == a.surprise
    &&& b.armor_class == a.armor_class
    &&& b.xp_gain == a.xp_gain
}

/// `b` is `a` with the modifier `key` of all five saves set to `v`.
pub open spec fn saves_added(a: StatModifiers, b: StatModifiers, key: Seq<char>, v: i32) -> bool {
    &&& added(a.save_petrification_paralysis, b.save_petrification_paralysis, key, v)
    &&& added(a.save_poison_death, b.save_poison_death, key, v)
    &&& added(a.save_blast_breath, b.save_blast_breath, key, v)
    &&& added(a.save_staffs_wands, b.save_staffs_wands, key, v)
    &&& added(a.save_spells, b.save_spells, key, v)
    &&& same_but_saves(a, b)
}

/// `b` is `a` with the modifier `key` taken out of all five saves.
pub open spec fn saves_removed(a: StatModifiers, b: StatModifiers, key: Seq<char>) -> bool {
    &&& removed(a.save_petrification_paralysis, b.save_petrification_paralysis, key)
    &&& removed(a.save_poison_death, b.save_poison_death, key)
    &&& removed(a.save_blast_breath, b.save_blast_breath, key)
    &&& removed(a.save_staffs_wands, b.save_staffs_wands, key)
    &&& removed(a.save_spells, b.save_spells, key)
    &&& same_but_saves(a, b)
}

/// Setting a modifier under a key that a stat did not hold, and then taking it out, leaves the
/// stat's modifiers and total as they were.
pub proof fn add_then_remove_restores(a: StatMod, b: StatMod, c: StatMod, key: Seq<char>, v: i32)
    requires
        !a.modifiers().contains_key(key),
        added(a, b, key, v),
        removed(b, c, key),
    ensures
        c.modifiers() == a.modifiers(),
        c.spec_total() == a.spec_total(),
{
    assert(c.modifiers() =~= a.modifiers());
}

/// Setting a modifier of all five saves under a key that none of them held, and then taking it
/// out of all five, leaves every save's modifiers and total, and every other stat, as they were.
pub proof fn saves_add_then_remove_restores(a: StatModifiers, b: StatModifiers, c: StatModifiers, key: Seq<char>, v: i32)
    requires
        !a.save_petrification_paralysis.modifiers().contains_key(key),
        !a.save_poison_death.modifiers().contains_key(key),
        !a.save_blast_breath.modifiers().contains_key(key),
        !a.save_staffs_wands.modifiers().contains_key(key),
        !a.save_spells.modifiers().contains_key(key),
        saves_added(a, b, key, v),
        saves_removed(b, c, key),
    ensures
        forall|t: StatModType| (#[trigger] c.of(t)).modifiers() == a.of(t).modifiers() && c.of(t).spec_total() == a.of(t).spec_total(),
        c.xp_gain == a.xp_gain,
{
    add_then_remove_restores(a.save_petrification_paralysis, b.save_petrification_paralysis, c.save_petrification_paralysis, key, v);
    add_then_remove_restores(a.save_poison_death, b.save_poison_death, c.save_poison_death, key, v);
    add_then_remove_restores(a.save_blast_breath, b.save_blast_breath, c.save_blast_breath, key, v);
    add_then_remove_restores(a.save_staffs_wands, b.save_staffs_wands, c.save_staffs_wands, key, v);
    add_then_remove_restores(a.save_spells, b.save_spells, c.save_spells, key, v);
}

impl StatModifiers {
    pub open spec fn wf(self) -> bool {
        &&& self.melee_attack.wf()
        &&& self.missile_attack.wf()
        &&& self.melee_damage.wf()
        &&& self.missile_damage.wf()
        &&& self.initiative.wf()
        &&& self.surprise.wf()
        &&& self.armor_class.wf()
        &&& self.xp_gain.wf()
        &&& self.save_petrification_paralysis.wf()
        &&& self.save_poison_death.wf()
        &&& self.save_blast_breath.wf()
        &&& self.save_staffs_wands.wf()
        &&& self.save_spells.wf()
    }

    /// The modifiers of the stat `t`.
    pub open spec fn of(self, t: StatModType) -> StatMod {
        match t {
            StatModType::MeleeAttack => self.melee_attack,
            StatModType::MissileAttack => self.missile_attack,
            StatModType::MeleeDamage => self.melee_damage,
            StatModType::MissileDamage => self.missile_damage,
            StatModType::Initiative => self.initiative,
            StatModType::Surprise => self.surprise,
            StatModType::ArmorClass => self.armor_class,
            StatModType::SavePP => self.save_petrification_paralysis,
            StatModType::SavePD => self.save_poison_death,
            StatModType::SaveBB => self.save_blast_breath,
            StatModType::SaveSW => self.save_staffs_wands,
            StatModType::SaveSpells => self.save_spells,
        }
    }

    pub fn new() -> (m: Self)
        ensures
            m.wf(),
            forall|t: StatModType| (#[trigger] m.of(t)).spec_total() == 0 && m.of(t).modifiers().is_empty()
                && m.of(t).pending() == (Seq::<char>::empty(), 0i32),
            m.xp_gain.spec_total() == 0,
            m.xp_gain.modifiers().is_empty(),
            m.xp_gain.pending() == (Seq::<char>::empty(), 0i32),
    {
        Self {
            melee_attack: StatMod::new(0),
            missile_attack: StatMod::new(0),
            melee_damage: StatMod::new(0),
            missile_damage: StatMod::new(0),
            initiative: StatMod::new(0),
            surprise: StatMod::new(0),
            armor_class: StatMod::new(0),
            xp_gain: StatMod::new(0),
            save_petrification_paralysis: StatMod::new(0),
            save_poison_death: StatMod::new(0),
            save_blast_breath: StatMod::new(0),
            save_staffs_wands: StatMod::new(0),
            save_spells: StatMod::new(0),
        }
    }

    /// Sets the modifier `key` of all five saves to `value`.
    pub fn add_all_saves(&mut self, key: &str, value: i32)
        requires
            saves_can_add(*old(self), key@, value),
        ensures
            saves_added(*old(self), *final(self), key@, value),
    {
        self.save_petrification_paralysis.add(key, value);
        self.save_poison_death.add(key, value);
        self.save_blast_breath.add(key, value);
        self.save_staffs_wands.add(key, value);
        self.save_spells.add(key, value);
    }

    /// Takes the modifier `key` out of all five saves.
    pub fn remove_all_saves(&mut self, key: &str)
        requires
            saves_can_remove(*old(self), key@),
        ensures
            saves_removed(*old(self), *final(self), key@),
    {
        self.save_petrification_paralysis.remove(key);
        self.save_poison_death.remove(key);
        self.save_blast_breath.remove(key);
        self.save_staffs_wands.remove(key);
        self.save_spells.remove(key);
    }

    /// The modifiers of the stat `typ`, to be changed in place.
    pub fn get_i32(&mut self, typ: StatModType) -> (m: &mut StatMod)
        ensures
            *m == old(self).of(typ),
            final(self).of(typ) == *final(m),
            forall|t: StatModType| t != typ ==> #[trigger] final(self).of(t) == old(self).of(t),
            final(self).xp_gain == old(self).xp_gain,
    {
        match typ {
            StatModType::MeleeAttack => &mut self.melee_attack,
            StatModType::MissileAttack => &mut self.missile_attack,
            StatModType::MeleeDamage => &mut self.melee_damage,
            StatModType::MissileDamage => &mut self.missile_damage,
            StatModType::Initiative => &mut self.initiative,
            StatModType::Surprise => &mut self.surprise,
            StatModType::ArmorClass => &mut self.armor_class,
            StatModType::SavePP => &mut self.save_petrification_paralysis,
            StatModType::SavePD => &mut self.save_poison_death,
            StatModType::SaveBB => &mut self.save_blast_breath,
            StatModType::SaveSW => &mut self.save_staffs_wands,
            StatModType::SaveSpells => &mut self.save_spells,
        }
    }
}

// ---------------------------------------------------------------------------------------------
// Combatants.
// ---------------------------------------------------------------------------------------------

/// All the stats required for something to engage in combat. All of these are *base* stats, before
/// any modifiers! This means `armor_class` will be zero for most characters, unless they have
/// innate armor! All modifiers are stored in `modifiers`.
pub struct CombatantStats {
    pub attributes: Attributes,
    pub health: Health,
    pub attack_throw: i32,
    pub armor_class: i32,
    pub damage: AttackRoutine,
    pub attack_index: u32,
    pub saving_throws: SavingThrows,
    pub status_effects: StatusEffects,
    pub modifiers: StatModifiers,
}

/// The attack of the routine at `index`, if it has that many.
pub open spec fn routine_attack(r: AttackRoutine, index: int) -> Option<DamageRoll> {
    match r {
        AttackRoutine::One(d1) => if index == 0 { Some(d1) } else { None },
        AttackRoutine::Two(d1, d2) => if index == 0 { Some(d1) } else if index == 1 { Some(d2) } else { None },
        AttackRoutine::Three(d1, d2, d3) => if index == 0 { Some(d1) } else if index == 1 { Some(d2) }
            else if index == 2 { Some(d3) } else { None },
    }
}

/// The base save and its modifiers for one kind of saving throw.
pub open spec fn save_parts(s: CombatantStats, save: SavingThrowType) -> (int, int) {
    match save {
        SavingThrowType::PetrificationParalysis => (s.saving_throws.petrification_paralysis as int,
            s.modifiers.save_petrification_paralysis.spec_total()),
        SavingThrowType::PoisonDeath => (s.saving_throws.poison_death as int, s.modifiers.save_poison_death.spec_total()),
        SavingThrowType::BlastBreath => (s.saving_throws.blast_breath as int, s.modifiers.save_blast_breath.spec_total()),
        SavingThrowType::StaffsWands => (s.saving_throws.staffs_wands as int, s.modifiers.save_staffs_wands.spec_total()),
        SavingThrowType::Spells => (s.saving_throws.spells as int, s.modifiers.save_spells.spec_total()),
    }
}

/// A save succeeds on a natural 20, or when the die and the modifier reach 20.
pub open spec fn save_made(die: int, modifier: int) -> bool {
    die >= 20 || die + modifier >= 20
}

pub open spec fn d20() -> DiceRoll {
    DiceRoll::spec_simple(1, 20, 0, Drop::Nothing)
}

/// The attack bonus of a combatant: its base throw and the modifier of the kind of attack it makes now.
pub open spec fn attack_bonus_of(s: CombatantStats) -> int {
    let d = match routine_attack(s.damage, s.attack_index as int) { Some(d) => d, None => DamageRoll::spec_default() };
    match d.attack_type {
        AttackType::Melee => s.attack_throw + s.modifiers.melee_attack.spec_total(),
        AttackType::Missile => s.attack_throw + s.modifiers.missile_attack.spec_total(),
    }
}

pub open spec fn armor_of(s: CombatantStats) -> int {
    s.armor_class + s.modifiers.armor_class.spec_total()
}

impl CombatantStats {
    pub fn empty() -> (s: Self)
        ensures
            s.attributes == (Attributes { strength: 0, dexterity: 0, constitution: 0, intelligence: 0, wisdom: 0, charisma: 0 }),
            s.health == (Health { max_hp: 0, current_hp: 0 }),
            s.attack_throw == 0,
            s.armor_class == 0,
            s.damage == AttackRoutine::One(DamageRoll::spec_default()),
            s.attack_index == 0,
            s.saving_throws == saves_of(0, 0, 0, 0, 0),
            s.status_effects.effects@.len() == 0,
            s.modifiers.wf(),
            forall|t: StatModType| (#[trigger] s.modifiers.of(t)).spec_total() == 0 && s.modifiers.of(t).modifiers().is_empty()
                && s.modifiers.of(t).pending() == (Seq::<char>::empty(), 0i32),
            s.modifiers.xp_gain.spec_total() == 0,
            s.modifiers.xp_gain.modifiers().is_empty(),
            s.modifiers.xp_gain.pending() == (Seq::<char>::empty(), 0i32),
    {
        Self {
            attributes: Attributes { strength: 0, dexterity: 0, constitution: 0, intelligence: 0, wisdom: 0, charisma: 0 },
            health: Health::new(),
            attack_throw: 0,
            armor_class: 0,
            damage: AttackRoutine::One(DamageRoll::default()),
            attack_index: 0,
            saving_throws: SavingThrows::new(),
            status_effects: StatusEffects::new(),
            modifiers: StatModifiers::new(),
        }
    }

    /// The damage of the attack the combatant makes next, if its routine has one at that index.
    pub fn current_damage(&self) -> (d: Option<DamageRoll>)
        ensures
            d == routine_attack(self.damage, self.attack_index as int),
    {
        match self.damage {
            AttackRoutine::One(d1) => if self.attack_index == 0 { Some(d1) } else { None },
            AttackRoutine::Two(d1, d2) => {
                if self.attack_index == 0 { Some(d1) } else if self.attack_index == 1 { Some(d2) } else { None }
            },
            AttackRoutine::Three(d1, d2, d3) => {
                if self.attack_index == 0 { Some(d1) } else if self.attack_index == 1 { Some(d2) }
                else if self.attack_index == 2 { Some(d3) } else { None }
            },
        }
    }

    /// Rolls a saving throw: a d20, to which the save and its modifiers are added.
    pub fn saving_throw(&self, save: SavingThrowType) -> (made: bool)
        requires
            i32::MIN <= save_parts(*self, save).0 + save_parts(*self, save).1 <= i32::MAX - 20,
        ensures
            exists|die: int| possible_result(d20(), die)
                && made == save_made(die, save_parts(*self, save).0 + save_parts(*self, save).1),
    {
        let modifier = match save {
            SavingThrowType::PetrificationParalysis => {
                self.saving_throws.petrification_paralysis + self.modifiers.save_petrification_paralysis.total()
            },
            SavingThrowType::PoisonDeath => self.saving_throws.poison_death + self.modifiers.save_poison_death.total(),
            SavingThrowType::BlastBreath => self.saving_throws.blast_breath + self.modifiers.save_blast_breath.total(),
            SavingThrowType::StaffsWands => self.saving_throws.staffs_wands + self.modifiers.save_staffs_wands.total(),
            SavingThrowType::Spells => self.saving_throws.spells + self.modifiers.save_spells.total(),
        };
        let face = DiceRoll::simple(1, 20).roll();
        proof { crate::dice::lemma_single_die_range(DiceRoll::spec_simple(1, 20, 0, Drop::Nothing), face as int); }
        save_succeeds(face, modifier)
    }

    /// Takes `damage` from the current hit points; a combatant brought from above zero to zero or
    /// below starts dying, and `true` is returned.
    pub fn hurt(&mut self, damage: u32) -> (dropped: bool)
        requires
            damage <= i32::MAX,
            old(self).health.current_hp - damage >= i32::MIN,
        ensures
            final(self).health.current_hp == old(self).health.current_hp - damage,
            final(self).health.max_hp == old(self).health.max_hp,
            dropped == (old(self).health.current_hp > 0 && final(self).health.current_hp <= 0),
            final(self).status_effects@ == if dropped { old(self).status_effects@.insert(StatusEffect::Dying) }
                else { old(self).status_effects@ },
            final(self).attributes == old(self).attributes,
            final(self).attack_throw == old(self).attack_throw,
            final(self).armor_class == old(self).armor_class,
            final(self).damage == old(self).damage,
            final(self).attack_index == old(self).attack_index,
            final(self).saving_throws == old(self).saving_throws,
            final(self).modifiers == old(self).modifiers,
    {
        let before = self.health.current_hp;
        self.health.current_hp = self.health.current_hp - damage as i32;
        let after = self.health.current_hp;
        if before > 0 && after <= 0 {
            self.status_effects.insert(StatusEffect::Dying);
            true
        } else {
            false
        }
    }

    /// The attack throw of the attack the combatant makes next, with its modifiers.
    pub fn attack_bonus(&self) -> (b: i32)
        requires
            i32::MIN <= attack_bonus_of(*self) <= i32::MAX,
            i32::MIN <= self.attack_throw + self.modifiers.melee_attack.spec_total() <= i32::MAX,
            i32::MIN <= self.attack_throw + self.modifiers.missile_attack.spec_total() <= i32::MAX,
        ensures
            b == attack_bonus_of(*self),
    {
        let d = match self.current_damage() { Some(d) => d, None => DamageRoll::default() };
        match d.attack_type {
            AttackType::Melee => self.attack_throw + self.modifiers.melee_attack.total(),
            AttackType::Missile => self.attack_throw + self.modifiers.missile_attack.total(),
        }
    }

    /// The armor class with its modifiers.
    pub fn armor(&self) -> (a: i32)
        requires
            i32::MIN <= armor_of(*self) <= i32::MAX,
        ensures
            a == armor_of(*self),
    {
        self.armor_class + self.modifiers.armor_class.total()
    }
}

/// The words of the log for a saving throw of `who` against `save`.
pub open spec fn saving_throw_words(who: Seq<char>, save: SavingThrowType, made: bool) -> Seq<char> {
    who + (if made { " successfully made a saving throw against "@ } else { " failed a saving throw against "@ })
        + save.name() + "!"@
}

/// The chat message that tells how a saving throw of `who` went: a dice roll, light green when
/// it was made and light red when it failed.
pub fn saving_throw_message(who: &String, save: SavingThrowType, made: bool) -> (m: ChatMessage)
    ensures
        m@ == (MessageView {
            flags: ChatFlags { dice_roll: true, private: false, combat: false, parties: false },
            color: if made { MessageColor::LightGreen } else { MessageColor::LightRed },
            ..plain_message(SenderView::Nobody, saving_throw_words(who@, save, made))
        }),
{
    let mut text = who.clone();
    if made {
        text.append(" successfully made a saving throw against ");
    } else {
        text.append(" failed a saving throw against ");
    }
    text.append(save.label());
    text.append("!");
    let m = ChatMessage::no_sender(text).dice_roll();
    if made { m.light_green() } else { m.light_red() }
}

/// Whether a save is made with the die showing `nat`.
pub fn save_succeeds(die: i32, modifier: i32) -> (made: bool)
    requires
        1 <= die <= 20,
        modifier <= i32::MAX - 20,
    ensures
        made == save_made(die as int, modifier as int),
{
    die >= 20 || die + modifier >= 20
}

/// A natural 20 always saves; otherwise the save is made exactly when the modifier brings the die
/// to 20: a modifier of `20 - die` is enough and one less is not. So a better modifier never
/// turns a made save into a failed one, nor does a higher die.
pub proof fn save_needs_twenty(die: int, m1: int, m2: int, d2: int)
    requires
        1 <= die <= 20,
    ensures
        save_made(20, m1),
        save_made(die, 20 - die),
        die < 20 ==> !save_made(die, 19 - die),
        save_made(die, m1) && m1 <= m2 ==> save_made(die, m2),
        save_made(die, m1) && die <= d2 ==> save_made(d2, m1),
{
}

// ---------------------------------------------------------------------------------------------
// Attacks.
// ---------------------------------------------------------------------------------------------

#[derive(Debug, Clone, Copy, PartialEq, Eq, Structural)]
pub enum AttackResult {
    CriticalFail,
    Fail,
    Success,
    CriticalSuccess,
}

/// The result of an attack whose exploding d20 showed `r`.
pub open spec fn attack_outcome(r: int, attack_throw: int, armor_class: int, modifiers: int) -> AttackResult {
    if r <= 1 {
        AttackResult::CriticalFail
    } else {
        let total = r + attack_throw - armor_class + modifiers;
        if total <= 19 {
            AttackResult::Fail
        } else if total <= 29 {
            AttackResult::Success
        } else {
            AttackResult::CriticalSuccess
        }
    }
}

/// How good an attack result is: a critical fail lowest, a critical success highest.
pub open spec fn attack_rank(a: AttackResult) -> int {
    match a {
        AttackResult::CriticalFail => 0,
        AttackResult::Fail => 1,
        AttackResult::Success => 2,
        AttackResult::CriticalSuccess => 3,
    }
}

/// A die of 1 always fails critically. Above it, the attack is judged by how far the die, the
/// attack throw and the modifiers outdo the armor class: raising the throw and the armor class
/// alike changes nothing; a better die, throw or modifier never makes the result worse, and a
/// better armor class never makes it better. Outdoing the armor class by 20 hits, by 30 hits
/// critically, and anything short of 20 misses.
pub proof fn attack_outdoes_armor(r: int, t: int, ac: int, m: int, d: int, r2: int, t2: int, ac2: int, m2: int)
    ensures
        attack_outcome(1, t, ac, m) == AttackResult::CriticalFail,
        r >= 2 ==> attack_outcome(r, t + d, ac + d, m) == attack_outcome(r, t, ac, m),
        r >= 2 && r <= r2 && t <= t2 && ac2 <= ac && m <= m2
            ==> attack_rank(attack_outcome(r, t, ac, m)) <= attack_rank(attack_outcome(r2, t2, ac2, m2)),
        r >= 2 ==> (attack_outcome(r, ac + 20 - r - m, ac, m) == AttackResult::Success),
        r >= 2 ==> (attack_outcome(r, ac + 19 - r - m, ac, m) == AttackResult::Fail),
        r >= 2 ==> (attack_outcome(r, ac + 30 - r - m, ac, m) == AttackResult::CriticalSuccess),
        r >= 2 ==> (attack_outcome(r, ac + 29 - r - m, ac, m) == AttackResult::Success),
{
}

/// The result of an attack, from the die and the combatants' numbers.
pub fn attack_result(r: i32, attack_throw: i32, armor_class: i32, modifiers: i32) -> (res: AttackResult)
    ensures
        res == attack_outcome(r as int, attack_throw as int, armor_class as int, modifiers as int),
{
    if r <= 1 {
        return AttackResult::CriticalFail;
    }
    let total = r as i64 + attack_throw as i64 - armor_class as i64 + modifiers as i64;
    if total <= 19 {
        AttackResult::Fail
    } else if total <= 29 {
        AttackResult::Success
    } else {
        AttackResult::CriticalSuccess
    }
}

/// Whether `r` is a value that an exploding d20 can give: 20 for each die that showed 20, plus
/// the last die, which did not (or, at the edge of the `i32` range, a run of twenties cut short).
pub open spec fn exploding_d20(r: int) -> bool {
    r >= 1 && (r % 20 != 0 || r > i32::MAX - 20)
}

/// Rolls a d20, rolling again and adding on every 20.
pub fn d20_exploding() -> (r: i32)
    ensures
        exploding_d20(r as int),
{
    let mut total: i32 = 0;
    loop
        invariant
            0 <= total <= i32::MAX - 20,
            total % 20 == 0,
        decreases i32::MAX - total,
    {
        let face = roll(DiceRoll::simple(1, 20));
        proof { crate::dice::lemma_single_die_range(DiceRoll::spec_simple(1, 20, 0, Drop::Nothing), face as int); }
        if face != 20 || total > i32::MAX - 40 {
            // At the top of the range the twenties stop counting: the sum would overflow.
            return total + face;
        }
        total = total + 20;
    }
}

/// The attack a combatant makes next (a default one past the end of its routine).
pub open spec fn current_attack(s: CombatantStats) -> DamageRoll {
    match routine_attack(s.damage, s.attack_index as int) { Some(d) => d, None => DamageRoll::spec_default() }
}

/// The damage an attack with `d` does when its dice show `nat`: doubled on a critical, plus the
/// modifier of its kind, and at least 1.
pub open spec fn damage_done(d: DamageRoll, die: int, critical: bool, melee_mod: int, missile_mod: int) -> int {
    let n = if critical { die * 2 } else { die };
    let total = match d.attack_type {
        AttackType::Melee => n + melee_mod,
        AttackType::Missile => n + missile_mod,
    };
    if total < 1 { 1 } else { total }
}

/// The most the dice of an attack can show: every die at its highest plus the attack's modifier,
/// and at least 1.
pub open spec fn top_damage_die(d: DamageRoll) -> int {
    if d.amount == 0 || d.sides == 0 {
        1
    } else if d.amount * d.sides + d.modifier < 1 {
        1
    } else {
        d.amount * d.sides + d.modifier
    }
}

/// Whether every damage an attack with `d` can do fits in an `i32`: its dice doubled on a critical,
/// and that plus the damage modifier of its kind.
pub open spec fn damage_fits(d: DamageRoll, critical: bool, melee_mod: int, missile_mod: int) -> bool {
    let n = if critical { 2 * top_damage_die(d) } else { top_damage_die(d) };
    let m = match d.attack_type {
        AttackType::Melee => melee_mod,
        AttackType::Missile => missile_mod,
    };
    n <= i32::MAX && n + m <= i32::MAX
}

/// The damage the attacker (`None` when it cannot be found) does with its current attack.
pub fn damage_roll(attacker: Option<&CombatantStats>, critical: bool) -> (dmg: i32)
    requires
        attacker matches Some(s) ==> {
            let d = current_attack(*s);
            &&& crate::dice::can_roll(d.dice())
            &&& crate::dice::roll_fits(d.dice())
            &&& damage_fits(d, critical, s.modifiers.melee_damage.spec_total(), s.modifiers.missile_damage.spec_total())
        },
    ensures
        attacker is None ==> dmg == 1,
        attacker matches Some(s) ==> exists|die: int| possible_result(current_attack(*s).dice(), die)
            && dmg == damage_done(current_attack(*s), die, critical,
                s.modifiers.melee_damage.spec_total(), s.modifiers.missile_damage.spec_total()),
{
    match attacker {
        None => 1,
        Some(stats) => {
            let damage = match stats.current_damage() { Some(d) => d, None => DamageRoll::default() };
            assert(damage == match routine_attack(stats.damage, stats.attack_index as int) {
                Some(d) => d, None => DamageRoll::spec_default() });
            let mut face = damage.roll();
            proof { crate::dice::lemma_simple_roll_range(damage.dice(), face as int); }
            let ghost rolled = face as int;
            if critical {
                face = face * 2;
            }
            let total = match damage.attack_type {
                AttackType::Melee => face + stats.modifiers.melee_damage.total(),
                AttackType::Missile => face + stats.modifiers.missile_damage.total(),
            };
            let dmg = if total < 1 { 1 } else { total };
            assert(dmg == damage_done(damage, rolled, critical, stats.modifiers.melee_damage.spec_total(),
                stats.modifiers.missile_damage.spec_total()));
            assert(damage == current_attack(*stats));
            dmg
        },
    }
}

/// The result of an attack of `attacker` on `target` (either `None` when it cannot be found):
/// an exploding d20 against the attack throw (10 when the attacker is missing) and the armor
/// class (0 when the target is missing).
pub fn attack_roll(attacker: Option<&CombatantStats>, target: Option<&CombatantStats>, modifiers: i32) -> (res: AttackResult)
    requires
        attacker matches Some(s) ==> {
            &&& i32::MIN <= attack_bonus_of(*s) <= i32::MAX
            &&& i32::MIN <= s.attack_throw + s.modifiers.melee_attack.spec_total() <= i32::MAX
            &&& i32::MIN <= s.attack_throw + s.modifiers.missile_attack.spec_total() <= i32::MAX
        },
        target matches Some(t) ==> i32::MIN <= armor_of(*t) <= i32::MAX,
    ensures
        exists|r: int| exploding_d20(r) && res == attack_outcome(r,
            match attacker { Some(s) => attack_bonus_of(*s), None => 10 },
            match target { Some(t) => armor_of(*t), None => 0 },
            modifiers as int),
{
    let attack_throw = match attacker { Some(s) => s.attack_bonus(), None => 10 };
    let armor_class = match target { Some(t) => t.armor(), None => 0 };
    let r = d20_exploding();
    attack_result(r, attack_throw, armor_class, modifiers)
}

// ---------------------------------------------------------------------------------------------
// Who fights.
// ---------------------------------------------------------------------------------------------

/// Represents who actually gets to make the decisions for this combatant; i.e. who is currently
/// in control of them (PC's are not always controlled by players, for example if they are charmed).
pub enum Owner {
    DM,
    Player(String),
}

impl Clone for Owner {
    fn clone(&self) -> (o: Self)
        ensures
            o == *self,
    {
        match self {
            Owner::DM => Owner::DM,
            Owner::Player(p) => Owner::Player(p.clone()),
        }
    }
}

/// An owner as plain values.
pub enum OwnerView {
    DM,
    Player(Seq<char>),
}

impl View for Owner {
    type V = OwnerView;

    open spec fn view(&self) -> OwnerView {
        match self {
            Owner::DM => OwnerView::DM,
            Owner::Player(p) => OwnerView::Player(p@),
        }
    }
}

impl Owner {
    /// Whether two owners are the same.
    pub fn same_as(&self, other: &Owner) -> (b: bool)
        ensures
            b == (self@ == other@),
    {
        match (self, other) {
            (Owner::DM, Owner::DM) => true,
            (Owner::Player(a), Owner::Player(b)) => *a == *b,
            _ => false,
        }
    }
}

/// A combatant, either a player character or enemy.
///
/// ### Fields
/// - `Enemy.room`, `Enemy.type_id`: where the enemy is and its enemy type registry ID.
/// - `Enemy.index`: the numerical index of this enemy, for when there are more than one of the same type.
/// - `Enemy.display_name`: the name to show.
/// - `PC.user`: the player username.
/// - `PC.name`: the player character name.
pub enum Combatant {
    Enemy {
        room: String,
        type_id: String,
        index: usize,
        display_name: String,
    },
    PC {
        user: String,
        name: String,
    },
}

/// A combatant as plain values.
pub enum CombatantView {
    Enemy { room: Seq<char>, type_id: Seq<char>, index: usize, display_name: Seq<char> },
    PC { user: Seq<char>, name: Seq<char> },
}

impl View for Combatant {
    type V = CombatantView;

    open spec fn view(&self) -> CombatantView {
        match self {
            Combatant::Enemy { room, type_id, index, display_name } => CombatantView::Enemy {
                room: room@, type_id: type_id@, index: *index, display_name: display_name@ },
            Combatant::PC { user, name } => CombatantView::PC { user: user@, name: name@ },
        }
    }
}

impl Clone for Combatant {
    fn clone(&self) -> (c: Self)
        ensures
            c == *self,
    {
        match self {
            Combatant::Enemy { room, type_id, index, display_name } => Combatant::Enemy {
                room: room.clone(),
                type_id: type_id.clone(),
                index: *index,
                display_name: display_name.clone(),
            },
            Combatant::PC { user, name } => Combatant::PC { user: user.clone(), name: name.clone() },
        }
    }
}

pub open spec fn not_found_combatant_name() -> Seq<char> {
    "Nonexistent combatant. If you see this, something has gone wrong."@
}

impl Combatant {
    /// The name shown for the combatant.
    pub open spec fn shown(self) -> Seq<char> {
        match self {
            Combatant::Enemy { display_name, .. } => display_name@,
            Combatant::PC { name, .. } => name@,
        }
    }

    pub fn label(&self) -> (s: String)
        ensures
            s@ == self.shown(),
    {
        match self {
            Combatant::Enemy { display_name, .. } => display_name.clone(),
            Combatant::PC { name, .. } => name.clone(),
        }
    }

    /// Whether two combatants are the same.
    pub fn same_as(&self, other: &Combatant) -> (b: bool)
        ensures
            b == (self@ == other@),
    {
        match (self, other) {
            (Combatant::Enemy { room: r1, type_id: t1, index: i1, display_name: d1 },
             Combatant::Enemy { room: r2, type_id: t2, index: i2, display_name: d2 }) => {
                *r1 == *r2 && *t1 == *t2 && *i1 == *i2 && *d1 == *d2
            },
            (Combatant::PC { user: u1, name: n1 }, Combatant::PC { user: u2, name: n2 }) => {
                *u1 == *u2 && *n1 == *n2
            },
            _ => false,
        }
    }

    /// A combatant that doesn't exist, in case of an error.
    pub fn not_found() -> (c: Self)
        ensures
            c matches Combatant::PC { user, name } && user@ == "server"@ && name@ == not_found_combatant_name(),
    {
        Self::pc("server".to_owned(), "Nonexistent combatant. If you see this, something has gone wrong.".to_owned())
    }

    pub fn enemy(room: String, type_id: String, index: usize, display_name: String) -> (c: Self)
        ensures
            c == (Combatant::Enemy { room, type_id, index, display_name }),
    {
        Self::Enemy { room, type_id, index, display_name }
    }

    /// An enemy named after its type, numbered from the second on ("Goblin", "Goblin 2", ...).
    pub fn enemy_auto_name(room: String, type_id: String, index: usize, kind_name: String) -> (c: Self)
        requires
            index < usize::MAX,
        ensures
            c matches Combatant::Enemy { room: r, type_id: t, index: i, display_name: d }
                && r == room && t == type_id && i == index
                && d@ == (if index == 0 { kind_name@ } else { kind_name@ + " "@ + nat_digits((index + 1) as nat) }),
    {
        let name = if index == 0 {
            kind_name
        } else {
            let mut n = kind_name;
            n.append(" ");
            push_decimal(&mut n, (index + 1) as u64);
            n
        };
        Self::enemy(room, type_id, index, name)
    }

    pub fn pc(user: String, name: String) -> (c: Self)
        ensures
            c == (Combatant::PC { user, name }),
    {
        Self::PC { user, name }
    }
}

// ---------------------------------------------------------------------------------------------
// Actions.
// ---------------------------------------------------------------------------------------------

pub enum PreRoundAction {
    Nothing,
    FightingWithdrawal,
    FullRetreat,
    /// The spell's id, its level and its kind of magic.
    CastSpell(String, u8, MagicType),
}

impl Clone for PreRoundAction {
    fn clone(&self) -> (a: Self)
        ensures
            a == *self,
    {
        match self {
            PreRoundAction::Nothing => PreRoundAction::Nothing,
            PreRoundAction::FightingWithdrawal => PreRoundAction::FightingWithdrawal,
            PreRoundAction::FullRetreat => PreRoundAction::FullRetreat,
            PreRoundAction::CastSpell(id, lvl, t) => PreRoundAction::CastSpell(id.clone(), *lvl, *t),
        }
    }
}

impl PreRoundAction {
    pub fn label(&self) -> (s: &'static str)
        ensures
            s@ == match *self {
                Self::Nothing => "None"@,
                Self::FightingWithdrawal => "Fighting Withdrawal"@,
                Self::FullRetreat => "Full Retreat"@,
                Self::CastSpell(_, _, _) => "Cast Spell"@,
            },
    {
        match self {
            Self::Nothing => "None",
            Self::FightingWithdrawal => "Fighting Withdrawal",
            Self::FullRetreat => "Full Retreat",
            Self::CastSpell(_, _, _) => "Cast Spell",
        }
    }

    pub fn is_nothing(&self) -> (b: bool)
        ensures
            b == (*self is Nothing),
    {
        match self {
            Self::Nothing => true,
            _ => false,
        }
    }
}

#[derive(Debug, Clone, Copy, PartialEq, Eq, Hash, Structural)]
pub enum MovementAction {
    Nothing,
    Move,
    Run,
    Charge,
    FightingWithdrawal,
    FullRetreat,
    SimpleAction,
}

impl MovementAction {
    pub fn label(&self) -> (s: &'static str)
        ensures
            s@ == match *self {
                Self::Nothing => "None"@,
                Self::Move => "Move"@,
                Self::Run => "Run"@,
                Self::Charge => "Charge"@,
                Self::FightingWithdrawal => "Fighting Withdrawal"@,
                Self::FullRetreat => "Full Retreat"@,
                Self::SimpleAction => "Simple Action"@,
            },
    {
        match self {
            Self::Nothing => "None",
            Self::Move => "Move",
            Self::Run => "Run",
            Self::Charge => "Charge",
            Self::FightingWithdrawal => "Fighting Withdrawal",
            Self::FullRetreat => "Full Retreat",
            Self::SimpleAction => "Simple Action",
        }
    }
}

#[derive(Debug, Clone, Copy, PartialEq, Eq, Hash, Structural)]
pub enum SpecialManeuver {
    Disarm,
    ForceBack,
    Incapacitate,
    KnockDown,
    Sunder,
    Wrestle,
}

impl SpecialManeuver {
    pub open spec fn words(self) -> Seq<char> {
        match self {
            Self::Disarm => "Disarm"@,
            Self::ForceBack => "Force Back"@,
            Self::Incapacitate => "Incapacitate"@,
            Self::KnockDown => "Knock Down"@,
            Self::Sunder => "Sunder"@,
            Self::Wrestle => "Wrestle"@,
        }
    }

    pub fn label(&self) -> (s: &'static str)
        ensures
            s@ == self.words(),
    {
        match self {
            Self::Disarm => "Disarm",
            Self::ForceBack => "Force Back",
            Self::Incapacitate => "Incapacitate",
            Self::KnockDown => "Knock Down",
            Self::Sunder => "Sunder",
            Self::Wrestle => "Wrestle",
        }
    }
}

pub enum AttackAction {
    Nothing,
    /// The target and a modifier to the attack.
    Attack(Combatant, i32),
    /// The target, the maneuver and a modifier to it.
    SpecialManeuver(Combatant, SpecialManeuver, i32),
    CastSpell,
    OtherAction,
}

impl Clone for AttackAction {
    fn clone(&self) -> (a: Self)
        ensures
            a == *self,
    {
        match self {
            AttackAction::Nothing => AttackAction::Nothing,
            AttackAction::Attack(c, m) => AttackAction::Attack(c.clone(), *m),
            AttackAction::SpecialManeuver(c, s, m) => AttackAction::SpecialManeuver(c.clone(), *s, *m),
            AttackAction::CastSpell => AttackAction::CastSpell,
            AttackAction::OtherAction => AttackAction::OtherAction,
        }
    }
}

impl AttackAction {
    /// The action's name.
    pub open spec fn words(self) -> Seq<char> {
        match self {
            Self::Nothing => "None"@,
            Self::Attack(_, _) => "Attack"@,
            Self::SpecialManeuver(_, m, _) => "Special Maneuver ("@ + m.words() + ")"@,
            Self::CastSpell => "Cast Spell"@,
            Self::OtherAction => "Other Action"@,
        }
    }

    pub fn label(&self) -> (s: String)
        ensures
            s@ == self.words(),
    {
        match self {
            Self::Nothing => "None".to_owned(),
            Self::Attack(_, _) => "Attack".to_owned(),
            Self::SpecialManeuver(_, m, _) => {
                let mut s = "Special Maneuver (".to_owned();
                s.append(m.label());
                s.append(")");
                s
            },
            Self::CastSpell => "Cast Spell".to_owned(),
            Self::OtherAction => "Other Action".to_owned(),
        }
    }

    /// The action with its target named.
    pub open spec fn words_with_target(self) -> Seq<char> {
        match self {
            Self::Attack(target, _) => "Attack "@ + target.shown(),
            Self::SpecialManeuver(target, m, _) => m.words() + " "@ + target.shown(),
            _ => self.words(),
        }
    }

    pub fn display_alt(&self) -> (s: String)
        ensures
            s@ == self.words_with_target(),
    {
        match self {
            Self::Attack(target, _) => {
                let mut s = "Attack ".to_owned();
                s.append(target.label().as_str());
                s
            },
            Self::SpecialManeuver(target, maneuver, _) => {
                let mut s = maneuver.label().to_owned();
                s.append(" ");
                s.append(target.label().as_str());
                s
            },
            _ => self.label(),
        }
    }
}

/// The part of a combatant's turn being played, with the action decided by the DM and the one
/// the player asked for.
pub enum TurnType {
    Movement {
        action: MovementAction,
        player_action: Option<MovementAction>,
    },
    Attack {
        action: AttackAction,
        player_action: Option<AttackAction>,
    },
}

// ---------------------------------------------------------------------------------------------
// Fights.
// ---------------------------------------------------------------------------------------------

/// An active fight between combatants.
pub struct Fight {
    pub started: bool,
    /// Who takes part, each once.
    pub combatants: Vec<(Owner, Combatant)>,
    /// What each combatant declared before the round; no combatant twice.
    pub declarations: Vec<(Combatant, PreRoundAction)>,
    /// The order of the round's turns.
    pub turn_order: Vec<(Owner, Combatant, PreRoundAction)>,
    /// Whose turn it is (an index in `turn_order`) and which part of it.
    pub current_turn: Option<(usize, TurnType)>,
}

/// What a combatant can tell the fight when a round starts: whether it cannot act, and its
/// initiative modifier.
#[derive(Debug, Clone, Copy, PartialEq, Eq, Structural)]
pub struct InitiativeInfo {
    pub incapacitated: bool,
    pub initiative: i32,
}

/// No combatant has two declarations.
pub open spec fn unique_declarations(s: Seq<(Combatant, PreRoundAction)>) -> bool {
    forall|i: int, j: int| 0 <= i < j < s.len() ==> (#[trigger] s[i]).0@ != (#[trigger] s[j]).0@
}

/// The declaration of `c`, or no action.
pub open spec fn declared(decls: Seq<(Combatant, PreRoundAction)>, c: Combatant) -> PreRoundAction
    decreases decls.len(),
{
    if decls.len() == 0 {
        PreRoundAction::Nothing
    } else if decls[0].0@ == c@ {
        decls[0].1
    } else {
        declared(decls.drop_first(), c)
    }
}

/// A place in the turn order: owner, combatant, declaration, initiative.
pub type Entry = (Owner, Combatant, PreRoundAction, i32);

/// The order of an entry: higher initiative first; on a tie, a player's combatant before the DM's.
pub open spec fn rank(e: Entry) -> int {
    2 * e.3 + if e.0 is Player { 1int } else { 0int }
}

/// `s` with `x` placed after every entry that ranks at least as high.
pub open spec fn insert_ranked(s: Seq<Entry>, x: Entry) -> Seq<Entry>
    decreases s.len(),
{
    if s.len() == 0 {
        seq![x]
    } else if rank(s[0]) < rank(x) {
        seq![x] + s
    } else {
        seq![s[0]] + insert_ranked(s.drop_first(), x)
    }
}

/// The entries from the highest rank down; equal ranks keep their order.
pub open spec fn ranked(s: Seq<Entry>) -> Seq<Entry>
    decreases s.len(),
{
    if s.len() == 0 { s } else { insert_ranked(ranked(s.drop_last()), s.last()) }
}

/// The entries of the combatants that can act, each with its roll added to its initiative.
pub open spec fn round_entries(
    combatants: Seq<(Owner, Combatant)>,
    decls: Seq<(Combatant, PreRoundAction)>,
    infos: Seq<Option<InitiativeInfo>>,
    rolls: Seq<int>,
) -> Seq<Entry>
    decreases combatants.len(),
{
    if combatants.len() == 0 {
        Seq::empty()
    } else {
        let n = (combatants.len() - 1) as int;
        let before = round_entries(combatants.take(n), decls, infos, rolls);
        match infos[n] {
            Some(info) => if !info.incapacitated {
                before.push((combatants[n].0, combatants[n].1, declared(decls, combatants[n].1), (rolls[n] + info.initiative) as i32))
            } else {
                before
            },
            None => before,
        }
    }
}

pub open spec fn strip(s: Seq<Entry>) -> Seq<(Owner, Combatant, PreRoundAction)> {
    s.map_values(|e: Entry| (e.0, e.1, e.2))
}

pub open spec fn d6() -> DiceRoll {
    DiceRoll::spec_simple(1, 6, 0, Drop::Nothing)
}

proof fn lemma_insert_ranked_at(s: Seq<Entry>, x: Entry, p: int)
    requires
        0 <= p <= s.len(),
        forall|j: int| 0 <= j < p ==> rank(#[trigger] s[j]) >= rank(x),
        p == s.len() || rank(s[p]) < rank(x),
    ensures
        insert_ranked(s, x) == s.take(p).push(x) + s.skip(p),
    decreases s.len(),
{
    if s.len() == 0 {
        assert(insert_ranked(s, x) == s.take(p).push(x) + s.skip(p));
    } else if rank(s[0]) < rank(x) {
        assert(p == 0);
        assert(insert_ranked(s, x) == s.take(p).push(x) + s.skip(p));
    } else {
        let t = s.drop_first();
        assert forall|j: int| 0 <= j < p - 1 implies rank(#[trigger] t[j]) >= rank(x) by {
            assert(t[j] == s[j + 1]);
        }
        lemma_insert_ranked_at(t, x, p - 1);
        assert(insert_ranked(s, x) == s.take(p).push(x) + s.skip(p));
    }
}

fn entry_rank(e: &Entry) -> (r: i64)
    ensures
        r == rank(*e),
{
    2 * e.3 as i64 + match e.0 { Owner::Player(_) => 1, Owner::DM => 0 }
}

impl Fight {
    pub fn new() -> (f: Self)
        ensures
            !f.started,
            f.combatants@.len() == 0,
            f.declarations@.len() == 0,
            unique_declarations(f.declarations@),
            f.turn_order@.len() == 0,
            f.current_turn is None,
    {
        Self {
            started: false,
            combatants: Vec::new(),
            declarations: Vec::new(),
            turn_order: Vec::new(),
            current_turn: None,
        }
    }

    /// The combatant whose turn it is, if there is one.
    pub open spec fn current_actor(self) -> Option<Combatant> {
        match self.current_turn {
            Some((turn, _)) => if turn < self.turn_order@.len() { Some(self.turn_order@[turn as int].1) } else { None },
            None => None,
        }
    }

    /// The combatant whose turn it is, or the stand-in for a missing one.
    pub fn get_current_actor(&self) -> (c: Combatant)
        ensures
            match self.current_actor() {
                Some(a) => c == a,
                None => c matches Combatant::PC { user, name } && user@ == "server"@ && name@ == not_found_combatant_name(),
            },
    {
        match &self.current_turn {
            Some((turn, _)) => {
                if *turn < self.turn_order.len() {
                    self.turn_order[*turn].1.clone()
                } else {
                    Combatant::not_found()
                }
            },
            None => Combatant::not_found(),
        }
    }

    fn declaration_of(&self, c: &Combatant) -> (a: PreRoundAction)
        ensures
            a == declared(self.declarations@, *c),
    {
        let n = self.declarations.len();
        assert(self.declarations@.skip(0) == self.declarations@);
        for i in 0..n
            invariant
                n == self.declarations@.len(),
                declared(self.declarations@, *c) == declared(self.declarations@.skip(i as int), *c),
        {
            assert(self.declarations@.skip(i + 1) == self.declarations@.skip(i as int).drop_first());
            assert(self.declarations@.skip(i as int)[0] == self.declarations@[i as int]);
            if self.declarations[i].0.same_as(c) {
                return self.declarations[i].1.clone();
            }
        }
        PreRoundAction::Nothing
    }

    /// Starts a round: every combatant that can act (its entry of `infos`, in the order of
    /// `combatants`, is known and not incapacitated) rolls a d6 and adds its initiative; the turns
    /// go from the highest total down, a player's combatant first on a tie, and the first turn
    /// begins with its movement.
    pub fn start_round(&mut self, infos: &Vec<Option<InitiativeInfo>>)
        requires
            infos@.len() == old(self).combatants@.len(),
            forall|i: int| 0 <= i < infos@.len() ==> (#[trigger] infos@[i] matches Some(info) ==> info.initiative <= i32::MAX - 6),
        ensures
            final(self).combatants == old(self).combatants,
            final(self).declarations == old(self).declarations,
            final(self).started == old(self).started,
            exists|rolls: Seq<int>| rolls.len() == infos@.len()
                && (forall|i: int| 0 <= i < rolls.len() ==> possible_result(d6(), #[trigger] rolls[i]))
                && final(self).turn_order@ == strip(ranked(round_entries(old(self).combatants@, old(self).declarations@, infos@, rolls))),
            final(self).current_turn matches Some((0, TurnType::Movement { action: MovementAction::Nothing, player_action: None })),
    {
        let n = self.combatants.len();
        let mut list: Vec<Entry> = Vec::new();
        let ghost mut rolls: Seq<int> = Seq::empty();
        for i in 0..n
            invariant
                n == self.combatants@.len(),
                infos@.len() == n,
                self.combatants == old(self).combatants,
                self.declarations == old(self).declarations,
                forall|i: int| 0 <= i < infos@.len() ==> (#[trigger] infos@[i] matches Some(info) ==> info.initiative <= i32::MAX - 6),
                rolls.len() == i,
                forall|k: int| 0 <= k < rolls.len() ==> possible_result(d6(), #[trigger] rolls[k]),
                list@ == round_entries(self.combatants@.take(i as int), self.declarations@, infos@, rolls),
        {
            let ghost prev = rolls;
            let face = roll(DiceRoll::simple(1, 6));
            proof {
                crate::dice::lemma_single_die_range(DiceRoll::spec_simple(1, 6, 0, Drop::Nothing), face as int);
                rolls = rolls.push(face as int);
                lemma_round_entries_extend(self.combatants@.take(i as int), self.declarations@, infos@, prev, rolls);
                assert(self.combatants@.take(i + 1).take(i as int) == self.combatants@.take(i as int));
                assert(self.combatants@.take(i + 1)[i as int] == self.combatants@[i as int]);
            }
            match infos[i] {
                Some(info) => {
                    if !info.incapacitated {
                        let owner = self.combatants[i].0.clone();
                        let c = self.combatants[i].1.clone();
                        let d = self.declaration_of(&self.combatants[i].1);
                        list.push((owner, c, d, face + info.initiative));
                    }
                },
                None => {},
            }
        }
        assert(self.combatants@.take(n as int) == self.combatants@);
        let sorted = rank_entries(&list);
        let mut order: Vec<(Owner, Combatant, PreRoundAction)> = Vec::new();
        let m = sorted.len();
        for k in 0..m
            invariant
                m == sorted@.len(),
                order@ == strip(sorted@.take(k as int)),
        {
            let e = &sorted[k];
            order.push((e.0.clone(), e.1.clone(), e.2.clone()));
            assert(sorted@.take(k + 1) == sorted@.take(k as int).push(sorted@[k as int]));
            assert(order@ == strip(sorted@.take(k + 1)));
        }
        assert(sorted@.take(m as int) == sorted@);
        self.turn_order = order;
        self.current_turn = Some((0, TurnType::Movement { action: MovementAction::Nothing, player_action: None }));
    }

    /// Ends the current part of the turn: the turn order first loses every combatant that can no
    /// longer act (`still_able`, in the order of `turn_order`, is false for it); then a movement
    /// gives way to the attack of the same turn, and an attack to the next combatant's movement,
    /// or, after the last, to the end of the round (which clears the declarations).
    pub fn next_turn(&mut self, still_able: &Vec<bool>)
        requires
            still_able@.len() == old(self).turn_order@.len(),
        ensures
            final(self).turn_order@ == keep_flagged(old(self).turn_order@, still_able@),
            unique_declarations(old(self).declarations@) ==> unique_declarations(final(self).declarations@),
            final(self).combatants == old(self).combatants,
            final(self).started == old(self).started,
            match old(self).current_turn {
                None => final(self).current_turn is None && final(self).declarations == old(self).declarations,
                Some((turn, TurnType::Movement { .. })) => final(self).declarations == old(self).declarations
                    && (final(self).current_turn matches Some((t, TurnType::Attack { action: AttackAction::Nothing, player_action: None })) && t == turn),
                Some((turn, TurnType::Attack { .. })) => if turn + 1 >= final(self).turn_order@.len() {
                    final(self).current_turn is None && final(self).declarations@.len() == 0
                } else {
                    final(self).declarations == old(self).declarations
                        && (final(self).current_turn matches Some((t, TurnType::Movement { action: MovementAction::Nothing, player_action: None }))
                        && t == turn + 1)
                },
            },
    {
        let mut kept: Vec<(Owner, Combatant, PreRoundAction)> = Vec::new();
        let n = self.turn_order.len();
        for i in 0..n
            invariant
                n == self.turn_order@.len(),
                still_able@.len() == n,
                self.turn_order == old(self).turn_order,
                kept@ == keep_flagged(self.turn_order@.take(i as int), still_able@.take(i as int)),
        {
            assert(self.turn_order@.take(i + 1).drop_last() == self.turn_order@.take(i as int));
            assert(still_able@.take(i + 1).drop_last() == still_able@.take(i as int));
            if still_able[i] {
                let e = &self.turn_order[i];
                kept.push((e.0.clone(), e.1.clone(), e.2.clone()));
            }
        }
        assert(self.turn_order@.take(n as int) == self.turn_order@);
        assert(still_able@.take(n as int) == still_able@);
        self.turn_order = kept;
        let current = self.current_turn.take();
        match current {
            Some((turn, TurnType::Movement { .. })) => {
                self.current_turn = Some((turn, TurnType::Attack { action: AttackAction::Nothing, player_action: None }));
            },
            Some((turn, TurnType::Attack { .. })) => {
                if turn >= self.turn_order.len() || turn + 1 >= self.turn_order.len() {
                    self.current_turn = None;
                    self.declarations = Vec::new();
                } else {
                    self.current_turn = Some((turn + 1, TurnType::Movement { action: MovementAction::Nothing, player_action: None }));
                }
            },
            None => {},
        }
    }
}

/// The elements of `s` whose flag is set.
pub open spec fn keep_flagged<T>(s: Seq<T>, flags: Seq<bool>) -> Seq<T>
    decreases s.len(),
{
    if s.len() == 0 || flags.len() == 0 {
        Seq::empty()
    } else {
        let rest = keep_flagged(s.drop_last(), flags.drop_last());
        if flags.last() { rest.push(s.last()) } else { rest }
    }
}

proof fn lemma_round_entries_extend(
    combatants: Seq<(Owner, Combatant)>,
    decls: Seq<(Combatant, PreRoundAction)>,
    infos: Seq<Option<InitiativeInfo>>,
    rolls: Seq<int>,
    more: Seq<int>,
)
    requires
        rolls.len() >= combatants.len(),
        more.len() >= rolls.len(),
        forall|i: int| 0 <= i < rolls.len() ==> #[trigger] more[i] == rolls[i],
    ensures
        round_entries(combatants, decls, infos, more) == round_entries(combatants, decls, infos, rolls),
    decreases combatants.len(),
{
    if combatants.len() > 0 {
        let n = combatants.len() - 1;
        lemma_round_entries_extend(combatants.take(n as int), decls, infos, rolls, more);
    }
}

/// Orders the entries by rank (highest first), equal ranks in their first order.
fn rank_entries(list: &Vec<Entry>) -> (out: Vec<Entry>)
    ensures
        out@ == ranked(list@),
{
    let mut out: Vec<Entry> = Vec::new();
    let n = list.len();
    for k in 0..n
        invariant
            n == list@.len(),
            out@ == ranked(list@.take(k as int)),
    {
        let e = &list[k];
        let x: Entry = (e.0.clone(), e.1.clone(), e.2.clone(), e.3);
        let xr = entry_rank(&x);
        let mut p: usize = 0;
        while p < out.len() && entry_rank(&out[p]) >= xr
            invariant
                p <= out@.len(),
                xr == rank(x),
                forall|j: int| 0 <= j < p ==> rank(#[trigger] out@[j]) >= rank(x),
            decreases out@.len() - p,
        {
            p = p + 1;
        }
        proof {
            lemma_insert_ranked_at(out@, x, p as int);
            assert(list@.take(k + 1).drop_last() == list@.take(k as int));
            assert(list@.take(k + 1).last() == x);
        }
        let ghost before = out@;
        out.insert(p, x);
        assert(out@ == before.take(p as int).push(x) + before.skip(p as int));
    }
    assert(list@.take(n as int) == list@);
    out
}

} // verus!
