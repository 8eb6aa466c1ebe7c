use vstd::prelude::*;
use vstd::string::*;

use crate::dice::{self, DiceRoll, Drop, possible_result};

verus! {

/// The outcome of a roll on the mortal wounds table.
pub struct MortalWoundsResult {
    pub modified_roll: i32,
    pub condition: ConditionAndRecovery,
    pub modifiers: MortalWoundsModifiers,
}

/// Everything that modifies a roll on the mortal wounds table.
pub struct MortalWoundsModifiers {
    pub from_con: i32,
    pub from_hit_dice: HitDiceValue,
    pub remaining_hp: i32,
    pub max_hp: i32,
    pub from_healing_magic: i32,
    pub from_healing_prof: i32,
    pub applied_horsetail: bool,
    pub from_treatment_timing: TreatmentTiming,
    pub other: i32,
}

#[derive(Debug, Clone, Copy, PartialEq, Eq, Structural)]
pub enum HitDiceValue {
    D4,
    D6,
    D8,
    D10,
    D12,
}

#[derive(Debug, Clone, Copy, PartialEq, Eq, Structural)]
pub enum TreatmentTiming {
    OneRound,
    OneTurn,
    OneHour,
    OneDay,
    OverOneDay,
}

#[derive(Debug, Clone, Copy, PartialEq, Eq, Structural)]
pub enum ConditionAndRecovery {
    Dazed,
    KnockedOut,
    InShock,
    CriticallyWounded,
    GrievouslyWounded,
    MortallyWounded,
    InstantDeath,
    EvenMoreInstantDeath,
}

/// The bonus of the hit dice.
pub open spec fn hit_dice_bonus(h: HitDiceValue) -> int {
    match h {
        HitDiceValue::D4 => 0,
        HitDiceValue::D6 => 2,
        HitDiceValue::D8 => 4,
        HitDiceValue::D10 => 6,
        HitDiceValue::D12 => 8,
    }
}

/// The modifier of the time it took to get treatment.
pub open spec fn timing_bonus(t: TreatmentTiming) -> int {
    match t {
        TreatmentTiming::OneRound => 2,
        TreatmentTiming::OneTurn => -3,
        TreatmentTiming::OneHour => -5,
        TreatmentTiming::OneDay => -8,
        TreatmentTiming::OverOneDay => -10,
    }
}

/// The modifier of how far the hit points fell, by their share of the maximum: +5 down to a
/// quarter below zero, -2 to a half, -5 to the whole maximum, -10 to twice it, -20 beyond.
/// The share is compared exactly. A negative maximum turns each comparison around; with a
/// zero maximum only positive hit points count as above every threshold.
pub open spec fn hp_share_bonus(remaining: int, max: int) -> int {
    if max > 0 {
        if 4 * remaining >= -max { 5 }
        else if 2 * remaining >= -max { -2 }
        else if remaining >= -max { -5 }
        else if remaining >= -2 * max { -10 }
        else { -20 }
    } else if max < 0 {
        if 4 * remaining <= -max { 5 }
        else if 2 * remaining <= -max { -2 }
        else if remaining <= -max { -5 }
        else if remaining <= -2 * max { -10 }
        else { -20 }
    } else {
        if remaining > 0 { 5 } else { -20 }
    }
}

/// The terms added to the die, in the order they are added.
pub open spec fn mortal_terms(die: int, m: MortalWoundsModifiers) -> Seq<int> {
    seq![
        die,
        m.from_con as int,
        hit_dice_bonus(m.from_hit_dice),
        hp_share_bonus(m.remaining_hp as int, m.max_hp as int),
        m.from_healing_magic as int,
        m.from_healing_prof as int,
        if m.applied_horsetail { 2 } else { 0 },
        timing_bonus(m.from_treatment_timing),
        m.other as int,
    ]
}

/// The sum of the first `k` terms.
pub open spec fn running_sum(s: Seq<int>, k: int) -> int
    decreases k,
{
    if k <= 0 { 0 } else { running_sum(s, k - 1) + s[k - 1] }
}

/// The modified roll: the die and every modifier.
pub open spec fn mortal_total(die: int, m: MortalWoundsModifiers) -> int {
    running_sum(mortal_terms(die, m), 9)
}

/// Whether adding the terms one by one keeps every sum within an `i32`.
pub open spec fn sums_fit(die: int, m: MortalWoundsModifiers) -> bool {
    forall|k: int| 1 <= k <= 9 ==> i32::MIN <= #[trigger] running_sum(mortal_terms(die, m), k) <= i32::MAX
}

/// The condition a modified roll gives.
pub open spec fn condition_for(total: int) -> ConditionAndRecovery {
    if total >= 26 { ConditionAndRecovery::Dazed }
    else if total >= 21 { ConditionAndRecovery::KnockedOut }
    else if total >= 16 { ConditionAndRecovery::InShock }
    else if total >= 11 { ConditionAndRecovery::CriticallyWounded }
    else if total >= 6 { ConditionAndRecovery::GrievouslyWounded }
    else if total >= 1 { ConditionAndRecovery::MortallyWounded }
    else if total >= -5 { ConditionAndRecovery::InstantDeath }
    else { ConditionAndRecovery::EvenMoreInstantDeath }
}

/// The same modifiers with another treatment timing.
pub open spec fn treated(m: MortalWoundsModifiers, t: TreatmentTiming) -> MortalWoundsModifiers {
    MortalWoundsModifiers { from_treatment_timing: t, ..m }
}

/// The later the treatment, the lower the roll: against treatment within a round, treatment
/// within a turn takes 5 off, within an hour 7, within a day 10, and later 12. With no other
/// modifier (a four-sided hit die, hit points above a quarter below zero, which adds 5),
/// treatment within a round adds 2 to the die.
pub proof fn later_treatment_lowers_the_roll(die: int, m: MortalWoundsModifiers)
    ensures
        mortal_total(die, treated(m, TreatmentTiming::OneTurn)) == mortal_total(die, treated(m, TreatmentTiming::OneRound)) - 5,
        mortal_total(die, treated(m, TreatmentTiming::OneHour)) == mortal_total(die, treated(m, TreatmentTiming::OneRound)) - 7,
        mortal_total(die, treated(m, TreatmentTiming::OneDay)) == mortal_total(die, treated(m, TreatmentTiming::OneRound)) - 10,
        mortal_total(die, treated(m, TreatmentTiming::OverOneDay)) == mortal_total(die, treated(m, TreatmentTiming::OneRound)) - 12,
        m.from_con == 0 && m.from_hit_dice == HitDiceValue::D4 && m.max_hp > 0 && m.remaining_hp >= 0
            && m.from_healing_magic == 0 && m.from_healing_prof == 0 && !m.applied_horsetail && m.other == 0
            ==> mortal_total(die, treated(m, TreatmentTiming::OneRound)) == die + 5 + 2,
{
    reveal_with_fuel(running_sum, 10);
}

/// The roll of the table.
pub open spec fn d20_roll() -> DiceRoll {
    DiceRoll::spec_simple(1, 20, 0, Drop::Nothing)
}

fn share_bonus(remaining: i32, max: i32) -> (b: i32)
    ensures
        b == hp_share_bonus(remaining as int, max as int),
{
    let r = remaining as i64;
    let m = max as i64;
    let twice: i64 = 2 * m;
    if m > 0 {
        if 4 * r >= -m { 5 }
        else if 2 * r >= -m { -2 }
        else if r >= -m { -5 }
        else if r >= -twice { -10 }
        else { -20 }
    } else if m < 0 {
        if 4 * r <= -m { 5 }
        else if 2 * r <= -m { -2 }
        else if r <= -m { -5 }
        else if r <= -twice { -10 }
        else { -20 }
    } else {
        if r > 0 { 5 } else { -20 }
    }
}

impl ConditionAndRecovery {
    /// The condition that a modified roll of `total` gives.
    pub fn for_total(total: i32) -> (c: Self)
        ensures
            c == condition_for(total as int),
    {
        if total >= 26 { ConditionAndRecovery::Dazed }
        else if total >= 21 { ConditionAndRecovery::KnockedOut }
        else if total >= 16 { ConditionAndRecovery::InShock }
        else if total >= 11 { ConditionAndRecovery::CriticallyWounded }
        else if total >= 6 { ConditionAndRecovery::GrievouslyWounded }
        else if total >= 1 { ConditionAndRecovery::MortallyWounded }
        else if total >= -5 { ConditionAndRecovery::InstantDeath }
        else { ConditionAndRecovery::EvenMoreInstantDeath }
    }

    pub open spec fn text(self) -> Seq<char> {
        match self {
            ConditionAndRecovery::Dazed => "You were just dazed. You recover immediately with 1hp. You do not need any bed rest."@,
            ConditionAndRecovery::KnockedOut => "You were knocked out. You recover with 1 hp. You need magical healing or one night of bed rest."@,
            ConditionAndRecovery::InShock => "You are in shock. You recover with 1 hp. You need magical healing and one night of bed rest, or 1 week of bed rest."@,
            ConditionAndRecovery::CriticallyWounded => "You are critically wounded. You die unless healed to 1 hp within 1 day. If you are healed, you need 1 week of bed rest."@,
            ConditionAndRecovery::GrievouslyWounded => "You are grievously wounded. You die unless healed to 1 hp within 1 turn. If you are healed, you need 2 weeks of bed rest."@,
            ConditionAndRecovery::MortallyWounded => "You are mortally wounded. You die unless healed to 1 hp within 1 round. If you are healed, you need 1 month of bed rest."@,
            ConditionAndRecovery::InstantDeath => "You were instantly killed."@,
            ConditionAndRecovery::EvenMoreInstantDeath => "You were instantly killed."@,
        }
    }

    /// What the condition means for the character, and how it recovers.
    pub fn description(&self) -> (s: String)
        ensures
            s@ == self.text(),
    {
        match *self {
            ConditionAndRecovery::Dazed => "You were just dazed. You recover immediately with 1hp. You do not need any bed rest.".to_owned(),
            ConditionAndRecovery::KnockedOut => "You were knocked out. You recover with 1 hp. You need magical healing or one night of bed rest.".to_owned(),
            ConditionAndRecovery::InShock => "You are in shock. You recover with 1 hp. You need magical healing and one night of bed rest, or 1 week of bed rest.".to_owned(),
            ConditionAndRecovery::CriticallyWounded => "You are critically wounded. You die unless healed to 1 hp within 1 day. If you are healed, you need 1 week of bed rest.".to_owned(),
            ConditionAndRecovery::GrievouslyWounded => "You are grievously wounded. You die unless healed to 1 hp within 1 turn. If you are healed, you need 2 weeks of bed rest.".to_owned(),
            ConditionAndRecovery::MortallyWounded => "You are mortally wounded. You die unless healed to 1 hp within 1 round. If you are healed, you need 1 month of bed rest.".to_owned(),
            ConditionAndRecovery::InstantDeath => "You were instantly killed.".to_owned(),
            ConditionAndRecovery::EvenMoreInstantDeath => "You were instantly killed.".to_owned(),
        }
    }
}

impl MortalWoundsResult {
    /// The result when the die showed `die`: the die plus every modifier, and the condition
    /// that total gives.
    pub fn from_die(die: i32, modifiers: MortalWoundsModifiers) -> (r: Self)
        requires
            sums_fit(die as int, modifiers),
        ensures
            r.modified_roll == mortal_total(die as int, modifiers),
            r.condition == condition_for(r.modified_roll as int),
            r.modifiers == modifiers,
    {
        let ghost terms = mortal_terms(die as int, modifiers);
        proof {
            reveal_with_fuel(running_sum, 10);
            assert(running_sum(terms, 1) == die);
            assert(i32::MIN <= running_sum(terms, 2) <= i32::MAX);
            assert(i32::MIN <= running_sum(terms, 3) <= i32::MAX);
            assert(i32::MIN <= running_sum(terms, 4) <= i32::MAX);
            assert(i32::MIN <= running_sum(terms, 5) <= i32::MAX);
            assert(i32::MIN <= running_sum(terms, 6) <= i32::MAX);
            assert(i32::MIN <= running_sum(terms, 7) <= i32::MAX);
            assert(i32::MIN <= running_sum(terms, 8) <= i32::MAX);
            assert(i32::MIN <= running_sum(terms, 9) <= i32::MAX);
        }
        let mut total = die;
        total = total + modifiers.from_con;
        total = total + match modifiers.from_hit_dice {
            HitDiceValue::D4 => 0,
            HitDiceValue::D6 => 2,
            HitDiceValue::D8 => 4,
            HitDiceValue::D10 => 6,
            HitDiceValue::D12 => 8,
        };
        total = total + share_bonus(modifiers.remaining_hp, modifiers.max_hp);
        total = total + modifiers.from_healing_magic;
        total = total + modifiers.from_healing_prof;
        if modifiers.applied_horsetail {
            total = total + 2;
        }
        total = total + match modifiers.from_treatment_timing {
            TreatmentTiming::OneRound => 2,
            TreatmentTiming::OneTurn => -3,
            TreatmentTiming::OneHour => -5,
            TreatmentTiming::OneDay => -8,
            TreatmentTiming::OverOneDay => -10,
        };
        total = total + modifiers.other;
        let condition = ConditionAndRecovery::for_total(total);
        Self { modified_roll: total, condition, modifiers }
    }

    /// Rolls on the mortal wounds table: a twenty-sided die plus every modifier.
    pub fn roll(modifiers: MortalWoundsModifiers) -> (r: Self)
        requires
            forall|die: int| 1 <= die <= 20 ==> #[trigger] sums_fit(die, modifiers),
        ensures
            exists|die: int| 1 <= die <= 20 && possible_result(d20_roll(), die)
                && r.modified_roll == #[trigger] mortal_total(die, modifiers),
            r.condition == condition_for(r.modified_roll as int),
            r.modifiers == modifiers,
    {
        let die = dice::roll(DiceRoll::simple(1, 20));
        proof { dice::lemma_single_die_range(d20_roll(), die as int); }
        assert(sums_fit(die as int, modifiers));
        Self::from_die(die, modifiers)
    }
}

impl MortalWoundsModifiers {
    pub fn new(
        from_con: i32,
        from_hit_dice: HitDiceValue,
        remaining_hp: i32,
        max_hp: i32,
        from_healing_magic: i32,
        from_healing_prof: i32,
        applied_horsetail: bool,
        from_treatment_timing: TreatmentTiming,
        other: i32,
    ) -> (m: Self)
        ensures
            m == (MortalWoundsModifiers {
                from_con,
                from_hit_dice,
                remaining_hp,
                max_hp,
                from_healing_magic,
                from_healing_prof,
                applied_horsetail,
                from_treatment_timing,
                other,
            }),
    {
        Self {
            from_con,
            from_hit_dice,
            remaining_hp,
            max_hp,
            from_healing_magic,
            from_healing_prof,
            applied_horsetail,
            from_treatment_timing,
            other,
        }
    }
}

} // verus!
