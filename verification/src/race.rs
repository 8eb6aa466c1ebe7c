use vstd::prelude::*;

use crate::character::{Attributes, roll_score, three_d6};
use crate::dice::{DiceRoll, Drop, roll, possible_result};

verus! {

#[derive(Debug, Clone, Copy, PartialEq, Eq, Hash, Structural)]
pub enum Race {
    Human,
    Dwarf,
    Elf,
    Halfling,
    Gnome,
    Zaharan,
    Thrassian,
    Nobiran,
}

#[derive(Debug, Clone, Copy, PartialEq, Eq, Hash, Structural)]
pub enum RaceTable {
    StandardFantasy,
}

/// How an attribute score is rolled.
#[derive(Debug, Clone, Copy, PartialEq, Eq, Structural)]
pub enum ScoreRoll {
    /// Three six-sided dice.
    ThreeDice,
    /// Four six-sided dice, the highest dropped.
    DropHighest,
    /// Four six-sided dice, the lowest dropped.
    DropLowest,
}

pub open spec fn score_roll(k: ScoreRoll) -> DiceRoll {
    match k {
        ScoreRoll::ThreeDice => DiceRoll::spec_simple(3, 6, 0, Drop::Nothing),
        ScoreRoll::DropHighest => DiceRoll::spec_simple(4, 6, 0, Drop::DropHighest(1)),
        ScoreRoll::DropLowest => DiceRoll::spec_simple(4, 6, 0, Drop::DropLowest(1)),
    }
}

/// How each of a race's six scores is rolled, in the order STR, DEX, CON, INT, WIS, CHA.
pub open spec fn race_score_rolls(race: Race) -> Seq<ScoreRoll> {
    let t = ScoreRoll::ThreeDice;
    let h = ScoreRoll::DropHighest;
    let l = ScoreRoll::DropLowest;
    match race {
        Race::Human => seq![t, t, t, t, t, t],
        Race::Dwarf => seq![t, t, l, t, t, h],
        Race::Elf => seq![t, t, h, l, t, t],
        Race::Gnome => seq![h, t, l, l, t, t],
        Race::Nobiran => seq![l, l, l, l, l, l],
        Race::Thrassian => seq![l, l, l, t, h, h],
        Race::Zaharan => seq![t, t, t, l, l, l],
        Race::Halfling => seq![t, l, t, t, t, t],
    }
}

/// Whether each score is one that its roll can give.
pub open spec fn scores_rolled_as(a: Attributes, rolls: Seq<ScoreRoll>) -> bool {
    &&& possible_result(score_roll(rolls[0]), a.strength as int)
    &&& possible_result(score_roll(rolls[1]), a.dexterity as int)
    &&& possible_result(score_roll(rolls[2]), a.constitution as int)
    &&& possible_result(score_roll(rolls[3]), a.intelligence as int)
    &&& possible_result(score_roll(rolls[4]), a.wisdom as int)
    &&& possible_result(score_roll(rolls[5]), a.charisma as int)
}

fn roll_kind(k: ScoreRoll) -> (v: u8)
    ensures
        possible_result(score_roll(k), v as int),
{
    match k {
        ScoreRoll::ThreeDice => roll_score(DiceRoll::simple(3, 6)),
        ScoreRoll::DropHighest => roll_score(DiceRoll::simple_drop_highest(4, 6)),
        ScoreRoll::DropLowest => roll_score(DiceRoll::simple_drop_lowest(4, 6)),
    }
}

/// The race that a roll of `r` on a d100 gives on the standard fantasy table.
pub open spec fn standard_race(r: int) -> Race {
    if r <= 60 { Race::Human }
    else if r <= 70 { Race::Elf }
    else if r <= 85 { Race::Dwarf }
    else if r <= 90 { Race::Halfling }
    else if r <= 95 { Race::Gnome }
    else if r <= 97 { Race::Zaharan }
    else if r <= 99 { Race::Thrassian }
    else { Race::Nobiran }
}

impl Race {
    /// Rolls a set of attributes, with the dice this race uses for each score.
    pub fn roll_attrs(&self) -> (a: Attributes)
        ensures
            scores_rolled_as(a, race_score_rolls(*self)),
    {
        if let Race::Human = self {
            let a = Attributes::random();
            return a;
        }
        let t = ScoreRoll::ThreeDice;
        let h = ScoreRoll::DropHighest;
        let l = ScoreRoll::DropLowest;
        let kinds: [ScoreRoll; 6] = match self {
            Race::Human => [t, t, t, t, t, t],
            Race::Dwarf => [t, t, l, t, t, h],
            Race::Elf => [t, t, h, l, t, t],
            Race::Gnome => [h, t, l, l, t, t],
            Race::Nobiran => [l, l, l, l, l, l],
            Race::Thrassian => [l, l, l, t, h, h],
            Race::Zaharan => [t, t, t, l, l, l],
            Race::Halfling => [t, l, t, t, t, t],
        };
        assert(kinds@ == race_score_rolls(*self));
        Attributes {
            strength: roll_kind(kinds[0]),
            dexterity: roll_kind(kinds[1]),
            constitution: roll_kind(kinds[2]),
            intelligence: roll_kind(kinds[3]),
            wisdom: roll_kind(kinds[4]),
            charisma: roll_kind(kinds[5]),
        }
    }
}

impl RaceTable {
    /// Rolls a race on the table.
    pub fn random_race(&self) -> (race: Race)
        ensures
            exists|r: int| possible_result(DiceRoll::spec_simple(1, 100, 0, Drop::Nothing), r)
                && race == standard_race(r),
    {
        let r = roll(DiceRoll::simple(1, 100));
        standard_race_of(r)
    }
}

fn standard_race_of(r: i32) -> (race: Race)
    ensures
        race == standard_race(r as int),
{
    if r <= 60 { Race::Human }
    else if r <= 70 { Race::Elf }
    else if r <= 85 { Race::Dwarf }
    else if r <= 90 { Race::Halfling }
    else if r <= 95 { Race::Gnome }
    else if r <= 97 { Race::Zaharan }
    else if r <= 99 { Race::Thrassian }
    else { Race::Nobiran }
}

} // verus!
