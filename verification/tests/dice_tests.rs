use ttrpg_tool::dice::{apply_modifier, evaluate, DiceRoll, Drop, ModifierType};

fn roll_of(amount: u32, sides: u32, modifier: i32, modifier_type: ModifierType, all: bool, drop: Drop, min_value: i32) -> DiceRoll {
    DiceRoll { amount, sides, modifier, modifier_type, apply_modifier_to_all: all, drop, min_value }
}

#[test]
fn notation_reads_dice_and_modifier() {
    let r = DiceRoll::from_notation("3d6+2").unwrap();
    assert_eq!(r, roll_of(3, 6, 2, ModifierType::Add, false, Drop::Nothing, 1));
}

#[test]
fn notation_defaults_to_one_die() {
    assert_eq!(DiceRoll::from_notation("d20").unwrap(), roll_of(1, 20, 0, ModifierType::Add, false, Drop::Nothing, 1));
}

#[test]
fn notation_reads_negative_modifier() {
    assert_eq!(DiceRoll::from_notation("2d4-3").unwrap(), roll_of(2, 4, -3, ModifierType::Add, false, Drop::Nothing, 1));
}

#[test]
fn notation_reads_drops() {
    assert_eq!(DiceRoll::from_notation("4d6_l").unwrap(), roll_of(4, 6, 0, ModifierType::Add, false, Drop::DropLowest(1), 1));
    assert_eq!(DiceRoll::from_notation("4d6_H2").unwrap(), roll_of(4, 6, 0, ModifierType::Add, false, Drop::DropHighest(2), 1));
}

#[test]
fn notation_reads_each_die_and_division() {
    assert_eq!(DiceRoll::from_notation("2d8&*3").unwrap(), roll_of(2, 8, 3, ModifierType::Multiply, true, Drop::Nothing, 1));
    assert_eq!(DiceRoll::from_notation("1d6x2").unwrap(), roll_of(1, 6, 2, ModifierType::Multiply, false, Drop::Nothing, 1));
    assert_eq!(DiceRoll::from_notation("1d6/u2").unwrap().modifier_type, ModifierType::DivideCeil);
    assert_eq!(DiceRoll::from_notation("1d6/d2").unwrap().modifier_type, ModifierType::DivideFloor);
    assert_eq!(DiceRoll::from_notation("1d6/2").unwrap().modifier_type, ModifierType::DivideRound);
}

#[test]
fn notation_reads_minimum() {
    assert_eq!(DiceRoll::from_notation("1d6>=3").unwrap().min_value, 3);
    assert_eq!(DiceRoll::from_notation("1d6>3").unwrap().min_value, 4);
    assert_eq!(DiceRoll::from_notation("1d6>-2").unwrap().min_value, -1);
}

#[test]
fn notation_errors() {
    assert_eq!(DiceRoll::from_notation("0d6"), Err("Cannot roll zero dice.".to_owned()));
    assert_eq!(DiceRoll::from_notation("3x6"), Err("Missing 'd' character.".to_owned()));
    assert_eq!(DiceRoll::from_notation("2d"), Err("You must specifiy a number of sides.".to_owned()));
    assert_eq!(DiceRoll::from_notation("2d0"), Err("Cannot roll a zero-sided dice.".to_owned()));
    assert_eq!(DiceRoll::from_notation("2d6+"), Err("Unexpected '+' without value.".to_owned()));
    assert_eq!(DiceRoll::from_notation("2d6x"), Err("Unexpected '*' without value.".to_owned()));
    assert_eq!(DiceRoll::from_notation("2d6_q"), Err("Unexpected '_' without 'l' or 'h'.".to_owned()));
    assert_eq!(DiceRoll::from_notation("2d6?"), Err("Unexpected token '?'.".to_owned()));
    assert_eq!(DiceRoll::from_notation("2d6_h3"), Err("Cannot drop 3 dice when only rolling 2!".to_owned()));
}

#[test]
fn evaluate_sums_and_modifies() {
    assert_eq!(evaluate(&DiceRoll::simple_modifier(3, 6, 2), &vec![1, 2, 3]), 8);
    assert_eq!(evaluate(&DiceRoll::simple_drop_lowest(4, 6), &vec![6, 1, 4, 3]), 13);
    assert_eq!(evaluate(&DiceRoll::simple_drop_highest(4, 6), &vec![6, 1, 4, 3]), 8);
    assert_eq!(evaluate(&DiceRoll::simple_modifier(1, 6, -5), &vec![2]), 1);
    assert_eq!(evaluate(&roll_of(2, 6, 2, ModifierType::Multiply, true, Drop::Nothing, 1), &vec![3, 4]), 14);
    assert_eq!(evaluate(&roll_of(1, 6, 2, ModifierType::DivideRound, false, Drop::Nothing, 1), &vec![5]), 3);
    assert_eq!(evaluate(&roll_of(1, 6, 2, ModifierType::DivideFloor, false, Drop::Nothing, 1), &vec![5]), 2);
    assert_eq!(evaluate(&roll_of(1, 6, 2, ModifierType::DivideCeil, false, Drop::Nothing, 1), &vec![5]), 3);
}

#[test]
fn modifier_arithmetic() {
    assert_eq!(apply_modifier(7, 2, ModifierType::DivideRound), 4);
    assert_eq!(apply_modifier(-7, 2, ModifierType::DivideRound), -4);
    assert_eq!(apply_modifier(-7, 2, ModifierType::DivideFloor), -4);
    assert_eq!(apply_modifier(-7, 2, ModifierType::DivideCeil), -3);
    assert_eq!(apply_modifier(7, -2, ModifierType::DivideFloor), -4);
    assert_eq!(apply_modifier(9, 0, ModifierType::DivideRound), 9);
    assert_eq!(apply_modifier(4, -3, ModifierType::Multiply), -12);
    assert_eq!(apply_modifier(4, -3, ModifierType::Add), 1);
}

#[test]
fn rolls_stay_in_range() {
    let r = DiceRoll::simple(3, 6);
    for _ in 0..200 {
        let v = r.roll();
        assert!((3..=18).contains(&v));
    }
    let d = DiceRoll::from_notation("4d6_l").unwrap();
    for _ in 0..200 {
        let v = d.roll();
        assert!((3..=18).contains(&v));
    }
}

#[test]
fn notation_written_back() {
    assert_eq!(DiceRoll::from_notation("3d6+2").unwrap().to_notation(), "3d6+2");
    assert_eq!(DiceRoll::simple(2, 8).to_notation(), "2d8+0");
    assert_eq!(DiceRoll::from_notation("2d4-3").unwrap().to_notation(), "2d4-3");
    assert_eq!(DiceRoll::from_notation("1d6x2").unwrap().to_notation(), "1d6x2");
    assert_eq!(DiceRoll::from_notation("1d6/2").unwrap().to_notation(), "1d6÷2");
}

#[test]
fn names_of_modifier_and_drop() {
    assert_eq!(ModifierType::Add.to_string(), "Addition");
    assert_eq!(ModifierType::DivideCeil.to_string(), "Division (Round up)");
    assert_eq!(Drop::Nothing.to_string(), "None");
    assert_eq!(Drop::DropLowest(2).to_string(), "Drop lowest");
}

#[test]
fn fitting_rolls() {
    assert!(DiceRoll::simple(1, 6).fits());
    assert!(!DiceRoll::simple(100_000, 100_000).fits());
    assert!(!roll_of(10, 10, i32::MAX, ModifierType::Add, false, Drop::Nothing, 1).fits());
}

#[test]
fn written_notation_reads_back() {
    for r in [
        roll_of(3, 6, 2, ModifierType::Add, false, Drop::Nothing, 1),
        roll_of(2, 4, -3, ModifierType::Add, false, Drop::Nothing, 1),
        roll_of(1, 20, 0, ModifierType::Add, false, Drop::Nothing, 1),
        roll_of(12, 100, 2, ModifierType::Multiply, false, Drop::Nothing, 1),
    ] {
        let written = r.to_notation();
        assert_eq!(DiceRoll::from_notation(&written).unwrap(), r);
    }
    assert_eq!(roll_of(2, 4, -3, ModifierType::Add, false, Drop::Nothing, 1).to_notation(), "2d4-3");
    assert_eq!(roll_of(1, 20, 0, ModifierType::Add, false, Drop::Nothing, 1).to_notation(), "1d20+0");
}

#[test]
fn rolls_never_fall_below_their_minimum() {
    let r = DiceRoll::from_notation("3d6-20").unwrap();
    let high = DiceRoll::from_notation("2d4>=7").unwrap();
    for _ in 0..200 {
        assert_eq!(r.roll(), 1);
        let v = high.roll();
        assert!(v == 7 || v == 8);
    }
}

#[test]
fn single_dice_show_their_faces_and_vary() {
    let d6 = DiceRoll::simple(1, 6);
    let mut seen = [false; 7];
    for _ in 0..600 {
        let v = d6.roll();
        assert!((1..=6).contains(&v));
        seen[v as usize] = true;
    }
    assert!(seen[1..].iter().filter(|s| **s).count() >= 2);
}

#[test]
fn every_die_may_be_dropped() {
    assert_eq!(DiceRoll::from_notation("3d6_l3").unwrap(), roll_of(3, 6, 0, ModifierType::Add, false, Drop::DropLowest(3), 1));
    assert_eq!(DiceRoll::from_notation("3d6_h2").unwrap(), roll_of(3, 6, 0, ModifierType::Add, false, Drop::DropHighest(2), 1));
    assert!(DiceRoll::from_notation("3d6_l4").is_err());
    assert_eq!(evaluate(&roll_of(3, 6, 0, ModifierType::Add, false, Drop::DropLowest(3), 1), &vec![6, 5, 4]), 1);
    assert_eq!(evaluate(&roll_of(3, 6, 0, ModifierType::Add, false, Drop::DropLowest(3), -4), &vec![6, 5, 4]), 0);
}

#[test]
fn rolls_of_no_dice_keep_their_minimum() {
    assert_eq!(roll_of(0, 6, 0, ModifierType::Add, false, Drop::Nothing, 5).roll(), 5);
    assert_eq!(evaluate(&roll_of(0, 6, 0, ModifierType::Add, false, Drop::Nothing, 5), &vec![]), 5);
    assert_eq!(roll_of(2, 0, 0, ModifierType::Add, false, Drop::Nothing, -3).roll(), 0);
}

#[test]
fn a_quotient_too_large_is_held_to_the_largest_i32() {
    assert_eq!(apply_modifier(i32::MIN, -1, ModifierType::DivideFloor), i32::MAX);
    assert_eq!(apply_modifier(i32::MIN, -1, ModifierType::DivideCeil), i32::MAX);
    assert_eq!(apply_modifier(i32::MIN, -1, ModifierType::DivideRound), i32::MAX);
    assert_eq!(apply_modifier(i32::MIN, 1, ModifierType::DivideFloor), i32::MIN);
}

#[test]
fn a_large_negative_modifier_fits_when_no_sum_leaves_an_i32() {
    let r = DiceRoll::new(1, 6, -2147483645, ModifierType::Add, false, Drop::Nothing, i32::MIN);
    assert!(r.fits());
    let v = r.roll();
    assert!(-2147483644 <= v && v <= -2147483639);
    assert!(!DiceRoll::new(1, 6, i32::MAX, ModifierType::Add, false, Drop::Nothing, 1).fits());
    assert!(!DiceRoll::new(2, 6, -2147483647, ModifierType::Add, true, Drop::Nothing, 1).fits());
    assert!(DiceRoll::new(2, 6, -1073741824, ModifierType::Add, true, Drop::Nothing, 1).fits());
    assert!(!DiceRoll::new(2, 6, -1073741826, ModifierType::Add, true, Drop::Nothing, 1).fits());
}

#[test]
fn a_roll_that_drops_every_die_fits_whatever_its_dice() {
    let r = DiceRoll::new(3, u32::MAX, 0, ModifierType::Add, false, Drop::DropHighest(3), 4);
    assert!(r.fits());
    assert_eq!(r.roll(), 4);
    assert!(!DiceRoll::new(3, u32::MAX, 0, ModifierType::Add, false, Drop::DropHighest(2), 4).fits());
}

#[test]
fn only_the_kept_dice_count_toward_the_limit() {
    // Three dice of 1e9 faces can sum past i32::MAX, but two of them cannot.
    assert!(!DiceRoll::new(3, 1_000_000_000, 0, ModifierType::Add, false, Drop::Nothing, 1).fits());
    assert!(DiceRoll::new(3, 1_000_000_000, 0, ModifierType::Add, false, Drop::DropLowest(1), 1).fits());
}
