use vstd::prelude::*;
use vstd::string::*;
use rand::Rng;

use crate::text::{nat_digits, signed_text, int_text, push_decimal, push_signed, push_int};

verus! {

/// Represents a roll of one or more dice.
#[derive(Debug, Clone, Copy, PartialEq, Eq, Hash, Structural)]
pub struct DiceRoll {
    /// How many dice to roll. Should be greater than zero.
    pub amount: u32,
    /// How many sides each die has. Should be greater than zero.
    pub sides: u32,
    /// Modifier to apply. Effect varies based on `modifier_type`.
    pub modifier: i32,
    /// What operation the modifier applies.
    pub modifier_type: ModifierType,
    /// Whether to apply the modifier to every dice individually or to the total.
    pub apply_modifier_to_all: bool,
    /// What, and how many, dice to 'drop' (ignore).
    pub drop: Drop,
    /// The minimum value that this roll will evaluate to.
    pub min_value: i32,
}

#[derive(Debug, Clone, Copy, PartialEq, Eq, Hash, Structural)]
pub enum ModifierType {
    Add,
    Multiply,
    DivideFloor,
    DivideCeil,
    DivideRound,
}

#[derive(Debug, Clone, Copy, PartialEq, Eq, Hash, Structural)]
pub enum Drop {
    Nothing,
    DropHighest(u32),
    DropLowest(u32),
}

// ---------------------------------------------------------------------------------------------
// Arithmetic of a modifier.
// ---------------------------------------------------------------------------------------------

/// `a / b` rounded toward negative infinity (`b != 0`).
pub open spec fn floor_div(a: int, b: int) -> int {
    if b > 0 { a / b } else { (-a) / (-b) }
}

/// `a / b` rounded toward positive infinity (`b != 0`).
pub open spec fn ceil_div(a: int, b: int) -> int {
    -floor_div(-a, b)
}

/// `a / b` rounded to the nearest integer, halves away from zero (`b != 0`).
pub open spec fn round_div(a: int, b: int) -> int {
    let q = (2 * abs(a) + abs(b)) / (2 * abs(b));
    if (a < 0) != (b < 0) { -q } else { q }
}

pub open spec fn abs(a: int) -> int {
    if a < 0 { -a } else { a }
}

/// What applying `modifier` with the operation `t` makes of `initial`. A division by zero
/// leaves `initial` unchanged.
pub open spec fn modified(initial: int, modifier: int, t: ModifierType) -> int {
    match t {
        ModifierType::Add => initial + modifier,
        ModifierType::Multiply => initial * modifier,
        ModifierType::DivideFloor => if modifier == 0 { initial } else { floor_div(initial, modifier) },
        ModifierType::DivideCeil => if modifier == 0 { initial } else { ceil_div(initial, modifier) },
        ModifierType::DivideRound => if modifier == 0 { initial } else { round_div(initial, modifier) },
    }
}

pub open spec fn fits_i32(x: int) -> bool {
    i32::MIN <= x <= i32::MAX
}

/// `x` held to the range of an `i32`, as a float is when cast to one.
pub open spec fn saturated(x: int) -> int {
    if x > i32::MAX { i32::MAX as int } else if x < i32::MIN { i32::MIN as int } else { x }
}

/// Whether `t` divides.
pub open spec fn divides(t: ModifierType) -> bool {
    t is DivideFloor || t is DivideCeil || t is DivideRound
}

fn saturate(q: i64) -> (r: i32)
    ensures
        r == saturated(q as int),
{
    if q > i32::MAX as i64 {
        i32::MAX
    } else if q < i32::MIN as i64 {
        i32::MIN
    } else {
        q as i32
    }
}

fn saturate_neg(q: i64) -> (r: i32)
    ensures
        r == saturated(-q),
{
    if q < -(i32::MAX as i64) {
        i32::MAX
    } else if q > 0x8000_0000 {
        i32::MIN
    } else {
        (-q) as i32
    }
}

/// What applying the modifier makes of a value between 0 and `i32::MAX`, held wide.
fn modified_wide(x: i64, m: i32, t: ModifierType) -> (r: i128)
    requires
        0 <= x <= 0x7fff_ffff,
    ensures
        r == modified(x as int, m as int, t),
        -0x4000_0000_0000_0000 <= r <= 0x4000_0000_0000_0000,
{
    match t {
        ModifierType::Add => x as i128 + m as i128,
        ModifierType::Multiply => {
            assert(-0x4000_0000_0000_0000 <= x * m <= 0x4000_0000_0000_0000) by (nonlinear_arith)
                requires 0 <= x <= 0x7fff_ffff, -0x8000_0000 <= m <= 0x7fff_ffff;
            x as i128 * m as i128
        },
        _ => {
            proof { lemma_modified_bound(x as int, x as int, m as int, t); }
            apply_modifier(x as i32, m, t) as i128
        },
    }
}

/// Whether a value lies in an `i32`.
fn fits_wide(v: i128) -> (b: bool)
    ensures
        b == fits_i32(v as int),
{
    -0x8000_0000 <= v && v <= 0x7fff_ffff
}

/// Applies a modifier to a value. A quotient too large for an `i32` (`i32::MIN` divided by -1)
/// is held to `i32::MAX`.
pub fn apply_modifier(initial: i32, modifier: i32, modifier_type: ModifierType) -> (r: i32)
    requires
        !divides(modifier_type) ==> fits_i32(modified(initial as int, modifier as int, modifier_type)),
    ensures
        r == saturated(modified(initial as int, modifier as int, modifier_type)),
{
    let a = initial as i64;
    let b = modifier as i64;
    match modifier_type {
        ModifierType::Add => initial + modifier,
        ModifierType::Multiply => {
            assert(a * b == initial * modifier);
            (a * b) as i32
        },
        ModifierType::DivideFloor => {
            if modifier == 0 {
                initial
            } else {
                let (na, nb) = if b > 0 { (a, b) } else { (-a, -b) };
                let q = floor_div_pos(na, nb);
                saturate(q)
            }
        },
        ModifierType::DivideCeil => {
            if modifier == 0 {
                initial
            } else {
                let (na, nb) = if b > 0 { (-a, b) } else { (a, -b) };
                let q = floor_div_pos(na, nb);
                saturate_neg(q)
            }
        },
        ModifierType::DivideRound => {
            if modifier == 0 {
                initial
            } else {
                let aa = if a < 0 { -a } else { a };
                let ab = if b < 0 { -b } else { b };
                let q = (2 * aa + ab) / (2 * ab);
                if (a < 0) != (b < 0) { saturate_neg(q) } else { saturate(q) }
            }
        },
    }
}

/// Floor division of `a` by a positive `b`, as Euclidean `/` in specifications gives it.
fn floor_div_pos(a: i64, b: i64) -> (q: i64)
    requires
        b > 0,
        -0x1_0000_0000 <= a <= 0x1_0000_0000,
        b <= 0x1_0000_0000,
    ensures
        q == a / b,
{
    if a >= 0 {
        a / b
    } else {
        // Truncating division of the magnitude, then a step down when there is a remainder.
        let na: i64 = -a;
        let t: i64 = na / b;
        let r: i64 = na % b;
        proof {
            let ghost ti: int = t as int;
            let ghost ri: int = r as int;
            vstd::arithmetic::div_mod::lemma_fundamental_div_mod(na as int, b as int);
            assert(na == b * ti + ri);
            if ri == 0 {
                assert(a == b * (-ti)) by (nonlinear_arith) requires na == b * ti + ri, ri == 0, a == -na;
                vstd::arithmetic::div_mod::lemma_fundamental_div_mod_converse(
                    a as int, b as int, -ti, 0);
            } else {
                assert(a == b * (-ti - 1) + (b - ri)) by (nonlinear_arith)
                    requires na == b * ti + ri, a == -na;
                vstd::arithmetic::div_mod::lemma_fundamental_div_mod_converse(
                    a as int, b as int, -ti - 1, b - ri);
            }
        }
        if r == 0 { -t } else { -t - 1 }
    }
}

// ---------------------------------------------------------------------------------------------
// Evaluating a roll from the values the dice showed.
// ---------------------------------------------------------------------------------------------

/// `s` with `x` placed before the first element that is not smaller than it.
pub open spec fn insert_sorted(s: Seq<i32>, x: i32) -> Seq<i32>
    decreases s.len(),
{
    if s.len() == 0 {
        seq![x]
    } else if x <= s[0] {
        seq![x] + s
    } else {
        seq![s[0]] + insert_sorted(s.drop_first(), x)
    }
}

/// The values of `s` in ascending order.
pub open spec fn sorted_rolls(s: Seq<i32>) -> Seq<i32>
    decreases s.len(),
{
    if s.len() == 0 {
        Seq::empty()
    } else {
        insert_sorted(sorted_rolls(s.drop_last()), s.last())
    }
}

/// The dice that count after the roll's `drop` rule has removed some.
pub open spec fn kept_rolls(drop: Drop, raw: Seq<i32>) -> Seq<i32> {
    match drop {
        Drop::Nothing => raw,
        Drop::DropHighest(i) => sorted_rolls(raw).take(raw.len() - i),
        Drop::DropLowest(i) => sorted_rolls(raw).skip(i as int),
    }
}

pub open spec fn sum_rolls(s: Seq<i32>) -> int
    decreases s.len(),
{
    if s.len() == 0 { 0 } else { sum_rolls(s.drop_last()) + s.last() }
}

/// The sum of the dice after each one has been modified.
pub open spec fn sum_modified(s: Seq<i32>, modifier: int, t: ModifierType) -> int
    decreases s.len(),
{
    if s.len() == 0 {
        0
    } else {
        sum_modified(s.drop_last(), modifier, t) + modified(s.last() as int, modifier, t)
    }
}

/// What a roll evaluates to when its dice showed `raw` (one value per die, in the order rolled).
pub open spec fn roll_value(roll: DiceRoll, raw: Seq<i32>) -> int {
    let total = roll_total(roll, raw);
    if total < roll.min_value { roll.min_value as int } else { total }
}

/// What a roll adds up to before its minimum applies: nothing when no die counts.
pub open spec fn roll_total(roll: DiceRoll, raw: Seq<i32>) -> int {
    if roll.amount == 0 || roll.sides == 0 {
        0
    } else if drops_all(roll) {
        0
    } else {
        let kept = kept_rolls(roll.drop, raw);
        if roll.apply_modifier_to_all {
            sum_modified(kept, roll.modifier as int, roll.modifier_type)
        } else {
            modified(sum_rolls(kept), roll.modifier as int, roll.modifier_type)
        }
    }
}

/// Whether the roll drops every one of its dice (or more).
pub open spec fn drops_all(roll: DiceRoll) -> bool {
    match roll.drop {
        Drop::Nothing => false,
        Drop::DropHighest(i) => i >= roll.amount,
        Drop::DropLowest(i) => i >= roll.amount,
    }
}

/// What a roll gives when no die counts: zero, or its minimum when that is higher.
pub open spec fn empty_value(roll: DiceRoll) -> int {
    if 0 < roll.min_value { roll.min_value as int } else { 0 }
}

/// A bound on the size of what a modifier makes of any value between 0 and `x`.
pub open spec fn modified_bound(x: int, modifier: int, t: ModifierType) -> int {
    match t {
        ModifierType::Add => x + abs(modifier),
        ModifierType::Multiply => x * abs(modifier),
        _ => x,
    }
}

/// How many dice count once the roll's `drop` rule has removed some.
pub open spec fn kept_count(roll: DiceRoll) -> int {
    match roll.drop {
        Drop::Nothing => roll.amount as int,
        Drop::DropHighest(i) => roll.amount - i,
        Drop::DropLowest(i) => roll.amount - i,
    }
}

/// Whether a roll whose dice count (some die rolled and kept) can give no value that leaves an
/// `i32`, whatever its dice show. Every die counts as an `i32`, so it has at most `i32::MAX`
/// faces. A modifier applied to every die makes of each die a value between what it makes of a
/// 1 and of the highest face, so the running sum of `j` kept dice lies between `j` times those
/// two; it leaves an `i32` exactly when the sum of all the kept dice showing 1, or all showing
/// their highest face, does, or one of those values does. A modifier applied to the sum makes of
/// it a value between what it makes of the lowest sum (every kept die 1) and of the highest.
pub open spec fn roll_fits(roll: DiceRoll) -> bool {
    let k = kept_count(roll);
    let m = roll.modifier as int;
    let t = roll.modifier_type;
    &&& roll.sides <= i32::MAX
    &&& if roll.apply_modifier_to_all {
        let low = modified(1, m, t);
        let high = modified(roll.sides as int, m, t);
        &&& fits_i32(low)
        &&& fits_i32(high)
        &&& fits_i32(k * low)
        &&& fits_i32(k * high)
    } else {
        &&& k * roll.sides <= i32::MAX
        &&& fits_i32(modified(k, m, t))
        &&& fits_i32(modified(k * roll.sides, m, t))
    }
}

/// Each of `s` lies between 1 and `sides`.
pub open spec fn all_in_range(s: Seq<i32>, sides: int) -> bool {
    forall|j: int| 0 <= j < s.len() ==> 1 <= #[trigger] s[j] <= sides
}

proof fn lemma_modified_bound(x: int, xmax: int, m: int, t: ModifierType)
    requires
        0 <= x <= xmax,
    ensures
        abs(modified(x, m, t)) <= modified_bound(xmax, m, t),
{
    match t {
        ModifierType::Add => {},
        ModifierType::Multiply => {
            assert(abs(x * m) <= xmax * abs(m)) by (nonlinear_arith)
                requires 0 <= x <= xmax;
        },
        ModifierType::DivideFloor => {
            if m != 0 {
                lemma_floor_div_small(x, m);
            }
        },
        ModifierType::DivideCeil => {
            if m != 0 {
                lemma_floor_div_small_neg(x, m);
            }
        },
        ModifierType::DivideRound => {
            if m != 0 {
                let am = abs(m);
                let q = (2 * x + am) / (2 * am);
                assert(0 <= q <= x) by (nonlinear_arith)
                    requires am >= 1, x >= 0, q == (2 * x + am) / (2 * am);
            }
        },
    }
}

proof fn lemma_floor_div_small(x: int, m: int)
    requires
        x >= 0,
        m != 0,
    ensures
        abs(floor_div(x, m)) <= x,
{
    if m > 0 {
        let q = x / m;
        assert(0 <= q <= x) by (nonlinear_arith) requires m >= 1, x >= 0, q == x / m;
    } else {
        let q = (-x) / (-m);
        assert(-x <= q <= 0) by (nonlinear_arith) requires -m >= 1, x >= 0, q == (-x) / (-m);
    }
}

proof fn lemma_floor_div_small_neg(x: int, m: int)
    requires
        x >= 0,
        m != 0,
    ensures
        abs(ceil_div(x, m)) <= x,
{
    if m > 0 {
        let q = (-x) / m;
        assert(-x <= q <= 0) by (nonlinear_arith) requires m >= 1, x >= 0, q == (-x) / m;
    } else {
        let q = x / (-m);
        assert(0 <= q <= x) by (nonlinear_arith) requires -m >= 1, x >= 0, q == x / (-m);
    }
}

proof fn lemma_insert_sorted_at(s: Seq<i32>, x: i32, p: int)
    requires
        0 <= p <= s.len(),
        forall|j: int| 0 <= j < p ==> #[trigger] s[j] < x,
        p == s.len() || x <= s[p],
    ensures
        insert_sorted(s, x) == s.take(p).push(x) + s.skip(p),
    decreases s.len(),
{
    if s.len() == 0 {
        assert(insert_sorted(s, x) == s.take(p).push(x) + s.skip(p));
    } else if x <= s[0] {
        assert(p == 0);
        assert(insert_sorted(s, x) == s.take(p).push(x) + s.skip(p));
    } else {
        let t = s.drop_first();
        assert forall|j: int| 0 <= j < p - 1 implies #[trigger] t[j] < x by {
            assert(t[j] == s[j + 1]);
        }
        lemma_insert_sorted_at(t, x, p - 1);
        assert(insert_sorted(s, x) == s.take(p).push(x) + s.skip(p));
    }
}

proof fn lemma_insert_sorted_facts(s: Seq<i32>, x: i32, sides: int)
    requires
        all_in_range(s, sides),
        1 <= x <= sides,
    ensures
        insert_sorted(s, x).len() == s.len() + 1,
        all_in_range(insert_sorted(s, x), sides),
    decreases s.len(),
{
    if s.len() > 0 && !(x <= s[0]) {
        let t = s.drop_first();
        assert(all_in_range(t, sides)) by {
            assert forall|j: int| 0 <= j < t.len() implies 1 <= #[trigger] t[j] <= sides by {
                assert(t[j] == s[j + 1]);
            }
        }
        lemma_insert_sorted_facts(t, x, sides);
        let r = insert_sorted(s, x);
        assert forall|j: int| 0 <= j < r.len() implies 1 <= #[trigger] r[j] <= sides by {
            if j > 0 {
                assert(r[j] == insert_sorted(t, x)[j - 1]);
            }
        }
    }
}

proof fn lemma_sorted_facts(s: Seq<i32>, sides: int)
    requires
        all_in_range(s, sides),
    ensures
        sorted_rolls(s).len() == s.len(),
        all_in_range(sorted_rolls(s), sides),
    decreases s.len(),
{
    if s.len() > 0 {
        let t = s.drop_last();
        assert(all_in_range(t, sides)) by {
            assert forall|j: int| 0 <= j < t.len() implies 1 <= #[trigger] t[j] <= sides by {
                assert(t[j] == s[j]);
            }
        }
        lemma_sorted_facts(t, sides);
        assert(1 <= s[s.len() - 1] <= sides);
        lemma_insert_sorted_facts(sorted_rolls(t), s.last(), sides);
    }
}

/// Sorts the values ascending, by insertion.
fn sort_rolls(raw: &Vec<i32>) -> (out: Vec<i32>)
    ensures
        out@ == sorted_rolls(raw@),
{
    let mut out: Vec<i32> = Vec::new();
    let n = raw.len();
    for k in 0..n
        invariant
            n == raw.len(),
            out@ == sorted_rolls(raw@.take(k as int)),
    {
        let x = raw[k];
        let mut p: usize = 0;
        while p < out.len() && out[p] < x
            invariant
                p <= out.len(),
                forall|j: int| 0 <= j < p ==> #[trigger] out@[j] < x,
            decreases out.len() - p,
        {
            p = p + 1;
        }
        proof {
            lemma_insert_sorted_at(out@, x, p as int);
            assert(raw@.take(k + 1).drop_last() == raw@.take(k as int));
            assert(raw@.take(k + 1).last() == x);
        }
        let ghost before = out@;
        out.insert(p, x);
        assert(out@ == before.take(p as int).push(x) + before.skip(p as int));
    }
    assert(raw@.take(n as int) == raw@);
    out
}

proof fn lemma_sum_bound(s: Seq<i32>, k: int, sides: int)
    requires
        all_in_range(s, sides),
        0 <= k <= s.len(),
    ensures
        k <= sum_rolls(s.take(k)) <= k * sides,
    decreases k,
{
    if k > 0 {
        lemma_sum_bound(s, k - 1, sides);
        assert(s.take(k).drop_last() == s.take(k - 1));
        assert(s.take(k).last() == s[k - 1]);
        assert(sum_rolls(s.take(k)) == sum_rolls(s.take(k - 1)) + s[k - 1]);
        assert(1 <= s[k - 1] <= sides);
        assert((k - 1) * sides + sides == k * sides) by (nonlinear_arith);
    } else {
        assert(s.take(k).len() == 0);
    }
}

/// Whether applying the modifier keeps the order of values at or above zero (else it reverses it).
pub open spec fn modified_increasing(m: int, t: ModifierType) -> bool {
    match t {
        ModifierType::Add => true,
        _ => m >= 0,
    }
}

proof fn lemma_modified_monotone(x: int, y: int, m: int, t: ModifierType)
    requires
        0 <= x <= y,
    ensures
        modified_increasing(m, t) ==> modified(x, m, t) <= modified(y, m, t),
        !modified_increasing(m, t) ==> modified(y, m, t) <= modified(x, m, t),
{
    match t {
        ModifierType::Add => {},
        ModifierType::Multiply => {
            if m >= 0 {
                assert(x * m <= y * m) by (nonlinear_arith) requires x <= y, m >= 0;
            } else {
                assert(y * m <= x * m) by (nonlinear_arith) requires x <= y, m < 0;
            }
        },
        ModifierType::DivideFloor => {
            if m > 0 {
                vstd::arithmetic::div_mod::lemma_div_is_ordered(x, y, m);
            } else if m < 0 {
                vstd::arithmetic::div_mod::lemma_div_is_ordered(-y, -x, -m);
            }
        },
        ModifierType::DivideCeil => {
            if m > 0 {
                vstd::arithmetic::div_mod::lemma_div_is_ordered(-y, -x, m);
            } else if m < 0 {
                vstd::arithmetic::div_mod::lemma_div_is_ordered(x, y, -m);
            }
        },
        ModifierType::DivideRound => {
            if m != 0 {
                let am = abs(m);
                vstd::arithmetic::div_mod::lemma_div_is_ordered(2 * x + am, 2 * y + am, 2 * am);
            }
        },
    }
}

/// A value between `lo` and `hi` (at or above zero) is modified to a value between what `lo`
/// and `hi` are modified to.
proof fn lemma_modified_between(lo: int, x: int, hi: int, m: int, t: ModifierType)
    requires
        0 <= lo <= x <= hi,
    ensures
        modified(lo, m, t) <= modified(x, m, t) <= modified(hi, m, t)
            || modified(hi, m, t) <= modified(x, m, t) <= modified(lo, m, t),
{
    lemma_modified_monotone(lo, x, m, t);
    lemma_modified_monotone(x, hi, m, t);
}

/// `j` times a value lies in an `i32` when the value and `k` times it do, for `1 <= j <= k`.
proof fn lemma_scaled_fits(v: int, j: int, k: int)
    requires
        1 <= j <= k,
        fits_i32(v),
        fits_i32(k * v),
    ensures
        fits_i32(j * v),
{
    if v >= 0 {
        assert(0 <= j * v <= k * v) by (nonlinear_arith) requires 1 <= j <= k, v >= 0;
    } else {
        assert(k * v <= j * v <= 0) by (nonlinear_arith) requires 1 <= j <= k, v < 0;
    }
}

/// The sum of `k` modified dice lies between `k` times the least and `k` times the most that
/// one modified die gives.
proof fn lemma_sum_modified_range(s: Seq<i32>, k: int, sides: int, m: int, t: ModifierType)
    requires
        all_in_range(s, sides),
        0 <= k <= s.len(),
    ensures
        ({
            let a = modified(1, m, t);
            let b = modified(sides, m, t);
            let lo = if a <= b { a } else { b };
            let hi = if a <= b { b } else { a };
            k * lo <= sum_modified(s.take(k), m, t) <= k * hi
        }),
    decreases k,
{
    let a = modified(1, m, t);
    let b = modified(sides, m, t);
    let lo = if a <= b { a } else { b };
    let hi = if a <= b { b } else { a };
    if k > 0 {
        lemma_sum_modified_range(s, k - 1, sides, m, t);
        assert(s.take(k).drop_last() == s.take(k - 1));
        assert(s.take(k).last() == s[k - 1]);
        assert(1 <= s[k - 1] <= sides);
        lemma_modified_between(1, s[k - 1] as int, sides, m, t);
        assert(sum_modified(s.take(k), m, t) == sum_modified(s.take(k - 1), m, t)
            + modified(s[k - 1] as int, m, t));
        assert((k - 1) * lo + lo == k * lo) by (nonlinear_arith);
        assert((k - 1) * hi + hi == k * hi) by (nonlinear_arith);
    } else {
        assert(s.take(k).len() == 0);
        assert(k * lo == 0 && k * hi == 0);
    }
}

/// Evaluates a roll from the values its dice showed, one value per die in the order rolled.
pub fn evaluate(roll: &DiceRoll, raw: &Vec<i32>) -> (r: i32)
    requires
        can_roll(*roll),
        raw@.len() == roll.amount,
        all_in_range(raw@, roll.sides as int),
    ensures
        r == roll_value(*roll, raw@),
{
    let total = total_of(roll, raw);
    if total < roll.min_value { roll.min_value } else { total }
}

/// What the dice add up to, with the modifier, before the minimum applies.
fn total_of(roll: &DiceRoll, raw: &Vec<i32>) -> (r: i32)
    requires
        can_roll(*roll),
        raw@.len() == roll.amount,
        all_in_range(raw@, roll.sides as int),
    ensures
        r == roll_total(*roll, raw@),
{
    if roll.amount == 0 || roll.sides == 0 {
        return 0;
    }
    let n = raw.len();
    let kept: Vec<i32> = match roll.drop {
        Drop::Nothing => raw.clone(),
        Drop::DropHighest(i) => {
            if i >= roll.amount {
                return 0;
            }
            let sorted = sort_rolls(raw);
            proof { lemma_sorted_facts(raw@, roll.sides as int); }
            let keep = n - i as usize;
            let mut kept: Vec<i32> = Vec::new();
            for j in 0..keep
                invariant
                    keep <= sorted.len(),
                    kept@ == sorted@.take(j as int),
            {
                kept.push(sorted[j]);
                assert(kept@ == sorted@.take(j + 1));
            }
            kept
        },
        Drop::DropLowest(i) => {
            if i >= roll.amount {
                return 0;
            }
            let sorted = sort_rolls(raw);
            proof { lemma_sorted_facts(raw@, roll.sides as int); }
            let mut kept: Vec<i32> = Vec::new();
            let start = i as usize;
            for j in start..n
                invariant
                    start <= n,
                    n == sorted.len(),
                    kept@ == sorted@.subrange(start as int, j as int),
            {
                kept.push(sorted[j]);
                assert(kept@ == sorted@.subrange(start as int, j + 1));
            }
            kept
        },
    };
    let ghost kept_spec = kept_rolls(roll.drop, raw@);
    proof {
        lemma_sorted_facts(raw@, roll.sides as int);
        assert(kept@ == kept_spec);
        assert(all_in_range(kept_spec, roll.sides as int)) by {
            assert forall|j: int| 0 <= j < kept_spec.len()
                implies 1 <= #[trigger] kept_spec[j] <= roll.sides by {
                match roll.drop {
                    Drop::Nothing => {},
                    Drop::DropHighest(i) => {
                        assert(kept_spec[j] == sorted_rolls(raw@)[j]);
                    },
                    Drop::DropLowest(i) => {
                        assert(kept_spec[j] == sorted_rolls(raw@)[j + i]);
                    },
                }
            }
        }
        assert(kept_spec.len() == kept_count(*roll));
        assert(roll_fits(*roll));
    }
    let len = kept.len();
    let mut result: i32 = 0;
    let ghost m = roll.modifier as int;
    let ghost t = roll.modifier_type;
    let ghost sides = roll.sides as int;
    for k in 0..len
        invariant
            len == kept.len(),
            kept@ == kept_spec,
            all_in_range(kept_spec, sides),
            len == kept_count(*roll),
            len >= 1,
            roll_fits(*roll),
            m == roll.modifier,
            t == roll.modifier_type,
            sides == roll.sides,
            roll.apply_modifier_to_all ==> result == sum_modified(kept_spec.take(k as int), m, t),
            !roll.apply_modifier_to_all ==> result == sum_rolls(kept_spec.take(k as int)),
    {
        let r = kept[k];
        proof {
            assert(kept_spec.take(k + 1).drop_last() == kept_spec.take(k as int));
            assert(kept_spec.take(k + 1).last() == r);
            assert(1 <= r <= sides);
            if roll.apply_modifier_to_all {
                let a = modified(1, m, t);
                let b = modified(sides, m, t);
                lemma_modified_between(1, r as int, sides, m, t);
                lemma_sum_modified_range(kept_spec, k + 1, sides, m, t);
                lemma_scaled_fits(a, k + 1, len as int);
                lemma_scaled_fits(b, k + 1, len as int);
            } else {
                lemma_sum_bound(kept_spec, k + 1, sides);
                assert((k + 1) * sides <= len * sides) by (nonlinear_arith)
                    requires k + 1 <= len, sides >= 0;
            }
        }
        if roll.apply_modifier_to_all {
            result = result + apply_modifier(r, roll.modifier, roll.modifier_type);
        } else {
            result = result + r;
        }
    }
    proof {
        assert(kept_spec.take(len as int) == kept_spec);
    }
    if !roll.apply_modifier_to_all {
        proof {
            lemma_sum_bound(kept_spec, len as int, sides);
            lemma_modified_between(len as int, result as int, len * sides, m, t);
        }
        result = apply_modifier(result, roll.modifier, roll.modifier_type);
    }
    result
}

// ---------------------------------------------------------------------------------------------
// Rolling.
// ---------------------------------------------------------------------------------------------

/// Whether `r` is a value that rolling `roll` can give: the value of the roll for some faces
/// that its dice can show.
pub open spec fn possible_result(roll: DiceRoll, r: int) -> bool {
    if roll.amount == 0 || roll.sides == 0 {
        r == empty_value(roll)
    } else {
        exists|raw: Seq<i32>|
            #![trigger roll_value(roll, raw)]
            raw.len() == roll.amount && all_in_range(raw, roll.sides as int) && r
                == roll_value(roll, raw)
    }
}

/// Whether `roll` can be rolled without any value overflowing an `i32`: no die counts, or the
/// dice that count fit.
pub open spec fn can_roll(roll: DiceRoll) -> bool {
    roll.amount == 0 || roll.sides == 0 || drops_all(roll) || roll_fits(roll)
}

/// One die with `sides` faces, thrown with the thread-local generator of `rand`
/// (`thread_rng().gen_range(1..=sides)`): the result lies between 1 and `sides`; which value comes
/// is left to chance.
#[verifier::external_body]
fn throw_die(sides: u32) -> (face: u32)
    requires
        sides >= 1,
    ensures
        1 <= face <= sides,
{
    rand::thread_rng().gen_range(1..=sides)
}

/// Rolls a `DiceRoll` and returns the result.
pub fn roll(dice: DiceRoll) -> (r: i32)
    requires
        can_roll(dice),
    ensures
        possible_result(dice, r as int),
{
    if dice.amount == 0 || dice.sides == 0 {
        return if 0 < dice.min_value { dice.min_value } else { 0 };
    }
    let drops_every_die = match dice.drop {
        Drop::Nothing => false,
        Drop::DropHighest(i) => i >= dice.amount,
        Drop::DropLowest(i) => i >= dice.amount,
    };
    if drops_every_die {
        // No die counts, whatever the dice show.
        let r = if 0 < dice.min_value { dice.min_value } else { 0 };
        proof {
            let raw = Seq::new(dice.amount as nat, |j: int| 1i32);
            assert(all_in_range(raw, dice.sides as int));
            assert(r == roll_value(dice, raw));
        }
        return r;
    }
    let mut raw_rolls: Vec<i32> = Vec::new();
    let mut k: u32 = 0;
    while k < dice.amount
        invariant
            k <= dice.amount,
            raw_rolls@.len() == k,
            1 <= dice.sides <= i32::MAX,
            all_in_range(raw_rolls@, dice.sides as int),
        decreases dice.amount - k,
    {
        let face = throw_die(dice.sides);
        raw_rolls.push(face as i32);
        k = k + 1;
    }
    let r = evaluate(&dice, &raw_rolls);
    r
}

impl DiceRoll {
    pub fn new(
        amount: u32,
        sides: u32,
        modifier: i32,
        modifier_type: ModifierType,
        apply_modifier_to_all: bool,
        drop: Drop,
        min_value: i32,
    ) -> (r: Self)
        ensures
            r == (DiceRoll { amount, sides, modifier, modifier_type, apply_modifier_to_all, drop, min_value }),
    {
        Self { amount, sides, modifier, modifier_type, apply_modifier_to_all, drop, min_value }
    }

    /// `amount` dice of `sides` faces, summed, with no modifier, nothing dropped and a minimum of 1.
    pub open spec fn spec_simple(amount: u32, sides: u32, modifier: i32, drop: Drop) -> DiceRoll {
        DiceRoll {
            amount,
            sides,
            modifier,
            modifier_type: ModifierType::Add,
            apply_modifier_to_all: false,
            drop,
            min_value: 1,
        }
    }

    pub fn simple(amount: u32, sides: u32) -> (r: Self)
        ensures
            r == Self::spec_simple(amount, sides, 0, Drop::Nothing),
    {
        Self {
            amount,
            sides,
            modifier: 0,
            modifier_type: ModifierType::Add,
            apply_modifier_to_all: false,
            drop: Drop::Nothing,
            min_value: 1,
        }
    }

    pub fn simple_modifier(amount: u32, sides: u32, modifier: i32) -> (r: Self)
        ensures
            r == Self::spec_simple(amount, sides, modifier, Drop::Nothing),
    {
        Self {
            amount,
            sides,
            modifier,
            modifier_type: ModifierType::Add,
            apply_modifier_to_all: false,
            drop: Drop::Nothing,
            min_value: 1,
        }
    }

    pub fn simple_drop_highest(amount: u32, sides: u32) -> (r: Self)
        ensures
            r == Self::spec_simple(amount, sides, 0, Drop::DropHighest(1)),
    {
        Self {
            amount,
            sides,
            modifier: 0,
            modifier_type: ModifierType::Add,
            apply_modifier_to_all: false,
            drop: Drop::DropHighest(1),
            min_value: 1,
        }
    }

    pub fn simple_drop_lowest(amount: u32, sides: u32) -> (r: Self)
        ensures
            r == Self::spec_simple(amount, sides, 0, Drop::DropLowest(1)),
    {
        Self {
            amount,
            sides,
            modifier: 0,
            modifier_type: ModifierType::Add,
            apply_modifier_to_all: false,
            drop: Drop::DropLowest(1),
            min_value: 1,
        }
    }

    /// Whether the roll can be rolled without any value overflowing an `i32`.
    pub fn fits(&self) -> (b: bool)
        ensures
            b == can_roll(*self),
    {
        if self.amount == 0 || self.sides == 0 {
            return true;
        }
        let k: i128 = match self.drop {
            Drop::Nothing => self.amount as i128,
            Drop::DropHighest(i) => {
                if i >= self.amount {
                    return true;
                }
                (self.amount - i) as i128
            },
            Drop::DropLowest(i) => {
                if i >= self.amount {
                    return true;
                }
                (self.amount - i) as i128
            },
        };
        assert(k == kept_count(*self) && 1 <= k <= 0xffff_ffff);
        if self.sides > 0x7fff_ffff {
            return false;
        }
        let m = self.modifier;
        let t = self.modifier_type;
        if self.apply_modifier_to_all {
            let low = modified_wide(1, m, t);
            let high = modified_wide(self.sides as i64, m, t);
            assert(-0x4000_0000_0000_0000_0000_0000 <= k * low <= 0x4000_0000_0000_0000_0000_0000) by (nonlinear_arith)
                requires 1 <= k <= 0xffff_ffff, -0x4000_0000_0000_0000 <= low <= 0x4000_0000_0000_0000;
            assert(-0x4000_0000_0000_0000_0000_0000 <= k * high <= 0x4000_0000_0000_0000_0000_0000) by (nonlinear_arith)
                requires 1 <= k <= 0xffff_ffff, -0x4000_0000_0000_0000 <= high <= 0x4000_0000_0000_0000;
            fits_wide(low) && fits_wide(high) && fits_wide(k * low) && fits_wide(k * high)
        } else {
            let sides = self.sides as i128;
            assert(k * sides <= 0xffff_ffff * 0x7fff_ffff) by (nonlinear_arith)
                requires 1 <= k <= 0xffff_ffff, 1 <= sides <= 0x7fff_ffff;
            let most = k * sides;
            if most > 0x7fff_ffff {
                return false;
            }
            assert(k <= most) by (nonlinear_arith) requires k >= 1, sides >= 1, most == k * sides;
            fits_wide(modified_wide(k as i64, m, t)) && fits_wide(modified_wide(most as i64, m, t))
        }
    }

    pub fn roll(&self) -> (r: i32)
        requires
            can_roll(*self),
        ensures
            possible_result(*self, r as int),
    {
        roll(*self)
    }

    /// The short notation of the roll: the dice, then the modifier.
    pub open spec fn notation(self) -> Seq<char> {
        nat_digits(self.amount as nat) + seq!['d'] + nat_digits(self.sides as nat) + match self.modifier_type {
            ModifierType::Add => signed_text(self.modifier as int),
            ModifierType::Multiply => seq!['x'] + int_text(self.modifier as int),
            _ => seq!['÷'] + int_text(self.modifier as int),
        }
    }

    pub fn to_notation(&self) -> (s: String)
        ensures
            s@ == self.notation(),
    {
        proof {
            reveal_strlit("d");
            reveal_strlit("x");
            reveal_strlit("÷");
        }
        let mut s = String::new();
        push_decimal(&mut s, self.amount as u64);
        s.append("d");
        push_decimal(&mut s, self.sides as u64);
        match self.modifier_type {
            ModifierType::Add => push_signed(&mut s, self.modifier as i64),
            ModifierType::Multiply => {
                s.append("x");
                push_int(&mut s, self.modifier as i64);
            },
            _ => {
                s.append("÷");
                push_int(&mut s, self.modifier as i64);
            },
        }
        s
    }
}

impl ModifierType {
    pub fn to_string(&self) -> (s: String)
        ensures
            s@ == match *self {
                ModifierType::Add => "Addition"@,
                ModifierType::Multiply => "Multiplication"@,
                ModifierType::DivideFloor => "Division (Round down)"@,
                ModifierType::DivideCeil => "Division (Round up)"@,
                ModifierType::DivideRound => "Division (Round)"@,
            },
    {
        match self {
            ModifierType::Add => "Addition".to_owned(),
            ModifierType::Multiply => "Multiplication".to_owned(),
            ModifierType::DivideFloor => "Division (Round down)".to_owned(),
            ModifierType::DivideCeil => "Division (Round up)".to_owned(),
            ModifierType::DivideRound => "Division (Round)".to_owned(),
        }
    }
}

impl Drop {
    pub fn to_string(&self) -> (s: String)
        ensures
            s@ == match *self {
                Drop::Nothing => "None"@,
                Drop::DropHighest(_) => "Drop highest"@,
                Drop::DropLowest(_) => "Drop lowest"@,
            },
    {
        match self {
            Drop::Nothing => "None".to_owned(),
            Drop::DropHighest(_) => "Drop highest".to_owned(),
            Drop::DropLowest(_) => "Drop lowest".to_owned(),
        }
    }
}

/// A roll of three or four six-sided dice, keeping three, gives a value between 1 and 24.
pub proof fn lemma_small_roll_range(r: DiceRoll, x: int)
    requires
        r == DiceRoll::spec_simple(3, 6, 0, Drop::Nothing)
            || r == DiceRoll::spec_simple(4, 6, 0, Drop::DropHighest(1))
            || r == DiceRoll::spec_simple(4, 6, 0, Drop::DropLowest(1)),
        possible_result(r, x),
    ensures
        1 <= x <= 24,
{
    let raw = choose|raw: Seq<i32>|
        #![trigger roll_value(r, raw)]
        raw.len() == r.amount && all_in_range(raw, r.sides as int) && x == roll_value(r, raw);
    lemma_sorted_facts(raw, 6);
    let kept = kept_rolls(r.drop, raw);
    assert(all_in_range(kept, 6)) by {
        assert forall|j: int| 0 <= j < kept.len() implies 1 <= #[trigger] kept[j] <= 6 by {
            match r.drop {
                Drop::Nothing => {},
                Drop::DropHighest(i) => { assert(kept[j] == sorted_rolls(raw)[j]); },
                Drop::DropLowest(i) => { assert(kept[j] == sorted_rolls(raw)[j + i]); },
            }
        }
    }
    lemma_sum_bound(kept, kept.len() as int, 6);
    assert(kept.take(kept.len() as int) == kept);
}

/// A roll never gives less than its minimum, whatever its dice, its drop and its modifier.
pub proof fn roll_at_least_minimum(r: DiceRoll, x: int)
    requires
        possible_result(r, x),
    ensures
        x >= r.min_value,
{
    if r.amount != 0 && r.sides != 0 {
        let raw = choose|raw: Seq<i32>|
            #![trigger roll_value(r, raw)]
            raw.len() == r.amount && all_in_range(raw, r.sides as int) && x == roll_value(r, raw);
    }
}

/// A roll whose minimum is at least zero never gives a negative value.
pub proof fn lemma_min_one(r: DiceRoll, x: int)
    requires
        r.min_value >= 0,
        possible_result(r, x),
    ensures
        x >= 0,
{
    if r.amount != 0 && r.sides != 0 {
        let raw = choose|raw: Seq<i32>|
            #![trigger roll_value(r, raw)]
            raw.len() == r.amount && all_in_range(raw, r.sides as int) && x == roll_value(r, raw);
    }
}

/// A single die rolls one of its faces.
pub proof fn lemma_single_die_range(r: DiceRoll, x: int)
    requires
        r.amount == 1,
        r.sides >= 1,
        r.modifier == 0,
        r.modifier_type == ModifierType::Add,
        !r.apply_modifier_to_all,
        r.drop == Drop::Nothing,
        r.min_value == 1,
        possible_result(r, x),
    ensures
        1 <= x <= r.sides,
{
    let raw = choose|raw: Seq<i32>|
        #![trigger roll_value(r, raw)]
        raw.len() == r.amount && all_in_range(raw, r.sides as int) && x == roll_value(r, raw);
    assert(raw.drop_last().len() == 0);
    assert(sum_rolls(raw.drop_last()) == 0);
    assert(1 <= raw[0] <= r.sides);
}

/// A roll of plain dice plus a modifier, at least 1, lies between what it shows with every die at
/// 1 and with every die at its highest.
pub proof fn lemma_simple_roll_range(r: DiceRoll, x: int)
    requires
        r.modifier_type == ModifierType::Add,
        !r.apply_modifier_to_all,
        r.drop == Drop::Nothing,
        r.min_value == 1,
        possible_result(r, x),
    ensures
        1 <= x,
        r.amount == 0 || r.sides == 0 ==> x == 1,
        r.amount != 0 && r.sides != 0 ==> x <= if r.amount * r.sides + r.modifier < 1 { 1 } else {
            r.amount * r.sides + r.modifier },
        r.amount != 0 && r.sides != 0 ==> x >= if r.amount + r.modifier < 1 { 1 } else {
            r.amount + r.modifier },
{
    if r.amount != 0 && r.sides != 0 {
        let raw = choose|raw: Seq<i32>|
            #![trigger roll_value(r, raw)]
            raw.len() == r.amount && all_in_range(raw, r.sides as int) && x == roll_value(r, raw);
        lemma_sum_bound(raw, raw.len() as int, r.sides as int);
        assert(raw.take(raw.len() as int) == raw);
    }
}

} // verus!
