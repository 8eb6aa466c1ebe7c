use vstd::prelude::*;
use vstd::string::*;

use crate::dice::{DiceRoll, Drop, ModifierType};
use crate::text::{nat_digits, digit_char, push_decimal, signed_text, int_text};

verus! {

// Dice notation:
//   (N)d M (&) (<op> A) (_<h|l>(X)) (>(=)(-)B)
// where <op> is one of '+', '-', '*' or 'x', '/', '/u', '/d'.

/// Why a piece of dice notation was refused.
#[derive(Debug, Clone, Copy, PartialEq, Eq, Structural)]
pub enum NotationError {
    /// The number of dice was zero.
    ZeroDice,
    /// The 'd' between the two numbers is missing.
    MissingD,
    /// The number of sides was zero.
    ZeroSides,
    /// No number of sides follows the 'd'.
    MissingSides,
    /// The given operator ('+', '-', '*', '/' or '>') has no number after it.
    MissingValue(char),
    /// More dice would be dropped (the first number) than are rolled (the second).
    DropTooMany(u32, u32),
    /// An underscore is followed by neither 'h' nor 'l'.
    BadDrop,
    /// Something follows the end of the notation.
    UnexpectedToken(char),
}

/// The outcome of reading a piece of dice notation.
pub enum Parsed {
    Done(DiceRoll),
    Failed(NotationError),
    /// A number in the notation cannot be negated or stepped within an `i32`.
    Overflow,
}

/// The character at `i`, or 'q' past the end (a character that no rule looks for).
pub open spec fn at(s: Seq<char>, i: int) -> char {
    if 0 <= i < s.len() { s[i] } else { 'q' }
}

pub open spec fn is_digit(c: char) -> bool {
    '0' <= c <= '9'
}

/// The first position at or after `i` that does not hold a digit.
pub open spec fn digits_end(s: Seq<char>, i: int) -> int
    decreases s.len() - i,
{
    if 0 <= i < s.len() && is_digit(s[i]) { digits_end(s, i + 1) } else { i }
}

/// The number written by the digits from `i` up to `j`.
pub open spec fn digits_value(s: Seq<char>, i: int, j: int) -> nat
    decreases j - i,
{
    if j <= i {
        0
    } else {
        digits_value(s, i, j - 1) * 10 + ((s[j - 1] as nat) - ('0' as nat)) as nat
    }
}

/// Reads the run of digits at `i`: no number if there is none, zero if it does not fit a `u32`,
/// and where the run ends.
pub open spec fn read_num(s: Seq<char>, i: int) -> (Option<u32>, int) {
    let j = digits_end(s, i);
    if j == i {
        (None, i)
    } else {
        let v = digits_value(s, i, j);
        (Some(if v <= u32::MAX { v as u32 } else { 0 }), j)
    }
}

/// Reads a piece of dice notation.
pub open spec fn parse_notation(s: Seq<char>) -> Parsed {
    let r = DiceRoll::spec_simple(1, 0, 0, Drop::Nothing);
    let (amount, i) = read_num(s, 0);
    if amount == Some(0u32) {
        Parsed::Failed(NotationError::ZeroDice)
    } else {
        let r = match amount {
            Some(a) => DiceRoll { amount: a, ..r },
            None => r,
        };
        if at(s, i) != 'd' {
            Parsed::Failed(NotationError::MissingD)
        } else {
            parse_sides(s, i + 1, r)
        }
    }
}

pub open spec fn parse_sides(s: Seq<char>, i: int, r: DiceRoll) -> Parsed {
    let (sides, j) = read_num(s, i);
    match sides {
        None => Parsed::Failed(NotationError::MissingSides),
        Some(n) => if n == 0 {
            Parsed::Failed(NotationError::ZeroSides)
        } else {
            let r = DiceRoll { sides: n, ..r };
            if at(s, j) == '&' {
                parse_modifier(s, j + 1, DiceRoll { apply_modifier_to_all: true, ..r })
            } else {
                parse_modifier(s, j, r)
            }
        },
    }
}

pub open spec fn parse_modifier(s: Seq<char>, i: int, r: DiceRoll) -> Parsed {
    let c = at(s, i);
    if c == '+' || c == '-' || c == '*' || c == 'x' {
        let t = if c == '+' || c == '-' { ModifierType::Add } else { ModifierType::Multiply };
        let (n, j) = read_num(s, i + 1);
        match n {
            None => Parsed::Failed(NotationError::MissingValue(if c == 'x' { '*' } else { c })),
            Some(k) => {
                let v = #[verifier::truncate] (k as i32);
                if c == '-' && v == i32::MIN {
                    Parsed::Overflow
                } else {
                    let m = if c == '-' { -v } else { v as int };
                    parse_drop(s, j, DiceRoll { modifier_type: t, modifier: m as i32, ..r })
                }
            },
        }
    } else if c == '/' {
        let d = at(s, i + 1);
        let (t, i2) = if d == 'u' {
            (ModifierType::DivideCeil, i + 2)
        } else if d == 'd' {
            (ModifierType::DivideFloor, i + 2)
        } else {
            (ModifierType::DivideRound, i + 1)
        };
        let (n, j) = read_num(s, i2);
        match n {
            None => Parsed::Failed(NotationError::MissingValue('/')),
            Some(k) => parse_drop(s, j, DiceRoll { modifier_type: t, modifier: #[verifier::truncate] (k as i32), ..r }),
        }
    } else {
        parse_drop(s, i, r)
    }
}

pub open spec fn parse_drop(s: Seq<char>, i: int, r: DiceRoll) -> Parsed {
    if at(s, i) == '_' {
        let c = at(s, i + 1);
        if c == 'h' || c == 'H' || c == 'l' || c == 'L' {
            let high = c == 'h' || c == 'H';
            let (n, j) = read_num(s, i + 2);
            let count = match n { Some(k) => k, None => 1u32 };
            if n is Some && count > r.amount {
                Parsed::Failed(NotationError::DropTooMany(count, r.amount))
            } else {
                let drop = if high { Drop::DropHighest(count) } else { Drop::DropLowest(count) };
                parse_min(s, j, DiceRoll { drop, ..r })
            }
        } else {
            Parsed::Failed(NotationError::BadDrop)
        }
    } else {
        parse_min(s, i, r)
    }
}

pub open spec fn parse_min(s: Seq<char>, i: int, r: DiceRoll) -> Parsed {
    if at(s, i) == '>' {
        let inclusive = at(s, i + 1) == '=';
        let i1 = if inclusive { i + 2 } else { i + 1 };
        let negative = at(s, i1) == '-';
        let i2 = if negative { i1 + 1 } else { i1 };
        let (n, j) = read_num(s, i2);
        match n {
            None => Parsed::Failed(NotationError::MissingValue('>')),
            Some(k) => {
                let v = #[verifier::truncate] (k as i32);
                if negative && v == i32::MIN {
                    Parsed::Overflow
                } else {
                    let v = if negative { -v } else { v as int };
                    if !inclusive && v == i32::MAX {
                        Parsed::Overflow
                    } else {
                        let v = if inclusive { v } else { v + 1 };
                        parse_end(s, j, DiceRoll { min_value: v as i32, ..r })
                    }
                }
            },
        }
    } else {
        parse_end(s, i, r)
    }
}

pub open spec fn parse_end(s: Seq<char>, i: int, r: DiceRoll) -> Parsed {
    if i < s.len() {
        Parsed::Failed(NotationError::UnexpectedToken(s[i]))
    } else {
        Parsed::Done(r)
    }
}

/// The text of an error, as the notation reader reports it.
pub open spec fn error_text(e: NotationError) -> Seq<char> {
    match e {
        NotationError::ZeroDice => "Cannot roll zero dice."@,
        NotationError::MissingD => "Missing 'd' character."@,
        NotationError::ZeroSides => "Cannot roll a zero-sided dice."@,
        NotationError::MissingSides => "You must specifiy a number of sides."@,
        NotationError::MissingValue(c) => "Unexpected '"@ + seq![c] + "' without value."@,
        NotationError::DropTooMany(n, amount) => "Cannot drop "@ + nat_digits(n as nat)
            + " dice when only rolling "@ + nat_digits(amount as nat) + "!"@,
        NotationError::BadDrop => "Unexpected '_' without 'l' or 'h'."@,
        NotationError::UnexpectedToken(c) => "Unexpected token '"@ + seq![c] + "'."@,
    }
}

proof fn lemma_digits_end_bounds(s: Seq<char>, i: int)
    requires
        0 <= i <= s.len(),
    ensures
        i <= digits_end(s, i) <= s.len(),
        forall|k: int| i <= k < digits_end(s, i) ==> is_digit(#[trigger] s[k]),
        digits_end(s, i) < s.len() ==> !is_digit(s[digits_end(s, i)]),
    decreases s.len() - i,
{
    if i < s.len() && is_digit(s[i]) {
        lemma_digits_end_bounds(s, i + 1);
    }
}

/// Reads the number at `pos` as `read_num` describes it.
fn read_num_at(s: &str, len: usize, pos: usize) -> (res: (Option<u32>, usize))
    requires
        len == s@.len(),
        pos <= len,
    ensures
        (res.0, res.1 as int) == read_num(s@, pos as int),
        pos <= res.1 <= len,
{
    proof { lemma_digits_end_bounds(s@, pos as int); }
    let mut j = pos;
    let mut value: u64 = 0;
    let mut too_big = false;
    while j < len && is_digit_char(s.get_char(j))
        invariant
            pos <= j <= len,
            len == s@.len(),
            digits_end(s@, pos as int) == digits_end(s@, j as int),
            forall|k: int| pos <= k < j ==> is_digit(#[trigger] s@[k]),
            !too_big ==> value == digits_value(s@, pos as int, j as int),
            !too_big ==> value <= u32::MAX,
            too_big ==> digits_value(s@, pos as int, j as int) > u32::MAX,
        decreases len - j,
    {
        let c = s.get_char(j);
        let d = (c as u32 - '0' as u32) as u64;
        proof {
            assert(digits_value(s@, pos as int, j + 1) == digits_value(s@, pos as int, j as int) * 10 + d);
        }
        if !too_big {
            let next = value * 10 + d;
            if next > u32::MAX as u64 {
                too_big = true;
            } else {
                value = next;
            }
        }
        j = j + 1;
    }
    proof {
        if j < len {
            assert(!is_digit(s@[j as int]));
        }
        assert(digits_end(s@, j as int) == j);
    }
    if j == pos {
        (None, pos)
    } else if too_big {
        (Some(0), j)
    } else {
        (Some(value as u32), j)
    }
}

fn is_digit_char(c: char) -> (b: bool)
    ensures
        b == is_digit(c),
{
    '0' <= c && c <= '9'
}

/// The character at `pos`, or 'q' past the end.
fn char_at(s: &str, len: usize, pos: usize) -> (c: char)
    requires
        len == s@.len(),
    ensures
        c == at(s@, pos as int),
{
    if pos < len { s.get_char(pos) } else { 'q' }
}

impl NotationError {
    /// The text of the error, for a character-free error (every variant but those that carry one).
    fn message(&self, token: &str) -> (m: String)
        requires
            match *self {
                NotationError::MissingValue(c) => token@ == seq![c],
                NotationError::UnexpectedToken(c) => token@ == seq![c],
                _ => true,
            },
        ensures
            m@ == error_text(*self),
    {
        proof {
            reveal_strlit("Cannot roll zero dice.");
            reveal_strlit("Missing 'd' character.");
            reveal_strlit("Cannot roll a zero-sided dice.");
            reveal_strlit("You must specifiy a number of sides.");
            reveal_strlit("Unexpected '");
            reveal_strlit("' without value.");
            reveal_strlit("Cannot drop ");
            reveal_strlit(" dice when only rolling ");
            reveal_strlit("!");
            reveal_strlit("Unexpected '_' without 'l' or 'h'.");
            reveal_strlit("Unexpected token '");
            reveal_strlit("'.");
        }
        match *self {
            NotationError::ZeroDice => "Cannot roll zero dice.".to_owned(),
            NotationError::MissingD => "Missing 'd' character.".to_owned(),
            NotationError::ZeroSides => "Cannot roll a zero-sided dice.".to_owned(),
            NotationError::MissingSides => "You must specifiy a number of sides.".to_owned(),
            NotationError::MissingValue(_) => {
                let mut m = "Unexpected '".to_owned();
                m.append(token);
                m.append("' without value.");
                m
            },
            NotationError::DropTooMany(n, amount) => {
                let mut m = "Cannot drop ".to_owned();
                push_decimal(&mut m, n as u64);
                m.append(" dice when only rolling ");
                push_decimal(&mut m, amount as u64);
                m.append("!");
                m
            },
            NotationError::BadDrop => "Unexpected '_' without 'l' or 'h'.".to_owned(),
            NotationError::UnexpectedToken(_) => {
                let mut m = "Unexpected token '".to_owned();
                m.append(token);
                m.append("'.");
                m
            },
        }
    }
}

/// Whether an exec result agrees with what the notation reader describes.
/// A missing value is always reported for one of the operators that take one.
pub open spec fn operator_error(e: NotationError) -> bool {
    e matches NotationError::MissingValue(c) ==> (c == '+' || c == '-' || c == '*' || c == '/' || c == '>')
}

/// For a refusal, the position that comes with the error is that of the unexpected token.
pub open spec fn agrees(s: Seq<char>, res: Result<DiceRoll, (NotationError, usize)>, p: Parsed) -> bool {
    match p {
        Parsed::Done(d) => res matches Ok(r) && r == d,
        Parsed::Failed(e) => res matches Err(x) && x.0 == e && (e matches NotationError::UnexpectedToken(c)
            ==> x.1 < s.len() && s[x.1 as int] == c),
        Parsed::Overflow => false,
    }
}

/// As `agrees`, with an overflow reported as `None`.
pub open spec fn agrees_or_overflows(s: Seq<char>, res: Option<Result<DiceRoll, (NotationError, usize)>>, p: Parsed) -> bool {
    match res {
        None => p is Overflow,
        Some(r) => agrees(s, r, p),
    }
}

pub open spec fn read_outcome_ok(res: Option<Result<DiceRoll, (NotationError, usize)>>) -> bool {
    res matches Some(Err(x)) ==> operator_error(x.0)
}

fn read_end(s: &str, len: usize, i: usize, r: DiceRoll) -> (res: Result<DiceRoll, (NotationError, usize)>)
    requires
        len == s@.len(),
        i <= len,
    ensures
        res matches Err(x) ==> operator_error(x.0),
        agrees(s@, res, parse_end(s@, i as int, r)),
{
    if i < len {
        Err((NotationError::UnexpectedToken(s.get_char(i)), i))
    } else {
        Ok(r)
    }
}

fn read_min(s: &str, len: usize, i: usize, r: DiceRoll) -> (res: Option<Result<DiceRoll, (NotationError, usize)>>)
    requires
        len == s@.len(),
        i <= len,
    ensures
        read_outcome_ok(res),
        agrees_or_overflows(s@, res, parse_min(s@, i as int, r)),
{
    if char_at(s, len, i) == '>' {
        let mut j = i + 1;
        let inclusive = char_at(s, len, j) == '=';
        if inclusive {
            j = j + 1;
        }
        let negative = char_at(s, len, j) == '-';
        if negative {
            j = j + 1;
        }
        if j > len {
            return Some(Err((NotationError::MissingValue('>'), 0)));
        }
        let (n, k) = read_num_at(s, len, j);
        match n {
            None => Some(Err((NotationError::MissingValue('>'), 0))),
            Some(v) => {
                let mut v = #[verifier::truncate] (v as i32);
                if negative {
                    if v == i32::MIN {
                        return None;
                    }
                    v = -v;
                }
                if !inclusive {
                    if v == i32::MAX {
                        return None;
                    }
                    v = v + 1;
                }
                let r2 = DiceRoll { min_value: v, ..r };
                Some(read_end(s, len, k, r2))
            },
        }
    } else {
        Some(read_end(s, len, i, r))
    }
}

fn read_drop(s: &str, len: usize, i: usize, r: DiceRoll) -> (res: Option<Result<DiceRoll, (NotationError, usize)>>)
    requires
        len == s@.len(),
        i <= len,
    ensures
        read_outcome_ok(res),
        agrees_or_overflows(s@, res, parse_drop(s@, i as int, r)),
{
    if char_at(s, len, i) == '_' {
        let c = char_at(s, len, i + 1);
        if c == 'h' || c == 'H' || c == 'l' || c == 'L' {
            let high = c == 'h' || c == 'H';
            // Past the end, `c` is the stand-in 'q', so `i + 2 <= len` here.
            let (n, j) = read_num_at(s, len, i + 2);
            let count = match n { Some(k) => k, None => 1u32 };
            if n.is_some() && count > r.amount {
                Some(Err((NotationError::DropTooMany(count, r.amount), 0)))
            } else {
                let drop = if high { Drop::DropHighest(count) } else { Drop::DropLowest(count) };
                read_min(s, len, j, DiceRoll { drop, ..r })
            }
        } else {
            Some(Err((NotationError::BadDrop, 0)))
        }
    } else {
        read_min(s, len, i, r)
    }
}

fn read_modifier(s: &str, len: usize, i: usize, r: DiceRoll) -> (res: Option<Result<DiceRoll, (NotationError, usize)>>)
    requires
        len == s@.len(),
        i <= len,
    ensures
        read_outcome_ok(res),
        agrees_or_overflows(s@, res, parse_modifier(s@, i as int, r)),
{
    let c = char_at(s, len, i);
    if c == '+' || c == '-' || c == '*' || c == 'x' {
        let t = if c == '+' || c == '-' { ModifierType::Add } else { ModifierType::Multiply };
        let (n, j) = read_num_at(s, len, i + 1);
        match n {
            None => Some(Err((NotationError::MissingValue(if c == 'x' { '*' } else { c }), 0))),
            Some(k) => {
                let v = #[verifier::truncate] (k as i32);
                if c == '-' && v == i32::MIN {
                    return None;
                }
                let m = if c == '-' { -v } else { v };
                read_drop(s, len, j, DiceRoll { modifier_type: t, modifier: m, ..r })
            },
        }
    } else if c == '/' {
        let d = char_at(s, len, i + 1);
        let (t, i2) = if d == 'u' {
            (ModifierType::DivideCeil, i + 2)
        } else if d == 'd' {
            (ModifierType::DivideFloor, i + 2)
        } else {
            (ModifierType::DivideRound, i + 1)
        };
        let (n, j) = read_num_at(s, len, i2);
        match n {
            None => Some(Err((NotationError::MissingValue('/'), 0))),
            Some(k) => read_drop(s, len, j, DiceRoll { modifier_type: t, modifier: #[verifier::truncate] (k as i32), ..r }),
        }
    } else {
        read_drop(s, len, i, r)
    }
}

fn read_sides(s: &str, len: usize, i: usize, r: DiceRoll) -> (res: Option<Result<DiceRoll, (NotationError, usize)>>)
    requires
        len == s@.len(),
        i <= len,
    ensures
        read_outcome_ok(res),
        agrees_or_overflows(s@, res, parse_sides(s@, i as int, r)),
{
    let (sides, j) = read_num_at(s, len, i);
    match sides {
        None => Some(Err((NotationError::MissingSides, 0))),
        Some(n) => {
            if n == 0 {
                Some(Err((NotationError::ZeroSides, 0)))
            } else {
                let r = DiceRoll { sides: n, ..r };
                if char_at(s, len, j) == '&' {
                    read_modifier(s, len, j + 1, DiceRoll { apply_modifier_to_all: true, ..r })
                } else {
                    read_modifier(s, len, j, r)
                }
            }
        },
    }
}

/// Reads dice notation into a roll, as `parse_notation` describes.
fn read_notation(s: &str) -> (res: Option<Result<DiceRoll, (NotationError, usize)>>)
    ensures
        read_outcome_ok(res),
        agrees_or_overflows(s@, res, parse_notation(s@)),
{
    let len = s.unicode_len();
    let r = DiceRoll::simple(1, 0);
    let (amount, i) = read_num_at(s, len, 0);
    if amount == Some(0u32) {
        return Some(Err((NotationError::ZeroDice, 0)));
    }
    let r = match amount {
        Some(a) => DiceRoll { amount: a, ..r },
        None => r,
    };
    if char_at(s, len, i) != 'd' {
        return Some(Err((NotationError::MissingD, 0)));
    }
    read_sides(s, len, i + 1, r)
}

/// The one-character text of an operator that can lack its value.
fn operator_text(c: char) -> (t: &'static str)
    requires
        c == '+' || c == '-' || c == '*' || c == '/' || c == '>',
    ensures
        t@ == seq![c],
{
    proof {
        reveal_strlit("+");
        reveal_strlit("-");
        reveal_strlit("*");
        reveal_strlit("/");
        reveal_strlit(">");
    }
    if c == '+' { "+" } else if c == '-' { "-" } else if c == '*' { "*" } else if c == '/' { "/" } else { ">" }
}

impl DiceRoll {
    /// Reads dice notation, `(N)dM(&)(<op>A)(_<h|l>(X))(>(=)B)`; an error is reported as its text.
    pub fn from_notation(s: &str) -> (res: Result<DiceRoll, String>)
        requires
            !(parse_notation(s@) is Overflow),
        ensures
            match parse_notation(s@) {
                Parsed::Done(d) => res matches Ok(r) && r == d,
                Parsed::Failed(e) => res matches Err(m) && m@ == error_text(e),
                Parsed::Overflow => false,
            },
    {
        match read_notation(s) {
            None => Err(String::new()),
            Some(Ok(r)) => Ok(r),
            Some(Err((e, pos))) => {
                let msg = match e {
                    NotationError::MissingValue(c) => {
                        e.message(operator_text(c))
                    },
                    NotationError::UnexpectedToken(_) => {
                        let len = s.unicode_len();
                        let token = s.substring_char(pos, pos + 1);
                        assert(token@ == seq![s@[pos as int]]);
                        e.message(token)
                    },
                    _ => e.message(""),
                };
                Err(msg)
            },
        }
    }

    /// Whether reading this notation would overflow an `i32` (a negated or stepped bound),
    /// which `from_notation` does not accept.
    pub fn notation_overflows(s: &str) -> (b: bool)
        ensures
            b == (parse_notation(s@) is Overflow),
    {
        read_notation(s).is_none()
    }
}

// ---------------------------------------------------------------------------------------------
// Notation written by a roll reads back as the roll.
// ---------------------------------------------------------------------------------------------

proof fn lemma_digit_char(d: nat)
    requires
        d < 10,
    ensures
        is_digit(digit_char(d)),
        (digit_char(d) as nat) - ('0' as nat) == d,
{
}

proof fn lemma_nat_digits_are_digits(n: nat)
    ensures
        nat_digits(n).len() >= 1,
        forall|k: int| 0 <= k < nat_digits(n).len() ==> is_digit(#[trigger] nat_digits(n)[k]),
    decreases n,
{
    lemma_digit_char(n % 10);
    if n >= 10 {
        lemma_nat_digits_are_digits(n / 10);
    }
}

/// The digits from `i` to `j` depend on nothing else in `s`.
proof fn lemma_digits_value_local(s: Seq<char>, t: Seq<char>, i: int, j: int)
    requires
        0 <= i <= j <= s.len(),
        s.subrange(i, j) == t,
    ensures
        digits_value(s, i, j) == digits_value(t, 0, j - i),
    decreases j - i,
{
    if j > i {
        assert(s.subrange(i, j - 1) == t.subrange(0, j - 1 - i));
        lemma_digits_value_local(s, t.subrange(0, j - 1 - i), i, j - 1);
        lemma_digits_value_local(t, t.subrange(0, j - 1 - i), 0, j - 1 - i);
        assert(s[j - 1] == t[j - 1 - i]);
    }
}

proof fn lemma_nat_digits_value(n: nat)
    ensures
        digits_value(nat_digits(n), 0, nat_digits(n).len() as int) == n,
    decreases n,
{
    let d = nat_digits(n);
    lemma_digit_char(n % 10);
    if n >= 10 {
        let h = nat_digits(n / 10);
        lemma_nat_digits_value(n / 10);
        assert(d.subrange(0, h.len() as int) == h);
        lemma_digits_value_local(d, h, 0, h.len() as int);
        assert(d.len() == h.len() + 1);
        assert(d[h.len() as int] == digit_char(n % 10));
        assert(digits_value(d, 0, d.len() as int) == digits_value(d, 0, h.len() as int) * 10 + (n % 10));
        assert((n / 10) * 10 + n % 10 == n) by (nonlinear_arith);
    } else {
        assert(digits_value(d, 0, 0) == 0);
        assert(d[0] == digit_char(n));
    }
}

/// Where a run of digits ends: at the first position past `i` without one.
proof fn lemma_digits_end(s: Seq<char>, i: int, j: int)
    requires
        0 <= i <= j <= s.len(),
        forall|k: int| i <= k < j ==> is_digit(#[trigger] s[k]),
        j == s.len() || !is_digit(s[j]),
    ensures
        digits_end(s, i) == j,
    decreases j - i,
{
    if i < j {
        lemma_digits_end(s, i + 1, j);
    }
}

/// `n` written in decimal at `i`, followed by something other than a digit, reads back as `n`.
proof fn lemma_read_written(s: Seq<char>, i: int, n: nat)
    requires
        0 <= i,
        i + nat_digits(n).len() <= s.len(),
        s.subrange(i, i + nat_digits(n).len()) == nat_digits(n),
        i + nat_digits(n).len() == s.len() || !is_digit(s[i + nat_digits(n).len()]),
        n <= u32::MAX,
    ensures
        read_num(s, i) == (Some(n as u32), i + nat_digits(n).len()),
{
    let d = nat_digits(n);
    let j = i + d.len();
    lemma_nat_digits_are_digits(n);
    assert forall|k: int| i <= k < j implies is_digit(#[trigger] s[k]) by {
        assert(s[k] == s.subrange(i, j)[k - i]);
    }
    lemma_digits_end(s, i, j);
    lemma_digits_value_local(s, d, i, j);
    lemma_nat_digits_value(n);
}

/// What `to_notation` writes for a roll reads back as that roll, for the rolls it can describe:
/// at least one die of at least one side, no modifier on each die, no drop, the usual minimum,
/// and a modifier that is added (all but the least `i32`, which cannot be negated) or a
/// multiplier that is not negative.
pub proof fn notation_reads_back(r: DiceRoll)
    requires
        r.amount >= 1,
        r.sides >= 1,
        !r.apply_modifier_to_all,
        r.drop == Drop::Nothing,
        r.min_value == 1,
        (r.modifier_type == ModifierType::Add && r.modifier != i32::MIN)
            || (r.modifier_type == ModifierType::Multiply && r.modifier >= 0),
    ensures
        parse_notation(r.notation()) == Parsed::Done(r),
{
    let s = r.notation();
    let a = nat_digits(r.amount as nat);
    let b = nat_digits(r.sides as nat);
    let m: int = r.modifier as int;
    let k: nat = if m < 0 { (-m) as nat } else { m as nat };
    let tail = if r.modifier_type == ModifierType::Add { signed_text(m) } else { seq!['x'] + int_text(m) };
    let c = nat_digits(k);
    assert(tail == seq![tail[0]] + c);
    let j1 = a.len() as int;
    let j2 = j1 + 1 + b.len();
    assert(s == a + seq!['d'] + b + tail);
    assert(s.len() == j2 + 1 + c.len());
    assert(s.subrange(0, j1) == a);
    assert(s[j1] == 'd');
    lemma_read_written(s, 0, r.amount as nat);
    assert(s.subrange(j1 + 1, j2) == b);
    assert(s[j2] == tail[0]);
    lemma_read_written(s, j1 + 1, r.sides as nat);
    assert(s.subrange(j2 + 1, s.len() as int) == c);
    lemma_read_written(s, j2 + 1, k);
    let start = DiceRoll::spec_simple(1, 0, 0, Drop::Nothing);
    let with_amount = DiceRoll { amount: r.amount, ..start };
    let with_sides = DiceRoll { sides: r.sides, ..with_amount };
    assert(parse_notation(s) == parse_sides(s, j1 + 1, with_amount));
    assert(parse_sides(s, j1 + 1, with_amount) == parse_modifier(s, j2, with_sides));
    let v = #[verifier::truncate] (k as u32 as i32);
    assert(v == k);
    let done = DiceRoll { modifier_type: r.modifier_type, modifier: m as i32, ..with_sides };
    assert(done == r);
    assert(parse_modifier(s, j2, with_sides) == parse_drop(s, s.len() as int, done));
}

} // verus!
