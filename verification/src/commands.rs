use vstd::prelude::*;
use vstd::string::*;

use crate::notation::{is_digit, digits_value, parse_notation, Parsed, error_text};
use crate::dice::DiceRoll;
use crate::chat::{ChatFlags, MessageSender, SenderView, VAlign};

verus! {

/// Whether `c` is white space (the Unicode White_Space characters, as `char::is_whitespace`
/// counts them).
pub open spec fn is_space(c: char) -> bool {
    ||| '\u{9}' <= c <= '\u{d}'
    ||| c == ' '
    ||| c == '\u{85}'
    ||| c == '\u{a0}'
    ||| c == '\u{1680}'
    ||| '\u{2000}' <= c <= '\u{200a}'
    ||| c == '\u{2028}'
    ||| c == '\u{2029}'
    ||| c == '\u{202f}'
    ||| c == '\u{205f}'
    ||| c == '\u{3000}'
}

fn space_char(c: char) -> (b: bool)
    ensures
        b == is_space(c),
{
    ('\u{9}' <= c && c <= '\u{d}') || c == ' ' || c == '\u{85}' || c == '\u{a0}' || c == '\u{1680}'
        || ('\u{2000}' <= c && c <= '\u{200a}') || c == '\u{2028}' || c == '\u{2029}' || c == '\u{202f}'
        || c == '\u{205f}' || c == '\u{3000}'
}

pub open spec fn is_quote(c: char) -> bool {
    c == '\'' || c == '"'
}

/// How many quote characters `s` holds.
pub open spec fn quote_count(s: Seq<char>) -> nat
    decreases s.len(),
{
    if s.len() == 0 { 0 } else { quote_count(s.drop_last()) + if is_quote(s.last()) { 1nat } else { 0nat } }
}

/// The pieces of `s` between the spaces that stand outside quotes (each quote character opens or
/// closes a quoted stretch); `k` such spaces give `k + 1` pieces, empty ones included.
pub open spec fn command_pieces(s: Seq<char>) -> Seq<Seq<char>>
    decreases s.len(),
{
    if s.len() == 0 {
        seq![Seq::empty()]
    } else {
        let rest = command_pieces(s.drop_last());
        if is_space(s.last()) && quote_count(s.drop_last()) % 2 == 0 {
            rest.push(Seq::empty())
        } else {
            rest.update(rest.len() - 1, rest.last().push(s.last()))
        }
    }
}

/// `p` without its leading quote characters.
pub open spec fn trim_front(p: Seq<char>) -> Seq<char>
    decreases p.len(),
{
    if p.len() > 0 && is_quote(p[0]) { trim_front(p.drop_first()) } else { p }
}

/// `p` without its trailing quote characters.
pub open spec fn trim_back(p: Seq<char>) -> Seq<char>
    decreases p.len(),
{
    if p.len() > 0 && is_quote(p.last()) { trim_back(p.drop_last()) } else { p }
}

pub open spec fn trim_quotes(p: Seq<char>) -> Seq<char> {
    trim_back(trim_front(p))
}

/// The tokens of a command: what follows its first character, cut at the spaces outside
/// quotes, each piece without the quotes at its ends.
pub open spec fn command_tokens(command: Seq<char>) -> Seq<Seq<char>> {
    command_pieces(command.drop_first()).map_values(|p: Seq<char>| trim_quotes(p))
}

proof fn lemma_pieces_not_empty(s: Seq<char>)
    ensures
        command_pieces(s).len() >= 1,
    decreases s.len(),
{
    if s.len() > 0 {
        lemma_pieces_not_empty(s.drop_last());
    }
}

/// The position of the first character at or after `a`, before `b`, that is not a quote.
fn skip_quotes(s: &str, a: usize, b: usize) -> (k: usize)
    requires
        a <= b <= s@.len(),
    ensures
        a <= k <= b,
        trim_front(s@.subrange(a as int, b as int)) == s@.subrange(k as int, b as int),
{
    let mut k = a;
    while k < b && is_quote_char(s.get_char(k))
        invariant
            a <= k <= b,
            b <= s@.len(),
            trim_front(s@.subrange(a as int, b as int)) == trim_front(s@.subrange(k as int, b as int)),
        decreases b - k,
    {
        proof {
            assert(s@.subrange(k as int, b as int).drop_first() == s@.subrange(k + 1, b as int));
        }
        k = k + 1;
    }
    proof {
        let p = s@.subrange(k as int, b as int);
        if k < b {
            assert(p[0] == s@[k as int]);
        }
    }
    k
}

/// The position after the last character before `b`, at or after `a`, that is not a quote.
fn drop_quotes(s: &str, a: usize, b: usize) -> (k: usize)
    requires
        a <= b <= s@.len(),
    ensures
        a <= k <= b,
        trim_back(s@.subrange(a as int, b as int)) == s@.subrange(a as int, k as int),
{
    let mut k = b;
    while k > a && is_quote_char(s.get_char(k - 1))
        invariant
            a <= k <= b,
            b <= s@.len(),
            trim_back(s@.subrange(a as int, b as int)) == trim_back(s@.subrange(a as int, k as int)),
        decreases k - a,
    {
        proof {
            assert(s@.subrange(a as int, k as int).drop_last() == s@.subrange(a as int, k - 1));
        }
        k = k - 1;
    }
    proof {
        let p = s@.subrange(a as int, k as int);
        if k > a {
            assert(p.last() == s@[k - 1]);
        }
    }
    k
}

fn is_quote_char(c: char) -> (b: bool)
    ensures
        b == is_quote(c),
{
    c == '\'' || c == '"'
}

/// The piece of `s` from `a` to `b` without the quotes at its ends.
fn trimmed_piece(s: &str, a: usize, b: usize) -> (t: String)
    requires
        a <= b <= s@.len(),
    ensures
        t@ == trim_quotes(s@.subrange(a as int, b as int)),
{
    let k = skip_quotes(s, a, b);
    let m = drop_quotes(s, k, b);
    proof {
        assert(trim_front(s@.subrange(a as int, b as int)) == s@.subrange(k as int, b as int));
    }
    s.substring_char(k, m).to_owned()
}

/// Cuts a command into its tokens.
pub fn tokenize(command: &str) -> (tokens: Vec<String>)
    requires
        command@.len() > 0,
    ensures
        tokens@.map_values(|t: String| t@) == command_tokens(command@),
{
    let len = command.unicode_len();
    let ghost body = command@.drop_first();
    let mut tokens: Vec<String> = Vec::new();
    let mut start: usize = 1;
    let mut in_quotes = false;
    proof {
        assert(body.take(0) =~= Seq::<char>::empty());
    }
    let mut i: usize = 1;
    while i < len
        invariant
            len == command@.len(),
            body == command@.drop_first(),
            1 <= start <= i <= len,
            in_quotes == (quote_count(body.take(i - 1)) % 2 == 1),
            command_pieces(body.take(i - 1)).len() == tokens@.len() + 1,
            forall|j: int| 0 <= j < tokens@.len() ==>
                (#[trigger] tokens@[j])@ == trim_quotes(command_pieces(body.take(i - 1))[j]),
            command_pieces(body.take(i - 1)).last() == command@.subrange(start as int, i as int),
        decreases len - i,
    {
        let c = command.get_char(i);
        let ghost before = body.take(i - 1);
        proof {
            assert(body.take(i as int).drop_last() == before);
            assert(body.take(i as int).last() == c);
            lemma_pieces_not_empty(before);
        }
        if c == '\'' || c == '"' {
            in_quotes = !in_quotes;
        }
        if !in_quotes && space_char(c) {
            let piece = trimmed_piece(command, start, i);
            tokens.push(piece);
            start = i + 1;
            proof {
                assert(command@.subrange(start as int, i + 1) =~= Seq::<char>::empty());
            }
        } else {
            proof {
                assert(command@.subrange(start as int, i + 1) =~= command@.subrange(start as int, i as int).push(c));
            }
        }
        i = i + 1;
    }
    let piece = trimmed_piece(command, start, len);
    tokens.push(piece);
    proof {
        assert(body.take(len - 1) =~= body);
        assert(tokens@.map_values(|t: String| t@) =~= command_tokens(command@));
    }
    tokens
}

// ---------------------------------------------------------------------------------------------
// Numbers in tokens.
// ---------------------------------------------------------------------------------------------

pub open spec fn all_digits(s: Seq<char>) -> bool {
    forall|i: int| 0 <= i < s.len() ==> is_digit(#[trigger] s[i])
}

/// The `u32` a token writes: an optional '+', then decimal digits, the value fitting a `u32`.
pub open spec fn u32_text(s: Seq<char>) -> Option<u32> {
    let d = if s.len() > 0 && s[0] == '+' { s.drop_first() } else { s };
    if d.len() > 0 && all_digits(d) && digits_value(d, 0, d.len() as int) <= u32::MAX {
        Some(digits_value(d, 0, d.len() as int) as u32)
    } else {
        None
    }
}

proof fn lemma_digits_value_step(s: Seq<char>, j: int)
    requires
        0 < j <= s.len(),
    ensures
        digits_value(s, 0, j) == digits_value(s, 0, j - 1) * 10 + (((s[j - 1] as nat) - ('0' as nat)) as nat),
{
}

proof fn lemma_digits_value_grows(s: Seq<char>, j: int, k: int)
    requires
        0 <= j <= k <= s.len(),
        all_digits(s),
    ensures
        digits_value(s, 0, j) <= digits_value(s, 0, k),
    decreases k - j,
{
    if j < k {
        lemma_digits_value_grows(s, j, k - 1);
        assert(is_digit(s[k - 1]));
    }
}

/// Reads a token as a `u32`.
pub fn parse_u32(t: &str) -> (r: Option<u32>)
    ensures
        r == u32_text(t@),
{
    let len = t.unicode_len();
    let start: usize = if len > 0 && t.get_char(0) == '+' { 1 } else { 0 };
    let ghost d = if t@.len() > 0 && t@[0] == '+' { t@.drop_first() } else { t@ };
    proof {
        if start == 1 { assert(d =~= t@.subrange(1, len as int)); } else { assert(d =~= t@.subrange(0, len as int)); }
    }
    if start == len {
        return None;
    }
    let mut value: u64 = 0;
    let mut i = start;
    while i < len
        invariant
            start <= i <= len,
            len == t@.len(),
            start < len,
            d == t@.subrange(start as int, len as int),
            d == (if t@.len() > 0 && t@[0] == '+' { t@.drop_first() } else { t@ }),
            all_digits(d.take(i - start)),
            value == digits_value(d, 0, i - start),
            value <= u32::MAX,
        decreases len - i,
    {
        let c = t.get_char(i);
        assert(d[i - start] == c);
        if !('0' <= c && c <= '9') {
            proof {
                assert(!all_digits(d)) by { assert(!is_digit(d[i - start])); }
            }
            return None;
        }
        proof {
            lemma_digits_value_step(d, i - start + 1);
            assert(digits_value(d, 0, i - start + 1) == digits_value(d, 0, i - start) * 10 + ((c as nat) - ('0' as nat)));
            assert(d.take(i - start + 1) =~= d.take(i - start).push(c));
        }
        let digit = (c as u32 - '0' as u32) as u64;
        value = value * 10 + digit;
        if value > 0xffff_ffff {
            proof {
                if all_digits(d) {
                    lemma_digits_value_grows(d, i - start + 1, d.len() as int);
                }
            }
            return None;
        }
        i = i + 1;
    }
    proof {
        assert(d.take(d.len() as int) == d);
    }
    Some(value as u32)
}

/// The letter `c` in lower case (for the ASCII letters).
pub open spec fn lower(c: char) -> char {
    if 'A' <= c <= 'Z' { ((c as int) + 32) as char } else { c }
}

/// Whether `s` spells `word` (given in lower case), ignoring the case of its letters.
pub open spec fn spells(s: Seq<char>, word: Seq<char>) -> bool {
    s.len() == word.len() && forall|i: int| 0 <= i < s.len() ==> lower(#[trigger] s[i]) == word[i]
}

/// Digits, with at most one '.' among them, and at least one digit.
pub open spec fn is_mantissa(m: Seq<char>) -> bool {
    ||| m.len() > 0 && all_digits(m)
    ||| m.len() > 1 && exists|d: int| 0 <= d < m.len() && m[d] == '.' && all_digits(m.take(d)) && all_digits(#[trigger] m.skip(d + 1))
}

/// An 'e' (either case), an optional sign, and at least one digit.
pub open spec fn is_exponent(x: Seq<char>) -> bool {
    &&& x.len() > 1
    &&& (x[0] == 'e' || x[0] == 'E')
    &&& {
        let r = x.drop_first();
        let r2 = if r[0] == '+' || r[0] == '-' { r.drop_first() } else { r };
        r2.len() > 0 && all_digits(r2)
    }
}

/// A decimal number: a mantissa, then an optional exponent.
pub open spec fn is_decimal(b: Seq<char>) -> bool {
    ||| is_mantissa(b)
    ||| exists|e: int| 0 <= e < b.len() && is_mantissa(#[trigger] b.take(e)) && is_exponent(b.skip(e))
}

/// Whether a token writes a floating-point number: an optional sign, then "inf", "infinity" or
/// "nan" in any case, or a decimal number.
pub open spec fn float_text(s: Seq<char>) -> bool {
    let b = if s.len() > 0 && (s[0] == '+' || s[0] == '-') { s.drop_first() } else { s };
    spells(b, "inf"@) || spells(b, "infinity"@) || spells(b, "nan"@) || is_decimal(b)
}

/// The characters of `s`, one by one.
pub fn chars_of(s: &str) -> (v: Vec<char>)
    ensures
        v@ == s@,
{
    let len = s.unicode_len();
    let mut v: Vec<char> = Vec::new();
    for i in 0..len
        invariant
            len == s@.len(),
            v@ == s@.take(i as int),
    {
        v.push(s.get_char(i));
        assert(v@ =~= s@.take(i + 1));
    }
    assert(s@.take(len as int) =~= s@);
    v
}

fn digits_between(cs: &Vec<char>, a: usize, b: usize) -> (r: bool)
    requires
        a <= b <= cs@.len(),
    ensures
        r == all_digits(cs@.subrange(a as int, b as int)),
{
    for i in a..b
        invariant
            b <= cs@.len(),
            forall|j: int| a <= j < i ==> is_digit(#[trigger] cs@[j]),
    {
        if !('0' <= cs[i] && cs[i] <= '9') {
            assert(!is_digit(cs@.subrange(a as int, b as int)[i - a]));
            return false;
        }
    }
    assert forall|j: int| 0 <= j < b - a implies is_digit(#[trigger] cs@.subrange(a as int, b as int)[j]) by {
        assert(cs@.subrange(a as int, b as int)[j] == cs@[a + j]);
    }
    true
}

/// The first place in `a..b` holding `x` or `y`.
fn first_of(cs: &Vec<char>, a: usize, b: usize, x: char, y: char) -> (r: Option<usize>)
    requires
        a <= b <= cs@.len(),
    ensures
        match r {
            Some(d) => a <= d < b && (cs@[d as int] == x || cs@[d as int] == y)
                && forall|j: int| a <= j < d ==> #[trigger] cs@[j] != x && cs@[j] != y,
            None => forall|j: int| a <= j < b ==> #[trigger] cs@[j] != x && cs@[j] != y,
        },
{
    for i in a..b
        invariant
            b <= cs@.len(),
            forall|j: int| a <= j < i ==> #[trigger] cs@[j] != x && cs@[j] != y,
    {
        if cs[i] == x || cs[i] == y {
            return Some(i);
        }
    }
    None
}

fn mantissa_between(cs: &Vec<char>, a: usize, b: usize) -> (r: bool)
    requires
        a <= b <= cs@.len(),
    ensures
        r == is_mantissa(cs@.subrange(a as int, b as int)),
{
    let ghost m = cs@.subrange(a as int, b as int);
    if a == b {
        return false;
    }
    match first_of(cs, a, b, '.', '.') {
        None => {
            let r = digits_between(cs, a, b);
            proof {
                if exists|d: int| 0 <= d < m.len() && m[d] == '.' && all_digits(m.take(d)) && all_digits(#[trigger] m.skip(d + 1)) {
                    let d = choose|d: int| 0 <= d < m.len() && m[d] == '.' && all_digits(m.take(d)) && all_digits(#[trigger] m.skip(d + 1));
                    assert(cs@[a + d] == '.');
                }
            }
            r
        },
        Some(d) => {
            let r = b - a > 1 && digits_between(cs, a, d) && digits_between(cs, d + 1, b);
            proof {
                let k = d - a;
                assert(m[k] == '.');
                assert(!all_digits(m)) by { assert(!is_digit(m[k])); }
                assert(m.take(k) =~= cs@.subrange(a as int, d as int));
                assert(m.skip(k + 1) =~= cs@.subrange(d + 1, b as int));
                if exists|e: int| 0 <= e < m.len() && m[e] == '.' && all_digits(m.take(e)) && all_digits(#[trigger] m.skip(e + 1)) {
                    let e = choose|e: int| 0 <= e < m.len() && m[e] == '.' && all_digits(m.take(e)) && all_digits(#[trigger] m.skip(e + 1));
                    if e < k {
                        assert(cs@[a + e] == '.');
                    }
                    if k < e {
                        assert(!is_digit(m.take(e)[k]));
                    }
                    assert(e == k);
                }
            }
            r
        },
    }
}

fn exponent_between(cs: &Vec<char>, a: usize, b: usize) -> (r: bool)
    requires
        a <= b <= cs@.len(),
    ensures
        r == is_exponent(cs@.subrange(a as int, b as int)),
{
    let ghost x = cs@.subrange(a as int, b as int);
    if b - a < 2 || !(cs[a] == 'e' || cs[a] == 'E') {
        return false;
    }
    let signed = cs[a + 1] == '+' || cs[a + 1] == '-';
    let start = if signed { a + 2 } else { a + 1 };
    proof {
        let r = x.drop_first();
        assert(r =~= cs@.subrange(a + 1, b as int));
        assert(r[0] == cs@[a + 1]);
        if signed {
            assert(r.drop_first() =~= cs@.subrange(a + 2, b as int));
        }
    }
    start < b && digits_between(cs, start, b)
}

/// Whether `cs` from `a` on spells `word` whose letters are `lower_word` in lower case and
/// `upper_word` in upper case.
fn spells_from(cs: &Vec<char>, a: usize, lower_word: &Vec<char>, upper_word: &Vec<char>) -> (r: bool)
    requires
        a <= cs@.len(),
        lower_word@.len() == upper_word@.len(),
        forall|i: int| 0 <= i < lower_word@.len() ==> 'a' <= #[trigger] lower_word@[i] <= 'z'
            && upper_word@[i] == ((lower_word@[i] as int) - 32) as char,
    ensures
        r == spells(cs@.subrange(a as int, cs@.len() as int), lower_word@),
{
    let ghost s = cs@.subrange(a as int, cs@.len() as int);
    let n = lower_word.len();
    let total = cs.len();
    if total - a != n {
        return false;
    }
    for i in 0..n
        invariant
            total == cs@.len(),
            n == lower_word@.len(),
            n == upper_word@.len(),
            cs@.len() - a == n,
            s == cs@.subrange(a as int, cs@.len() as int),
            forall|j: int| 0 <= j < lower_word@.len() ==> 'a' <= #[trigger] lower_word@[j] <= 'z'
                && upper_word@[j] == ((lower_word@[j] as int) - 32) as char,
            forall|j: int| 0 <= j < i ==> lower(#[trigger] s[j]) == lower_word@[j],
    {
        let c = cs[a + i];
        assert(s[i as int] == c);
        if !(c == lower_word[i] || c == upper_word[i]) {
            proof {
                let w = lower_word@[i as int];
                if 'A' <= c <= 'Z' {
                    assert(((c as int) + 32) as char != w);
                }
            }
            return false;
        }
    }
    true
}

/// Whether a token writes a floating-point number.
pub fn is_float_token(t: &str) -> (r: bool)
    ensures
        r == float_text(t@),
{
    proof {
        reveal_strlit("inf"); reveal_strlit("INF"); reveal_strlit("infinity"); reveal_strlit("INFINITY");
        reveal_strlit("nan"); reveal_strlit("NAN");
    }
    let cs = chars_of(t);
    let len = cs.len();
    let st: usize = if len > 0 && (cs[0] == '+' || cs[0] == '-') { 1 } else { 0 };
    let ghost b = cs@.subrange(st as int, len as int);
    proof {
        if st == 1 { assert(t@.drop_first() =~= b); } else { assert(t@ =~= b); }
    }
    if spells_from(&cs, st, &chars_of("inf"), &chars_of("INF"))
        || spells_from(&cs, st, &chars_of("infinity"), &chars_of("INFINITY"))
        || spells_from(&cs, st, &chars_of("nan"), &chars_of("NAN")) {
        return true;
    }
    match first_of(&cs, st, len, 'e', 'E') {
        None => {
            let r = mantissa_between(&cs, st, len);
            proof {
                if exists|e: int| 0 <= e < b.len() && is_mantissa(#[trigger] b.take(e)) && is_exponent(b.skip(e)) {
                    let e = choose|e: int| 0 <= e < b.len() && is_mantissa(#[trigger] b.take(e)) && is_exponent(b.skip(e));
                    assert(b.skip(e)[0] == cs@[st + e]);
                }
            }
            r
        },
        Some(e) => {
            let r = mantissa_between(&cs, st, e) && exponent_between(&cs, e, len);
            proof {
                let k = e - st;
                assert(b.take(k) =~= cs@.subrange(st as int, e as int));
                assert(b.skip(k) =~= cs@.subrange(e as int, len as int));
                assert(!is_mantissa(b)) by {
                    assert(b[k] == cs@[e as int]);
                    assert(!is_digit(b[k]));
                    if b.len() > 1 && exists|d: int| 0 <= d < b.len() && b[d] == '.' && all_digits(b.take(d)) && all_digits(#[trigger] b.skip(d + 1)) {
                        let d = choose|d: int| 0 <= d < b.len() && b[d] == '.' && all_digits(b.take(d)) && all_digits(#[trigger] b.skip(d + 1));
                        if k < d { assert(!is_digit(b.take(d)[k])); }
                        if k > d { assert(!is_digit(b.skip(d + 1)[k - d - 1])); }
                    }
                }
                if exists|f: int| 0 <= f < b.len() && is_mantissa(#[trigger] b.take(f)) && is_exponent(b.skip(f)) {
                    let f = choose|f: int| 0 <= f < b.len() && is_mantissa(#[trigger] b.take(f)) && is_exponent(b.skip(f));
                    assert(b.skip(f)[0] == b[f]);
                    assert(b[f] == cs@[st + f]);
                    if f > k {
                        let m = b.take(f);
                        assert(m[k] == b[k]);
                        assert(!is_digit(m[k]));
                        assert(!all_digits(m));
                        if exists|d: int| 0 <= d < m.len() && m[d] == '.' && all_digits(m.take(d)) && all_digits(#[trigger] m.skip(d + 1)) {
                            let d = choose|d: int| 0 <= d < m.len() && m[d] == '.' && all_digits(m.take(d)) && all_digits(#[trigger] m.skip(d + 1));
                            if k < d { assert(!is_digit(m.take(d)[k])); }
                            if k > d { assert(!is_digit(m.skip(d + 1)[k - d - 1])); }
                        }
                    }
                    assert(f == k);
                }
            }
            r
        },
    }
}

// ---------------------------------------------------------------------------------------------
// What a command does.
// ---------------------------------------------------------------------------------------------

/// The color a notice is shown in.
#[derive(Debug, Clone, Copy, PartialEq, Eq, Structural)]
pub enum Tone {
    /// The chat's usual color.
    Plain,
    White,
    Red,
    LightRed,
    Green,
}

/// A line for the chat log, without a sender.
pub struct Notice {
    pub text: String,
    /// Shown to the DM only.
    pub private: bool,
    pub tone: Tone,
}

/// A message the DM has the server say, with how it looks.
pub struct SayMessage {
    pub text: String,
    pub sender: MessageSender,
    /// Red, green and blue, when a color was given.
    pub color: Option<(u8, u8, u8)>,
    /// The size as it was written, when one was given (a number; at most 100 counts).
    pub size: Option<String>,
    pub italics: bool,
    pub strikethrough: bool,
    pub underline: bool,
    pub valign: Option<VAlign>,
    pub flags: ChatFlags,
}

/// What the DM's chat window does for a command.
pub enum CommandAction {
    /// Adds a line to the chat log.
    Log(Notice),
    /// Disconnects the named user, who is connected.
    Kick(String),
    Save,
    Load,
    /// Awards experience to a character: the user, the character, the amount.
    AddXp(String, String, u32),
    /// Rolls dice and shows the result, publicly or not.
    Roll(bool, DiceRoll),
    Say(SayMessage),
}

pub struct SayView {
    pub text: Seq<char>,
    pub sender: SenderView,
    pub color: Option<(u8, u8, u8)>,
    pub size: Option<Seq<char>>,
    pub italics: bool,
    pub strikethrough: bool,
    pub underline: bool,
    pub valign: Option<VAlign>,
    pub flags: ChatFlags,
}

pub enum ActionView {
    Log(Seq<char>, bool, Tone),
    Kick(Seq<char>),
    Save,
    Load,
    AddXp(Seq<char>, Seq<char>, u32),
    Roll(bool, DiceRoll),
    Say(SayView),
}

impl View for SayMessage {
    type V = SayView;

    open spec fn view(&self) -> SayView {
        SayView {
            text: self.text@,
            sender: self.sender@,
            color: self.color,
            size: match self.size { Some(t) => Some(t@), None => None },
            italics: self.italics,
            strikethrough: self.strikethrough,
            underline: self.underline,
            valign: self.valign,
            flags: self.flags,
        }
    }
}

impl View for CommandAction {
    type V = ActionView;

    open spec fn view(&self) -> ActionView {
        match *self {
            CommandAction::Log(n) => ActionView::Log(n.text@, n.private, n.tone),
            CommandAction::Kick(u) => ActionView::Kick(u@),
            CommandAction::Save => ActionView::Save,
            CommandAction::Load => ActionView::Load,
            CommandAction::AddXp(u, c, a) => ActionView::AddXp(u@, c@, a),
            CommandAction::Roll(p, d) => ActionView::Roll(p, d),
            CommandAction::Say(m) => ActionView::Say(m@),
        }
    }
}

/// What the server knows that commands ask about.
pub struct CommandContext {
    /// The usernames of the known accounts.
    pub known_users: Vec<String>,
    /// The users connected now.
    pub connected_users: Vec<String>,
    /// Each user with saved data (no user twice), with the names of their characters.
    pub characters: Vec<(String, Vec<String>)>,
}

pub open spec fn texts(v: Seq<String>) -> Seq<Seq<char>> {
    v.map_values(|s: String| s@)
}

impl CommandContext {
    pub open spec fn wf(&self) -> bool {
        forall|i: int, j: int| 0 <= i < j < self.characters@.len() ==> (#[trigger] self.characters@[i]).0@ != (#[trigger] self.characters@[j]).0@
    }

    pub open spec fn is_known(&self, u: Seq<char>) -> bool {
        texts(self.known_users@).contains(u)
    }

    pub open spec fn is_connected(&self, u: Seq<char>) -> bool {
        texts(self.connected_users@).contains(u)
    }

    pub open spec fn has_data(&self, u: Seq<char>) -> bool {
        exists|i: int| 0 <= i < self.characters@.len() && (#[trigger] self.characters@[i]).0@ == u
    }

    pub open spec fn has_character(&self, u: Seq<char>, name: Seq<char>) -> bool {
        exists|i: int| 0 <= i < self.characters@.len() && (#[trigger] self.characters@[i]).0@ == u
            && texts(self.characters@[i].1@).contains(name)
    }
}

pub open spec fn note(t: Seq<char>, tone: Tone) -> ActionView {
    ActionView::Log(t, true, tone)
}

pub open spec fn unknown_command(t: Seq<char>) -> Seq<ActionView> {
    seq![note("Unknown command \""@ + t + "\"."@, Tone::LightRed)]
}

pub open spec fn no_such_user(u: Seq<char>) -> Seq<char> {
    "The user \""@ + u + "\" doesn't appear to exist. If their name contains a space, remember to wrap it in \"quotes\"."@
}

pub open spec fn token(t: Seq<Seq<char>>, i: int) -> Option<Seq<char>> {
    if 0 <= i < t.len() { Some(t[i]) } else { None }
}

pub open spec fn user_actions(t: Seq<Seq<char>>, ctx: CommandContext) -> Seq<ActionView> {
    match token(t, 1) {
        None => seq![note("You must specify a user."@, Tone::LightRed)],
        Some(u) => if !ctx.is_known(u) {
            seq![note(no_such_user(u), Tone::LightRed)]
        } else {
            match token(t, 2) {
                None => seq![note("You must specify a command. What are you trying to do with \""@ + u + "\"?"@, Tone::LightRed)],
                Some(c) => if c == "kick"@ {
                    if ctx.is_connected(u) {
                        seq![ActionView::Kick(u)]
                    } else {
                        seq![note("The user \""@ + u + "\" is not connected."@, Tone::LightRed)]
                    }
                } else {
                    unknown_command(c)
                },
            }
        },
    }
}

pub open spec fn xp_actions(t: Seq<Seq<char>>, ctx: CommandContext) -> Seq<ActionView> {
    match token(t, 1) {
        None => seq![note("You must specify a user."@, Tone::LightRed)],
        Some(u) => if !ctx.has_data(u) {
            seq![note(no_such_user(u), Tone::LightRed)]
        } else {
            match token(t, 2) {
                None => seq![note("You must specify a character."@, Tone::Plain)],
                Some(n) => if !ctx.has_character(u, n) {
                    seq![note("The character \""@ + n + "\" doesn't appear to exist. If their name contains a space, remember to wrap it in \"quotes\"."@, Tone::LightRed)]
                } else {
                    match token(t, 3) {
                        None => seq![note("You must specify an amount of XP to add."@, Tone::LightRed)],
                        Some(a) => match u32_text(a) {
                            Some(amount) => seq![ActionView::AddXp(u, n, amount), note("Added XP"@, Tone::Green)],
                            None => seq![note("The token \""@ + a + "\" could not be interpreted as a number."@, Tone::LightRed)],
                        },
                    }
                },
            }
        },
    }
}

/// The visibility and the notation of a roll command.
pub open spec fn roll_parts(t: Seq<Seq<char>>) -> (bool, Option<Seq<char>>) {
    match token(t, 1) {
        None => (false, None),
        Some(k) => if k == "pub"@ || k == "public"@ {
            (true, token(t, 2))
        } else if k == "priv"@ || k == "private"@ {
            (false, token(t, 2))
        } else {
            (false, Some(k))
        },
    }
}

pub open spec fn roll_actions(t: Seq<Seq<char>>) -> Seq<ActionView> {
    let (public, s) = roll_parts(t);
    match s {
        None => seq![note("You must enter dice notation. Run /help roll for more info."@, Tone::LightRed)],
        Some(s) => match parse_notation(s) {
            Parsed::Done(d) => seq![ActionView::Roll(public, d)],
            Parsed::Failed(e) => seq![note("Error: "@ + error_text(e), Tone::LightRed)],
            Parsed::Overflow => Seq::empty(),
        },
    }
}

pub open spec fn help_list() -> Seq<char> {
    "List of all known commands (run /help <command> for more info):\n- help\n- kick\n- known_users\n- players\n- save\n- load\n- xp\n- roll"@
}

pub open spec fn roll_help() -> Seq<ActionView> {
    seq![
        note("min: Denotes a minimum value, inclusive or exclusive. A '>' symbol, optionally followed by a '=' symbol, then a value. Defaults to >=1."@, Tone::Plain),
        note("X: How many dice to drop. Defaults to 1, and cannot be greater than N."@, Tone::Plain),
        note("drop: An underscore ('_') followed by an 'h' or 'l'. Denotes to drop one or more dice, either highest or lowest."@, Tone::Plain),
        note("A: The modifier value. Mandatory if <op> is present."@, Tone::Plain),
        note("op: One of +, -, *, or /. Division is rounded normally by default, but append a 'u' or 'd' to the '/' to round up or down."@, Tone::Plain),
        note("&: If present, apply the modifier to each die rather than the sum of all dice."@, Tone::Plain),
        note("M: How many sides the dice have. Mandatory."@, Tone::Plain),
        note("d: The literal letter 'd'."@, Tone::Plain),
        note("N: Number of dice to roll. Defaults to 1."@, Tone::Plain),
        note("(Parentheses) denote optional values."@, Tone::Plain),
        note("(N)dM(&)(<op>A)(<drop>(X))(<min>)"@, Tone::White),
        note("Rolls dice using dice notation. <visibility> can be public/pub, private/priv, or absent (defaults private). <string> uses modified dice notation syntax:"@, Tone::Plain),
        note("/roll <visibility> <string>"@, Tone::White),
    ]
}

pub open spec fn help_actions(t: Seq<Seq<char>>) -> Seq<ActionView> {
    match token(t, 1) {
        None => seq![note(help_list(), Tone::Plain)],
        Some(k) => if k == "roll"@ { roll_help() } else { unknown_command(k) },
    }
}

/// The value of a hexadecimal digit.
pub open spec fn hex_digit(c: char) -> Option<int> {
    if '0' <= c <= '9' { Some(c as int - '0' as int) }
    else if 'a' <= c <= 'f' { Some(c as int - 'a' as int + 10) }
    else if 'A' <= c <= 'F' { Some(c as int - 'A' as int + 10) }
    else { None }
}

/// The byte that two characters write in hexadecimal: two digits, or '+' and one digit.
pub open spec fn hex_pair(a: char, b: char) -> Option<u8> {
    match (hex_digit(a), hex_digit(b)) {
        (Some(x), Some(y)) => Some((16 * x + y) as u8),
        (None, Some(y)) => if a == '+' { Some(y as u8) } else { None },
        _ => None,
    }
}

/// The color six characters write as three bytes.
pub open spec fn hex_color(c: Seq<char>) -> Option<(u8, u8, u8)> {
    if c.len() != 6 {
        None
    } else {
        match (hex_pair(c[0], c[1]), hex_pair(c[2], c[3]), hex_pair(c[4], c[5])) {
            (Some(r), Some(g), Some(b)) => Some((r, g, b)),
            _ => None,
        }
    }
}

pub open spec fn strip_hash(t: Seq<char>) -> Seq<char> {
    if t.len() > 0 && t[0] == '#' { t.drop_first() } else { t }
}

pub open spec fn blank_say() -> SayView {
    SayView {
        text: Seq::empty(),
        sender: SenderView::Nobody,
        color: None,
        size: None,
        italics: false,
        strikethrough: false,
        underline: false,
        valign: None,
        flags: ChatFlags { private: false, dice_roll: false, combat: false, parties: false },
    }
}

pub open spec fn finish_say(m: SayView) -> Seq<ActionView> {
    if m.text.len() == 0 {
        seq![note("You must provide text. Make sure to put it in \"quotes\"."@, Tone::Plain)]
    } else {
        seq![ActionView::Say(m)]
    }
}

/// The vertical alignment a word names.
pub open spec fn valign_word(v: Seq<char>) -> Option<VAlign> {
    if v == "top"@ || v == "min"@ || v == "above"@ { Some(VAlign::Top) }
    else if v == "center"@ || v == "centre"@ || v == "middle"@ { Some(VAlign::Center) }
    else if v == "bottom"@ || v == "max"@ || v == "below"@ { Some(VAlign::Bottom) }
    else { None }
}

/// What reading the option at the `i`-th token of a say command does to the message `m`.
pub enum SayStep {
    /// The option was read; the next token is the `int`-th, and the message is now this.
    Next(int, SayView),
    /// The token is no option: it is the text.
    Text,
    /// The option is missing its value or was given a bad one: what to do instead.
    Stop(Seq<ActionView>),
}

/// The flag options: each sets one thing on the message.
pub open spec fn say_flag(k: Seq<char>, m: SayView) -> Option<SayView> {
    if k == "-u"@ || k == "-underline"@ {
        Some(SayView { underline: true, ..m })
    } else if k == "-s"@ || k == "-strikethrough"@ {
        Some(SayView { strikethrough: true, ..m })
    } else if k == "-i"@ || k == "-italics"@ {
        Some(SayView { italics: true, ..m })
    } else if k == "-r"@ || k == "-roll"@ {
        Some(SayView { flags: ChatFlags { dice_roll: true, ..m.flags }, ..m })
    } else if k == "-o"@ || k == "-combat"@ {
        Some(SayView { flags: ChatFlags { combat: true, ..m.flags }, ..m })
    } else if k == "-p"@ || k == "-private"@ {
        Some(SayView { flags: ChatFlags { private: true, ..m.flags }, ..m })
    } else if k == "-a"@ || k == "-parties"@ {
        Some(SayView { flags: ChatFlags { parties: true, ..m.flags }, ..m })
    } else {
        None
    }
}

/// The options that take the next token as their value.
pub open spec fn say_valued(t: Seq<Seq<char>>, i: int, m: SayView) -> Option<SayStep> {
    let k = t[i];
    if k == "-c"@ || k == "-color"@ {
        Some(match token(t, i + 1) {
            None => SayStep::Stop(seq![note("You must provide a color hex code (e.g. #00FFAA)."@, Tone::Plain)]),
            Some(c) => match hex_color(strip_hash(c)) {
                Some(rgb) => SayStep::Next(i + 2, SayView { color: Some(rgb), ..m }),
                None => SayStep::Stop(seq![note("Token \""@ + c + "\" is not a valid color."@, Tone::Plain)]),
            },
        })
    } else if k == "-size"@ {
        Some(match token(t, i + 1) {
            None => SayStep::Stop(seq![note("You must provide a size."@, Tone::Plain)]),
            Some(z) => if float_text(z) {
                SayStep::Next(i + 2, SayView { size: Some(z), ..m })
            } else {
                SayStep::Stop(seq![note("Token \""@ + z + "\" could not be parsed as a number."@, Tone::Plain)])
            },
        })
    } else if k == "-as"@ {
        Some(match token(t, i + 1) {
            None => SayStep::Stop(seq![note("You must provide a user, or \"server\"."@, Tone::Plain)]),
            Some(u) => if u == "server"@ {
                SayStep::Next(i + 2, SayView { sender: SenderView::Server, ..m })
            } else {
                SayStep::Next(i + 2, SayView { sender: SenderView::Player(u), ..m })
            },
        })
    } else if k == "-v"@ || k == "-valign"@ {
        Some(match token(t, i + 1) {
            None => SayStep::Stop(seq![note("You must provide a vertical alignment."@, Tone::Plain)]),
            Some(v) => match valign_word(v) {
                Some(a) => SayStep::Next(i + 2, SayView { valign: Some(a), ..m }),
                None => SayStep::Stop(seq![note("Token \""@ + v + "\" could not be interpreted as a vertical alignment. Valid options are \"top\", \"center\", or\"bottom\"."@, Tone::Plain)]),
            },
        })
    } else {
        None
    }
}

/// What reading the `i`-th token of a say command does to the message `m`.
pub open spec fn say_next(t: Seq<Seq<char>>, i: int, m: SayView) -> SayStep {
    match say_valued(t, i, m) {
        Some(step) => step,
        None => match say_flag(t[i], m) {
            Some(m2) => SayStep::Next(i + 1, m2),
            None => SayStep::Text,
        },
    }
}

/// What the options of a say command from the `i`-th token on make of the message `m`: each
/// option sets something, an option missing its value or given a bad one stops with a notice,
/// and the first token that is no option is the text.
pub open spec fn say_from(t: Seq<Seq<char>>, i: int, m: SayView) -> Seq<ActionView>
    decreases t.len() - i,
{
    if i < 1 || i >= t.len() {
        finish_say(m)
    } else {
        match say_next(t, i, m) {
            SayStep::Next(j, m2) => if j > i { say_from(t, j, m2) } else { Seq::empty() },
            SayStep::Text => finish_say(SayView { text: t[i], ..m }),
            SayStep::Stop(a) => a,
        }
    }
}

/// What a command, cut into tokens, does.
pub open spec fn command_actions(t: Seq<Seq<char>>, ctx: CommandContext) -> Seq<ActionView> {
    match token(t, 0) {
        None => unknown_command(Seq::empty()),
        Some(first) => {
            if first == "user"@ {
                user_actions(t, ctx)
            } else if first == "known_users"@ {
                texts(ctx.known_users@).map_values(|u: Seq<char>| note("- "@ + u, Tone::Plain))
                    + seq![note("List of all known users:"@, Tone::Plain)]
            } else if first == "players"@ {
                texts(ctx.connected_users@).map_values(|u: Seq<char>| note("- "@ + u, Tone::Plain))
                    + if ctx.connected_users@.len() == 0 {
                        seq![note("There are no connected players!"@, Tone::Plain)]
                    } else {
                        seq![note("List of all connected players:"@, Tone::Plain)]
                    }
            } else if first == "save"@ {
                seq![ActionView::Save]
            } else if first == "load"@ {
                seq![ActionView::Load]
            } else if first == "xp"@ {
                xp_actions(t, ctx)
            } else if first == "r"@ || first == "roll"@ {
                roll_actions(t)
            } else if first == "say"@ {
                say_from(t, 1, blank_say())
            } else if first == "help"@ {
                help_actions(t)
            } else {
                unknown_command(first)
            }
        },
    }
}

/// Whether the notation of a roll command can be read without an `i32` overflowing.
pub open spec fn roll_readable(t: Seq<Seq<char>>) -> bool {
    (token(t, 0) == Some("r"@) || token(t, 0) == Some("roll"@)) ==> match roll_parts(t).1 {
        Some(s) => !(parse_notation(s) is Overflow),
        None => true,
    }
}

// ---------------------------------------------------------------------------------------------
// Carrying a command out.
// ---------------------------------------------------------------------------------------------

pub open spec fn action_views(v: Seq<CommandAction>) -> Seq<ActionView> {
    v.map_values(|a: CommandAction| a@)
}

fn word_is(t: &String, w: &str) -> (b: bool)
    ensures
        b == (t@ == w@),
{
    *t == w.to_owned()
}

fn notice(text: String, tone: Tone) -> (a: CommandAction)
    ensures
        a@ == note(text@, tone),
{
    CommandAction::Log(Notice { text, private: true, tone })
}

fn only(a: CommandAction) -> (v: Vec<CommandAction>)
    ensures
        action_views(v@) == seq![a@],
{
    let v = vec![a];
    assert(action_views(v@) =~= seq![a@]);
    v
}

fn literal_notice(text: &str, tone: Tone) -> (v: Vec<CommandAction>)
    ensures
        action_views(v@) == seq![note(text@, tone)],
{
    only(notice(text.to_owned(), tone))
}

/// `prefix`, then `x`, then `suffix`.
fn wrapped(prefix: &str, x: &String, suffix: &str) -> (s: String)
    ensures
        s@ == prefix@ + x@ + suffix@,
{
    let mut s = prefix.to_owned();
    s.append(x.as_str());
    s.append(suffix);
    s
}

fn names_contain(v: &Vec<String>, x: &String) -> (b: bool)
    ensures
        b == texts(v@).contains(x@),
{
    let n = v.len();
    for i in 0..n
        invariant
            n == v@.len(),
            forall|j: int| 0 <= j < i ==> (#[trigger] v@[j])@ != x@,
    {
        if v[i] == *x {
            assert(texts(v@)[i as int] == x@);
            return true;
        }
    }
    proof {
        if texts(v@).contains(x@) {
            let j = choose|j: int| 0 <= j < texts(v@).len() && texts(v@)[j] == x@;
            assert(v@[j]@ == x@);
        }
    }
    false
}

fn user_data_index(ctx: &CommandContext, u: &String) -> (r: Option<usize>)
    requires
        ctx.wf(),
    ensures
        match r {
            Some(i) => i < ctx.characters@.len() && ctx.characters@[i as int].0@ == u@,
            None => !ctx.has_data(u@),
        },
{
    let n = ctx.characters.len();
    for i in 0..n
        invariant
            n == ctx.characters@.len(),
            forall|j: int| 0 <= j < i ==> (#[trigger] ctx.characters@[j]).0@ != u@,
    {
        if ctx.characters[i].0 == *u {
            return Some(i);
        }
    }
    None
}

fn user_command(t: &Vec<String>, ctx: &CommandContext) -> (out: Vec<CommandAction>)
    ensures
        action_views(out@) == user_actions(texts(t@), *ctx),
{
    let ghost tv = texts(t@);
    if t.len() < 2 {
        return literal_notice("You must specify a user.", Tone::LightRed);
    }
    let u = &t[1];
    assert(token(tv, 1) == Some(u@));
    if !names_contain(&ctx.known_users, u) {
        return only(notice(wrapped("The user \"", u, "\" doesn't appear to exist. If their name contains a space, remember to wrap it in \"quotes\"."), Tone::LightRed));
    }
    if t.len() < 3 {
        return only(notice(wrapped("You must specify a command. What are you trying to do with \"", u, "\"?"), Tone::LightRed));
    }
    let c = &t[2];
    assert(token(tv, 2) == Some(c@));
    if word_is(c, "kick") {
        if names_contain(&ctx.connected_users, u) {
            only(CommandAction::Kick(u.clone()))
        } else {
            only(notice(wrapped("The user \"", u, "\" is not connected."), Tone::LightRed))
        }
    } else {
        only(notice(wrapped("Unknown command \"", c, "\"."), Tone::LightRed))
    }
}

fn xp_command(t: &Vec<String>, ctx: &CommandContext) -> (out: Vec<CommandAction>)
    requires
        ctx.wf(),
    ensures
        action_views(out@) == xp_actions(texts(t@), *ctx),
{
    let ghost tv = texts(t@);
    if t.len() < 2 {
        return literal_notice("You must specify a user.", Tone::LightRed);
    }
    let u = &t[1];
    assert(token(tv, 1) == Some(u@));
    let found = user_data_index(ctx, u);
    let i = match found {
        None => {
            return only(notice(wrapped("The user \"", u, "\" doesn't appear to exist. If their name contains a space, remember to wrap it in \"quotes\"."), Tone::LightRed));
        },
        Some(i) => i,
    };
    if t.len() < 3 {
        return literal_notice("You must specify a character.", Tone::Plain);
    }
    let n = &t[2];
    assert(token(tv, 2) == Some(n@));
    let owned = names_contain(&ctx.characters[i].1, n);
    proof {
        if ctx.has_character(u@, n@) {
            let j = choose|j: int| 0 <= j < ctx.characters@.len() && (#[trigger] ctx.characters@[j]).0@ == u@
                && texts(ctx.characters@[j].1@).contains(n@);
            if j != i as int {
                if j < i { assert(ctx.characters@[j].0@ != ctx.characters@[i as int].0@); }
                else { assert(ctx.characters@[i as int].0@ != ctx.characters@[j].0@); }
            }
        }
    }
    if !owned {
        return only(notice(wrapped("The character \"", n, "\" doesn't appear to exist. If their name contains a space, remember to wrap it in \"quotes\"."), Tone::LightRed));
    }
    if t.len() < 4 {
        return literal_notice("You must specify an amount of XP to add.", Tone::LightRed);
    }
    let a = &t[3];
    assert(token(tv, 3) == Some(a@));
    match parse_u32(a.as_str()) {
        Some(amount) => {
            let out = vec![CommandAction::AddXp(u.clone(), n.clone(), amount), notice("Added XP".to_owned(), Tone::Green)];
            assert(action_views(out@) =~= seq![ActionView::AddXp(u@, n@, amount), note("Added XP"@, Tone::Green)]);
            out
        },
        None => only(notice(wrapped("The token \"", a, "\" could not be interpreted as a number."), Tone::LightRed)),
    }
}

fn roll_command(t: &Vec<String>) -> (out: Vec<CommandAction>)
    requires
        t@.len() >= 1,
        roll_readable(texts(t@)),
        texts(t@)[0] == "r"@ || texts(t@)[0] == "roll"@,
    ensures
        action_views(out@) == roll_actions(texts(t@)),
{
    let ghost tv = texts(t@);
    let no_notation = "You must enter dice notation. Run /help roll for more info.";
    if t.len() < 2 {
        return literal_notice(no_notation, Tone::LightRed);
    }
    let k = &t[1];
    assert(token(tv, 1) == Some(k@));
    if t.len() > 2 {
        assert(token(tv, 2) == Some(t@[2]@));
    }
    let (public, notation): (bool, Option<&String>) = if word_is(k, "pub") || word_is(k, "public") {
        (true, if t.len() > 2 { Some(&t[2]) } else { None })
    } else if word_is(k, "priv") || word_is(k, "private") {
        (false, if t.len() > 2 { Some(&t[2]) } else { None })
    } else {
        (false, Some(k))
    };
    match notation {
        None => literal_notice(no_notation, Tone::LightRed),
        Some(s) => {
            assert(roll_parts(tv).1 == Some(s@));
            match DiceRoll::from_notation(s.as_str()) {
                Ok(roll) => only(CommandAction::Roll(public, roll)),
                Err(e) => {
                    let mut text = "Error: ".to_owned();
                    text.append(e.as_str());
                    only(notice(text, Tone::LightRed))
                },
            }
        },
    }
}

fn help_command(t: &Vec<String>) -> (out: Vec<CommandAction>)
    ensures
        action_views(out@) == help_actions(texts(t@)),
{
    let ghost tv = texts(t@);
    if t.len() < 2 {
        return literal_notice("List of all known commands (run /help <command> for more info):\n- help\n- kick\n- known_users\n- players\n- save\n- load\n- xp\n- roll", Tone::Plain);
    }
    let k = &t[1];
    assert(token(tv, 1) == Some(k@));
    if word_is(k, "roll") {
        let out = vec![
            notice("min: Denotes a minimum value, inclusive or exclusive. A '>' symbol, optionally followed by a '=' symbol, then a value. Defaults to >=1.".to_owned(), Tone::Plain),
            notice("X: How many dice to drop. Defaults to 1, and cannot be greater than N.".to_owned(), Tone::Plain),
            notice("drop: An underscore ('_') followed by an 'h' or 'l'. Denotes to drop one or more dice, either highest or lowest.".to_owned(), Tone::Plain),
            notice("A: The modifier value. Mandatory if <op> is present.".to_owned(), Tone::Plain),
            notice("op: One of +, -, *, or /. Division is rounded normally by default, but append a 'u' or 'd' to the '/' to round up or down.".to_owned(), Tone::Plain),
            notice("&: If present, apply the modifier to each die rather than the sum of all dice.".to_owned(), Tone::Plain),
            notice("M: How many sides the dice have. Mandatory.".to_owned(), Tone::Plain),
            notice("d: The literal letter 'd'.".to_owned(), Tone::Plain),
            notice("N: Number of dice to roll. Defaults to 1.".to_owned(), Tone::Plain),
            notice("(Parentheses) denote optional values.".to_owned(), Tone::Plain),
            notice("(N)dM(&)(<op>A)(<drop>(X))(<min>)".to_owned(), Tone::White),
            notice("Rolls dice using dice notation. <visibility> can be public/pub, private/priv, or absent (defaults private). <string> uses modified dice notation syntax:".to_owned(), Tone::Plain),
            notice("/roll <visibility> <string>".to_owned(), Tone::White),
        ];
        assert(action_views(out@) =~= roll_help());
        out
    } else {
        only(notice(wrapped("Unknown command \"", k, "\"."), Tone::LightRed))
    }
}

/// One line "- name" per name, in order.
fn name_lines(v: &Vec<String>) -> (out: Vec<CommandAction>)
    ensures
        action_views(out@) == texts(v@).map_values(|u: Seq<char>| note("- "@ + u, Tone::Plain)),
{
    let mut out: Vec<CommandAction> = Vec::new();
    let n = v.len();
    for i in 0..n
        invariant
            n == v@.len(),
            action_views(out@) == texts(v@).take(i as int).map_values(|u: Seq<char>| note("- "@ + u, Tone::Plain)),
    {
        let mut line = "- ".to_owned();
        line.append(v[i].as_str());
        let ghost prev = action_views(out@);
        out.push(notice(line, Tone::Plain));
        proof {
            let f = |u: Seq<char>| note("- "@ + u, Tone::Plain);
            assert(action_views(out@) =~= prev.push(note("- "@ + v@[i as int]@, Tone::Plain)));
            assert(texts(v@).take(i + 1) =~= texts(v@).take(i as int).push(v@[i as int]@));
            assert(texts(v@).take(i + 1).map_values(f) =~= texts(v@).take(i as int).map_values(f).push(f(v@[i as int]@)));
        }
    }
    assert(texts(v@).take(n as int) =~= texts(v@));
    out
}

fn hex_value(c: char) -> (r: Option<u8>)
    ensures
        match hex_digit(c) {
            Some(v) => r == Some(v as u8) && 0 <= v < 16,
            None => r is None,
        },
{
    if '0' <= c && c <= '9' {
        Some((c as u32 - '0' as u32) as u8)
    } else if 'a' <= c && c <= 'f' {
        Some((c as u32 - 'a' as u32 + 10) as u8)
    } else if 'A' <= c && c <= 'F' {
        Some((c as u32 - 'A' as u32 + 10) as u8)
    } else {
        None
    }
}

fn hex_byte(a: char, b: char) -> (r: Option<u8>)
    ensures
        r == hex_pair(a, b),
{
    match (hex_value(a), hex_value(b)) {
        (Some(x), Some(y)) => Some(16 * x + y),
        (None, Some(y)) => if a == '+' { Some(y) } else { None },
        _ => None,
    }
}

fn parse_color(tok: &String) -> (r: Option<(u8, u8, u8)>)
    ensures
        r == hex_color(strip_hash(tok@)),
{
    let cs = chars_of(tok.as_str());
    let len = cs.len();
    let start: usize = if len > 0 && cs[0] == '#' { 1 } else { 0 };
    let ghost c = strip_hash(tok@);
    proof {
        if start == 1 { assert(c =~= cs@.subrange(1, len as int)); } else { assert(c =~= cs@); }
    }
    if len - start != 6 {
        return None;
    }
    assert(c[0] == cs@[start as int] && c[1] == cs@[start + 1] && c[2] == cs@[start + 2]);
    assert(c[3] == cs@[start + 3] && c[4] == cs@[start + 4] && c[5] == cs@[start + 5]);
    match (hex_byte(cs[start], cs[start + 1]), hex_byte(cs[start + 2], cs[start + 3]), hex_byte(cs[start + 4], cs[start + 5])) {
        (Some(r), Some(g), Some(b)) => Some((r, g, b)),
        _ => None,
    }
}

/// Sets the flag that `k` names on `m`, if it names one.
fn set_say_flag(k: &String, m: &mut SayMessage) -> (set: bool)
    ensures
        match say_flag(k@, old(m)@) {
            Some(m2) => set && final(m)@ == m2,
            None => !set && final(m)@ == old(m)@,
        },
{
    if word_is(k, "-u") || word_is(k, "-underline") {
        m.underline = true;
    } else if word_is(k, "-s") || word_is(k, "-strikethrough") {
        m.strikethrough = true;
    } else if word_is(k, "-i") || word_is(k, "-italics") {
        m.italics = true;
    } else if word_is(k, "-r") || word_is(k, "-roll") {
        m.flags.dice_roll = true;
    } else if word_is(k, "-o") || word_is(k, "-combat") {
        m.flags.combat = true;
    } else if word_is(k, "-p") || word_is(k, "-private") {
        m.flags.private = true;
    } else if word_is(k, "-a") || word_is(k, "-parties") {
        m.flags.parties = true;
    } else {
        return false;
    }
    true
}

/// Reads an option that takes a value, at the `i`-th token, into `m`.
#[verifier::rlimit(40)]
fn read_valued_option(t: &Vec<String>, i: usize, m: &mut SayMessage) -> (r: Option<Result<usize, Vec<CommandAction>>>)
    requires
        1 <= i < t@.len(),
    ensures
        match say_valued(texts(t@), i as int, old(m)@) {
            None => r is None && final(m)@ == old(m)@,
            Some(SayStep::Next(j, m2)) => r == Some(Ok::<usize, Vec<CommandAction>>(j as usize)) && final(m)@ == m2 && i < j <= t@.len(),
            Some(SayStep::Stop(a)) => r matches Some(Err(out)) && action_views(out@) == a,
            Some(SayStep::Text) => false,
        },
{
    let ghost tv = texts(t@);
    let n = t.len();
    let k = &t[i];
    assert(tv[i as int] == k@);
    let has_next = i + 1 < n;
    if has_next {
        assert(token(tv, i + 1) == Some(t@[i + 1]@));
    }
    if word_is(k, "-c") || word_is(k, "-color") {
        if !has_next {
            return Some(Err(literal_notice("You must provide a color hex code (e.g. #00FFAA).", Tone::Plain)));
        }
        let c = &t[i + 1];
        match parse_color(c) {
            Some(rgb) => {
                m.color = Some(rgb);
                Some(Ok(i + 2))
            },
            None => Some(Err(only(notice(wrapped("Token \"", c, "\" is not a valid color."), Tone::Plain)))),
        }
    } else if word_is(k, "-size") {
        if !has_next {
            return Some(Err(literal_notice("You must provide a size.", Tone::Plain)));
        }
        let z = &t[i + 1];
        if is_float_token(z.as_str()) {
            m.size = Some(z.clone());
            Some(Ok(i + 2))
        } else {
            Some(Err(only(notice(wrapped("Token \"", z, "\" could not be parsed as a number."), Tone::Plain))))
        }
    } else if word_is(k, "-as") {
        if !has_next {
            return Some(Err(literal_notice("You must provide a user, or \"server\".", Tone::Plain)));
        }
        let u = &t[i + 1];
        if word_is(u, "server") {
            m.sender = MessageSender::Server;
        } else {
            m.sender = MessageSender::Player(u.clone());
        }
        Some(Ok(i + 2))
    } else if word_is(k, "-v") || word_is(k, "-valign") {
        if !has_next {
            return Some(Err(literal_notice("You must provide a vertical alignment.", Tone::Plain)));
        }
        let v = &t[i + 1];
        if word_is(v, "top") || word_is(v, "min") || word_is(v, "above") {
            m.valign = Some(VAlign::Top);
        } else if word_is(v, "center") || word_is(v, "centre") || word_is(v, "middle") {
            m.valign = Some(VAlign::Center);
        } else if word_is(v, "bottom") || word_is(v, "max") || word_is(v, "below") {
            m.valign = Some(VAlign::Bottom);
        } else {
            return Some(Err(only(notice(wrapped("Token \"", v, "\" could not be interpreted as a vertical alignment. Valid options are \"top\", \"center\", or\"bottom\"."), Tone::Plain))));
        }
        Some(Ok(i + 2))
    } else {
        None
    }
}

/// Reads the option of a say command at the `i`-th token into `m`: the place of the next token
/// when it was an option, nothing when it is the text, or what to do when the option is wrong.
fn say_option(t: &Vec<String>, i: usize, m: &mut SayMessage) -> (r: Result<Option<usize>, Vec<CommandAction>>)
    requires
        1 <= i < t@.len(),
    ensures
        match r {
            Ok(Some(j)) => i < j <= t@.len() && say_next(texts(t@), i as int, old(m)@) == SayStep::Next(j as int, final(m)@),
            Ok(None) => say_next(texts(t@), i as int, old(m)@) == SayStep::Text && final(m)@ == old(m)@,
            Err(out) => say_next(texts(t@), i as int, old(m)@) == SayStep::Stop(action_views(out@)),
        },
{
    assert(texts(t@)[i as int] == t@[i as int]@);
    let n = t.len();
    match read_valued_option(t, i, m) {
        Some(Ok(j)) => Ok(Some(j)),
        Some(Err(out)) => Err(out),
        None => {
            if set_say_flag(&t[i], m) {
                Ok(Some(i + 1))
            } else {
                Ok(None)
            }
        },
    }
}

fn say_command(t: &Vec<String>) -> (out: Vec<CommandAction>)
    requires
        t@.len() >= 1,
    ensures
        action_views(out@) == say_from(texts(t@), 1, blank_say()),
{
    let ghost tv = texts(t@);
    let mut m = SayMessage {
        text: String::new(),
        sender: MessageSender::Nobody,
        color: None,
        size: None,
        italics: false,
        strikethrough: false,
        underline: false,
        valign: None,
        flags: ChatFlags { private: false, dice_roll: false, combat: false, parties: false },
    };
    let n = t.len();
    let mut i: usize = 1;
    assert(m@ == blank_say());
    while i < n
        invariant
            n == t@.len(),
            tv == texts(t@),
            1 <= i,
            say_from(tv, 1, blank_say()) == say_from(tv, i as int, m@),
        decreases n - i,
    {
        match say_option(t, i, &mut m) {
            Ok(Some(j)) => {
                i = j;
            },
            Ok(None) => {
                m.text = t[i].clone();
                return finish_message(m);
            },
            Err(out) => {
                return out;
            },
        }
    }
    finish_message(m)
}

fn finish_message(m: SayMessage) -> (out: Vec<CommandAction>)
    ensures
        action_views(out@) == finish_say(m@),
{
    if m.text.unicode_len() == 0 {
        literal_notice("You must provide text. Make sure to put it in \"quotes\".", Tone::Plain)
    } else {
        only(CommandAction::Say(m))
    }
}

/// Whether `parse_command` can read this command: a roll's notation must not overflow.
pub fn command_readable(command: &str) -> (b: bool)
    requires
        command@.len() > 0,
    ensures
        b == roll_readable(command_tokens(command@)),
{
    let t = tokenize(command);
    let ghost tv = texts(t@);
    assert(tv == command_tokens(command@));
    proof { lemma_pieces_not_empty(command@.drop_first()); }
    let first = &t[0];
    assert(token(tv, 0) == Some(first@));
    if !(word_is(first, "r") || word_is(first, "roll")) || t.len() < 2 {
        return true;
    }
    let k = &t[1];
    assert(token(tv, 1) == Some(k@));
    if t.len() > 2 {
        assert(token(tv, 2) == Some(t@[2]@));
    }
    let notation: Option<&String> = if word_is(k, "pub") || word_is(k, "public") || word_is(k, "priv") || word_is(k, "private") {
        if t.len() > 2 { Some(&t[2]) } else { None }
    } else {
        Some(k)
    };
    match notation {
        None => true,
        Some(s) => {
            assert(roll_parts(tv).1 == Some(s@));
            !DiceRoll::notation_overflows(s.as_str())
        },
    }
}

/// Carries out a command typed in the DM's chat (its first character, conventionally '/', is
/// not read): cuts it into tokens and decides what to do.
pub fn parse_command(command: &str, ctx: &CommandContext) -> (out: Vec<CommandAction>)
    requires
        command@.len() > 0,
        ctx.wf(),
        roll_readable(command_tokens(command@)),
    ensures
        action_views(out@) == command_actions(command_tokens(command@), *ctx),
{
    let t = tokenize(command);
    let ghost tv = texts(t@);
    assert(tv == command_tokens(command@));
    proof { lemma_pieces_not_empty(command@.drop_first()); }
    let first = &t[0];
    assert(token(tv, 0) == Some(first@));
    if word_is(first, "user") {
        user_command(&t, ctx)
    } else if word_is(first, "known_users") {
        let mut out = name_lines(&ctx.known_users);
        let ghost lines = action_views(out@);
        out.push(notice("List of all known users:".to_owned(), Tone::Plain));
        assert(action_views(out@) =~= lines + seq![note("List of all known users:"@, Tone::Plain)]);
        out
    } else if word_is(first, "players") {
        let mut out = name_lines(&ctx.connected_users);
        let ghost lines = action_views(out@);
        if ctx.connected_users.len() == 0 {
            out.push(notice("There are no connected players!".to_owned(), Tone::Plain));
            assert(action_views(out@) =~= lines + seq![note("There are no connected players!"@, Tone::Plain)]);
        } else {
            out.push(notice("List of all connected players:".to_owned(), Tone::Plain));
            assert(action_views(out@) =~= lines + seq![note("List of all connected players:"@, Tone::Plain)]);
        }
        out
    } else if word_is(first, "save") {
        only(CommandAction::Save)
    } else if word_is(first, "load") {
        only(CommandAction::Load)
    } else if word_is(first, "xp") {
        xp_command(&t, ctx)
    } else if word_is(first, "r") || word_is(first, "roll") {
        roll_command(&t)
    } else if word_is(first, "say") {
        say_command(&t)
    } else if word_is(first, "help") {
        help_command(&t)
    } else {
        only(notice(wrapped("Unknown command \"", first, "\"."), Tone::LightRed))
    }
}

} // verus!
