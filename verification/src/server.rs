use vstd::prelude::*;

use crate::commands::{is_space, texts, chars_of};
use crate::packets::ClientFacingError;

verus! {

/// `s` without white space at its start.
pub open spec fn trim_start(s: Seq<char>) -> Seq<char>
    decreases s.len(),
{
    if s.len() > 0 && is_space(s[0]) { trim_start(s.drop_first()) } else { s }
}

/// `s` without white space at its end.
pub open spec fn trim_end(s: Seq<char>) -> Seq<char>
    decreases s.len(),
{
    if s.len() > 0 && is_space(s.last()) { trim_end(s.drop_last()) } else { s }
}

/// `s` without white space at either end.
pub open spec fn trim(s: Seq<char>) -> Seq<char> {
    trim_end(trim_start(s))
}

/// The bytes that UTF-8 takes for `c`.
pub open spec fn utf8_width(c: char) -> nat {
    if (c as u32) < 0x80 { 1 } else if (c as u32) < 0x800 { 2 } else if (c as u32) < 0x10000 { 3 } else { 4 }
}

/// The bytes that UTF-8 takes for `s`.
pub open spec fn utf8_len(s: Seq<char>) -> nat
    decreases s.len(),
{
    if s.len() == 0 { 0 } else { utf8_len(s.drop_last()) + utf8_width(s.last()) }
}

fn space_at(cs: &Vec<char>, i: usize) -> (b: bool)
    requires
        i < cs@.len(),
    ensures
        b == is_space(cs@[i as int]),
{
    let c = cs[i];
    ('\u{9}' <= c && c <= '\u{d}') || c == ' ' || c == '\u{85}' || c == '\u{a0}' || c == '\u{1680}'
        || ('\u{2000}' <= c && c <= '\u{200a}') || c == '\u{2028}' || c == '\u{2029}' || c == '\u{202f}'
        || c == '\u{205f}' || c == '\u{3000}'
}

/// `s` without white space at either end.
pub fn trimmed(s: &str) -> (t: String)
    ensures
        t@ == trim(s@),
{
    let cs = chars_of(s);
    let len = cs.len();
    let mut a: usize = 0;
    assert(s@.subrange(0, len as int) == s@);
    while a < len && space_at(&cs, a)
        invariant
            a <= len,
            len == cs@.len(),
            cs@ == s@,
            trim_start(s@) == trim_start(s@.subrange(a as int, len as int)),
        decreases len - a,
    {
        assert(s@.subrange(a as int, len as int).drop_first() == s@.subrange(a + 1, len as int));
        a = a + 1;
    }
    proof {
        if a < len {
            assert(s@.subrange(a as int, len as int)[0] == s@[a as int]);
        }
        assert(s@.subrange(0, len as int) == s@);
    }
    let mut b: usize = len;
    while b > a && space_at(&cs, b - 1)
        invariant
            a <= b <= len,
            len == cs@.len(),
            cs@ == s@,
            trim_start(s@) == s@.subrange(a as int, len as int),
            trim_end(s@.subrange(a as int, len as int)) == trim_end(s@.subrange(a as int, b as int)),
        decreases b - a,
    {
        assert(s@.subrange(a as int, b as int).drop_last() == s@.subrange(a as int, b - 1));
        b = b - 1;
    }
    proof {
        if b > a {
            assert(s@.subrange(a as int, b as int).last() == s@[b - 1]);
        }
    }
    let mut t = String::new();
    let mut i = a;
    while i < b
        invariant
            a <= i <= b,
            b <= len,
            len == cs@.len(),
            cs@ == s@,
            t@ == s@.subrange(a as int, i as int),
        decreases b - i,
    {
        let piece = s.substring_char(i, i + 1);
        t.append(piece);
        assert(t@ =~= s@.subrange(a as int, i + 1));
        i = i + 1;
    }
    t
}

/// The bytes that UTF-8 takes for `s`.
pub fn byte_len(s: &str) -> (n: usize)
    requires
        utf8_len(s@) <= usize::MAX,
    ensures
        n == utf8_len(s@),
{
    let cs = chars_of(s);
    let len = cs.len();
    let mut n: usize = 0;
    for i in 0..len
        invariant
            len == cs@.len(),
            cs@ == s@,
            utf8_len(s@) <= usize::MAX,
            n == utf8_len(s@.take(i as int)),
    {
        proof {
            assert(s@.take(i + 1).drop_last() == s@.take(i as int));
            lemma_utf8_len_prefix(s@, i + 1);
        }
        let c = cs[i] as u32;
        let w: usize = if c < 0x80 { 1 } else if c < 0x800 { 2 } else if c < 0x10000 { 3 } else { 4 };
        n = n + w;
    }
    assert(s@.take(len as int) == s@);
    n
}

proof fn lemma_utf8_len_prefix(s: Seq<char>, k: int)
    requires
        0 <= k <= s.len(),
    ensures
        utf8_len(s.take(k)) <= utf8_len(s),
    decreases s.len() - k,
{
    if k < s.len() {
        lemma_utf8_len_prefix(s, k + 1);
        assert(s.take(k + 1).drop_last() == s.take(k));
    } else {
        assert(s.take(k) == s);
    }
}

/// Whether `x` is one of the strings of `v`.
pub(crate) fn contains_text(v: &Vec<String>, x: &String) -> (b: bool)
    ensures
        b == texts(v@).contains(x@),
{
    let n = v.len();
    for i in 0..n
        invariant
            n == v@.len(),
            forall|j: int| 0 <= j < i ==> (#[trigger] v@[j])@ != x@,
    {
        if v[i] == *x {
            assert(texts(v@)[i as int] == x@);
            return true;
        }
    }
    proof {
        if texts(v@).contains(x@) {
            let j = choose|j: int| 0 <= j < texts(v@).len() && texts(v@)[j] == x@;
            assert(v@[j]@ == x@);
        }
    }
    false
}

/// Why a new character cannot have the name `name`, when it cannot: the user has a character
/// of that name, the name is only white space, or it takes more than 40 bytes.
pub open spec fn character_name_problem(name: Seq<char>, existing: Seq<String>) -> Option<ClientFacingError> {
    if texts(existing).contains(name) {
        Some(ClientFacingError::CharacterNameTaken)
    } else if trim(name).len() == 0 {
        Some(ClientFacingError::CharacterNameInvalid)
    } else if utf8_len(name) > 40 {
        Some(ClientFacingError::CharacterNameTooLong)
    } else {
        None
    }
}

/// Checks the name of a new character against the user's characters.
pub fn check_character_name(name: &String, existing: &Vec<String>) -> (r: Option<ClientFacingError>)
    requires
        utf8_len(name@) <= usize::MAX,
    ensures
        r == character_name_problem(name@, existing@),
{
    if contains_text(existing, name) {
        return Some(ClientFacingError::CharacterNameTaken);
    }
    if trimmed(name.as_str()).unicode_len() == 0 {
        return Some(ClientFacingError::CharacterNameInvalid);
    }
    if byte_len(name.as_str()) > 40 {
        return Some(ClientFacingError::CharacterNameTooLong);
    }
    None
}

} // verus!
