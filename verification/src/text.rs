use vstd::prelude::*;
use vstd::string::*;

verus! {

/// The decimal digits of `n`, most significant first, without a sign.
pub open spec fn nat_digits(n: nat) -> Seq<char>
    decreases n,
{
    if n < 10 {
        seq![digit_char(n)]
    } else {
        nat_digits(n / 10).push(digit_char(n % 10))
    }
}

pub open spec fn digit_char(d: nat) -> char {
    if d == 0 { '0' } else if d == 1 { '1' } else if d == 2 { '2' } else if d == 3 { '3' }
    else if d == 4 { '4' } else if d == 5 { '5' } else if d == 6 { '6' } else if d == 7 { '7' }
    else if d == 8 { '8' } else { '9' }
}

fn digit_str(d: u64) -> (s: &'static str)
    requires d < 10,
    ensures s@ == seq![digit_char(d as nat)],
{
    proof {
        reveal_strlit("0"); reveal_strlit("1"); reveal_strlit("2"); reveal_strlit("3");
        reveal_strlit("4"); reveal_strlit("5"); reveal_strlit("6"); reveal_strlit("7");
        reveal_strlit("8"); reveal_strlit("9");
    }
    if d == 0 { "0" } else if d == 1 { "1" } else if d == 2 { "2" } else if d == 3 { "3" }
    else if d == 4 { "4" } else if d == 5 { "5" } else if d == 6 { "6" } else if d == 7 { "7" }
    else if d == 8 { "8" } else { "9" }
}

/// Appends the decimal form of `n` to `out`.
pub fn push_decimal(out: &mut String, n: u64)
    ensures
        final(out)@ == old(out)@ + nat_digits(n as nat),
    decreases n,
{
    if n < 10 {
        out.append(digit_str(n));
    } else {
        push_decimal(out, n / 10);
        out.append(digit_str(n % 10));
    }
}


/// The decimal form of `i`, with a leading '-' when negative.
pub open spec fn int_text(i: int) -> Seq<char> {
    if i < 0 { seq!['-'] + nat_digits((-i) as nat) } else { nat_digits(i as nat) }
}

/// The decimal form of `i` with its sign always written ('+' for zero and above).
pub open spec fn signed_text(i: int) -> Seq<char> {
    if i < 0 { seq!['-'] + nat_digits((-i) as nat) } else { seq!['+'] + nat_digits(i as nat) }
}

/// Appends the decimal form of `i` to `out`.
pub fn push_int(out: &mut String, i: i64)
    requires
        i > i64::MIN,
    ensures
        final(out)@ == old(out)@ + int_text(i as int),
{
    if i < 0 {
        proof { reveal_strlit("-"); }
        out.append("-");
        push_decimal(out, (-i) as u64);
    } else {
        push_decimal(out, i as u64);
    }
}

/// Appends `i` with its sign always written, as `{:+}` formats it.
pub fn push_signed(out: &mut String, i: i64)
    requires
        i > i64::MIN,
    ensures
        final(out)@ == old(out)@ + signed_text(i as int),
{
    proof { reveal_strlit("-"); reveal_strlit("+"); }
    if i < 0 {
        out.append("-");
        push_decimal(out, (-i) as u64);
    } else {
        out.append("+");
        push_decimal(out, i as u64);
    }
}

} // verus!
