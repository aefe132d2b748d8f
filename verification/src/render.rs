//! Verified decimal rendering of integers.
//!
//! The serialization engine emits `name=value` tokens whose values are the
//! canonical decimal form of the option's value.  The spec functions here
//! define that canonical form over mathematical integers, and the exec
//! functions build it character by character, proved against the spec.

use vstd::prelude::*;

verus! {

/// The character for one decimal digit.
pub open spec fn dec_digit(d: nat) -> char {
    if d == 0 {
        '0'
    } else if d == 1 {
        '1'
    } else if d == 2 {
        '2'
    } else if d == 3 {
        '3'
    } else if d == 4 {
        '4'
    } else if d == 5 {
        '5'
    } else if d == 6 {
        '6'
    } else if d == 7 {
        '7'
    } else if d == 8 {
        '8'
    } else {
        '9'
    }
}

/// The decimal text of a natural number, most significant digit first,
/// with no leading zeros (`0` itself renders as "0").
pub open spec fn dec_nat(n: nat) -> Seq<char>
    decreases n,
{
    if n < 10 {
        seq![dec_digit(n)]
    } else {
        dec_nat(n / 10).push(dec_digit(n % 10))
    }
}

/// The decimal text of an integer: a minus sign for negative values,
/// then the digits of the magnitude.
pub open spec fn dec_int(i: int) -> Seq<char> {
    if i < 0 {
        seq!['-'] + dec_nat((-i) as nat)
    } else {
        dec_nat(i as nat)
    }
}

/// The last `width` decimal digits of `n`, zero padded on the left.
/// For `n < 10^width` this is the `width`-digit zero-padded form of `n`.
pub open spec fn dec_nat_padded(n: nat, width: nat) -> Seq<char>
    decreases width,
{
    if width == 0 {
        seq![]
    } else {
        dec_nat_padded(n / 10, (width - 1) as nat).push(dec_digit(n % 10))
    }
}

/// The text of a bool: "true" or "false".
pub open spec fn bool_str(b: bool) -> Seq<char> {
    if b {
        "true"@
    } else {
        "false"@
    }
}

/// Appends the character of one decimal digit to `s`.
pub fn append_digit(s: &mut String, d: u8)
    requires
        d < 10,
    ensures
        final(s)@ == old(s)@.push(dec_digit(d as nat)),
{
    proof {
        reveal_strlit("0");
        reveal_strlit("1");
        reveal_strlit("2");
        reveal_strlit("3");
        reveal_strlit("4");
        reveal_strlit("5");
        reveal_strlit("6");
        reveal_strlit("7");
        reveal_strlit("8");
        reveal_strlit("9");
    }
    match d {
        0 => s.append("0"),
        1 => s.append("1"),
        2 => s.append("2"),
        3 => s.append("3"),
        4 => s.append("4"),
        5 => s.append("5"),
        6 => s.append("6"),
        7 => s.append("7"),
        8 => s.append("8"),
        _ => s.append("9"),
    }
    assert(final(s)@ =~= old(s)@.push(dec_digit(d as nat)));
}

/// Appends the decimal text of `n` to `s`.
pub fn append_u128(s: &mut String, n: u128)
    ensures
        final(s)@ == old(s)@ + dec_nat(n as nat),
    decreases n,
{
    if n >= 10 {
        append_u128(s, n / 10);
        append_digit(s, (n % 10) as u8);
        assert(final(s)@ =~= old(s)@ + dec_nat(n as nat));
    } else {
        append_digit(s, n as u8);
        assert(final(s)@ =~= old(s)@ + dec_nat(n as nat));
    }
}

/// Appends the decimal text of `n` to `s`.
pub fn append_u64(s: &mut String, n: u64)
    ensures
        final(s)@ == old(s)@ + dec_nat(n as nat),
{
    append_u128(s, n as u128);
}

/// Appends the decimal text of `n` to `s`, sign included.
pub fn append_i64(s: &mut String, n: i64)
    ensures
        final(s)@ == old(s)@ + dec_int(n as int),
{
    let wide: i128 = n as i128;
    if wide < 0 {
        proof {
            reveal_strlit("-");
        }
        s.append("-");
        append_u128(s, (-wide) as u128);
        assert(final(s)@ =~= old(s)@ + dec_int(n as int));
    } else {
        append_u128(s, wide as u128);
    }
}

/// Appends the last `width` decimal digits of `n`, zero padded.
pub fn append_padded(s: &mut String, n: u128, width: u32)
    ensures
        final(s)@ == old(s)@ + dec_nat_padded(n as nat, width as nat),
    decreases width,
{
    if width > 0 {
        append_padded(s, n / 10, width - 1);
        append_digit(s, (n % 10) as u8);
        assert(final(s)@ =~= old(s)@ + dec_nat_padded(n as nat, width as nat));
    } else {
        assert(final(s)@ =~= old(s)@ + dec_nat_padded(n as nat, 0));
    }
}

/// Appends "true" or "false" to `s`.
pub fn append_bool(s: &mut String, b: bool)
    ensures
        final(s)@ == old(s)@ + bool_str(b),
{
    if b {
        s.append("true");
    } else {
        s.append("false");
    }
}

/// The decimal text of `n` as a fresh string.
pub fn u64_string(n: u64) -> (r: String)
    ensures
        r@ == dec_nat(n as nat),
{
    let mut s = String::new();
    append_u64(&mut s, n);
    assert(s@ =~= dec_nat(n as nat));
    s
}

/// Relies on `String::push`: appends exactly the given character.
#[verifier::external_body]
pub(crate) fn append_char(s: &mut String, c: char)
    ensures
        final(s)@ == old(s)@.push(c),
{
    s.push(c);
}

} // verus!
