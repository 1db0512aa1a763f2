//! Decimal rendering of integers and of fixed-point values.
use vstd::prelude::*;

verus! {

/// The ASCII digit for `d` (taken modulo ten).
pub open spec fn digit_char(d: nat) -> char {
    let d = d % 10;
    if d == 0 { '0' }
    else if d == 1 { '1' }
    else if d == 2 { '2' }
    else if d == 3 { '3' }
    else if d == 4 { '4' }
    else if d == 5 { '5' }
    else if d == 6 { '6' }
    else if d == 7 { '7' }
    else if d == 8 { '8' }
    else { '9' }
}

/// The decimal digits of `n`, without sign or leading zeros ("0" for zero).
pub open spec fn decimal(n: nat) -> Seq<char>
    decreases n,
{
    if n < 10 {
        seq![digit_char(n)]
    } else {
        decimal(n / 10).push(digit_char(n % 10))
    }
}

/// `n / d` rounded to the nearest integer, a tie going to the even neighbour.
pub open spec fn round_half_even(n: nat, d: nat) -> nat
    recommends
        d > 0,
{
    let q = n / d;
    let r = n % d;
    if 2 * r > d || (2 * r == d && q % 2 == 1) {
        q + 1
    } else {
        q
    }
}

/// `num / den` written with exactly one decimal place, rounded to the nearest
/// tenth with ties to even; a negative value keeps its sign even when it
/// rounds to zero.  The exact rational value is rounded: it never passes
/// through a binary floating-point number, so a value such as 23.15, which a
/// 32-bit float holds as slightly less, still counts as a tie here.
pub open spec fn one_decimal(num: int, den: nat) -> Seq<char> {
    let tenths = round_half_even(abs(num), den);
    let sign = if num < 0 { seq!['-'] } else { Seq::<char>::empty() };
    sign + decimal(tenths / 10) + seq!['.'] + decimal(tenths % 10)
}

pub open spec fn abs(x: int) -> nat {
    if x < 0 { (-x) as nat } else { x as nat }
}

/// Relies on String::push: the character is appended at the end.
#[verifier::external_body]
pub(crate) fn push_char(s: &mut String, c: char)
    ensures
        final(s)@ == old(s)@.push(c),
{
    s.push(c)
}

/// Appends `t` to `s`.
pub(crate) fn push_str(s: &mut String, t: &str)
    ensures
        final(s)@ == old(s)@ + t@,
{
    s.append(t)
}

fn digit(d: u64) -> (c: char)
    requires
        d < 10,
    ensures
        c == digit_char(d as nat),
{
    match d {
        0 => '0',
        1 => '1',
        2 => '2',
        3 => '3',
        4 => '4',
        5 => '5',
        6 => '6',
        7 => '7',
        8 => '8',
        _ => '9',
    }
}

/// Appends the decimal digits of `n` to `s`.
pub(crate) fn push_decimal(s: &mut String, n: u64)
    ensures
        final(s)@ == old(s)@ + decimal(n as nat),
    decreases n,
{
    if n >= 10 {
        push_decimal(s, n / 10);
    }
    push_char(s, digit(n % 10));
    assert(final(s)@ =~= old(s)@ + decimal(n as nat));
}

/// Appends `num / den` with one decimal place (see `one_decimal`).
pub(crate) fn push_one_decimal(s: &mut String, num: i64, den: u32)
    requires
        den > 0,
        abs(num as int) < 0x1_0000_0000_0000,
    ensures
        final(s)@ == old(s)@ + one_decimal(num as int, den as nat),
{
    let mag: u64 = if num < 0 {
        (0 - num) as u64
    } else {
        num as u64
    };
    let d: u64 = den as u64;
    let q: u64 = mag / d;
    let r: u64 = mag % d;
    let tenths: u64 = if 2 * r > d || (2 * r == d && q % 2 == 1) {
        q + 1
    } else {
        q
    };
    assert(tenths == round_half_even(abs(num as int), den as nat));
    let ghost s0 = s@;
    if num < 0 {
        push_char(s, '-');
    }
    push_decimal(s, tenths / 10);
    push_char(s, '.');
    push_decimal(s, tenths % 10);
    assert(s@ =~= s0 + one_decimal(num as int, den as nat));
}

} // verus!
