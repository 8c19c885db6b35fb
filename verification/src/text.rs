//! Small text utilities shared by the lexer, the parser and the emitter.

use vstd::prelude::*;

verus! {

/// Names the result of `char::is_alphabetic` of the standard library: whether
/// a character carries the Unicode `Alphabetic` property.
pub uninterp spec fn alphabetic(c: char) -> bool;

/// Whether `c` is one of the letters `A` to `Z` and `a` to `z`.
pub open spec fn basic_letter(c: char) -> bool {
    let n = c as u32;
    0x41 <= n <= 0x5a || 0x61 <= n <= 0x7a
}

/// Calls `char::is_alphabetic`. Trusted: the result is the Unicode
/// `Alphabetic` property of `c`, which the contract only names; and among
/// the characters below `U+0080` the property belongs to the letters `A` to
/// `Z` and `a` to `z` and to no other.
#[verifier::external_body]
pub(crate) fn char_is_alphabetic(c: char) -> (r: bool)
    ensures
        r == alphabetic(c),
        (c as u32) < 0x80 ==> r == basic_letter(c),
{
    c.is_alphabetic()
}

/// Calls the equality of `str`. Trusted: two string slices are equal exactly
/// when they hold the same characters in the same order.
#[verifier::external_body]
pub(crate) fn text_is(s: &str, other: &str) -> (r: bool)
    ensures
        r == (s@ == other@),
{
    s == other
}

/// Calls `String::push`. Trusted: the character is appended at the end and
/// nothing else changes.
#[verifier::external_body]
pub(crate) fn push_char(s: &mut String, c: char)
    ensures
        final(s)@ == old(s)@.push(c),
{
    s.push(c)
}

/// The decimal digit that stands for `d`, for `d` below ten.
pub open spec fn digit(d: nat) -> char {
    if d == 0 {
        '0'
    } else if d == 1 {
        '1'
    } else if d == 2 {
        '2'
    } else if d == 3 {
        '3'
    } else if d == 4 {
        '4'
    } else if d == 5 {
        '5'
    } else if d == 6 {
        '6'
    } else if d == 7 {
        '7'
    } else if d == 8 {
        '8'
    } else {
        '9'
    }
}

/// The decimal numeral of `n`, most significant digit first, without
/// leading zeros (`0` itself is written `"0"`).
pub open spec fn decimal(n: nat) -> Seq<char>
    decreases n,
{
    if n < 10 {
        seq![digit(n)]
    } else {
        decimal(n / 10).push(digit(n % 10))
    }
}

fn digit_of(d: u64) -> (c: char)
    requires
        d < 10,
    ensures
        c == digit(d as nat),
{
    if d == 0 {
        '0'
    } else if d == 1 {
        '1'
    } else if d == 2 {
        '2'
    } else if d == 3 {
        '3'
    } else if d == 4 {
        '4'
    } else if d == 5 {
        '5'
    } else if d == 6 {
        '6'
    } else if d == 7 {
        '7'
    } else if d == 8 {
        '8'
    } else {
        '9'
    }
}

/// Appends the decimal numeral of `n` to `s`.
pub fn push_decimal(s: &mut String, n: u64)
    ensures
        final(s)@ == old(s)@ + decimal(n as nat),
    decreases n,
{
    if n >= 10 {
        push_decimal(s, n / 10);
        push_char(s, digit_of(n % 10));
        assert(s@ =~= old(s)@ + decimal(n as nat));
    } else {
        push_char(s, digit_of(n));
        assert(s@ =~= old(s)@ + decimal(n as nat));
    }
}

/// The decimal numeral of `n` as an owned string.
pub fn decimal_text(n: u64) -> (s: String)
    ensures
        s@ == decimal(n as nat),
{
    let mut s = String::new();
    push_decimal(&mut s, n);
    assert(s@ =~= decimal(n as nat));
    s
}

/// The distance of `x` from zero.
pub open spec fn magnitude(x: int) -> nat {
    if x < 0 {
        (-x) as nat
    } else {
        x as nat
    }
}

/// The distance of a 32-bit offset from zero, which always fits in 64 bits.
pub fn offset_magnitude(x: i32) -> (m: u64)
    ensures
        m == magnitude(x as int),
{
    if x < 0 {
        let wide: i64 = x as i64;
        (0 - wide) as u64
    } else {
        x as u64
    }
}

/// The decimal numeral of a 64-bit number.
pub open spec fn numeral(n: u64) -> Seq<char> {
    decimal(n as nat)
}

/// The decimal numeral of a 32-bit number.
pub open spec fn numeral32(n: u32) -> Seq<char> {
    decimal(n as nat)
}

/// The decimal numeral of an 8-bit number.
pub open spec fn numeral8(n: u8) -> Seq<char> {
    decimal(n as nat)
}

/// The decimal numeral of the distance of an offset from zero.
pub open spec fn offset_numeral(offset: i32) -> Seq<char> {
    decimal(magnitude(offset as int))
}

/// Appends the decimal numeral of `n` to `s`.
pub fn push_numeral(s: &mut String, n: u64)
    ensures
        final(s)@ == old(s)@ + numeral(n),
{
    push_decimal(s, n);
}

/// Appends the decimal numeral of `n` to `s`.
pub fn push_numeral32(s: &mut String, n: u32)
    ensures
        final(s)@ == old(s)@ + numeral32(n),
{
    push_decimal(s, n as u64);
}

/// Appends the decimal numeral of `n` to `s`.
pub fn push_numeral8(s: &mut String, n: u8)
    ensures
        final(s)@ == old(s)@ + numeral8(n),
{
    push_decimal(s, n as u64);
}

/// Appends the decimal numeral of the distance of `offset` from zero to `s`.
pub fn push_offset(s: &mut String, offset: i32)
    ensures
        final(s)@ == old(s)@ + offset_numeral(offset),
{
    push_decimal(s, offset_magnitude(offset));
}

} // verus!
