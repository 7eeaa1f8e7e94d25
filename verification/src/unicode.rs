//! Character classes used by the scanners, and the UTF-8 / UTF-16 widths
//! of a character.

use vstd::prelude::*;

verus! {

/// `c` is an ASCII letter.
pub open spec fn is_ascii_letter(c: char) -> bool {
    (0x61 <= (c as u32) && (c as u32) <= 0x7a) || (0x41 <= (c as u32) && (c as u32) <= 0x5a)
}

/// `c` is an ASCII decimal digit.
pub open spec fn is_ascii_digit(c: char) -> bool {
    0x30 <= (c as u32) && (c as u32) <= 0x39
}

/// `c` lies in the CJK Unified Ideographs block U+4E00..=U+9FFF.
pub open spec fn is_cjk(c: char) -> bool {
    0x4E00 <= (c as u32) && (c as u32) <= 0x9FFF
}

/// Name for what `char::is_alphanumeric` answers (Unicode Alphabetic or Numeric).
pub uninterp spec fn spec_char_is_alphanumeric(c: char) -> bool;

/// Name for what `char::is_alphabetic` answers (Unicode Alphabetic property).
pub uninterp spec fn spec_char_is_alphabetic(c: char) -> bool;

/// The Unicode White_Space property, which `char::is_whitespace` answers:
/// U+0009..=U+000D, U+0020, U+0085, U+00A0, U+1680, U+2000..=U+200A,
/// U+2028, U+2029, U+202F, U+205F and U+3000.
pub open spec fn spec_char_is_whitespace(c: char) -> bool {
    let u = c as u32;
    ||| 0x09 <= u <= 0x0d
    ||| u == 0x20
    ||| u == 0x85
    ||| u == 0xa0
    ||| u == 0x1680
    ||| 0x2000 <= u <= 0x200a
    ||| u == 0x2028
    ||| u == 0x2029
    ||| u == 0x202f
    ||| u == 0x205f
    ||| u == 0x3000
}

/// Calls `char::is_alphanumeric`. Claims: the answer is the named property, and
/// on ASCII it holds exactly of letters and digits (as std documents).
#[verifier::external_body]
pub(crate) fn char_is_alphanumeric(c: char) -> (r: bool)
    ensures
        r == spec_char_is_alphanumeric(c),
        (c as u32) < 0x80 ==> (r <==> (is_ascii_letter(c) || is_ascii_digit(c))),
{
    c.is_alphanumeric()
}

/// Calls `char::is_alphabetic`. Claims: the answer is the named property, and
/// on ASCII it holds exactly of letters.
#[verifier::external_body]
pub(crate) fn char_is_alphabetic(c: char) -> (r: bool)
    ensures
        r == spec_char_is_alphabetic(c),
        (c as u32) < 0x80 ==> (r <==> is_ascii_letter(c)),
{
    c.is_alphabetic()
}

/// Calls `char::is_whitespace`. Claims: the answer is the Unicode
/// White_Space property, as std documents it.
#[verifier::external_body]
pub(crate) fn char_is_whitespace(c: char) -> (r: bool)
    ensures
        r == spec_char_is_whitespace(c),
{
    c.is_whitespace()
}

/// Whether `c` is an ASCII decimal digit.
pub fn char_is_ascii_digit(c: char) -> (r: bool)
    ensures
        r == is_ascii_digit(c),
{
    let u = c as u32;
    0x30 <= u && u <= 0x39
}

/// Whether `c` lies in the CJK Unified Ideographs block.
pub fn char_is_cjk(c: char) -> (r: bool)
    ensures
        r == is_cjk(c),
{
    let u = c as u32;
    0x4E00 <= u && u <= 0x9FFF
}

/// A Unicode scalar value: a code point up to U+10FFFF that is not a
/// surrogate.
pub open spec fn is_scalar_value(u: int) -> bool {
    0 <= u <= 0x10FFFF && !(0xD800 <= u <= 0xDFFF)
}

/// Calls `char::from_u32`. Claims (as std documents): `Some` exactly when
/// `u` is a Unicode scalar value, holding the character with that code.
#[verifier::external_body]
pub(crate) fn char_from_u32(u: u32) -> (r: Option<char>)
    ensures
        r is Some <==> is_scalar_value(u as int),
        r matches Some(c) ==> c as u32 == u,
{
    char::from_u32(u)
}

/// Number of UTF-16 code units that encode `c`.
pub open spec fn spec_len_utf16(c: char) -> nat {
    if (c as u32) < 0x10000 {
        1
    } else {
        2
    }
}

/// Number of UTF-8 bytes that encode `c`.
pub open spec fn spec_len_utf8(c: char) -> nat {
    if (c as u32) < 0x80 {
        1
    } else if (c as u32) < 0x800 {
        2
    } else if (c as u32) < 0x10000 {
        3
    } else {
        4
    }
}

/// Number of UTF-16 code units that encode `c`.
pub fn char_len_utf16(c: char) -> (r: u32)
    ensures
        r == spec_len_utf16(c),
        1 <= r <= 2,
{
    if (c as u32) < 0x10000 {
        1
    } else {
        2
    }
}

/// Number of UTF-8 bytes that encode `c`.
pub fn char_len_utf8(c: char) -> (r: u32)
    ensures
        r == spec_len_utf8(c),
        1 <= r <= 4,
{
    let u = c as u32;
    if u < 0x80 {
        1
    } else if u < 0x800 {
        2
    } else if u < 0x10000 {
        3
    } else {
        4
    }
}

} // verus!
