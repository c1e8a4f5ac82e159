//! Character classification used by the lexer.

use vstd::prelude::*;

verus! {

/// A decimal digit, `'0'` through `'9'`.
pub open spec fn digit(c: char) -> bool {
    48 <= c as u32 <= 57
}

/// The numeric value of a decimal digit.
pub open spec fn digit_val(c: char) -> nat {
    (c as u32 - 48) as nat
}

/// An ASCII letter, `'a'`..=`'z'` or `'A'`..=`'Z'`.
pub open spec fn ascii_letter(c: char) -> bool {
    (97 <= c as u32 <= 122) || (65 <= c as u32 <= 90)
}

/// Whether `c` has the Unicode `Alphabetic` property, as `char::is_alphabetic`
/// reports it. The property is a fixed function of the character; stating it in
/// full would reproduce the Unicode tables, so it is left as a name.
pub uninterp spec fn alphabetic(c: char) -> bool;

/// An alphabetic character or the underscore: what may start a word. On
/// ASCII this is decided outright; beyond ASCII it follows the Unicode
/// property.
pub open spec fn word_start(c: char) -> bool {
    ascii_letter(c) || c == '_' || ((c as u32) >= 128 && alphabetic(c))
}

/// Relies on `char::is_alphabetic`: true exactly on characters with the
/// Unicode `Alphabetic` property, which depends on the character alone.
/// Among ASCII characters, exactly the letters are alphabetic.
#[verifier::external_body]
pub(crate) fn is_alphabetic(c: char) -> (r: bool)
    ensures
        r == alphabetic(c),
        ascii_letter(c) ==> r,
        (c as u32) < 128 && !ascii_letter(c) ==> !r,
{
    c.is_alphabetic()
}

/// Decimal digit test, mirroring `digit`.
pub fn is_digit(c: char) -> (r: bool)
    ensures
        r == digit(c),
{
    let u: u32 = c as u32;
    48 <= u && u <= 57
}

} // verus!
