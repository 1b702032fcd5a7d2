//! Trusted bridges to the two pieces of std string handling that vstd gives
//! no specification for: appending one character to a `String`, and forming a
//! `char` from a code point.

use vstd::prelude::*;

verus! {

/// Relies on `String::push`: it appends the given character to the end of
/// the string.
#[verifier::external_body]
pub(crate) fn push_char(s: &mut String, c: char)
    ensures
        final(s)@ == old(s)@.push(c),
{
    s.push(c);
}

/// Relies on `char::from_u32`: for a code point below the surrogate range it
/// returns `Some` of the character with exactly that scalar value.
#[verifier::external_body]
pub(crate) fn char_from_code(u: u32) -> (c: char)
    requires
        u < 0xD800,
    ensures
        c as u32 == u,
{
    char::from_u32(u).unwrap()
}

} // verus!
