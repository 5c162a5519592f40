//! The case of letters.

use vstd::prelude::*;

verus! {

/// Whether the character is a capital letter of ASCII.
pub open spec fn is_capital(ch: char) -> bool {
    'A' <= ch <= 'Z'
}

/// The small letter of a capital letter of ASCII; any other character itself.
pub open spec fn to_small(ch: char) -> char {
    if is_capital(ch) {
        (ch as u8 + 32) as u8 as char
    } else {
        ch
    }
}

/// The capital letter of a small letter of ASCII; any other character itself.
pub open spec fn to_capital(ch: char) -> char {
    if 'a' <= ch <= 'z' {
        (ch as u8 - 32) as u8 as char
    } else {
        ch
    }
}

/// Decides `is_capital`.
pub fn capital(ch: char) -> (is: bool)
    ensures
        is == is_capital(ch),
{
    'A' <= ch && ch <= 'Z'
}

/// Computes `to_small`.
pub fn small(ch: char) -> (lowered: char)
    ensures
        lowered == to_small(ch),
{
    if capital(ch) {
        let code: u8 = ch as u8;
        (code + 32) as char
    } else {
        ch
    }
}

/// The characters to which Unicode maps a character in upper case.
pub uninterp spec fn upper_case(ch: char) -> Seq<char>;

/// `char::to_uppercase` of the standard library: the characters of the mapping, in order; for a
/// character of ASCII the one that `to_capital` gives. No character but the underscore and the
/// hyphen themselves maps to one of these two. Which characters the others map to is not
/// described further.
#[verifier::external_body]
pub(crate) fn upper_case_of(ch: char) -> (mapped: String)
    ensures
        mapped@ == upper_case(ch),
        ch as nat <= 127 ==> mapped@ == seq![to_capital(ch)],
        ch != '_' && ch != '-' ==> !mapped@.contains('_') && !mapped@.contains('-'),
{
    ch.to_uppercase().collect()
}

}
