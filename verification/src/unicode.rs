//! Unicode case mapping and character classes, which std computes from the
//! Unicode tables.

use vstd::prelude::*;
use vstd::utf8::is_ascii_chars;
use crate::text::ascii_lower_seq;

verus! {

/// What `str::to_lowercase` returns for a string: the Unicode lowercase
/// mapping, which takes most characters one by one but maps a capital sigma
/// by its place in a word.
pub uninterp spec fn unicode_lowercase(s: Seq<char>) -> Seq<char>;

/// `str::to_lowercase` as far as it can be written out: on ASCII text each
/// letter's ASCII lowercase, elsewhere the Unicode mapping.
pub open spec fn lowercase_of(s: Seq<char>) -> Seq<char> {
    if is_ascii_chars(s) {
        ascii_lower_seq(s)
    } else {
        unicode_lowercase(s)
    }
}

/// Whether a character has the Unicode `Alphabetic` property.
pub uninterp spec fn unicode_alphabetic(c: char) -> bool;

/// `str::to_lowercase`. Claims that the result is `unicode_lowercase` of the
/// input, and that an ASCII string lowercases as `to_ascii_lowercase` does
/// (the Unicode mapping of each ASCII letter is its ASCII lowercase letter,
/// and other ASCII characters map to themselves). Nothing is stated of the
/// mapping outside ASCII.
#[verifier::external_body]
pub(crate) fn to_lowercase(s: &str) -> (r: String)
    ensures
        r@ == unicode_lowercase(s@),
        is_ascii_chars(s@) ==> r@ == ascii_lower_seq(s@),
{
    s.to_lowercase()
}

/// `char::is_alphabetic`. Claims that the result is `unicode_alphabetic`,
/// and that the ASCII letters are alphabetic and the ASCII digits are not.
#[verifier::external_body]
pub(crate) fn is_alphabetic(c: char) -> (r: bool)
    ensures
        r == unicode_alphabetic(c),
        ('a' <= c && c <= 'z') || ('A' <= c && c <= 'Z') ==> r,
        '0' <= c && c <= '9' ==> !r,
{
    c.is_alphabetic()
}

} // verus!
