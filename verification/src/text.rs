//! The two operations on text that the standard library performs for the crate.

use vstd::prelude::*;
use vstd::utf8::is_ascii_chars;

verus! {

/// The lowercase form of one ASCII character: `A` to `Z` move to `a` to `z`,
/// every other character stays.
pub open spec fn ascii_lower(c: char) -> char {
    if 'A' <= c <= 'Z' {
        ((c as u32) + 32) as char
    } else {
        c
    }
}

/// Every character of `text` replaced by its `ascii_lower`.
pub open spec fn ascii_lowercase(text: Seq<char>) -> Seq<char> {
    Seq::new(text.len(), |i: int| ascii_lower(text[i]))
}

/// What `str::to_lowercase` returns for a text that holds a character outside ASCII.
/// The mapping follows the Unicode case tables and is not written out here.
pub uninterp spec fn unicode_lowercase(text: Seq<char>) -> Seq<char>;

/// The lowercase form of `text`.
pub open spec fn lowercase(text: Seq<char>) -> Seq<char> {
    if is_ascii_chars(text) {
        ascii_lowercase(text)
    } else {
        unicode_lowercase(text)
    }
}

/// Calls `str::to_lowercase`. Trusted: on ASCII text the result is the text with
/// `A` to `Z` replaced by `a` to `z`; on any other text it is whatever the
/// standard library's Unicode mapping gives, the same for the same text.
#[verifier::external_body]
pub(crate) fn to_lowercase(text: &str) -> (lowered: String)
    ensures
        is_ascii_chars(text@) ==> lowered@ == ascii_lowercase(text@),
        !is_ascii_chars(text@) ==> lowered@ == unicode_lowercase(text@),
{
    text.to_lowercase()
}

/// Calls `String::push`. Trusted: the character is appended and nothing else changes.
#[verifier::external_body]
pub(crate) fn push_char(text: &mut String, c: char)
    ensures
        final(text)@ == old(text)@.push(c),
{
    text.push(c)
}

} // verus!
