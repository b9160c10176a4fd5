//! Functions of the standard library on text, whose results follow the tables
//! of Unicode.
use vstd::prelude::*;

verus! {

/// The text that `{:?}` writes for a string.
pub uninterp spec fn debug_text(text: Seq<char>) -> Seq<char>;

/// `format!` of a string by its `Debug` impl, named by `debug_text`.
#[verifier::external_body]
pub(crate) fn debug_of(text: &str) -> (written: String)
    ensures
        written@ == debug_text(text@),
{
    format!("{text:?}")
}

/// A text in upper case, by the mappings of Unicode.
pub uninterp spec fn uppercase(text: Seq<char>) -> Seq<char>;

/// All characters are those of ASCII.
pub open spec fn is_ascii(text: Seq<char>) -> bool {
    forall|i: int| 0 <= i < text.len() ==> (#[trigger] text[i] as int) < 128
}

/// A character of ASCII in upper case.
pub open spec fn ascii_upper(c: char) -> char {
    if 'a' <= c <= 'z' {
        (c as int - 32) as char
    } else {
        c
    }
}

/// `str::to_uppercase`, named by `uppercase`. In a text of ASCII each small letter
/// becomes the capital one, and nothing else changes.
#[verifier::external_body]
pub(crate) fn uppercase_of(text: &str) -> (upper: String)
    ensures
        upper@ == uppercase(text@),
        is_ascii(text@) ==> upper@ == text@.map_values(|c: char| ascii_upper(c)),
{
    text.to_uppercase()
}

/// The character is a letter or a number, by the tables of Unicode.
pub uninterp spec fn is_alphanumeric(c: char) -> bool;

/// `char::is_alphanumeric`, named by `is_alphanumeric`. Of the characters of
/// ASCII it holds for the letters and the digits.
#[verifier::external_body]
pub(crate) fn alphanumeric(c: char) -> (yes: bool)
    ensures
        yes == is_alphanumeric(c),
        (c as int) < 128 ==> yes == ('0' <= c <= '9' || 'A' <= c <= 'Z' || 'a' <= c <= 'z'),
{
    c.is_alphanumeric()
}

} // verus!
