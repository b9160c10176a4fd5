//! HTTP header values, by the `reqwest` crate.
use vstd::prelude::*;

verus! {

/// The character may stand in the value of an HTTP header.
pub open spec fn is_header_char(c: char) -> bool {
    (c as int >= 32 && c as int != 127) || c as int == 9
}

/// All characters may stand in the value of an HTTP header.
pub open spec fn is_header_text(text: Seq<char>) -> bool {
    forall|i: int| 0 <= i < text.len() ==> is_header_char(#[trigger] text[i])
}

/// `reqwest::header::HeaderValue::from_str`: the text of its error, if it fails.
/// It fails where a character is a control character other than the tab, and
/// always with the same text.
#[verifier::external_body]
pub(crate) fn header_problem(text: &str) -> (problem: Option<String>)
    ensures
        match problem {
            None => is_header_text(text@),
            Some(reason) => !is_header_text(text@) && reason@ == "failed to parse header value"@,
        },
{
    reqwest::header::HeaderValue::from_str(text)
        .err()
        .map(|error| error.to_string())
}

} // verus!
