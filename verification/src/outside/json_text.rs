//! JSON text of one optional string, by the `serde_json` crate.
use crate::number::hex_char;
use vstd::prelude::*;

verus! {

/// The errors of the `serde_json` crate.
#[verifier::external_type_specification]
#[verifier::external_body]
pub struct ExJsonError(serde_json::Error);

/// A character inside a JSON string: the quote, the backslash and the control
/// characters are escaped, all others stand as they are.
pub open spec fn json_char(c: char) -> Seq<char> {
    let code = c as int;
    if c == '"' {
        seq!['\\', '"']
    } else if c == '\\' {
        seq!['\\', '\\']
    } else if code == 8 {
        seq!['\\', 'b']
    } else if code == 9 {
        seq!['\\', 't']
    } else if code == 10 {
        seq!['\\', 'n']
    } else if code == 12 {
        seq!['\\', 'f']
    } else if code == 13 {
        seq!['\\', 'r']
    } else if code < 32 {
        seq!['\\', 'u', '0', '0', hex_char(code / 16), hex_char(code % 16)]
    } else {
        seq![c]
    }
}

/// Characters inside a JSON string, one after the other.
pub open spec fn json_chars(s: Seq<char>) -> Seq<char>
    decreases s.len(),
{
    if s.len() == 0 {
        seq![]
    } else {
        json_chars(s.drop_last()) + json_char(s.last())
    }
}

/// The JSON text of an optional string.
pub open spec fn json_value(value: Option<Seq<char>>) -> Seq<char> {
    match value {
        Some(s) => seq!['"'] + json_chars(s) + seq!['"'],
        None => seq!['n', 'u', 'l', 'l'],
    }
}

/// The characters of an optional string slice.
pub open spec fn optional_chars(value: Option<&str>) -> Option<Seq<char>> {
    match value {
        Some(s) => Some(s@),
        None => None,
    }
}

/// `serde_json::to_string` of an optional string slice: `null`, or the string in
/// quotes with quote, backslash and control characters escaped. No string fails.
#[verifier::external_body]
pub(crate) fn json_of(value: Option<&str>) -> (json: Result<String, serde_json::Error>)
    ensures
        json is Ok,
        json->Ok_0@ == json_value(optional_chars(value)),
{
    serde_json::to_string(&value)
}

} // verus!
