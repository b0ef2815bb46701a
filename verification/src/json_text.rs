//! Writing JSON text.

use vstd::prelude::*;

verus! {

/// A hexadecimal digit.
pub open spec fn hex_digit(value: int) -> char {
    if value < 10 {
        ('0' as u32 + value) as char
    } else {
        ('a' as u32 + value - 10) as char
    }
}

/// How a character stands in a JSON string: quotation marks, backslashes and
/// control characters are escaped, every other one stands for itself.
pub open spec fn json_escaped(character: char) -> Seq<char> {
    let code = character as u32;
    if code == 0x22 || code == 0x5c {
        seq!['\\', character]
    } else if code == 0x08 {
        seq!['\\', 'b']
    } else if code == 0x09 {
        seq!['\\', 't']
    } else if code == 0x0a {
        seq!['\\', 'n']
    } else if code == 0x0c {
        seq!['\\', 'f']
    } else if code == 0x0d {
        seq!['\\', 'r']
    } else if code < 0x20 {
        seq!['\\', 'u', '0', '0', hex_digit(code as int / 16), hex_digit(code as int % 16)]
    } else {
        seq![character]
    }
}

/// How the characters of a text stand in a JSON string, one after the other.
pub open spec fn json_escapes(text: Seq<char>) -> Seq<char>
    decreases text.len(),
{
    if text.len() == 0 {
        Seq::empty()
    } else {
        json_escapes(text.drop_last()) + json_escaped(text.last())
    }
}

/// The JSON string that stands for `text`.
pub open spec fn json_quoted(text: Seq<char>) -> Seq<char> {
    seq!['"'] + json_escapes(text) + seq!['"']
}

/// `serde_json::to_string` of a string slice: the text in quotation marks, with
/// quotation marks, backslashes and control characters escaped. Writing a string
/// slice to memory reports no error.
#[verifier::external_body]
pub(crate) fn quote_json(text: &str) -> (quoted: String)
    ensures
        quoted@ == json_quoted(text@),
{
    serde_json::to_string(text).expect("a string slice is always written")
}

} // verus!
