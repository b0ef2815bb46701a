//! Text helpers shared by the library's modules.

use vstd::prelude::*;
use vstd::string::StringSliceAdditionalSpecFns;
use vstd::utf8::{encode_utf8, encode_utf8_decode_utf8, valid_utf8};

use crate::bytes::bytes_equal;

verus! {

/// `String::push` appends one character.
pub assume_specification[ std::string::String::push ](
    text: &mut std::string::String,
    character: char,
)
    ensures
        final(text)@ == old(text)@.push(character),
;

/// Different texts have different UTF-8 encodings.
pub proof fn lemma_utf8_injective(left: Seq<char>, right: Seq<char>)
    ensures
        encode_utf8(left) == encode_utf8(right) <==> left == right,
{
    encode_utf8_decode_utf8(left);
    encode_utf8_decode_utf8(right);
}

/// Whether two texts are the same, character by character.
pub fn text_equal(left: &str, right: &str) -> (equal: bool)
    ensures
        equal == (left@ == right@),
{
    proof {
        lemma_utf8_injective(left@, right@);
    }
    bytes_equal(left.as_bytes(), right.as_bytes())
}

/// The characters of a text.
pub fn text_chars(text: &str) -> (chars: Vec<char>)
    ensures
        chars@ == text@,
{
    let mut chars: Vec<char> = Vec::new();
    for character in iter: text.chars()
        invariant
            chars@ == text@.take(iter.index()),
            iter.seq() == text@,
    {
        chars.push(character);
        assert(text@.take(iter.index() + 1) =~= text@.take(iter.index()).push(character));
    }
    assert(text@.take(text@.len() as int) =~= text@);
    chars
}

/// Appends `suffix` to `text`.
pub fn push_text(text: &mut String, suffix: &str)
    ensures
        final(text)@ == old(text)@ + suffix@,
{
    let chars: Vec<char> = text_chars(suffix);
    let mut index: usize = 0;
    while index < chars.len()
        invariant
            index <= chars@.len(),
            chars@ == suffix@,
            text@ == old(text)@ + suffix@.take(index as int),
        decreases chars@.len() - index,
    {
        text.push(chars[index]);
        assert(suffix@.take(index + 1) =~= suffix@.take(index as int).push(suffix@[index as int]));
        assert(old(text)@ + suffix@.take(index + 1) =~= text@);
        index = index + 1;
    }
    assert(suffix@.take(index as int) =~= suffix@);
}

/// The decimal digits of `value`, without leading zeros.
pub open spec fn decimal_text(value: nat) -> Seq<char>
    decreases value,
{
    if value < 10 {
        seq![('0' as u32 + value) as char]
    } else {
        decimal_text(value / 10).push(('0' as u32 + value % 10) as char)
    }
}

/// The digits are those of the number: read from the left, they make it again. There are
/// only digits, and no leading zero but that of zero itself.
pub proof fn law_decimal_texts_read_back(value: nat)
    ensures
        decimal_value(decimal_text(value)) == value,
        decimal_text(value).len() > 0,
        forall|i: int|
            0 <= i < decimal_text(value).len() ==> '0' <= #[trigger] decimal_text(value)[i] <= '9',
        value > 0 ==> decimal_text(value)[0] != '0',
    decreases value,
{
    let digit = ('0' as u32 + value % 10) as char;
    assert(digit as u32 == 48 + value % 10);
    assert(decimal_text(value).last() == digit);
    assert(decimal_value(Seq::<char>::empty()) == 0);
    assert(decimal_value(decimal_text(value)) == 10 * decimal_value(
        decimal_text(value).drop_last(),
    ) + value % 10);
    if value >= 10 {
        law_decimal_texts_read_back(value / 10);
        let text = decimal_text(value);
        assert(text.drop_last() =~= decimal_text(value / 10));
        assert(text[0] == decimal_text(value / 10)[0]);
    } else {
        assert(decimal_text(value).drop_last() =~= Seq::<char>::empty());
    }
}

/// The number that decimal digits make, read from the left.
pub open spec fn decimal_value(digits: Seq<char>) -> int
    decreases digits.len(),
{
    if digits.len() == 0 {
        0
    } else {
        10 * decimal_value(digits.drop_last()) + (digits.last() as u32 - 48)
    }
}

/// Appends the decimal digits of `value`.
pub fn push_decimal_text(text: &mut String, value: u64)
    ensures
        final(text)@ == old(text)@ + decimal_text(value as nat),
    decreases value,
{
    if value >= 10 {
        push_decimal_text(text, value / 10);
    }
    let digit: char = ('0' as u8 + (value % 10) as u8) as char;
    text.push(digit);
    assert(text@ =~= old(text)@ + decimal_text(value as nat));
}

/// The texts of a list of strings.
pub open spec fn texts(strings: Seq<String>) -> Seq<Seq<char>> {
    strings.map_values(|string: String| string@)
}

/// `std::str::from_utf8`: the text that the bytes encode, if they are valid UTF-8.
#[verifier::external_body]
pub(crate) fn utf8_text(bytes: &[u8]) -> (text: Option<&str>)
    ensures
        match text {
            Some(text) => valid_utf8(bytes@) && text.spec_bytes() == bytes@,
            None => !valid_utf8(bytes@),
        },
{
    std::str::from_utf8(bytes).ok()
}

} // verus!
