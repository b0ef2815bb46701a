//! What JSON values, the numbers in them and the parts of them are.

use vstd::prelude::*;
use vstd::utf8::encode_utf8;

use crate::decimal::{ascii_digits, digit_values, digits_value, integer_text_value, ten_to};
use crate::json::{distinct_names, json_equal, member_position, JsonValue};
use crate::number::{decimal_number, first_of, numbers_equal, same_number};
use crate::pointer::{array_position, selected};

verus! {

/// JSON values of different kinds are never the same.
pub proof fn law_json_kinds_differ(left: JsonValue, right: JsonValue)
    ensures
        json_equal(left, right) ==> (left is Null <==> right is Null) && (left is Bool <==> right
            is Bool) && (left is Number <==> right is Number) && (left is String <==> right
            is String) && (left is Array <==> right is Array) && (left is Object <==> right
            is Object),
{
}

/// Nulls are the same, truth values where they agree, texts character by character, and
/// numbers by what they write.
pub proof fn law_json_scalars_are_their_values(
    truth: bool,
    other_truth: bool,
    text: String,
    other_text: String,
)
    ensures
        json_equal(JsonValue::Null, JsonValue::Null),
        json_equal(JsonValue::Bool(truth), JsonValue::Bool(other_truth)) <==> truth == other_truth,
        json_equal(JsonValue::String(text), JsonValue::String(other_text)) <==> text@
            == other_text@,
        json_equal(JsonValue::Number(text), JsonValue::Number(other_text)) <==> (match (
            decimal_number(encode_utf8(text@)),
            decimal_number(encode_utf8(other_text@)),
        ) {
            (Some(number), Some(other)) => same_number(number, other),
            _ => false,
        }),
{
}

/// Arrays are the same exactly if they are of the same length and the same at every place.
pub proof fn law_json_arrays_are_their_items(left: Vec<JsonValue>, right: Vec<JsonValue>)
    ensures
        json_equal(JsonValue::Array(left), JsonValue::Array(right)) <==> left@.len() == right@.len()
            && forall|i: int| 0 <= i < left@.len() ==> json_equal(#[trigger] left@[i], right@[i]),
{
}

/// A member is found at the first place that has its name, and is not found exactly if no
/// place has it.
pub proof fn law_members_are_found_by_name(
    members: Seq<(String, JsonValue)>,
    name: Seq<char>,
    place: int,
)
    requires
        0 <= place < members.len(),
    ensures
        match member_position(members, name) {
            Some(position) => 0 <= position < members.len() && members[position].0@ == name && (
            members[place].0@ == name ==> position <= place),
            None => members[place].0@ != name,
        },
    decreases members.len(),
{
    let earlier = members.drop_last();
    if place < earlier.len() {
        law_members_are_found_by_name(earlier, name, place);
        assert(earlier[place] == members[place]);
    } else if earlier.len() > 0 {
        law_members_are_found_by_name(earlier, name, 0);
    }
    if let Some(position) = member_position(earlier, name) {
        law_members_are_found_by_name(earlier, name, 0);
        assert(earlier[position] == members[position]);
    }
}

/// Objects of distinct names are the same exactly if there are as many members in one as in
/// the other, and each name in one is in the other with the same value, wherever it stands.
pub proof fn law_json_objects_are_their_members(
    left: Vec<(String, JsonValue)>,
    right: Vec<(String, JsonValue)>,
)
    requires
        distinct_names(right@),
    ensures
        json_equal(JsonValue::Object(left), JsonValue::Object(right)) <==> left@.len()
            == right@.len() && forall|i: int|
            0 <= i < left@.len() ==> exists|j: int|
                0 <= j < right@.len() && (#[trigger] left@[i]).0@ == (#[trigger] right@[j]).0@
                    && json_equal(left@[i].1, right@[j].1),
{
    assert forall|i: int, j: int|
        0 <= i < left@.len() && 0 <= j < right@.len() && (#[trigger] left@[i]).0@ == (
        #[trigger] right@[j]).0@ implies member_position(right@, left@[i].0@) == Some(j) by {
        law_members_are_found_by_name(right@, left@[i].0@, j);
        let found = member_position(right@, left@[i].0@)->Some_0;
        if found != j {
            assert(right@[found].0@ != right@[j].0@);
        }
    }
    assert forall|i: int| 0 <= i < left@.len() implies (member_position(
        right@,
        (#[trigger] left@[i]).0@,
    ) matches Some(j) ==> 0 <= j < right@.len() && right@[j].0@ == left@[i].0@) by {
        if right@.len() > 0 {
            law_members_are_found_by_name(right@, left@[i].0@, 0);
        }
    }
    if json_equal(JsonValue::Object(left), JsonValue::Object(right)) {
        assert forall|i: int| 0 <= i < left@.len() implies exists|j: int|
            0 <= j < right@.len() && (#[trigger] left@[i]).0@ == (#[trigger] right@[j]).0@
                && json_equal(left@[i].1, right@[j].1) by {
            let j = member_position(right@, left@[i].0@)->Some_0;
            assert(left@[i].0@ == right@[j].0@);
        }
    }
}

/// No tokens select the value itself; a first token selects the member of its name from an
/// object, and the item at its place from an array; nothing else has parts.
pub proof fn law_selection_goes_token_by_token(value: JsonValue, tokens: Seq<Seq<char>>)
    ensures
        tokens.len() == 0 ==> selected(value, tokens) == Some(value),
        tokens.len() > 0 && !(value is Object) && !(value is Array) ==> selected(value, tokens)
            is None,
        tokens.len() > 0 ==> (value matches JsonValue::Object(members) ==> selected(value, tokens)
            == (match member_position(members@, tokens[0]) {
            Some(position) => selected(members@[position].1, tokens.skip(1)),
            None => None,
        })),
        tokens.len() > 0 ==> (value matches JsonValue::Array(items) ==> {
            let place = array_position(encode_utf8(tokens[0]));
            &&& place is None ==> selected(value, tokens) is None
            &&& place matches Some(index) ==> selected(value, tokens) == (if index
                < items@.len() {
                selected(items@[index], tokens.skip(1))
            } else {
                None
            })
        }),
{
}

/// A place is written in decimal digits, most significant first, without a leading zero.
pub proof fn law_places_are_canonical_decimals(token: Seq<u8>)
    ensures
        token == seq![48u8] ==> array_position(token) == Some(0int),
        array_position(token) is Some <==> token.len() > 0 && (forall|i: int|
            0 <= i < token.len() ==> 48 <= #[trigger] token[i] <= 57) && (token.len() == 1
            || token[0] != 48),
        token.len() > 1 && array_position(token) is Some ==> array_position(token) == Some(
            10 * digits_value(digit_values(token.drop_last())) + (token.last() - 48),
        ),
        token.len() == 1 && array_position(token) is Some ==> array_position(token) == Some(
            token[0] - 48,
        ),
{
    assert(digit_values(token).len() == token.len());
    if token.len() > 0 {
        assert(digit_values(token).drop_last() =~= digit_values(token.drop_last()));
        assert(digit_values(token).last() == (token.last() - 48) as u8);
        if token.len() == 1 {
            assert(digit_values(token).drop_last() =~= Seq::<u8>::empty());
        }
        if ascii_digits(token) {
            assert(48 <= token[token.len() - 1] <= 57);
        }
    }
    if array_position(token) is Some {
        assert forall|i: int| 0 <= i < token.len() implies 48 <= #[trigger] token[i] <= 57 by {}
    }
}

/// Each further digit of a number adds its value to ten times what stood before, and each
/// further power of ten is ten times the one before.
pub proof fn law_decimals_are_positional(digits: Seq<u8>, digit: u8, exponent: nat)
    ensures
        digits_value(Seq::<u8>::empty()) == 0,
        digits_value(digits.push(digit)) == 10 * digits_value(digits) + digit,
        ten_to(0) == 1,
        ten_to(exponent + 1) == 10 * ten_to(exponent),
{
    assert(digits.push(digit).drop_last() =~= digits);
}

/// Numbers with the same power of ten are the same exactly if their integers are.
pub proof fn law_equal_powers_are_compared_by_integer(left: int, right: int, exponent: int)
    ensures
        same_number((left, exponent), (right, exponent)) <==> left == right,
{
    assert(ten_to(0) == 1);
    assert(left * 1 == left && right * 1 == right);
}

proof fn lemma_first_of_joined(front: Seq<u8>, back: Seq<u8>, from: int, first: u8, second: u8)
    requires
        0 <= from <= front.len(),
        forall|i: int|
            0 <= i < front.len() ==> (#[trigger] front[i]) != first && front[i] != second,
        back.len() == 0 || back[0] == first || back[0] == second,
    ensures
        first_of(front + back, from, first, second) == (if back.len() == 0 {
            None
        } else {
            Some(front.len() as int)
        }),
    decreases front.len() - from,
{
    if from < front.len() {
        assert((front + back)[from] == front[from]);
        lemma_first_of_joined(front, back, from + 1, first, second);
    } else if back.len() > 0 {
        assert((front + back)[from] == back[0]);
    }
}

/// A number reads as it is written: its sign, its digits before and behind the point, and its
/// exponent, where it has them. The digits make an integer that is to be divided by ten for
/// each digit behind the point; the exponent moves the point. A zero is a zero.
pub proof fn law_numbers_read_as_written(
    negative: bool,
    integer: Seq<u8>,
    point: bool,
    fraction: Seq<u8>,
    mark: Option<u8>,
    exponent: Seq<u8>,
)
    requires
        integer.len() > 0,
        ascii_digits(integer),
        ascii_digits(fraction),
        !point ==> fraction.len() == 0,
        mark matches Some(mark) ==> mark == 'e' as u8 || mark == 'E' as u8,
        mark is None ==> exponent.len() == 0,
    ensures
        ({
            let sign = if negative {
                seq!['-' as u8]
            } else {
                Seq::empty()
            };
            let behind = if point {
                seq!['.' as u8] + fraction
            } else {
                Seq::empty()
            };
            let power = match mark {
                Some(mark) => seq![mark] + exponent,
                None => Seq::empty(),
            };
            let number = decimal_number(sign + (integer + behind + power));
            let digits = digits_value(digit_values(integer + fraction)) as int;
            let moved = match mark {
                Some(_) => integer_text_value(exponent),
                None => Some(0),
            };
            &&& digits == 0 ==> number == Some((0int, 0int))
            &&& digits != 0 ==> (number is Some <==> moved is Some)
            &&& digits != 0 ==> (moved matches Some(moved) ==> number == Some(
                (if negative { -digits } else { digits }, moved - fraction.len()),
            ))
        }),
{
    let sign = if negative {
        seq!['-' as u8]
    } else {
        Seq::empty()
    };
    let behind = if point {
        seq!['.' as u8] + fraction
    } else {
        Seq::empty()
    };
    let power = match mark {
        Some(mark) => seq![mark] + exponent,
        None => Seq::empty(),
    };
    let mantissa = integer + behind;
    let unsigned = mantissa + power;
    let text = sign + unsigned;
    assert(crate::decimal::ascii_digit(integer[0]));
    if negative {
        assert(text[0] == '-' as u8);
        assert(text.skip(1) =~= unsigned);
    } else {
        assert(text =~= unsigned);
        assert(text[0] == integer[0]);
    }
    assert forall|i: int| 0 <= i < mantissa.len() implies (#[trigger] mantissa[i]) != 'e' as u8
        && mantissa[i] != 'E' as u8 by {
        if i < integer.len() {
            assert(crate::decimal::ascii_digit(integer[i]));
        } else if i > integer.len() {
            assert(mantissa[i] == fraction[i - integer.len() - 1]);
            assert(crate::decimal::ascii_digit(fraction[i - integer.len() - 1]));
        }
    }
    lemma_first_of_joined(mantissa, power, 0, 'e' as u8, 'E' as u8);
    if power.len() > 0 {
        assert(unsigned.take(mantissa.len() as int) =~= mantissa);
        assert(unsigned.skip(mantissa.len() as int + 1) =~= exponent);
    } else {
        assert(unsigned =~= mantissa);
    }
    assert forall|i: int| 0 <= i < integer.len() implies (#[trigger] integer[i]) != '.' as u8 by {
        assert(crate::decimal::ascii_digit(integer[i]));
    }
    lemma_first_of_joined(integer, behind, 0, '.' as u8, '.' as u8);
    if behind.len() > 0 {
        assert(mantissa.take(integer.len() as int) =~= integer);
        assert(mantissa.skip(integer.len() as int + 1) =~= fraction);
    } else {
        assert(mantissa =~= integer);
        assert(fraction =~= Seq::<u8>::empty());
    }
}

/// Two written numbers are equal exactly if both are numbers, and the same one.
pub proof fn law_written_numbers_are_equal_by_value(left: Seq<u8>, right: Seq<u8>)
    ensures
        numbers_equal(left, right) <==> decimal_number(left) is Some && decimal_number(right)
            is Some && same_number(decimal_number(left)->Some_0, decimal_number(right)->Some_0),
{
}

/// The exponent of a number is an integer: digits, perhaps behind a sign, that counts down
/// if it is a minus.
pub proof fn law_exponents_are_signed_integers(digits: Seq<u8>)
    requires
        digits.len() > 0,
        ascii_digits(digits),
    ensures
        integer_text_value(digits) == Some(digits_value(digit_values(digits)) as int),
        integer_text_value(seq!['+' as u8] + digits) == Some(
            digits_value(digit_values(digits)) as int,
        ),
        integer_text_value(seq!['-' as u8] + digits) == Some(
            -(digits_value(digit_values(digits)) as int),
        ),
{
    assert(crate::decimal::ascii_digit(digits[0]));
    assert((seq!['+' as u8] + digits).skip(1) =~= digits);
    assert((seq!['-' as u8] + digits).skip(1) =~= digits);
}

/// Of numbers without leading zeros the shorter one is the smaller, and of equally long ones
/// that of the smaller value.
pub proof fn law_magnitudes_stand_by_value(left: Seq<u8>, right: Seq<u8>)
    requires
        crate::decimal::canonical(left),
        crate::decimal::canonical(right),
    ensures
        crate::decimal::magnitude_before(left, right) ==> digits_value(left) < digits_value(right),
        digits_value(left) < digits_value(right) ==> crate::decimal::magnitude_before(left, right),
{
    crate::decimal::lemma_digits_value_bounds(left);
    crate::decimal::lemma_digits_value_bounds(right);
    if left.len() < right.len() {
        crate::decimal::lemma_ten_to_monotone(left.len(), (right.len() - 1) as nat);
    } else if right.len() < left.len() {
        crate::decimal::lemma_ten_to_monotone(right.len(), (left.len() - 1) as nat);
    }
}

/// A text is no number without a digit before its point, or with anything but digits around
/// it.
pub proof fn law_other_texts_are_no_numbers(integer: Seq<u8>, point: bool, fraction: Seq<u8>)
    requires
        forall|i: int|
            0 <= i < integer.len() ==> #[trigger] integer[i] != '.' as u8 && integer[i] != 'e' as u8
                && integer[i] != 'E' as u8,
        forall|i: int|
            0 <= i < fraction.len() ==> #[trigger] fraction[i] != 'e' as u8 && fraction[i]
                != 'E' as u8,
        integer.len() > 0 ==> integer[0] != '-' as u8,
        !point ==> fraction.len() == 0,
        integer.len() == 0 || !ascii_digits(integer) || !ascii_digits(fraction),
    ensures
        ({
            let behind = if point {
                seq!['.' as u8] + fraction
            } else {
                Seq::empty()
            };
            &&& decimal_number(integer + behind) is None
            &&& decimal_number(seq!['-' as u8] + (integer + behind)) is None
        }),
{
    let behind = if point {
        seq!['.' as u8] + fraction
    } else {
        Seq::empty()
    };
    let mantissa = integer + behind;
    assert((seq!['-' as u8] + mantissa).skip(1) =~= mantissa);
    assert forall|i: int| 0 <= i < mantissa.len() implies (#[trigger] mantissa[i]) != 'e' as u8
        && mantissa[i] != 'E' as u8 by {
        if i > integer.len() {
            assert(mantissa[i] == fraction[i - integer.len() - 1]);
        }
    }
    assert(mantissa + Seq::<u8>::empty() =~= mantissa);
    lemma_first_of_joined(mantissa, Seq::empty(), 0, 'e' as u8, 'E' as u8);
    lemma_first_of_joined(integer, behind, 0, '.' as u8, '.' as u8);
    if behind.len() > 0 {
        assert(mantissa.take(integer.len() as int) =~= integer);
        assert(mantissa.skip(integer.len() as int + 1) =~= fraction);
    } else {
        assert(mantissa =~= integer);
        assert(fraction =~= Seq::<u8>::empty());
    }
    if mantissa.len() > 0 {
        assert(mantissa[0] != '-' as u8);
    }
}

/// A written exponent without digits, or with anything else, is none.
pub proof fn law_other_exponents_are_none(digits: Seq<u8>)
    requires
        digits.len() == 0 || !ascii_digits(digits),
    ensures
        digits.len() > 0 && digits[0] != '+' as u8 && digits[0] != '-' as u8 ==> integer_text_value(
            digits,
        ) is None,
        integer_text_value(Seq::empty()) is None,
        integer_text_value(seq!['+' as u8] + digits) is None,
        integer_text_value(seq!['-' as u8] + digits) is None,
{
    assert((seq!['+' as u8] + digits).skip(1) =~= digits);
    assert((seq!['-' as u8] + digits).skip(1) =~= digits);
}

} // verus!
