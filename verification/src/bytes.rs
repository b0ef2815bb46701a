//! Byte-sequence helpers shared by the parsers.

use vstd::prelude::*;
use vstd::string::StringSliceAdditionalSpecFns;

verus! {

/// Whether `byte` is one of the characters `0-9` and `a-f`.
pub open spec fn lowercase_hex_digit(byte: u8) -> bool {
    ||| '0' as u8 <= byte <= '9' as u8
    ||| 'a' as u8 <= byte <= 'f' as u8
}

/// The number that one lowercase hexadecimal digit stands for.
pub open spec fn hex_digit_value(byte: u8) -> int {
    if byte <= '9' as u8 {
        byte - '0' as u8
    } else {
        byte - 'a' as u8 + 10
    }
}

/// Whether `bytes` are exactly `length` lowercase hexadecimal digits.
pub open spec fn lowercase_hex(bytes: Seq<u8>, length: nat) -> bool {
    &&& bytes.len() == length
    &&& forall|i: int| 0 <= i < bytes.len() ==> lowercase_hex_digit(#[trigger] bytes[i])
}

/// Whether two byte slices hold the same bytes.
pub fn bytes_equal(left: &[u8], right: &[u8]) -> (equal: bool)
    ensures
        equal == (left@ == right@),
{
    if left.len() != right.len() {
        return false;
    }
    let mut index: usize = 0;
    while index < left.len()
        invariant
            index <= left.len(),
            left.len() == right.len(),
            left@.take(index as int) == right@.take(index as int),
        decreases left.len() - index,
    {
        if left[index] != right[index] {
            assert(left@[index as int] != right@[index as int]);
            return false;
        }
        assert(left@.take(index + 1) =~= left@.take(index as int).push(left@[index as int]));
        assert(right@.take(index + 1) =~= right@.take(index as int).push(right@[index as int]));
        index = index + 1;
    }
    assert(left@.take(index as int) =~= left@);
    assert(right@.take(index as int) =~= right@);
    true
}

/// Whether `bytes` are exactly `length` lowercase hexadecimal digits.
pub fn is_lowercase_hex_bytes(bytes: &[u8], length: usize) -> (valid: bool)
    ensures
        valid == lowercase_hex(bytes@, length as nat),
{
    if bytes.len() != length {
        return false;
    }
    let mut index: usize = 0;
    while index < bytes.len()
        invariant
            index <= bytes.len(),
            forall|i: int| 0 <= i < index ==> lowercase_hex_digit(#[trigger] bytes@[i]),
        decreases bytes.len() - index,
    {
        let byte: u8 = bytes[index];
        if !(('0' as u8 <= byte && byte <= '9' as u8) || ('a' as u8 <= byte && byte <= 'f' as u8)) {
            assert(!lowercase_hex_digit(bytes@[index as int]));
            return false;
        }
        index = index + 1;
    }
    true
}

/// Whether `value` is exactly `length` lowercase hexadecimal digits.
pub fn is_lowercase_hex(value: &str, length: usize) -> (valid: bool)
    ensures
        valid == lowercase_hex(value.spec_bytes(), length as nat),
{
    is_lowercase_hex_bytes(value.as_bytes(), length)
}

/// An owned copy of `source`.
pub fn copy_bytes(source: &[u8]) -> (copy: Vec<u8>)
    ensures
        copy@ == source@,
{
    let mut copy: Vec<u8> = Vec::new();
    append_bytes(&mut copy, source);
    copy
}

/// Appends `source` to `destination`.
pub fn append_bytes(destination: &mut Vec<u8>, source: &[u8])
    ensures
        final(destination)@ == old(destination)@ + source@,
{
    destination.extend_from_slice(source);
    assert(destination@ =~= old(destination)@ + source@);
}

/// Whether `left` stands before `right` in the order of their bytes.
pub open spec fn bytes_before(left: Seq<u8>, right: Seq<u8>) -> bool
    decreases left.len(),
{
    if right.len() == 0 {
        false
    } else if left.len() == 0 {
        true
    } else if left[0] != right[0] {
        left[0] < right[0]
    } else {
        bytes_before(left.skip(1), right.skip(1))
    }
}

/// The order of bytes is a strict total order.
pub proof fn law_byte_order_is_total(a: Seq<u8>, b: Seq<u8>, c: Seq<u8>)
    ensures
        !bytes_before(a, a),
        bytes_before(a, b) || a == b || bytes_before(b, a),
        !(bytes_before(a, b) && bytes_before(b, a)),
        bytes_before(a, b) && bytes_before(b, c) ==> bytes_before(a, c),
    decreases a.len() + b.len() + c.len(),
{
    if a.len() > 0 {
        if b.len() > 0 && c.len() > 0 {
            law_byte_order_is_total(a.skip(1), b.skip(1), c.skip(1));
        } else if b.len() > 0 {
            law_byte_order_is_total(a.skip(1), b.skip(1), c);
        } else {
            law_byte_order_is_total(a.skip(1), b, c);
        }
    }
    if a.len() > 0 && b.len() > 0 && a[0] == b[0] && a.skip(1) == b.skip(1) {
        assert(a =~= seq![a[0]] + a.skip(1));
        assert(b =~= seq![b[0]] + b.skip(1));
    }
    if a.len() == 0 && b.len() == 0 {
        assert(a =~= b);
    }
}

/// The order of bytes is that of a dictionary: a beginning stands before all that it
/// begins, and otherwise the first byte that differs decides, the smaller one first.
pub proof fn law_byte_order_is_that_of_a_dictionary(left: Seq<u8>, right: Seq<u8>, place: int)
    requires
        0 <= place <= left.len(),
        place <= right.len(),
        left.take(place) == right.take(place),
    ensures
        place == left.len() ==> (bytes_before(left, right) <==> left.len() < right.len()),
        place < left.len() && place < right.len() && left[place] != right[place] ==> (bytes_before(
            left,
            right,
        ) <==> left[place] < right[place]),
    decreases place,
{
    if place > 0 {
        assert(left.take(place)[0] == left[0] && right.take(place)[0] == right[0]);
        assert(left.skip(1).take(place - 1) =~= left.take(place).skip(1));
        assert(right.skip(1).take(place - 1) =~= right.take(place).skip(1));
        law_byte_order_is_that_of_a_dictionary(left.skip(1), right.skip(1), place - 1);
    }
}

/// Hexadecimal digits stand for their place among `0123456789abcdef`.
pub proof fn law_hexadecimal_digits_count_to_fifteen(byte: u8, other: u8)
    requires
        lowercase_hex_digit(byte),
        lowercase_hex_digit(other),
    ensures
        0 <= hex_digit_value(byte) < 16,
        '0' as u8 <= byte <= '9' as u8 ==> hex_digit_value(byte) == byte - 48,
        'a' as u8 <= byte <= 'f' as u8 ==> hex_digit_value(byte) == byte - 87,
        hex_digit_value(byte) == hex_digit_value(other) ==> byte == other,
{
}

/// Lowercase hexadecimal digits are the bytes 48 to 57 and 97 to 102.
pub proof fn law_hexadecimal_texts_are_lowercase(bytes: Seq<u8>, length: nat, index: int)
    requires
        lowercase_hex(bytes, length),
        0 <= index < bytes.len(),
    ensures
        bytes.len() == length,
        48 <= bytes[index] <= 57 || 97 <= bytes[index] <= 102,
{
}

/// Whether `left` stands before `right` in the order of their bytes.
pub fn stands_before(left: &[u8], right: &[u8]) -> (before: bool)
    ensures
        before == bytes_before(left@, right@),
{
    let mut index: usize = 0;
    assert(left@.skip(0) =~= left@);
    assert(right@.skip(0) =~= right@);
    while index < left.len() && index < right.len()
        invariant
            index <= left@.len(),
            index <= right@.len(),
            bytes_before(left@, right@) == bytes_before(
                left@.skip(index as int),
                right@.skip(index as int),
            ),
        decreases left@.len() - index,
    {
        if left[index] != right[index] {
            return left[index] < right[index];
        }
        assert(left@.skip(index as int).skip(1) =~= left@.skip(index + 1));
        assert(right@.skip(index as int).skip(1) =~= right@.skip(index + 1));
        index = index + 1;
    }
    index < right.len()
}

} // verus!
