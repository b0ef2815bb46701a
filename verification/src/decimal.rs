//! Exact comparison of decimal numbers of any size, as JSON writes them.

use std::cmp::Ordering;

use vstd::prelude::*;

use crate::bytes::{bytes_equal, copy_bytes};

verus! {

/// Ten to the power of `exponent`.
pub open spec fn ten_to(exponent: nat) -> nat
    decreases exponent,
{
    if exponent == 0 {
        1
    } else {
        10 * ten_to((exponent - 1) as nat)
    }
}

/// The number that decimal digits make, most significant digit first.
pub open spec fn digits_value(digits: Seq<u8>) -> nat
    decreases digits.len(),
{
    if digits.len() == 0 {
        0
    } else {
        10 * digits_value(digits.drop_last()) + digits.last() as nat
    }
}

/// Whether every element is a decimal digit.
pub open spec fn decimal(digits: Seq<u8>) -> bool {
    forall|i: int| 0 <= i < digits.len() ==> #[trigger] digits[i] < 10
}

/// Whether `digits` are decimal, at least one, and without leading zeros.
pub open spec fn canonical(digits: Seq<u8>) -> bool {
    &&& decimal(digits)
    &&& digits.len() > 0
    &&& digits.len() > 1 ==> digits[0] != 0
}

pub(crate) proof fn lemma_ten_to_positive(exponent: nat)
    ensures
        ten_to(exponent) > 0,
    decreases exponent,
{
    if exponent > 0 {
        lemma_ten_to_positive((exponent - 1) as nat);
    }
}

pub(crate) proof fn lemma_ten_to_adds(left: nat, right: nat)
    ensures
        ten_to(left + right) == ten_to(left) * ten_to(right),
    decreases left,
{
    if left == 0 {
        assert(ten_to(0) * ten_to(right) == ten_to(right)) by (nonlinear_arith)
            requires
                ten_to(0) == 1,
        ;
    } else {
        let less = (left - 1) as nat;
        lemma_ten_to_adds(less, right);
        assert(ten_to(left + right) == 10 * ten_to(less + right)) by {
            assert((left + right - 1) as nat == less + right);
        }
        assert(10 * (ten_to(less) * ten_to(right)) == (10 * ten_to(less)) * ten_to(right))
            by (nonlinear_arith);
    }
}

pub(crate) proof fn lemma_digits_value_bounds(digits: Seq<u8>)
    requires
        decimal(digits),
    ensures
        digits_value(digits) < ten_to(digits.len()),
        digits.len() > 0 && digits[0] != 0 ==> digits_value(digits) >= ten_to(
            (digits.len() - 1) as nat,
        ),
    decreases digits.len(),
{
    if digits.len() > 0 {
        let rest = digits.drop_last();
        assert(decimal(rest)) by {
            assert forall|i: int| 0 <= i < rest.len() implies #[trigger] rest[i] < 10 by {
                assert(digits[i] < 10);
            }
        }
        assert(digits.last() < 10);
        lemma_digits_value_bounds(rest);
        if digits.len() > 1 {
            assert(rest[0] == digits[0]);
        }
    }
}

pub(crate) proof fn lemma_single_digit(digit: u8)
    ensures
        digits_value(seq![digit]) == digit,
        digits_value(Seq::<u8>::empty()) == 0,
{
    assert(seq![digit].drop_last() =~= Seq::<u8>::empty());
    reveal_with_fuel(digits_value, 2);
}

proof fn lemma_digits_value_front(digit: u8, rest: Seq<u8>)
    ensures
        digits_value(seq![digit] + rest) == digit * ten_to(rest.len()) + digits_value(rest),
    decreases rest.len(),
{
    let whole = seq![digit] + rest;
    if rest.len() == 0 {
        assert(whole =~= seq![digit]);
        lemma_single_digit(digit);
        assert(digit * ten_to(0) == digit) by (nonlinear_arith)
            requires
                ten_to(0) == 1,
        ;
    } else {
        assert(whole.drop_last() =~= seq![digit] + rest.drop_last());
        lemma_digits_value_front(digit, rest.drop_last());
        let power = ten_to((rest.len() - 1) as nat);
        assert(10 * (digit * power) == digit * (10 * power)) by (nonlinear_arith);
    }
}

pub(crate) proof fn lemma_digits_value_concat(left: Seq<u8>, right: Seq<u8>)
    ensures
        digits_value(left + right) == digits_value(left) * ten_to(right.len()) + digits_value(
            right,
        ),
    decreases right.len(),
{
    if right.len() == 0 {
        assert(left + right =~= left);
        assert(digits_value(left) * ten_to(0) == digits_value(left)) by (nonlinear_arith)
            requires
                ten_to(0) == 1,
        ;
    } else {
        assert((left + right).drop_last() =~= left + right.drop_last());
        lemma_digits_value_concat(left, right.drop_last());
        let power = ten_to((right.len() - 1) as nat);
        let value = digits_value(left);
        assert(10 * (value * power) == value * (10 * power)) by (nonlinear_arith);
    }
}

pub(crate) proof fn lemma_zeros_value(digits: Seq<u8>)
    requires
        forall|i: int| 0 <= i < digits.len() ==> #[trigger] digits[i] == 0,
    ensures
        digits_value(digits) == 0,
    decreases digits.len(),
{
    if digits.len() > 0 {
        assert(digits.last() == 0);
        assert forall|i: int| 0 <= i < digits.len() - 1 implies #[trigger] digits.drop_last()[i]
            == 0 by {
            assert(digits[i] == 0);
        }
        lemma_zeros_value(digits.drop_last());
    }
}

/// Canonical digits are determined by the number that they make.
pub(crate) proof fn lemma_canonical_unique(left: Seq<u8>, right: Seq<u8>)
    requires
        canonical(left),
        canonical(right),
        digits_value(left) == digits_value(right),
    ensures
        left == right,
    decreases left.len(),
{
    lemma_digits_value_bounds(left);
    lemma_digits_value_bounds(right);
    if left.len() < right.len() {
        lemma_ten_to_monotone(left.len(), (right.len() - 1) as nat);
    }
    if right.len() < left.len() {
        lemma_ten_to_monotone(right.len(), (left.len() - 1) as nat);
    }
    assert(left.len() == right.len());
    lemma_same_length_unique(left, right);
}

pub(crate) proof fn lemma_ten_to_monotone(low: nat, high: nat)
    requires
        low <= high,
    ensures
        ten_to(low) <= ten_to(high),
    decreases high,
{
    if low < high {
        lemma_ten_to_monotone(low, (high - 1) as nat);
        lemma_ten_to_positive((high - 1) as nat);
    }
}

proof fn lemma_same_length_unique(left: Seq<u8>, right: Seq<u8>)
    requires
        decimal(left),
        decimal(right),
        left.len() == right.len(),
        digits_value(left) == digits_value(right),
    ensures
        left == right,
    decreases left.len(),
{
    if left.len() > 0 {
        assert(left.last() < 10 && right.last() < 10);
        assert(decimal(left.drop_last())) by {
            assert forall|i: int| 0 <= i < left.len() - 1 implies #[trigger] left.drop_last()[i]
                < 10 by {
                assert(left[i] < 10);
            }
        }
        assert(decimal(right.drop_last())) by {
            assert forall|i: int| 0 <= i < right.len() - 1 implies #[trigger] right.drop_last()[i]
                < 10 by {
                assert(right[i] < 10);
            }
        }
        lemma_same_length_unique(left.drop_last(), right.drop_last());
        assert(left =~= left.drop_last().push(left.last()));
        assert(right =~= right.drop_last().push(right.last()));
    } else {
        assert(left =~= right);
    }
}

/// The digit that stands `index` places from the end, zero beyond the start.
spec fn digit_from_end(digits: Seq<u8>, index: int) -> int {
    if index < digits.len() {
        digits[digits.len() - 1 - index] as int
    } else {
        0
    }
}

/// The number that the digits above the lowest `index` ones make.
spec fn value_above(digits: Seq<u8>, index: int) -> int {
    if index < digits.len() {
        digits_value(digits.take(digits.len() - index)) as int
    } else {
        0
    }
}

proof fn lemma_value_above_step(digits: Seq<u8>, index: int)
    requires
        0 <= index,
    ensures
        value_above(digits, index) == 10 * value_above(digits, index + 1) + digit_from_end(
            digits,
            index,
        ),
{
    if index < digits.len() {
        let kept = digits.take(digits.len() - index);
        assert(kept.last() == digits[digits.len() - 1 - index]);
        lemma_single_digit(kept.last());
        if index + 1 < digits.len() {
            assert(kept.drop_last() =~= digits.take(digits.len() - index - 1));
        } else {
            assert(kept.drop_last() =~= Seq::<u8>::empty());
        }
    }
}

/// The order of two magnitudes.
#[derive(Clone, Copy, Debug, PartialEq, Eq, Structural)]
enum MagnitudeOrder {
    Less,
    Equal,
    Greater,
}

proof fn lemma_first_difference(left: Seq<u8>, right: Seq<u8>, index: int, until: int)
    requires
        decimal(left),
        decimal(right),
        0 <= index < until <= left.len(),
        left.len() == right.len(),
        left.take(index) == right.take(index),
        left[index] < right[index],
    ensures
        digits_value(left.take(until)) < digits_value(right.take(until)),
    decreases until,
{
    let shorter = until - 1;
    assert(left.take(until).drop_last() =~= left.take(shorter));
    assert(right.take(until).drop_last() =~= right.take(shorter));
    assert(left[shorter] < 10 && right[shorter] < 10);
    if shorter > index {
        lemma_first_difference(left, right, index, shorter);
    }
}

/// Whether a magnitude stands before another: by their lengths, then by the numbers
/// that they make.
pub open spec fn magnitude_before(left: Seq<u8>, right: Seq<u8>) -> bool {
    left.len() < right.len() || (left.len() == right.len() && digits_value(left) < digits_value(
        right,
    ))
}

/// Magnitudes without leading zeros stand in the order of the numbers that they
/// make.
proof fn lemma_canonical_order(left: Seq<u8>, right: Seq<u8>)
    requires
        canonical(left),
        canonical(right),
    ensures
        magnitude_before(left, right) == (digits_value(left) < digits_value(right)),
{
    lemma_digits_value_bounds(left);
    lemma_digits_value_bounds(right);
    if left.len() < right.len() {
        lemma_ten_to_monotone(left.len(), (right.len() - 1) as nat);
    }
    if right.len() < left.len() {
        lemma_ten_to_monotone(right.len(), (left.len() - 1) as nat);
    }
}

/// Orders two magnitudes by their lengths, then by the numbers that they make.
fn order_magnitudes(left: &[u8], right: &[u8]) -> (order: MagnitudeOrder)
    requires
        decimal(left@),
        decimal(right@),
    ensures
        order == (if magnitude_before(left@, right@) {
            MagnitudeOrder::Less
        } else if magnitude_before(right@, left@) {
            MagnitudeOrder::Greater
        } else {
            MagnitudeOrder::Equal
        }),
{
    if left.len() < right.len() {
        return MagnitudeOrder::Less;
    }
    if left.len() > right.len() {
        return MagnitudeOrder::Greater;
    }
    let mut index: usize = 0;
    while index < left.len()
        invariant
            index <= left@.len(),
            left@.len() == right@.len(),
            decimal(left@),
            decimal(right@),
            left@.take(index as int) == right@.take(index as int),
        decreases left@.len() - index,
    {
        proof {
            assert(left@.take(left@.len() as int) =~= left@);
            assert(right@.take(right@.len() as int) =~= right@);
        }
        if left[index] < right[index] {
            proof {
                lemma_first_difference(left@, right@, index as int, left@.len() as int);
            }
            return MagnitudeOrder::Less;
        }
        if left[index] > right[index] {
            proof {
                lemma_first_difference(right@, left@, index as int, left@.len() as int);
            }
            return MagnitudeOrder::Greater;
        }
        assert(left@.take(index + 1) =~= left@.take(index as int).push(left@[index as int]));
        assert(right@.take(index + 1) =~= right@.take(index as int).push(right@[index as int]));
        index = index + 1;
    }
    assert(left@.take(index as int) =~= left@);
    assert(right@.take(index as int) =~= right@);
    MagnitudeOrder::Equal
}

/// Orders two magnitudes by their lengths, then by the numbers that they make. For
/// magnitudes without leading zeros that is the order of the numbers.
pub fn compare_decimal_magnitudes(left: &[u8], right: &[u8]) -> (order: Ordering)
    requires
        decimal(left@),
        decimal(right@),
    ensures
        order == Ordering::Less <==> magnitude_before(left@, right@),
        order == Ordering::Greater <==> magnitude_before(right@, left@),
        canonical(left@) && canonical(right@) ==> {
            &&& order == Ordering::Less <==> digits_value(left@) < digits_value(right@)
            &&& order == Ordering::Equal <==> digits_value(left@) == digits_value(right@)
            &&& order == Ordering::Greater <==> digits_value(left@) > digits_value(right@)
        },
{
    proof {
        if canonical(left@) && canonical(right@) {
            lemma_canonical_order(left@, right@);
            lemma_canonical_order(right@, left@);
        }
    }
    match order_magnitudes(left, right) {
        MagnitudeOrder::Less => Ordering::Less,
        MagnitudeOrder::Equal => Ordering::Equal,
        MagnitudeOrder::Greater => Ordering::Greater,
    }
}

/// The digits in the opposite order.
fn reversed_digits(reversed: &Vec<u8>) -> (digits: Vec<u8>)
    ensures
        digits@ == reversed@.reverse(),
{
    let mut digits: Vec<u8> = Vec::new();
    let mut remaining: usize = reversed.len();
    while remaining > 0
        invariant
            remaining <= reversed@.len(),
            digits@ == reversed@.skip(remaining as int).reverse(),
        decreases remaining,
    {
        remaining = remaining - 1;
        digits.push(reversed[remaining]);
        assert(digits@ =~= reversed@.skip(remaining as int).reverse());
    }
    assert(reversed@.skip(0) =~= reversed@);
    digits
}

/// Turns digits with the least significant one first into a magnitude.
fn magnitude_of_reversed(reversed: Vec<u8>) -> (magnitude: Vec<u8>)
    requires
        decimal(reversed@),
    ensures
        canonical(magnitude@),
        digits_value(magnitude@) == digits_value(reversed@.reverse()),
{
    let mut reversed: Vec<u8> = reversed;
    let ghost value = digits_value(reversed@.reverse());
    if reversed.len() == 0 {
        reversed.push(0);
        assert(reversed@.reverse() =~= seq![0u8] + Seq::<u8>::empty());
        proof {
            lemma_digits_value_front(0, Seq::empty());
        }
    }
    while reversed.len() > 1 && reversed[reversed.len() - 1] == 0
        invariant
            reversed@.len() > 0,
            decimal(reversed@),
            digits_value(reversed@.reverse()) == value,
        decreases reversed@.len(),
    {
        let ghost before = reversed@;
        reversed.pop();
        proof {
            assert(before.reverse() =~= seq![0u8] + reversed@.reverse());
            lemma_digits_value_front(0, reversed@.reverse());
        }
    }
    let magnitude: Vec<u8> = reversed_digits(&reversed);
    assert(canonical(magnitude@)) by {
        assert forall|i: int| 0 <= i < magnitude@.len() implies #[trigger] magnitude@[i] < 10 by {
            assert(reversed@[reversed@.len() - 1 - i] < 10);
        }
    }
    magnitude
}

/// The digit that stands `index` places from the end, zero beyond the start.
fn digit_at(digits: &[u8], index: usize) -> (digit: u8)
    requires
        decimal(digits@),
    ensures
        digit == digit_from_end(digits@, index as int),
        digit < 10,
{
    if index < digits.len() {
        digits[digits.len() - 1 - index]
    } else {
        0
    }
}

/// The greater of two lengths.
pub open spec fn longer(left: Seq<u8>, right: Seq<u8>) -> nat {
    if left.len() < right.len() {
        right.len()
    } else {
        left.len()
    }
}

/// A sum as long as its longer summand, or one digit longer, has no leading zero
/// where its summands have none.
proof fn lemma_canonical_sum(left: Seq<u8>, right: Seq<u8>, sum: Seq<u8>)
    requires
        canonical(left),
        canonical(right),
        decimal(sum),
        digits_value(sum) == digits_value(left) + digits_value(right),
        sum.len() == longer(left, right) + (if digits_value(sum) >= ten_to(longer(left, right)) {
            1int
        } else {
            0int
        }),
    ensures
        canonical(sum),
{
    lemma_digits_value_bounds(left);
    lemma_digits_value_bounds(right);
    if sum.len() > 1 && sum[0] == 0 {
        let rest = sum.skip(1);
        assert(sum =~= seq![0u8] + rest);
        lemma_digits_value_front(0, rest);
        lemma_digits_value_bounds(rest);
    }
}

/// The sum of two magnitudes. It has as many digits as the longer one, or one more
/// where it needs it.
pub fn add_decimal_magnitudes(left: &[u8], right: &[u8]) -> (sum: Vec<u8>)
    requires
        decimal(left@),
        decimal(right@),
    ensures
        decimal(sum@),
        digits_value(sum@) == digits_value(left@) + digits_value(right@),
        sum@.len() == longer(left@, right@) + (if digits_value(sum@) >= ten_to(
            longer(left@, right@),
        ) {
            1int
        } else {
            0int
        }),
        canonical(left@) && canonical(right@) ==> canonical(sum@),
{
    let mut reversed: Vec<u8> = Vec::new();
    let mut index: usize = 0;
    let mut carry: u8 = 0;
    let left_length: usize = left.len();
    let right_length: usize = right.len();
    proof {
        assert(left@.take(left@.len() as int) =~= left@);
        assert(right@.take(right@.len() as int) =~= right@);
        assert(reversed@.reverse() =~= Seq::<u8>::empty());
        assert((value_above(left@, 0) + value_above(right@, 0) + carry) * ten_to(0) == digits_value(
            left@,
        ) + digits_value(right@)) by (nonlinear_arith)
            requires
                ten_to(0) == 1,
                value_above(left@, 0) == digits_value(left@),
                value_above(right@, 0) == digits_value(right@),
                carry == 0,
        ;
    }
    let length: usize = if left_length < right_length {
        right_length
    } else {
        left_length
    };
    while index < length
        invariant
            left@.len() <= length,
            right@.len() <= length,
            decimal(left@),
            decimal(right@),
            decimal(reversed@),
            carry <= 1,
            index == reversed@.len(),
            index <= length,
            digits_value(reversed@.reverse()) + (value_above(left@, index as int) + value_above(
                right@,
                index as int,
            ) + carry) * ten_to(index as nat) == digits_value(left@) + digits_value(right@),
        decreases length - index,
    {
        let ghost before = reversed@;
        let ghost power = ten_to(index as nat) as int;
        let ghost above = value_above(left@, index as int) + value_above(right@, index as int)
            + carry;
        let ghost next_left = value_above(left@, index + 1);
        let ghost next_right = value_above(right@, index + 1);
        proof {
            lemma_value_above_step(left@, index as int);
            lemma_value_above_step(right@, index as int);
        }
        let sum: u8 = digit_at(left, index) + digit_at(right, index) + carry;
        reversed.push(sum % 10);
        carry = sum / 10;
        proof {
            let digit = (sum % 10) as int;
            assert(reversed@.reverse() =~= seq![(sum % 10) as u8] + before.reverse());
            lemma_digits_value_front((sum % 10) as u8, before.reverse());
            assert(before.reverse().len() == index);
            assert(above == 10 * (next_left + next_right + carry) + digit);
            assert(above * power == digit * power + (next_left + next_right + carry) * (10
                * power)) by (nonlinear_arith)
                requires
                    above == 10 * (next_left + next_right + carry) + digit,
            ;
        }
        index = index + 1;
    }
    let ghost before = reversed@;
    proof {
        assert(decimal(before.reverse()));
        lemma_digits_value_bounds(before.reverse());
        assert(before.reverse().len() == length);
        assert(carry == 0 ==> carry * ten_to(index as nat) == 0) by (nonlinear_arith);
        assert(carry == 1 ==> carry * ten_to(index as nat) == ten_to(index as nat))
            by (nonlinear_arith);
    }
    if carry != 0 {
        reversed.push(carry);
        proof {
            assert(reversed@.reverse() =~= seq![carry] + before.reverse());
            lemma_digits_value_front(carry, before.reverse());
        }
    }
    let sum: Vec<u8> = reversed_digits(&reversed);
    proof {
        assert(decimal(sum@));
        if canonical(left@) && canonical(right@) {
            lemma_canonical_sum(left@, right@, sum@);
        }
    }
    sum
}

/// The difference of two magnitudes, of which the first is not the smaller one. It
/// has no leading zeros, and no digit where the first has none.
pub fn subtract_decimal_magnitudes(larger: &[u8], smaller: &[u8]) -> (difference: Vec<u8>)
    requires
        decimal(larger@),
        decimal(smaller@),
        digits_value(smaller@) <= digits_value(larger@),
    ensures
        if larger@.len() == 0 {
            difference@.len() == 0
        } else {
            canonical(difference@)
        },
        digits_value(difference@) == digits_value(larger@) - digits_value(smaller@),
{
    let mut reversed: Vec<u8> = Vec::new();
    let mut index: usize = 0;
    let mut borrow: u8 = 0;
    let length: usize = larger.len();
    proof {
        assert(larger@.take(larger@.len() as int) =~= larger@);
        assert(smaller@.take(smaller@.len() as int) =~= smaller@);
        assert(reversed@.reverse() =~= Seq::<u8>::empty());
        assert((value_above(larger@, 0) - value_above(smaller@, 0) - borrow) * ten_to(0)
            == digits_value(larger@) - digits_value(smaller@)) by (nonlinear_arith)
            requires
                ten_to(0) == 1,
                value_above(larger@, 0) == digits_value(larger@),
                value_above(smaller@, 0) == digits_value(smaller@),
                borrow == 0,
        ;
    }
    while index < length
        invariant
            length == larger@.len(),
            decimal(larger@),
            decimal(smaller@),
            decimal(reversed@),
            borrow <= 1,
            index == reversed@.len(),
            index <= length,
            digits_value(reversed@.reverse()) + (value_above(larger@, index as int) - value_above(
                smaller@,
                index as int,
            ) - borrow) * ten_to(index as nat) == digits_value(larger@) - digits_value(smaller@),
        decreases length - index,
    {
        let ghost before = reversed@;
        let ghost power = ten_to(index as nat) as int;
        let ghost above = value_above(larger@, index as int) - value_above(smaller@, index as int)
            - borrow;
        let ghost next = value_above(larger@, index + 1) - value_above(smaller@, index + 1);
        proof {
            lemma_value_above_step(larger@, index as int);
            lemma_value_above_step(smaller@, index as int);
        }
        let minuend: u8 = digit_at(larger, index);
        let subtrahend: u8 = digit_at(smaller, index) + borrow;
        let digit: u8 = if minuend < subtrahend {
            borrow = 1;
            minuend + 10 - subtrahend
        } else {
            borrow = 0;
            minuend - subtrahend
        };
        reversed.push(digit);
        proof {
            assert(reversed@.reverse() =~= seq![digit] + before.reverse());
            lemma_digits_value_front(digit, before.reverse());
            assert(above == 10 * (next - borrow) + digit);
            assert(above * power == digit * power + (next - borrow) * (10 * power))
                by (nonlinear_arith)
                requires
                    above == 10 * (next - borrow) + digit,
            ;
        }
        index = index + 1;
    }
    proof {
        lemma_digits_value_bounds(reversed@.reverse());
        lemma_ten_to_positive(index as nat);
        let power = ten_to(index as nat) as int;
        let rest = value_above(smaller@, index as int) + borrow;
        assert(value_above(larger@, index as int) == 0);
        assert(decimal(reversed@.reverse()));
        assert((0 - value_above(smaller@, index as int) - borrow) * power == 0 - rest * power)
            by (nonlinear_arith)
            requires
                rest == value_above(smaller@, index as int) + borrow,
        ;
        assert(rest == 0) by {
            if rest >= 1 {
                assert(rest * power >= power) by (nonlinear_arith)
                    requires
                        rest >= 1,
                        power > 0,
                ;
            }
        }
        assert(rest * power == 0) by (nonlinear_arith)
            requires
                rest == 0,
        ;
    }
    if length == 0 {
        return reversed;
    }
    magnitude_of_reversed(reversed)
}

/// An integer of any size, in decimal.
#[derive(Debug)]
pub struct SignedDecimal {
    pub negative: bool,
    pub magnitude: Vec<u8>,
}

/// Whether `byte` is one of the characters `0-9`.
pub open spec fn ascii_digit(byte: u8) -> bool {
    '0' as u8 <= byte <= '9' as u8
}

/// Whether every byte is one of the characters `0-9`.
pub open spec fn ascii_digits(bytes: Seq<u8>) -> bool {
    forall|i: int| 0 <= i < bytes.len() ==> ascii_digit(#[trigger] bytes[i])
}

/// The digits that the characters `0-9` stand for.
pub open spec fn digit_values(bytes: Seq<u8>) -> Seq<u8> {
    bytes.map_values(|byte: u8| (byte - '0' as u8) as u8)
}

/// The integer that `bytes` write: an optional sign and at least one digit.
pub open spec fn integer_text_value(bytes: Seq<u8>) -> Option<int> {
    let signed = bytes.len() > 0 && (bytes[0] == '-' as u8 || bytes[0] == '+' as u8);
    let digits = if signed {
        bytes.skip(1)
    } else {
        bytes
    };
    if digits.len() == 0 || !ascii_digits(digits) {
        None
    } else if signed && bytes[0] == '-' as u8 {
        Some(-(digits_value(digit_values(digits)) as int))
    } else {
        Some(digits_value(digit_values(digits)) as int)
    }
}

proof fn lemma_zero_digits()
    ensures
        digits_value(seq![0u8]) == 0,
{
    lemma_single_digit(0);
}

/// Counts the zeros that start `digits`.
pub(crate) fn leading_zeros(digits: &[u8], zero: u8) -> (count: usize)
    ensures
        count <= digits@.len(),
        forall|i: int| 0 <= i < count ==> #[trigger] digits@[i] == zero,
        count < digits@.len() ==> digits@[count as int] != zero,
{
    let mut count: usize = 0;
    while count < digits.len() && digits[count] == zero
        invariant
            count <= digits@.len(),
            forall|i: int| 0 <= i < count ==> #[trigger] digits@[i] == zero,
        ensures
            count <= digits@.len(),
            forall|i: int| 0 <= i < count ==> #[trigger] digits@[i] == zero,
            count < digits@.len() ==> digits@[count as int] != zero,
        decreases digits@.len() - count,
    {
        count = count + 1;
    }
    count
}

/// Whether every byte is one of the characters `0-9`.
pub fn are_ascii_digits(bytes: &[u8]) -> (digits: bool)
    ensures
        digits == ascii_digits(bytes@),
{
    let mut index: usize = 0;
    while index < bytes.len()
        invariant
            index <= bytes@.len(),
            forall|i: int| 0 <= i < index ==> ascii_digit(#[trigger] bytes@[i]),
        decreases bytes@.len() - index,
    {
        let byte: u8 = bytes[index];
        if byte < '0' as u8 || byte > '9' as u8 {
            assert(!ascii_digit(bytes@[index as int]));
            return false;
        }
        index = index + 1;
    }
    true
}

/// The digits that the characters `0-9` stand for.
pub fn to_digit_values(bytes: &[u8]) -> (digits: Vec<u8>)
    requires
        ascii_digits(bytes@),
    ensures
        digits@ == digit_values(bytes@),
        decimal(digits@),
{
    let mut digits: Vec<u8> = Vec::new();
    let mut index: usize = 0;
    while index < bytes.len()
        invariant
            index <= bytes@.len(),
            ascii_digits(bytes@),
            decimal(digits@),
            digits@ == digit_values(bytes@.take(index as int)),
        decreases bytes@.len() - index,
    {
        assert(ascii_digit(bytes@[index as int]));
        digits.push(bytes[index] - '0' as u8);
        assert(digits@ =~= digit_values(bytes@.take(index + 1)));
        index = index + 1;
    }
    assert(bytes@.take(index as int) =~= bytes@);
    digits
}

/// The decimal digits of `value`.
fn magnitude_of(value: usize) -> (magnitude: Vec<u8>)
    ensures
        canonical(magnitude@),
        digits_value(magnitude@) == value,
        value != 0 ==> magnitude@ != seq![0u8],
    decreases value,
{
    if value < 10 {
        let magnitude: Vec<u8> = vec![value as u8];
        assert(magnitude@ =~= seq![value as u8]);
        proof {
            lemma_single_digit(value as u8);
        }
        return magnitude;
    }
    let mut magnitude: Vec<u8> = magnitude_of(value / 10);
    let ghost before = magnitude@;
    magnitude.push((value % 10) as u8);
    assert(magnitude@.drop_last() =~= before);
    assert(before[0] != 0) by {
        if before.len() == 1 {
            assert(before =~= seq![before[0]]);
            lemma_single_digit(before[0]);
        }
    }
    magnitude
}

impl SignedDecimal {
    /// The digits are canonical and zero is not negative.
    pub open spec fn well_formed(&self) -> bool {
        &&& canonical(self.magnitude@)
        &&& self.magnitude@ == seq![0u8] ==> !self.negative
    }

    /// The integer itself.
    pub open spec fn value(&self) -> int {
        if self.negative {
            -(digits_value(self.magnitude@) as int)
        } else {
            digits_value(self.magnitude@) as int
        }
    }

    /// Zero.
    pub fn zero() -> (zero: SignedDecimal)
        ensures
            zero.well_formed(),
            zero.value() == 0,
    {
        let magnitude: Vec<u8> = vec![0];
        assert(magnitude@ =~= seq![0u8]);
        proof {
            lemma_zero_digits();
        }
        SignedDecimal { negative: false, magnitude }
    }

    /// Reads an optional sign and at least one digit.
    pub fn parse(value: &[u8]) -> (parsed: Option<SignedDecimal>)
        ensures
            match integer_text_value(value@) {
                Some(integer) => parsed matches Some(decimal) && decimal.well_formed()
                    && decimal.value() == integer,
                None => parsed is None,
            },
    {
        let signed: bool = value.len() > 0 && (value[0] == '-' as u8 || value[0] == '+' as u8);
        let start: usize = if signed {
            1
        } else {
            0
        };
        let negative: bool = signed && value[0] == '-' as u8;
        let digits: &[u8] = &value[start..value.len()];
        assert(signed ==> digits@ =~= value@.skip(1));
        assert(!signed ==> digits@ =~= value@);
        if digits.len() == 0 || !are_ascii_digits(digits) {
            return None;
        }
        let values: Vec<u8> = to_digit_values(digits);
        let zeros: usize = leading_zeros(values.as_slice(), 0);
        proof {
            let front = values@.take(zeros as int);
            let rest = values@.skip(zeros as int);
            assert(values@ =~= front + rest);
            lemma_digits_value_concat(front, rest);
            assert forall|i: int| 0 <= i < front.len() implies #[trigger] front[i] == 0 by {
                assert(values@[i] == 0);
            }
            lemma_zeros_value(front);
            assert(digits_value(front) * ten_to(rest.len()) == 0) by (nonlinear_arith)
                requires
                    digits_value(front) == 0,
            ;
        }
        if zeros == values.len() {
            assert(digits_value(values@.skip(zeros as int)) == 0);
            return Some(SignedDecimal::zero());
        }
        let magnitude: Vec<u8> = copy_bytes(&values.as_slice()[zeros..values.len()]);
        assert(magnitude@ =~= values@.skip(zeros as int));
        assert(canonical(magnitude@)) by {
            assert forall|i: int| 0 <= i < magnitude@.len() implies #[trigger] magnitude@[i]
                < 10 by {
                assert(values@[i + zeros] < 10);
            }
        }
        assert(magnitude@[0] != 0);
        Some(SignedDecimal { negative, magnitude })
    }

    /// Adds `value`, or its negation.
    pub fn add_unsigned(&mut self, value: usize, negative: bool)
        requires
            old(self).well_formed(),
        ensures
            final(self).well_formed(),
            final(self).value() == old(self).value() + (if negative {
                -(value as int)
            } else {
                value as int
            }),
    {
        if value == 0 {
            return;
        }
        let other = SignedDecimal { negative, magnitude: magnitude_of(value) };
        self.add(other);
    }

    /// Adds `other`.
    pub fn add(&mut self, other: SignedDecimal)
        requires
            old(self).well_formed(),
            other.well_formed(),
        ensures
            final(self).well_formed(),
            final(self).value() == old(self).value() + other.value(),
    {
        proof {
            lemma_zero_digits();
            lemma_digits_value_bounds(self.magnitude@);
            lemma_digits_value_bounds(other.magnitude@);
            lemma_nonzero_magnitude(self.magnitude@);
            lemma_nonzero_magnitude(other.magnitude@);
        }
        if self.negative == other.negative {
            let magnitude: Vec<u8> = add_decimal_magnitudes(
                self.magnitude.as_slice(),
                other.magnitude.as_slice(),
            );
            proof {
                lemma_nonzero_magnitude(magnitude@);
            }
            self.magnitude = magnitude;
            return;
        }
        match compare_decimal_magnitudes(self.magnitude.as_slice(), other.magnitude.as_slice()) {
            Ordering::Greater => {
                proof {
                    lemma_longer_magnitude(self.magnitude@, other.magnitude@);
                }
                let magnitude: Vec<u8> = subtract_decimal_magnitudes(
                    self.magnitude.as_slice(),
                    other.magnitude.as_slice(),
                );
                proof {
                    lemma_nonzero_magnitude(magnitude@);
                }
                self.magnitude = magnitude;
            },
            Ordering::Less => {
                proof {
                    lemma_longer_magnitude(other.magnitude@, self.magnitude@);
                }
                let magnitude: Vec<u8> = subtract_decimal_magnitudes(
                    other.magnitude.as_slice(),
                    self.magnitude.as_slice(),
                );
                proof {
                    lemma_nonzero_magnitude(magnitude@);
                }
                self.magnitude = magnitude;
                self.negative = other.negative;
            },
            Ordering::Equal => {
                *self = SignedDecimal::zero();
            },
        }
    }

    /// Whether two integers are the same.
    pub fn same(&self, other: &SignedDecimal) -> (same: bool)
        requires
            self.well_formed(),
            other.well_formed(),
        ensures
            same == (self.value() == other.value()),
    {
        proof {
            lemma_nonzero_magnitude(self.magnitude@);
            lemma_nonzero_magnitude(other.magnitude@);
            if self.value() == other.value() {
                lemma_canonical_unique(self.magnitude@, other.magnitude@);
            }
        }
        self.negative == other.negative && bytes_equal(
            self.magnitude.as_slice(),
            other.magnitude.as_slice(),
        )
    }
}

proof fn lemma_nonzero_magnitude(magnitude: Seq<u8>)
    requires
        canonical(magnitude),
    ensures
        digits_value(magnitude) == 0 <==> magnitude == seq![0u8],
{
    lemma_zero_digits();
    lemma_digits_value_bounds(magnitude);
    lemma_ten_to_positive((magnitude.len() - 1) as nat);
    if magnitude.len() == 1 {
        assert(magnitude =~= seq![magnitude[0]]);
        lemma_single_digit(magnitude[0]);
        if digits_value(magnitude) == 0 {
            assert(magnitude =~= seq![0u8]);
        }
    }
}

proof fn lemma_longer_magnitude(larger: Seq<u8>, smaller: Seq<u8>)
    requires
        canonical(larger),
        canonical(smaller),
        digits_value(larger) > digits_value(smaller),
    ensures
        smaller.len() <= larger.len(),
{
    lemma_digits_value_bounds(larger);
    lemma_digits_value_bounds(smaller);
    if smaller.len() > larger.len() {
        lemma_ten_to_monotone(larger.len(), (smaller.len() - 1) as nat);
    }
}

} // verus!
