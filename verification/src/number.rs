//! Numbers as JSON writes them, compared by their exact value.

use vstd::prelude::*;
use vstd::string::StringSliceAdditionalSpecFns;

use crate::bytes::{append_bytes, bytes_equal, copy_bytes};
use crate::decimal::{
    are_ascii_digits, ascii_digit, ascii_digits, canonical, decimal, digit_values, digits_value,
    integer_text_value, leading_zeros, lemma_canonical_unique, lemma_digits_value_bounds,
    lemma_digits_value_concat, lemma_single_digit, lemma_ten_to_adds, lemma_ten_to_positive,
    lemma_zeros_value, ten_to, SignedDecimal,
};

verus! {

/// The position of the first byte from `from` on that is `first` or `second`.
pub open spec fn first_of(bytes: Seq<u8>, from: int, first: u8, second: u8) -> Option<int>
    decreases bytes.len() - from,
{
    if from >= bytes.len() {
        None
    } else if bytes[from] == first || bytes[from] == second {
        Some(from)
    } else {
        first_of(bytes, from + 1, first, second)
    }
}

/// What stands before the exponent mark, and what stands behind it.
pub open spec fn split_exponent(unsigned: Seq<u8>) -> (Seq<u8>, Option<Seq<u8>>) {
    match first_of(unsigned, 0, 'e' as u8, 'E' as u8) {
        Some(mark) => (unsigned.take(mark), Some(unsigned.skip(mark + 1))),
        None => (unsigned, None),
    }
}

/// What stands before the decimal point, and what stands behind it.
pub open spec fn split_fraction(mantissa: Seq<u8>) -> (Seq<u8>, Seq<u8>) {
    match first_of(mantissa, 0, '.' as u8, '.' as u8) {
        Some(point) => (mantissa.take(point), mantissa.skip(point + 1)),
        None => (mantissa, Seq::empty()),
    }
}

/// The number that a sign, digits before and behind the decimal point and an
/// exponent make, as an integer times a power of ten. The exponent of a zero
/// does not matter and is not read.
pub open spec fn assembled_number(
    negative: bool,
    integer: Seq<u8>,
    fraction: Seq<u8>,
    exponent: Option<Seq<u8>>,
) -> Option<(int, int)> {
    let digits = digits_value(digit_values(integer + fraction)) as int;
    if integer.len() == 0 || !ascii_digits(integer) || !ascii_digits(fraction) {
        None
    } else if digits == 0 {
        Some((0, 0))
    } else {
        match (match exponent {
            Some(exponent) => integer_text_value(exponent),
            None => Some(0),
        }) {
            None => None,
            Some(power) => Some(
                (
                    if negative {
                        -digits
                    } else {
                        digits
                    },
                    power - fraction.len(),
                ),
            ),
        }
    }
}

/// The number that a text writes, as an integer times a power of ten.
pub open spec fn decimal_number(text: Seq<u8>) -> Option<(int, int)> {
    let negative = text.len() > 0 && text[0] == '-' as u8;
    let unsigned = if negative {
        text.skip(1)
    } else {
        text
    };
    let (mantissa, exponent) = split_exponent(unsigned);
    let (integer, fraction) = split_fraction(mantissa);
    assembled_number(negative, integer, fraction, exponent)
}

/// Whether two integers times powers of ten are the same number.
pub open spec fn same_number(left: (int, int), right: (int, int)) -> bool {
    let lowest = if left.1 <= right.1 {
        left.1
    } else {
        right.1
    };
    left.0 * ten_to((left.1 - lowest) as nat) == right.0 * ten_to((right.1 - lowest) as nat)
}

/// Whether the texts of two numbers write the same number.
pub open spec fn numbers_equal(left: Seq<u8>, right: Seq<u8>) -> bool {
    match (decimal_number(left), decimal_number(right)) {
        (Some(left), Some(right)) => same_number(left, right),
        _ => false,
    }
}

proof fn lemma_same_number_scaled(left: (int, int), right: (int, int), lowest: int)
    requires
        lowest <= left.1,
        lowest <= right.1,
    ensures
        same_number(left, right) <==> left.0 * ten_to((left.1 - lowest) as nat) == right.0 * ten_to(
            (right.1 - lowest) as nat,
        ),
{
    let own = if left.1 <= right.1 {
        left.1
    } else {
        right.1
    };
    let scale = ten_to((own - lowest) as nat) as int;
    let left_power = ten_to((left.1 - own) as nat) as int;
    let right_power = ten_to((right.1 - own) as nat) as int;
    lemma_ten_to_positive((own - lowest) as nat);
    lemma_ten_to_adds((left.1 - own) as nat, (own - lowest) as nat);
    lemma_ten_to_adds((right.1 - own) as nat, (own - lowest) as nat);
    assert(left.0 * (left_power * scale) == (left.0 * left_power) * scale) by (nonlinear_arith);
    assert(right.0 * (right_power * scale) == (right.0 * right_power) * scale)
        by (nonlinear_arith);
    let scaled_left = left.0 * left_power;
    let scaled_right = right.0 * right_power;
    assert(scaled_left == scaled_right <==> scaled_left * scale == scaled_right * scale)
        by (nonlinear_arith)
        requires
            scale > 0,
    ;
}

/// Being the same number is an equivalence.
pub proof fn law_same_number_is_an_equivalence(a: (int, int), b: (int, int), c: (int, int))
    ensures
        same_number(a, a),
        same_number(a, b) ==> same_number(b, a),
        same_number(a, b) && same_number(b, c) ==> same_number(a, c),
{
    let lowest = if a.1 <= b.1 && a.1 <= c.1 {
        a.1
    } else if b.1 <= c.1 {
        b.1
    } else {
        c.1
    };
    lemma_same_number_scaled(a, b, lowest);
    lemma_same_number_scaled(b, a, lowest);
    lemma_same_number_scaled(b, c, lowest);
    lemma_same_number_scaled(a, c, lowest);
}

/// Moving a power of ten between the integer and the exponent keeps the number.
pub proof fn law_scaling_keeps_the_number(integer: int, exponent: int, places: nat)
    ensures
        same_number((integer, exponent + places), (integer * ten_to(places), exponent)),
{
    assert(ten_to(0) == 1);
    assert((integer * ten_to(places)) * ten_to(0) == integer * ten_to(places))
        by (nonlinear_arith)
        requires
            ten_to(0) == 1,
    ;
}

/// A number in its one normal form: no zeros around its digits, and zero without
/// sign and exponent.
#[derive(Debug)]
pub struct NormalizedNumber {
    pub negative: bool,
    pub significant_digits: Vec<u8>,
    pub decimal_exponent: SignedDecimal,
}

/// Finds the first byte that is `first` or `second`.
fn find_of(bytes: &[u8], first: u8, second: u8) -> (found: Option<usize>)
    ensures
        match first_of(bytes@, 0, first, second) {
            Some(position) => found == Some(position as usize) && 0 <= position < bytes@.len(),
            None => found is None,
        },
{
    let mut index: usize = 0;
    while index < bytes.len()
        invariant
            index <= bytes@.len(),
            first_of(bytes@, 0, first, second) == first_of(bytes@, index as int, first, second),
        decreases bytes@.len() - index,
    {
        if bytes[index] == first || bytes[index] == second {
            return Some(index);
        }
        index = index + 1;
    }
    None
}

/// Counts the zeros that end `digits`.
fn trailing_zeros(digits: &[u8], zero: u8) -> (count: usize)
    ensures
        count <= digits@.len(),
        forall|i: int| digits@.len() - count <= i < digits@.len() ==> #[trigger] digits@[i] == zero,
        count < digits@.len() ==> digits@[digits@.len() - count - 1] != zero,
{
    let mut count: usize = 0;
    while count < digits.len() && digits[digits.len() - count - 1] == zero
        invariant
            count <= digits@.len(),
            forall|i: int|
                digits@.len() - count <= i < digits@.len() ==> #[trigger] digits@[i] == zero,
        ensures
            count <= digits@.len(),
            forall|i: int|
                digits@.len() - count <= i < digits@.len() ==> #[trigger] digits@[i] == zero,
            count < digits@.len() ==> digits@[digits@.len() - count - 1] != zero,
        decreases digits@.len() - count,
    {
        count = count + 1;
    }
    count
}

/// The digits between `start` and `end` carry the value of all digits, if only
/// zeros stand around them.
proof fn lemma_significant_value(digits: Seq<u8>, start: int, end: int)
    requires
        0 <= start <= end <= digits.len(),
        forall|i: int| 0 <= i < start ==> #[trigger] digits[i] == 0,
        forall|i: int| end <= i < digits.len() ==> #[trigger] digits[i] == 0,
    ensures
        digits_value(digits) == digits_value(digits.subrange(start, end)) * ten_to(
            (digits.len() - end) as nat,
        ),
{
    let front = digits.take(start);
    let middle = digits.subrange(start, end);
    let back = digits.skip(end);
    assert forall|i: int| 0 <= i < front.len() implies #[trigger] front[i] == 0 by {
        assert(digits[i] == 0);
    }
    assert forall|i: int| 0 <= i < back.len() implies #[trigger] back[i] == 0 by {
        assert(digits[i + end] == 0);
    }
    lemma_zeros_value(front);
    lemma_zeros_value(back);
    assert(digits =~= front + middle + back);
    lemma_digits_value_concat(front + middle, back);
    lemma_digits_value_concat(front, middle);
    assert(digits_value(front) * ten_to(middle.len()) == 0) by (nonlinear_arith)
        requires
            digits_value(front) == 0,
    ;
}

/// The bytes of a slice that may be there.
spec fn optional_bytes(bytes: Option<&[u8]>) -> Option<Seq<u8>> {
    match bytes {
        Some(bytes) => Some(bytes@),
        None => None,
    }
}

/// The digits before and behind the decimal point, in one.
fn joined_digits(integer: &[u8], fraction: &[u8]) -> (digits: Vec<u8>)
    requires
        ascii_digits(integer@),
        ascii_digits(fraction@),
    ensures
        digits@ == integer@ + fraction@,
        ascii_digits(digits@),
{
    let mut digits: Vec<u8> = Vec::new();
    append_bytes(&mut digits, integer);
    append_bytes(&mut digits, fraction);
    assert(digits@ =~= integer@ + fraction@);
    assert forall|i: int| 0 <= i < digits@.len() implies ascii_digit(#[trigger] digits@[i]) by {
        if i < integer@.len() {
            assert(ascii_digit(integer@[i]));
        } else {
            assert(ascii_digit(fraction@[i - integer@.len()]));
        }
    }
    digits
}

/// Takes the zeros around `digits` off: the digits between them, and how many
/// zeros stood behind those.
fn significant_part(digits: &[u8], leading: usize) -> (part: (Vec<u8>, usize))
    requires
        ascii_digits(digits@),
        leading < digits@.len(),
        forall|i: int| 0 <= i < leading ==> #[trigger] digits@[i] == '0' as u8,
        digits@[leading as int] != '0' as u8,
    ensures
        ascii_digits(part.0@),
        part.0@.len() > 0,
        part.0@.first() != '0' as u8,
        part.0@.last() != '0' as u8,
        digits_value(digit_values(part.0@)) > 0,
        digits_value(digit_values(digits@)) == digits_value(digit_values(part.0@)) * ten_to(
            part.1 as nat,
        ),
        digits_value(digit_values(digits@)) > 0,
{
    let ghost values = digit_values(digits@);
    let trailing: usize = trailing_zeros(digits, '0' as u8);
    assert(leading < digits@.len() - trailing) by {
        if leading >= digits@.len() - trailing {
            assert(digits@[leading as int] == '0' as u8);
        }
    }
    let end: usize = digits.len() - trailing;
    let part: Vec<u8> = copy_bytes(&digits[leading..end]);
    proof {
        let significant = digit_values(part@);
        assert(significant =~= values.subrange(leading as int, end as int));
        assert forall|i: int| 0 <= i < leading implies #[trigger] values[i] == 0 by {
            assert(digits@[i] == '0' as u8);
        }
        assert forall|i: int| end <= i < values.len() implies #[trigger] values[i] == 0 by {
            assert(digits@[i] == '0' as u8);
        }
        lemma_significant_value(values, leading as int, end as int);
        assert forall|i: int| 0 <= i < part@.len() implies ascii_digit(#[trigger] part@[i]) by {
            assert(ascii_digit(digits@[i + leading]));
        }
        assert(part@.first() == digits@[leading as int]);
        assert(part@.last() == digits@[end - 1]);
        lemma_nonzero_digits(part@);
        lemma_ten_to_positive(trailing as nat);
        assert(digits_value(significant) * ten_to(trailing as nat) > 0) by (nonlinear_arith)
            requires
                digits_value(significant) > 0,
                ten_to(trailing as nat) > 0,
        ;
    }
    (part, trailing)
}

/// Brings the parts of a number into its normal form.
fn normalize(
    negative: bool,
    integer: &[u8],
    fraction: &[u8],
    exponent: Option<&[u8]>,
) -> (normalized: Option<NormalizedNumber>)
    ensures
        match assembled_number(negative, integer@, fraction@, optional_bytes(exponent)) {
            Some(value) => normalized matches Some(number) && number.normal() && same_number(
                number.number(),
                value,
            ),
            None => normalized is None,
        },
{
    if integer.len() == 0 || !are_ascii_digits(integer) || !are_ascii_digits(fraction) {
        return None;
    }
    let digits: Vec<u8> = joined_digits(integer, fraction);
    let leading: usize = leading_zeros(digits.as_slice(), '0' as u8);
    if leading == digits.len() {
        let zero: Vec<u8> = vec!['0' as u8];
        proof {
            let values = digit_values(digits@);
            assert forall|i: int| 0 <= i < values.len() implies #[trigger] values[i] == 0 by {
                assert(digits@[i] == '0' as u8);
            }
            lemma_zeros_value(values);
            assert(zero@ =~= seq!['0' as u8]);
            assert(digit_values(zero@) =~= seq![0u8]);
            lemma_single_digit(0);
            law_same_number_is_an_equivalence((0, 0), (0, 0), (0, 0));
        }
        return Some(
            NormalizedNumber {
                negative: false,
                significant_digits: zero,
                decimal_exponent: SignedDecimal::zero(),
            },
        );
    }
    let (significant_digits, trailing) = significant_part(digits.as_slice(), leading);
    let parsed: Option<SignedDecimal> = match exponent {
        Some(exponent) => SignedDecimal::parse(exponent),
        None => Some(SignedDecimal::zero()),
    };
    let mut decimal_exponent: SignedDecimal = match parsed {
        Some(exponent) => exponent,
        None => {
            return None;
        },
    };
    let ghost power = decimal_exponent.value();
    decimal_exponent.add_unsigned(trailing, false);
    decimal_exponent.add_unsigned(fraction.len(), true);
    proof {
        let places = ten_to(trailing as nat) as int;
        let count = digits_value(digit_values(significant_digits@)) as int;
        let signed = if negative {
            -count
        } else {
            count
        };
        assert((-count) * places == -(count * places)) by (nonlinear_arith);
        law_scaling_keeps_the_number(signed, power - fraction@.len(), trailing as nat);
    }
    Some(NormalizedNumber { negative, significant_digits, decimal_exponent })
}

impl NormalizedNumber {
    /// The integer that the significant digits make, with its sign.
    pub open spec fn integer(&self) -> int {
        let digits = digits_value(digit_values(self.significant_digits@)) as int;
        if self.negative {
            -digits
        } else {
            digits
        }
    }

    /// The number, as an integer times a power of ten.
    pub open spec fn number(&self) -> (int, int) {
        (self.integer(), self.decimal_exponent.value())
    }

    /// No zeros stand around the digits, and zero has neither sign nor exponent.
    pub open spec fn normal(&self) -> bool {
        let digits = self.significant_digits@;
        &&& self.decimal_exponent.well_formed()
        &&& digits.len() > 0
        &&& ascii_digits(digits)
        &&& if digits == seq!['0' as u8] {
            !self.negative && self.decimal_exponent.value() == 0
        } else {
            digits.first() != '0' as u8 && digits.last() != '0' as u8
        }
    }

    /// Reads a number into its normal form.
    pub fn parse(number: &str) -> (parsed: Option<NormalizedNumber>)
        ensures
            match decimal_number(number.spec_bytes()) {
                Some(value) => parsed matches Some(normalized) && normalized.normal()
                    && same_number(normalized.number(), value),
                None => parsed is None,
            },
    {
        let text: &[u8] = number.as_bytes();
        let negative: bool = text.len() > 0 && text[0] == '-' as u8;
        let start: usize = if negative {
            1
        } else {
            0
        };
        let unsigned: &[u8] = &text[start..text.len()];
        assert(negative ==> unsigned@ =~= text@.skip(1));
        assert(!negative ==> unsigned@ =~= text@);
        let mark: Option<usize> = find_of(unsigned, 'e' as u8, 'E' as u8);
        let mantissa: &[u8] = match mark {
            Some(mark) => &unsigned[0..mark],
            None => unsigned,
        };
        let exponent: Option<&[u8]> = match mark {
            Some(mark) => Some(&unsigned[mark + 1..unsigned.len()]),
            None => None,
        };
        proof {
            assert(mantissa@ =~= split_exponent(unsigned@).0);
            if let Some(exponent) = exponent {
                assert(exponent@ =~= split_exponent(unsigned@).1->Some_0);
            }
        }
        let point: Option<usize> = find_of(mantissa, '.' as u8, '.' as u8);
        let integer: &[u8] = match point {
            Some(point) => &mantissa[0..point],
            None => mantissa,
        };
        let fraction_start: usize = match point {
            Some(point) => point + 1,
            None => mantissa.len(),
        };
        let fraction: &[u8] = &mantissa[fraction_start..mantissa.len()];
        assert(integer@ =~= split_fraction(mantissa@).0);
        assert(fraction@ =~= split_fraction(mantissa@).1);
        normalize(negative, integer, fraction, exponent)
    }

    /// Whether two numbers in normal form are the same number.
    pub fn same(&self, other: &NormalizedNumber) -> (same: bool)
        requires
            self.normal(),
            other.normal(),
        ensures
            same == same_number(self.number(), other.number()),
    {
        proof {
            if same_number(self.number(), other.number()) {
                law_normal_form_is_unique(self, other);
            } else if self.negative == other.negative && self.significant_digits@
                == other.significant_digits@ && self.decimal_exponent.value()
                == other.decimal_exponent.value() {
                law_same_number_is_an_equivalence(
                    self.number(),
                    other.number(),
                    self.number(),
                );
            }
        }
        self.negative == other.negative && bytes_equal(
            self.significant_digits.as_slice(),
            other.significant_digits.as_slice(),
        ) && self.decimal_exponent.same(&other.decimal_exponent)
    }
}

proof fn lemma_digit_values_decimal(bytes: Seq<u8>)
    requires
        ascii_digits(bytes),
    ensures
        decimal(digit_values(bytes)),
{
    assert forall|i: int| 0 <= i < bytes.len() implies #[trigger] digit_values(bytes)[i] < 10 by {
        assert(ascii_digit(bytes[i]));
    }
}

proof fn lemma_nonzero_digits(bytes: Seq<u8>)
    requires
        ascii_digits(bytes),
        bytes.len() > 0,
        bytes.first() != '0' as u8,
    ensures
        digits_value(digit_values(bytes)) > 0,
        canonical(digit_values(bytes)),
{
    lemma_digit_values_decimal(bytes);
    assert(ascii_digit(bytes[0]));
    assert(digit_values(bytes)[0] != 0);
    lemma_digits_value_bounds(digit_values(bytes));
    lemma_ten_to_positive((bytes.len() - 1) as nat);
}

/// A last digit other than zero keeps a number from being a multiple of ten.
proof fn lemma_last_digit(bytes: Seq<u8>)
    requires
        ascii_digits(bytes),
        bytes.len() > 0,
        bytes.last() != '0' as u8,
    ensures
        digits_value(digit_values(bytes)) % 10 != 0,
{
    lemma_digit_values_decimal(bytes);
    let digits = digit_values(bytes);
    assert(ascii_digit(bytes[bytes.len() - 1]));
    assert(digits.last() == (bytes.last() - '0' as u8) as u8);
    assert(digits[digits.len() - 1] < 10);
}

/// The normal form of a number is unique: two of the same number agree in sign, digits
/// and exponent.
pub proof fn law_normal_form_is_unique(left: &NormalizedNumber, right: &NormalizedNumber)
    requires
        left.normal(),
        right.normal(),
        same_number(left.number(), right.number()),
    ensures
        left.negative == right.negative,
        left.significant_digits@ == right.significant_digits@,
        left.decimal_exponent.value() == right.decimal_exponent.value(),
{
    lemma_zero_form(left);
    lemma_zero_form(right);
    let (left_integer, left_exponent) = left.number();
    let (right_integer, right_exponent) = right.number();
    law_same_number_is_an_equivalence(left.number(), right.number(), left.number());
    if left_integer == 0 || right_integer == 0 {
        if left_integer == 0 {
            lemma_same_number_as_zero(left.number(), right.number());
        } else {
            lemma_same_number_as_zero(right.number(), left.number());
        }
    } else {
        lemma_same_exponent(left, right);
        lemma_same_exponent(right, left);
        assert(left_exponent == right_exponent);
        assert(ten_to(0) == 1);
        assert(left_integer * 1 == left_integer && right_integer * 1 == right_integer);
        assert(left_integer == right_integer);
        lemma_nonzero_digits(left.significant_digits@);
        lemma_nonzero_digits(right.significant_digits@);
        let left_digits = digit_values(left.significant_digits@);
        let right_digits = digit_values(right.significant_digits@);
        lemma_canonical_unique(left_digits, right_digits);
        assert forall|i: int| 0 <= i < left.significant_digits@.len() implies (
        #[trigger] left.significant_digits@[i]) == right.significant_digits@[i] by {
            assert(ascii_digit(left.significant_digits@[i]));
            assert(ascii_digit(right.significant_digits@[i]));
            assert(left_digits[i] == right_digits[i]);
        }
        assert(left_digits.len() == left.significant_digits@.len());
        assert(right_digits.len() == right.significant_digits@.len());
        assert(left.significant_digits@ =~= right.significant_digits@);
    }
}

/// In normal form only the digit zero makes the number zero.
proof fn lemma_zero_form(number: &NormalizedNumber)
    requires
        number.normal(),
    ensures
        number.integer() == 0 <==> number.significant_digits@ == seq!['0' as u8],
{
    let digits = number.significant_digits@;
    if digits == seq!['0' as u8] {
        assert(digit_values(digits) =~= seq![0u8]);
        lemma_single_digit(0);
    } else {
        lemma_nonzero_digits(digits);
    }
}

proof fn lemma_same_number_as_zero(left: (int, int), right: (int, int))
    requires
        same_number(left, right),
        left.0 == 0,
    ensures
        right.0 == 0,
{
    let lowest = if left.1 <= right.1 {
        left.1
    } else {
        right.1
    };
    let power = ten_to((right.1 - lowest) as nat) as int;
    lemma_ten_to_positive((right.1 - lowest) as nat);
    assert(left.0 * ten_to((left.1 - lowest) as nat) == 0) by (nonlinear_arith)
        requires
            left.0 == 0,
    ;
    assert(right.0 == 0) by (nonlinear_arith)
        requires
            right.0 * power == 0,
            power > 0,
    ;
}

/// Of two equal nonzero numbers in normal form, neither has the lower exponent.
proof fn lemma_same_exponent(left: &NormalizedNumber, right: &NormalizedNumber)
    requires
        left.normal(),
        right.normal(),
        left.integer() != 0,
        same_number(left.number(), right.number()),
    ensures
        left.decimal_exponent.value() >= right.decimal_exponent.value(),
{
    let (left_integer, left_exponent) = left.number();
    let (right_integer, right_exponent) = right.number();
    if left_exponent < right_exponent {
        lemma_zero_form(left);
        lemma_last_digit(left.significant_digits@);
        let gap = (right_exponent - left_exponent) as nat;
        let lower = ten_to((gap - 1) as nat) as int;
        assert(ten_to(0) == 1);
        assert(left_integer * ten_to(0) == left_integer) by (nonlinear_arith)
            requires
                ten_to(0) == 1,
        ;
        assert(left_integer == right_integer * (10 * lower));
        let multiple = right_integer * lower;
        assert(right_integer * (10 * lower) == 10 * multiple) by (nonlinear_arith)
            requires
                multiple == right_integer * lower,
        ;
        let digits = digits_value(digit_values(left.significant_digits@)) as int;
        assert(digits == 10 * multiple || digits == 10 * (-multiple));
        assert(digits % 10 == 0);
    }
}

/// Whether two numbers, as they are written, are the same number.
pub fn numbers_semantically_equal(left: &str, right: &str) -> (equal: bool)
    ensures
        equal == numbers_equal(left.spec_bytes(), right.spec_bytes()),
{
    match (NormalizedNumber::parse(left), NormalizedNumber::parse(right)) {
        (Some(left_number), Some(right_number)) => {
            proof {
                let a = decimal_number(left.spec_bytes())->Some_0;
                let b = decimal_number(right.spec_bytes())->Some_0;
                let x = left_number.number();
                let y = right_number.number();
                law_same_number_is_an_equivalence(x, a, b);
                law_same_number_is_an_equivalence(a, x, y);
                law_same_number_is_an_equivalence(x, y, b);
                law_same_number_is_an_equivalence(y, b, a);
                law_same_number_is_an_equivalence(a, b, y);
                law_same_number_is_an_equivalence(x, a, y);
                law_same_number_is_an_equivalence(a, y, b);
                law_same_number_is_an_equivalence(x, b, y);
            }
            left_number.same(&right_number)
        },
        _ => false,
    }
}

} // verus!
