//! Arbitrary-precision decimal numbers, as the crate `bigdecimal` provides
//! them. Nothing of their arithmetic is decided here: each operation is
//! named, and what it gives is what `bigdecimal` computes.

use bigdecimal::BigDecimal;
use bigdecimal::ToPrimitive;
use bigdecimal::Zero;
use crate::coercion::{digit, digit_of};
use std::str::FromStr;
use vstd::prelude::*;
use vstd::string::StrSliceExecFns;

verus! {

#[verifier::external_type_specification]
#[verifier::external_body]
pub struct ExBigDecimal(BigDecimal);

/// The largest scale, in either direction, of a number that takes part in
/// an operation. `bigdecimal` brings two operands to one scale by a power
/// of ten of the difference of their scales; the limit bounds that power.
pub const MAX_SCALE: i64 = 100_000;

/// The scale of a number: the number of its digits after the point.
pub uninterp spec fn scale_of(number: BigDecimal) -> i64;

/// The number that `BigDecimal::from` gives for a signed integer.
pub uninterp spec fn decimal_of_i64(n: i64) -> BigDecimal;

/// The number that `BigDecimal::from` gives for an unsigned integer.
pub uninterp spec fn decimal_of_u64(n: u64) -> BigDecimal;

/// The number that `BigDecimal::from_str` reads from a text, if it reads
/// one.
pub uninterp spec fn decimal_of_text(text: Seq<char>) -> Option<BigDecimal>;

/// Whether the text is made of digits and points alone.
pub open spec fn written_plainly(text: Seq<char>) -> bool {
    forall|i: int| 0 <= i < text.len() ==> digit_of(#[trigger] text[i]) is Some || text[i] == '.'
}

/// The integer that `ToPrimitive::to_i64` gives for a number, if it gives
/// one.
pub uninterp spec fn decimal_as_i64(number: BigDecimal) -> Option<i64>;

/// Whether the number is zero.
pub uninterp spec fn decimal_is_zero(number: BigDecimal) -> bool;

/// Whether the number has no fractional part.
pub uninterp spec fn decimal_is_whole(number: BigDecimal) -> bool;

pub uninterp spec fn decimal_sum(left: BigDecimal, right: BigDecimal) -> BigDecimal;

pub uninterp spec fn decimal_difference(left: BigDecimal, right: BigDecimal) -> BigDecimal;

pub uninterp spec fn decimal_product(left: BigDecimal, right: BigDecimal) -> BigDecimal;

pub uninterp spec fn decimal_quotient(left: BigDecimal, right: BigDecimal) -> BigDecimal;

pub uninterp spec fn decimal_remainder(left: BigDecimal, right: BigDecimal) -> BigDecimal;

/// The bitwise and of the integer parts of two numbers.
pub uninterp spec fn decimal_and(left: BigDecimal, right: BigDecimal) -> BigDecimal;

/// The bitwise or of the integer parts of two numbers.
pub uninterp spec fn decimal_or(left: BigDecimal, right: BigDecimal) -> BigDecimal;

/// The number with the opposite sign.
pub uninterp spec fn decimal_negated(number: BigDecimal) -> BigDecimal;

/// Whether two numbers are equal as numbers, whatever their scales.
pub uninterp spec fn decimal_equal(left: BigDecimal, right: BigDecimal) -> bool;

/// Whether the left number is smaller than the right one.
pub uninterp spec fn decimal_less(left: BigDecimal, right: BigDecimal) -> bool;

/// Whether the scale of a number is within the limit.
pub open spec fn in_range(number: BigDecimal) -> bool {
    -MAX_SCALE <= scale_of(number) <= MAX_SCALE
}

/// `BigDecimal::as_bigint_and_exponent`: the second part of what it
/// returns, the scale of the number.
#[verifier::external_body]
pub(crate) fn decimal_scale(number: &BigDecimal) -> (scale: i64)
    ensures
        scale == scale_of(*number),
{
    number.as_bigint_and_exponent().1
}

/// `Clone::clone` of `BigDecimal`, which is derived: the copy is the
/// number itself, digit by digit and with its scale.
pub assume_specification[ <BigDecimal as Clone>::clone ](number: &BigDecimal) -> (copy: BigDecimal)
    ensures
        copy == *number,
;

/// `BigDecimal::from` of an `i64`.
#[verifier::external_body]
pub(crate) fn decimal_from_i64(n: i64) -> (number: BigDecimal)
    ensures
        number == decimal_of_i64(n),
{
    BigDecimal::from(n)
}

/// `BigDecimal::from_str`, for a text of digits and points: the number
/// that it reads, and nothing where it reads none. The scale of a number
/// with an exponent is a difference that need not fit, so such a text is
/// left out.
#[verifier::external_body]
pub(crate) fn decimal_from_text(text: &str) -> (number: Option<BigDecimal>)
    requires
        written_plainly(text@),
    ensures
        number == decimal_of_text(text@),
{
    BigDecimal::from_str(text).ok()
}

/// Whether the text is made of digits and points alone.
pub fn is_written_plainly(text: &str) -> (plain: bool)
    ensures
        plain == written_plainly(text@),
{
    let len = text.unicode_len();
    let mut i: usize = 0;
    while i < len
        invariant
            i <= len == text@.len(),
            forall|j: int| 0 <= j < i ==> digit_of(#[trigger] text@[j]) is Some || text@[j] == '.',
        decreases len - i,
    {
        let c = text.get_char(i);
        if digit(c).is_none() && c != '.' {
            return false;
        }
        i = i + 1;
    }
    true
}

/// `BigDecimal::from` of a `u64`.
#[verifier::external_body]
pub(crate) fn decimal_from_u64(n: u64) -> (number: BigDecimal)
    ensures
        number == decimal_of_u64(n),
{
    BigDecimal::from(n)
}

/// `Zero::is_zero` of `BigDecimal`.
#[verifier::external_body]
pub(crate) fn decimal_zero(number: &BigDecimal) -> (zero: bool)
    ensures
        zero == decimal_is_zero(*number),
{
    number.is_zero()
}

/// `ToPrimitive::to_i64` of a `BigDecimal`.
#[verifier::external_body]
pub(crate) fn decimal_to_i64(number: &BigDecimal) -> (integer: Option<i64>)
    requires
        in_range(*number),
    ensures
        integer == decimal_as_i64(*number),
{
    number.to_i64()
}

/// `BigDecimal::is_integer`.
#[verifier::external_body]
pub(crate) fn decimal_whole(number: &BigDecimal) -> (whole: bool)
    requires
        in_range(*number),
    ensures
        whole == decimal_is_whole(*number),
{
    number.is_integer()
}

/// `Add::add` of two `&BigDecimal`.
#[verifier::external_body]
pub(crate) fn decimal_add(left: &BigDecimal, right: &BigDecimal) -> (sum: BigDecimal)
    requires
        in_range(*left),
        in_range(*right),
    ensures
        sum == decimal_sum(*left, *right),
{
    left + right
}

/// `Sub::sub` of two `&BigDecimal`.
#[verifier::external_body]
pub(crate) fn decimal_sub(left: &BigDecimal, right: &BigDecimal) -> (difference: BigDecimal)
    requires
        in_range(*left),
        in_range(*right),
    ensures
        difference == decimal_difference(*left, *right),
{
    left - right
}

/// `Mul::mul` of two `&BigDecimal`.
#[verifier::external_body]
pub(crate) fn decimal_mul(left: &BigDecimal, right: &BigDecimal) -> (product: BigDecimal)
    requires
        in_range(*left),
        in_range(*right),
    ensures
        product == decimal_product(*left, *right),
{
    left * right
}

/// `Div::div` of two `&BigDecimal`, which panics on a divisor that is zero.
#[verifier::external_body]
pub(crate) fn decimal_div(left: &BigDecimal, right: &BigDecimal) -> (quotient: BigDecimal)
    requires
        in_range(*left),
        in_range(*right),
        !decimal_is_zero(*right),
    ensures
        quotient == decimal_quotient(*left, *right),
{
    left / right
}

/// `Rem::rem` of two `&BigDecimal`, which panics on a divisor that is zero.
#[verifier::external_body]
pub(crate) fn decimal_rem(left: &BigDecimal, right: &BigDecimal) -> (remainder: BigDecimal)
    requires
        in_range(*left),
        in_range(*right),
        !decimal_is_zero(*right),
    ensures
        remainder == decimal_remainder(*left, *right),
{
    left % right
}

/// `BitAnd::bitand` of the integers of two numbers without fraction, which
/// `with_scale(0)` gives, as a number.
#[verifier::external_body]
pub(crate) fn decimal_bitand(left: &BigDecimal, right: &BigDecimal) -> (bits: BigDecimal)
    requires
        in_range(*left),
        in_range(*right),
        decimal_is_whole(*left),
        decimal_is_whole(*right),
    ensures
        bits == decimal_and(*left, *right),
{
    BigDecimal::from(
        left.with_scale(0).into_bigint_and_exponent().0 & right.with_scale(
            0,
        ).into_bigint_and_exponent().0,
    )
}

/// `BitOr::bitor` of the integers of two numbers without fraction, which
/// `with_scale(0)` gives, as a number.
#[verifier::external_body]
pub(crate) fn decimal_bitor(left: &BigDecimal, right: &BigDecimal) -> (bits: BigDecimal)
    requires
        in_range(*left),
        in_range(*right),
        decimal_is_whole(*left),
        decimal_is_whole(*right),
    ensures
        bits == decimal_or(*left, *right),
{
    BigDecimal::from(
        left.with_scale(0).into_bigint_and_exponent().0 | right.with_scale(
            0,
        ).into_bigint_and_exponent().0,
    )
}

/// `Neg::neg` of a `&BigDecimal`.
#[verifier::external_body]
pub(crate) fn decimal_neg(number: &BigDecimal) -> (negated: BigDecimal)
    ensures
        negated == decimal_negated(*number),
{
    -number
}

/// `PartialEq::eq` of `BigDecimal`.
#[verifier::external_body]
pub(crate) fn decimal_eq(left: &BigDecimal, right: &BigDecimal) -> (equal: bool)
    requires
        in_range(*left),
        in_range(*right),
    ensures
        equal == decimal_equal(*left, *right),
{
    left == right
}

/// `PartialOrd::lt` of `BigDecimal`.
#[verifier::external_body]
pub(crate) fn decimal_lt(left: &BigDecimal, right: &BigDecimal) -> (less: bool)
    requires
        in_range(*left),
        in_range(*right),
    ensures
        less == decimal_less(*left, *right),
{
    left < right
}

/// Whether the scale of the number is within the limit.
pub fn decimal_in_range(number: &BigDecimal) -> (within: bool)
    ensures
        within == in_range(*number),
{
    let scale = decimal_scale(number);
    -MAX_SCALE <= scale && scale <= MAX_SCALE
}

} // verus!
