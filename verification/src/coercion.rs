//! From values as they are written in a statement to the datums of the
//! columns they are meant for.

use crate::binary::{Datum, DatumView};
use crate::decimal::{
    decimal_as_i64, decimal_in_range, decimal_is_whole, decimal_to_i64, decimal_whole, in_range,
};
use crate::expr_eval::{Scalar, ScalarValue};
use crate::sql_types::SqlType;
use crate::statement::Literal;
use vstd::prelude::*;
use vstd::string::StrSliceExecFns;

verus! {

/// Why a value is not a value of a column.
#[derive(Debug, Copy, Clone, PartialEq, Eq, Structural)]
pub enum CoercionError {
    /// The value is not written as values of the type are.
    InvalidInput,
    /// The number is beyond the numbers of the type.
    OutOfRange,
    /// The string is longer than the type allows.
    TooLong,
    /// Values of the type, or expressions of this kind, are not supported.
    NotSupported,
}

/// The number that a text of digits writes, or why it writes none.
#[derive(Debug, Copy, Clone, PartialEq, Eq, Structural)]
pub enum ParsedDigits {
    /// The text is empty or holds a character that is no digit.
    Invalid,
    /// The number is beyond `u64`.
    TooLarge,
    Value(u64),
}

/// The digit that a character writes.
pub open spec fn digit_of(c: char) -> Option<nat> {
    if c == '0' {
        Some(0)
    } else if c == '1' {
        Some(1)
    } else if c == '2' {
        Some(2)
    } else if c == '3' {
        Some(3)
    } else if c == '4' {
        Some(4)
    } else if c == '5' {
        Some(5)
    } else if c == '6' {
        Some(6)
    } else if c == '7' {
        Some(7)
    } else if c == '8' {
        Some(8)
    } else if c == '9' {
        Some(9)
    } else {
        None
    }
}

/// The number that digits write, most significant first; zero for no
/// digits, and nothing where a character is no digit.
pub open spec fn digits_number(digits: Seq<char>) -> Option<nat>
    decreases digits.len(),
{
    if digits.len() == 0 {
        Some(0)
    } else {
        match (digits_number(digits.drop_last()), digit_of(digits.last())) {
            (Some(front), Some(digit)) => Some(front * 10 + digit),
            _ => None,
        }
    }
}

/// The number that a text writes: the text must be one digit at least and
/// digits only.
pub open spec fn digits_value(text: Seq<char>) -> Option<nat> {
    if text.len() == 0 {
        None
    } else {
        digits_number(text)
    }
}

/// The least and the largest number of an integer type.
pub open spec fn integer_range(sql_type: SqlType) -> (int, int) {
    match sql_type {
        SqlType::SmallInt => (-0x8000, 0x7fff),
        SqlType::Integer => (-0x8000_0000, 0x7fff_ffff),
        _ => (-0x8000_0000_0000_0000, 0x7fff_ffff_ffff_ffff),
    }
}

/// The datum of an integer type for a number within its range.
pub open spec fn integer_datum(sql_type: SqlType, number: int) -> DatumView {
    match sql_type {
        SqlType::SmallInt => DatumView::Int16(number as i16),
        SqlType::Integer => DatumView::Int32(number as i32),
        _ => DatumView::Int64(number as i64),
    }
}

/// The datum that a value stands for in a column of the type. Null is a
/// value of every type. A boolean is a value of `Bool`; a number without
/// fraction that is within the range of the type is a value of the three
/// integer types; a string that is not longer than the type allows is a
/// value of the two character types. Values of the floating types, and
/// expressions that are no values, are not supported.
pub open spec fn coerced(literal: Literal, sql_type: SqlType) -> Result<DatumView, CoercionError> {
    match literal {
        Literal::Null => Ok(DatumView::Null),
        Literal::Other => Err(CoercionError::NotSupported),
        _ => match sql_type {
            SqlType::Real | SqlType::DoublePrecision => Err(CoercionError::NotSupported),
            SqlType::Bool => match literal {
                Literal::Bool(b) => Ok(DatumView::Bool(b)),
                _ => Err(CoercionError::InvalidInput),
            },
            SqlType::Char(len) | SqlType::VarChar(len) => match literal {
                Literal::Text(text) => if text@.len() <= len {
                    Ok(DatumView::Str(text@))
                } else {
                    Err(CoercionError::TooLong)
                },
                _ => Err(CoercionError::InvalidInput),
            },
            _ => match literal {
                Literal::Number { negative, text } => match digits_value(text@) {
                    None => Err(CoercionError::InvalidInput),
                    Some(magnitude) => {
                        let number = if negative {
                            -(magnitude as int)
                        } else {
                            magnitude as int
                        };
                        if integer_range(sql_type).0 <= number <= integer_range(sql_type).1 {
                            Ok(integer_datum(sql_type, number))
                        } else {
                            Err(CoercionError::OutOfRange)
                        }
                    },
                },
                _ => Err(CoercionError::InvalidInput),
            },
        },
    }
}

/// Digits write a number.
pub proof fn lemma_digits_number_of_digits(digits: Seq<char>)
    requires
        forall|i: int| 0 <= i < digits.len() ==> digit_of(#[trigger] digits[i]) is Some,
    ensures
        digits_number(digits) is Some,
    decreases digits.len(),
{
    if digits.len() > 0 {
        assert forall|i: int| 0 <= i < digits.drop_last().len() implies digit_of(
            #[trigger] digits.drop_last()[i],
        ) is Some by {
            assert(digits.drop_last()[i] == digits[i]);
        }
        lemma_digits_number_of_digits(digits.drop_last());
        assert(digit_of(digits[digits.len() - 1]) is Some);
    }
}

/// A text with a character that is no digit writes no number.
pub proof fn lemma_digits_number_invalid(digits: Seq<char>, i: int)
    requires
        0 <= i < digits.len(),
        digit_of(digits[i]) is None,
    ensures
        digits_number(digits) is None,
    decreases digits.len(),
{
    if i < digits.len() - 1 {
        lemma_digits_number_invalid(digits.drop_last(), i);
    }
}

/// The digit that a character writes.
pub fn digit(c: char) -> (digit: Option<u64>)
    ensures
        match digit {
            Some(digit) => digit_of(c) == Some(digit as nat) && digit <= 9,
            None => digit_of(c) is None,
        },
{
    if c == '0' {
        Some(0)
    } else if c == '1' {
        Some(1)
    } else if c == '2' {
        Some(2)
    } else if c == '3' {
        Some(3)
    } else if c == '4' {
        Some(4)
    } else if c == '5' {
        Some(5)
    } else if c == '6' {
        Some(6)
    } else if c == '7' {
        Some(7)
    } else if c == '8' {
        Some(8)
    } else if c == '9' {
        Some(9)
    } else {
        None
    }
}

/// Reads the number that a text of digits writes.
pub fn parse_digits(text: &str) -> (parsed: ParsedDigits)
    ensures
        match parsed {
            ParsedDigits::Invalid => digits_value(text@) is None,
            ParsedDigits::TooLarge => digits_value(text@) matches Some(number) && number
                > u64::MAX,
            ParsedDigits::Value(value) => digits_value(text@) == Some(value as nat),
        },
{
    let len = text.unicode_len();
    if len == 0 {
        return ParsedDigits::Invalid;
    }
    let mut value: u64 = 0;
    let mut too_large = false;
    let mut i: usize = 0;
    assert(text@.take(0) =~= Seq::<char>::empty());
    while i < len
        invariant
            i <= len == text@.len(),
            digits_number(text@.take(i as int)) is Some,
            !too_large ==> digits_number(text@.take(i as int)) == Some(value as nat),
            too_large ==> digits_number(text@.take(i as int)).unwrap() > u64::MAX,
        decreases len - i,
    {
        proof {
            assert(text@.take(i + 1).drop_last() =~= text@.take(i as int));
            assert(text@.take(i + 1).last() == text@[i as int]);
        }
        match digit(text.get_char(i)) {
            None => {
                proof {
                    lemma_digits_number_invalid(text@, i as int);
                }
                return ParsedDigits::Invalid;
            },
            Some(d) => {
                if !too_large {
                    if value > (u64::MAX - d) / 10 {
                        too_large = true;
                    } else {
                        value = value * 10 + d;
                    }
                }
            },
        }
        i = i + 1;
    }
    assert(text@.take(i as int) =~= text@);
    if too_large {
        ParsedDigits::TooLarge
    } else {
        ParsedDigits::Value(value)
    }
}

/// The datum that a value stands for in a column of the type, or why it
/// is no value of the type.
pub fn coerce(literal: &Literal, sql_type: &SqlType) -> (datum: Result<Datum, CoercionError>)
    ensures
        match datum {
            Ok(datum) => coerced(*literal, *sql_type) == Ok::<DatumView, CoercionError>(datum@),
            Err(error) => coerced(*literal, *sql_type) == Err::<DatumView, CoercionError>(error),
        },
{
    match literal {
        Literal::Null => {
            return Ok(Datum::Null);
        },
        Literal::Other => {
            return Err(CoercionError::NotSupported);
        },
        _ => {},
    }
    match sql_type {
        SqlType::Real | SqlType::DoublePrecision => Err(CoercionError::NotSupported),
        SqlType::Bool => match literal {
            Literal::Bool(b) => Ok(Datum::Bool(*b)),
            _ => Err(CoercionError::InvalidInput),
        },
        SqlType::Char(len) | SqlType::VarChar(len) => match literal {
            Literal::Text(text) => {
                if text.as_str().unicode_len() as u64 <= *len {
                    Ok(Datum::Str(text.clone()))
                } else {
                    Err(CoercionError::TooLong)
                }
            },
            _ => Err(CoercionError::InvalidInput),
        },
        _ => match literal {
            Literal::Number { negative, text } => {
                match parse_digits(text.as_str()) {
                    ParsedDigits::Invalid => Err(CoercionError::InvalidInput),
                    ParsedDigits::TooLarge => Err(CoercionError::OutOfRange),
                    ParsedDigits::Value(magnitude) => {
                        let number: i128 = if *negative {
                            -(magnitude as i128)
                        } else {
                            magnitude as i128
                        };
                        match sql_type {
                            SqlType::SmallInt => {
                                if -0x8000 <= number && number <= 0x7fff {
                                    Ok(Datum::Int16(number as i16))
                                } else {
                                    Err(CoercionError::OutOfRange)
                                }
                            },
                            SqlType::Integer => {
                                if -0x8000_0000 <= number && number <= 0x7fff_ffff {
                                    Ok(Datum::Int32(number as i32))
                                } else {
                                    Err(CoercionError::OutOfRange)
                                }
                            },
                            _ => {
                                if -0x8000_0000_0000_0000 <= number && number
                                    <= 0x7fff_ffff_ffff_ffff {
                                    Ok(Datum::Int64(number as i64))
                                } else {
                                    Err(CoercionError::OutOfRange)
                                }
                            },
                        }
                    },
                }
            },
            _ => Err(CoercionError::InvalidInput),
        },
    }
}

/// The datum that the value of an expression stands for in a column of
/// the type. Null is a value of every type. A boolean is a value of
/// `Bool`; a number without fraction that is within the range of the type
/// is a value of the three integer types; a string that is not longer than
/// the type allows is a value of the two character types. Values of the
/// floating types are not supported.
pub open spec fn value_coerced(value: Scalar, sql_type: SqlType) -> Result<DatumView, CoercionError> {
    match value {
        Scalar::Null => Ok(DatumView::Null),
        _ => match sql_type {
            SqlType::Real | SqlType::DoublePrecision => Err(CoercionError::NotSupported),
            SqlType::Bool => match value {
                Scalar::Bool(b) => Ok(DatumView::Bool(b)),
                _ => Err(CoercionError::InvalidInput),
            },
            SqlType::Char(len) | SqlType::VarChar(len) => match value {
                Scalar::String(text) => if text.len() <= len {
                    Ok(DatumView::Str(text))
                } else {
                    Err(CoercionError::TooLong)
                },
                _ => Err(CoercionError::InvalidInput),
            },
            _ => match value {
                Scalar::Number(number) => if !in_range(number) {
                    Err(CoercionError::OutOfRange)
                } else if !decimal_is_whole(number) {
                    Err(CoercionError::InvalidInput)
                } else {
                    match decimal_as_i64(number) {
                        None => Err(CoercionError::OutOfRange),
                        Some(integer) => if integer_range(sql_type).0 <= integer <= integer_range(
                            sql_type,
                        ).1 {
                            Ok(integer_datum(sql_type, integer as int))
                        } else {
                            Err(CoercionError::OutOfRange)
                        },
                    }
                },
                _ => Err(CoercionError::InvalidInput),
            },
        },
    }
}

/// The datum that the value stands for in a column of the type, or why it
/// is no value of the type.
pub fn coerce_value(value: &ScalarValue, sql_type: &SqlType) -> (datum: Result<Datum, CoercionError>)
    ensures
        match datum {
            Ok(datum) => value_coerced(value@, *sql_type) == Ok::<DatumView, CoercionError>(
                datum@,
            ),
            Err(error) => value_coerced(value@, *sql_type) == Err::<DatumView, CoercionError>(
                error,
            ),
        },
{
    match value {
        ScalarValue::Null => {
            return Ok(Datum::Null);
        },
        _ => {},
    }
    match sql_type {
        SqlType::Real | SqlType::DoublePrecision => Err(CoercionError::NotSupported),
        SqlType::Bool => match value {
            ScalarValue::Bool(b) => Ok(Datum::Bool(*b)),
            _ => Err(CoercionError::InvalidInput),
        },
        SqlType::Char(len) | SqlType::VarChar(len) => match value {
            ScalarValue::String(text) => {
                if text.as_str().unicode_len() as u64 <= *len {
                    Ok(Datum::Str(text.clone()))
                } else {
                    Err(CoercionError::TooLong)
                }
            },
            _ => Err(CoercionError::InvalidInput),
        },
        _ => match value {
            ScalarValue::Number(number) => {
                if !decimal_in_range(number) {
                    return Err(CoercionError::OutOfRange);
                }
                if !decimal_whole(number) {
                    return Err(CoercionError::InvalidInput);
                }
                match decimal_to_i64(number) {
                    None => Err(CoercionError::OutOfRange),
                    Some(integer) => match sql_type {
                        SqlType::SmallInt => {
                            if -0x8000 <= integer && integer <= 0x7fff {
                                Ok(Datum::Int16(integer as i16))
                            } else {
                                Err(CoercionError::OutOfRange)
                            }
                        },
                        SqlType::Integer => {
                            if -0x8000_0000 <= integer && integer <= 0x7fff_ffff {
                                Ok(Datum::Int32(integer as i32))
                            } else {
                                Err(CoercionError::OutOfRange)
                            }
                        },
                        _ => Ok(Datum::Int64(integer)),
                    },
                }
            },
            _ => Err(CoercionError::InvalidInput),
        },
    }
}

} // verus!
