//! Arguments as a script hands them in: untyped values, checked against what
//! each parameter of an operation takes.

use crate::args::{
    int_to_u64, int_to_usize, nanos_of_seconds, seconds_to_nanos, ArgumentError,
};
use crate::number::{
    float_to_nanos, float_to_u64, float_to_usize, nanos_of_number, whole_of_number,
};
use crate::stream::ITER_POLL_INTERVAL_MILLIS;
use vstd::prelude::*;

verus! {

/// A value at one position of a call.
#[derive(Debug, PartialEq, Eq)]
pub enum Argument {
    /// The call has no value at this position.
    Missing,
    /// The value that stands for no value.
    Nil,
    /// A truth value.
    Boolean(bool),
    /// A whole number.
    Integer(i64),
    /// A number with a fraction, by the bits of its double-precision encoding.
    Number(u64),
    /// A string of bytes.
    Text(Vec<u8>),
    /// A value of any other kind.
    Other,
}

/// The count that a whole number stands for.
pub open spec fn usize_of_integer(value: i64) -> Result<usize, ArgumentError> {
    if value < 0 {
        Err(ArgumentError::Negative)
    } else if value > usize::MAX {
        Err(ArgumentError::TooLarge)
    } else {
        Ok(value as usize)
    }
}

/// The count that a number with a fraction stands for.
pub open spec fn usize_of_number(bits: u64) -> Result<usize, ArgumentError> {
    match whole_of_number(bits, usize::MAX as u64) {
        Ok(value) => Ok(value as usize),
        Err(problem) => Err(problem),
    }
}

/// The count that an argument stands for. A count must be given, as a number
/// of either kind that is whole, not negative and small enough.
pub open spec fn count_of(argument: Argument) -> Result<usize, ArgumentError> {
    match argument {
        Argument::Integer(value) => usize_of_integer(value),
        Argument::Number(bits) => usize_of_number(bits),
        Argument::Missing | Argument::Nil => Err(ArgumentError::Missing),
        _ => Err(ArgumentError::WrongType),
    }
}

/// The offset that an argument stands for: a count, or zero where none is given.
pub open spec fn offset_of(argument: Argument) -> Result<usize, ArgumentError> {
    match argument {
        Argument::Missing | Argument::Nil => Ok(0),
        _ => count_of(argument),
    }
}

/// The duration in nanoseconds that an argument stands for, if it names one.
/// A number of either kind gives seconds, and must not be negative, nor
/// infinite, nor fail to be a number. Where no value is given, no duration is
/// named; a nil names none either, unless `nil_is_zero`, where it names zero.
pub open spec fn duration_of(argument: Argument, nil_is_zero: bool) -> Result<
    Option<u64>,
    ArgumentError,
> {
    match argument {
        Argument::Integer(seconds) => if seconds < 0 {
            Err(ArgumentError::Negative)
        } else {
            Ok(Some(nanos_of_seconds(seconds as int) as u64))
        },
        Argument::Number(bits) => match nanos_of_number(bits) {
            Ok(nanos) => Ok(Some(nanos)),
            Err(problem) => Err(problem),
        },
        Argument::Nil => if nil_is_zero {
            Ok(Some(0))
        } else {
            Ok(None)
        },
        Argument::Missing => Ok(None),
        _ => Err(ArgumentError::WrongType),
    }
}

/// The truth value that an argument stands for: false where none is given.
pub open spec fn flag_of(argument: Argument) -> Result<bool, ArgumentError> {
    match argument {
        Argument::Boolean(flag) => Ok(flag),
        Argument::Missing | Argument::Nil => Ok(false),
        _ => Err(ArgumentError::WrongType),
    }
}

/// The time between two pulls of the chunk iterator, in milliseconds, that an
/// argument stands for: a whole number that is not negative, or the usual
/// time where none is given.
pub open spec fn poll_interval_of(argument: Argument) -> Result<u64, ArgumentError> {
    match argument {
        Argument::Integer(value) => if value < 0 {
            Err(ArgumentError::Negative)
        } else {
            Ok(value as u64)
        },
        Argument::Number(bits) => whole_of_number(bits, u64::MAX),
        Argument::Missing | Argument::Nil => Ok(ITER_POLL_INTERVAL_MILLIS),
        _ => Err(ArgumentError::WrongType),
    }
}

/// The count that `argument` stands for.
pub fn count_argument(argument: &Argument) -> (checked: Result<usize, ArgumentError>)
    ensures
        checked == count_of(*argument),
{
    match argument {
        Argument::Integer(value) => int_to_usize(*value),
        Argument::Number(bits) => float_to_usize(*bits),
        Argument::Missing | Argument::Nil => Err(ArgumentError::Missing),
        _ => Err(ArgumentError::WrongType),
    }
}

/// The offset that `argument` stands for.
pub fn offset_argument(argument: &Argument) -> (checked: Result<usize, ArgumentError>)
    ensures
        checked == offset_of(*argument),
{
    match argument {
        Argument::Missing | Argument::Nil => Ok(0),
        _ => count_argument(argument),
    }
}

/// The duration or the timeout that `argument` stands for, in nanoseconds.
pub fn duration_argument(argument: &Argument, nil_is_zero: bool) -> (checked: Result<
    Option<u64>,
    ArgumentError,
>)
    ensures
        checked == duration_of(*argument, nil_is_zero),
{
    match argument {
        Argument::Integer(seconds) => match seconds_to_nanos(*seconds) {
            Ok(nanos) => Ok(Some(nanos)),
            Err(problem) => Err(problem),
        },
        Argument::Number(bits) => match float_to_nanos(*bits) {
            Ok(nanos) => Ok(Some(nanos)),
            Err(problem) => Err(problem),
        },
        Argument::Nil => if nil_is_zero {
            Ok(Some(0))
        } else {
            Ok(None)
        },
        Argument::Missing => Ok(None),
        _ => Err(ArgumentError::WrongType),
    }
}

/// The truth value that `argument` stands for.
pub fn flag_argument(argument: &Argument) -> (checked: Result<bool, ArgumentError>)
    ensures
        checked == flag_of(*argument),
{
    match argument {
        Argument::Boolean(flag) => Ok(*flag),
        Argument::Missing | Argument::Nil => Ok(false),
        _ => Err(ArgumentError::WrongType),
    }
}

/// The delimiter that `argument` stands for: a string must be given.
pub fn term_argument(argument: Argument) -> (checked: Result<Vec<u8>, ArgumentError>)
    ensures
        match argument {
            Argument::Text(bytes) => checked == Ok::<Vec<u8>, ArgumentError>(bytes),
            Argument::Missing | Argument::Nil => checked == Err::<Vec<u8>, ArgumentError>(
                ArgumentError::Missing,
            ),
            _ => checked == Err::<Vec<u8>, ArgumentError>(ArgumentError::WrongType),
        },
{
    match argument {
        Argument::Text(bytes) => Ok(bytes),
        Argument::Missing | Argument::Nil => Err(ArgumentError::Missing),
        _ => Err(ArgumentError::WrongType),
    }
}

/// The time between two pulls of the chunk iterator that `argument` stands for.
pub fn poll_interval_argument(argument: &Argument) -> (checked: Result<u64, ArgumentError>)
    ensures
        checked == poll_interval_of(*argument),
{
    match argument {
        Argument::Integer(value) => int_to_u64(*value),
        Argument::Number(bits) => float_to_u64(*bits),
        Argument::Missing | Argument::Nil => Ok(ITER_POLL_INTERVAL_MILLIS),
        _ => Err(ArgumentError::WrongType),
    }
}

} // verus!
