//! Why an argument is refused, and whole numbers as callers hand them in,
//! checked before they reach a stream.

use vstd::prelude::*;

verus! {

/// Why a value cannot serve as the argument it was given for.
#[derive(Clone, Copy, Debug, PartialEq, Eq, Structural)]
pub enum ArgumentError {
    /// No value was given where one is needed.
    Missing,
    /// The value is of a kind that the parameter does not take.
    WrongType,
    /// The number is below zero.
    Negative,
    /// The number does not fit the type that the operation takes.
    TooLarge,
    /// The value is not a number.
    NotANumber,
    /// The number is infinite.
    Infinite,
    /// The number has a fraction where a whole number is asked.
    Fractional,
}

/// How many nanoseconds make a second.
pub const NANOS_PER_SECOND: u64 = 1_000_000_000;

/// A count or an offset from a signed number: the same number where it is not
/// negative and fits.
pub fn int_to_usize(value: i64) -> (checked: Result<usize, ArgumentError>)
    ensures
        value < 0 ==> checked == Err::<usize, ArgumentError>(ArgumentError::Negative),
        value > usize::MAX ==> checked == Err::<usize, ArgumentError>(ArgumentError::TooLarge),
        0 <= value <= usize::MAX ==> checked == Ok::<usize, ArgumentError>(value as usize),
{
    if value < 0 {
        Err(ArgumentError::Negative)
    } else if value as u64 > usize::MAX as u64 {
        Err(ArgumentError::TooLarge)
    } else {
        Ok(value as usize)
    }
}

/// A number of milliseconds from a signed number: the same number where it is
/// not negative.
pub fn int_to_u64(value: i64) -> (checked: Result<u64, ArgumentError>)
    ensures
        value < 0 ==> checked == Err::<u64, ArgumentError>(ArgumentError::Negative),
        0 <= value ==> checked == Ok::<u64, ArgumentError>(value as u64),
{
    if value < 0 {
        Err(ArgumentError::Negative)
    } else {
        Ok(value as u64)
    }
}

/// As many nanoseconds as `seconds` seconds hold, or as many as a `u64` can
/// count where that is fewer.
pub open spec fn nanos_of_seconds(seconds: int) -> int {
    if seconds * NANOS_PER_SECOND > u64::MAX {
        u64::MAX as int
    } else {
        seconds * NANOS_PER_SECOND
    }
}

/// A duration in nanoseconds from whole seconds. A negative duration is an
/// error; one too long to count in nanoseconds is cut to the longest that can be.
pub fn seconds_to_nanos(seconds: i64) -> (checked: Result<u64, ArgumentError>)
    ensures
        seconds < 0 ==> checked == Err::<u64, ArgumentError>(ArgumentError::Negative),
        0 <= seconds ==> checked == Ok::<u64, ArgumentError>(
            nanos_of_seconds(seconds as int) as u64,
        ),
{
    if seconds < 0 {
        Err(ArgumentError::Negative)
    } else {
        let whole: u64 = seconds as u64;
        if whole > u64::MAX / NANOS_PER_SECOND {
            assert(seconds * NANOS_PER_SECOND > u64::MAX) by (nonlinear_arith)
                requires
                    seconds > u64::MAX / NANOS_PER_SECOND,
                    NANOS_PER_SECOND == 1_000_000_000,
            ;
            Ok(u64::MAX)
        } else {
            assert(seconds * NANOS_PER_SECOND <= u64::MAX) by (nonlinear_arith)
                requires
                    0 <= seconds <= u64::MAX / NANOS_PER_SECOND,
                    NANOS_PER_SECOND == 1_000_000_000,
            ;
            Ok(whole * NANOS_PER_SECOND)
        }
    }
}

} // verus!
