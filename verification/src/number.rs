//! Numbers with a fraction, taken by the bits of their double-precision
//! encoding: one sign bit, eleven bits of exponent, fifty-two of mantissa.

use crate::args::{ArgumentError, NANOS_PER_SECOND};
use vstd::arithmetic::div_mod::{lemma_basic_div, lemma_small_mod};
use vstd::arithmetic::power2::{
    lemma2_to64, lemma2_to64_rest, lemma_pow2_adds, lemma_pow2_pos, lemma_pow2_strictly_increases,
    lemma_pow2_unfold, pow2,
};
use vstd::prelude::*;

verus! {

/// The lowest encoding with the sign bit set.
pub const SIGN_BIT: u64 = 0x8000_0000_0000_0000;

/// How many values the mantissa field takes: two to the fifty-second.
pub const MANTISSA_SPAN: u64 = 0x10_0000_0000_0000;

/// How many values the exponent field takes.
pub const EXPONENT_SPAN: u64 = 2048;

/// The exponent field of infinities and of what is not a number.
pub const EXPONENT_TOP: u64 = 2047;

/// The exponent field of the numbers from two to the fifty-second on, whose
/// mantissa counts in units of one.
pub const EXPONENT_OF_UNITS: u64 = 1075;

/// The sign bit is set.
pub open spec fn sign(bits: u64) -> bool {
    bits >= SIGN_BIT
}

/// The exponent field.
pub open spec fn exponent(bits: u64) -> int {
    ((bits / MANTISSA_SPAN) % EXPONENT_SPAN) as int
}

/// The mantissa field.
pub open spec fn mantissa(bits: u64) -> int {
    (bits % MANTISSA_SPAN) as int
}

/// The encoding stands for no number.
pub open spec fn is_nan(bits: u64) -> bool {
    exponent(bits) == EXPONENT_TOP && mantissa(bits) != 0
}

/// The encoding stands for an infinity.
pub open spec fn is_infinite(bits: u64) -> bool {
    exponent(bits) == EXPONENT_TOP && mantissa(bits) == 0
}

/// The digits of the number: the mantissa, with the implicit leading bit
/// unless the exponent field is zero.
pub open spec fn significand(bits: u64) -> int {
    if exponent(bits) == 0 {
        mantissa(bits)
    } else {
        mantissa(bits) + MANTISSA_SPAN
    }
}

/// By how many binary places the digits stand to the right of the units. The
/// magnitude of a finite number is `significand / 2^places`, or
/// `significand * 2^-places` where `places` is negative.
pub open spec fn places(bits: u64) -> int {
    if exponent(bits) == 0 {
        1074
    } else {
        EXPONENT_OF_UNITS - exponent(bits)
    }
}

/// The number is below zero: negative, and neither zero nor not a number.
pub open spec fn below_zero(bits: u64) -> bool {
    sign(bits) && !is_nan(bits) && significand(bits) != 0
}

/// The magnitude of a finite number has no fraction.
pub open spec fn is_whole(bits: u64) -> bool {
    places(bits) <= 0 || significand(bits) % (pow2(places(bits) as nat) as int) == 0
}

/// The magnitude of a finite number times `scale`, rounded down.
pub open spec fn scaled(bits: u64, scale: nat) -> nat {
    if places(bits) <= 0 {
        (significand(bits) * pow2((-places(bits)) as nat) * scale) as nat
    } else {
        ((significand(bits) * scale) / (pow2(places(bits) as nat) as int)) as nat
    }
}

/// Whether a number can be a duration: it is a number, finite and not below zero.
pub open spec fn valid_duration(bits: u64) -> Result<(), ArgumentError> {
    if is_nan(bits) {
        Err(ArgumentError::NotANumber)
    } else if is_infinite(bits) {
        Err(ArgumentError::Infinite)
    } else if below_zero(bits) {
        Err(ArgumentError::Negative)
    } else {
        Ok(())
    }
}

/// A duration in nanoseconds from a number of seconds: the seconds times a
/// thousand million, rounded down, and no more than a `u64` can count.
pub open spec fn nanos_of_number(bits: u64) -> Result<u64, ArgumentError> {
    match valid_duration(bits) {
        Err(problem) => Err(problem),
        Ok(()) => if scaled(bits, NANOS_PER_SECOND as nat) > u64::MAX {
            Ok(u64::MAX)
        } else {
            Ok(scaled(bits, NANOS_PER_SECOND as nat) as u64)
        },
    }
}

/// A whole number of at most `most` from a number: the number itself where
/// it is finite, not below zero, without a fraction and small enough.
pub open spec fn whole_of_number(bits: u64, most: u64) -> Result<u64, ArgumentError> {
    match valid_duration(bits) {
        Err(problem) => Err(problem),
        Ok(()) => if !is_whole(bits) {
            Err(ArgumentError::Fractional)
        } else if scaled(bits, 1) > most {
            Err(ArgumentError::TooLarge)
        } else {
            Ok(scaled(bits, 1) as u64)
        },
    }
}

/// Two to the power `exponent`.
fn power_of_two(exponent: u64) -> (power: u128)
    requires
        exponent <= 100,
    ensures
        power == pow2(exponent as nat),
{
    let mut power: u128 = 1;
    let mut done: u64 = 0;
    proof {
        lemma2_to64();
    }
    while done < exponent
        invariant
            done <= exponent <= 100,
            power == pow2(done as nat),
        decreases exponent - done,
    {
        proof {
            lemma_pow2_unfold((done + 1) as nat);
            lemma_pow2_strictly_increases(done as nat, 101);
            lemma_pow2_adds(64, 37);
            lemma2_to64();
            lemma2_to64_rest();
        }
        power = power * 2;
        done += 1;
    }
    power
}

/// The exponent field, the digits and whether the sign bit is set.
fn fields(bits: u64) -> (parts: (u64, u64, bool))
    ensures
        parts.0 == exponent(bits),
        parts.1 == significand(bits),
        parts.2 == sign(bits),
        parts.0 < EXPONENT_SPAN,
        parts.1 < 2 * MANTISSA_SPAN,
        parts.0 > 0 ==> parts.1 >= MANTISSA_SPAN,
{
    let exponent: u64 = (bits / MANTISSA_SPAN) % EXPONENT_SPAN;
    let mantissa: u64 = bits % MANTISSA_SPAN;
    let digits: u64 = if exponent == 0 {
        mantissa
    } else {
        mantissa + MANTISSA_SPAN
    };
    (exponent, digits, bits >= SIGN_BIT)
}

/// The magnitude of a finite number times `scale`, rounded down, where that
/// is no more than `most`.
fn scaled_within(bits: u64, scale: u64, most: u64) -> (product: Option<u64>)
    requires
        exponent(bits) < EXPONENT_TOP,
        1 <= scale <= NANOS_PER_SECOND,
    ensures
        match product {
            Some(value) => value == scaled(bits, scale as nat) && value <= most,
            None => scaled(bits, scale as nat) > most,
        },
{
    let (exponent, digits, _) = fields(bits);
    proof {
        lemma2_to64();
        lemma2_to64_rest();
    }
    if exponent >= EXPONENT_OF_UNITS {
        let up: u64 = exponent - EXPONENT_OF_UNITS;
        if up > 11 {
            proof {
                if up > 12 {
                    lemma_pow2_strictly_increases(12, up as nat);
                }
                let power = pow2(up as nat) as int;
                assert(digits * power * scale >= 0x10_0000_0000_0000 * 0x1000) by (nonlinear_arith)
                    requires
                        digits >= 0x10_0000_0000_0000,
                        power >= 0x1000,
                        scale >= 1,
                ;
            }
            None
        } else {
            proof {
                if up < 11 {
                    lemma_pow2_strictly_increases(up as nat, 11);
                }
            }
            let power: u128 = power_of_two(up);
            assert(digits * power * scale <= 0x20_0000_0000_0000 * 0x800 * 1_000_000_000)
                by (nonlinear_arith)
                requires
                    0 <= digits < 0x20_0000_0000_0000,
                    0 <= power <= 0x800,
                    0 <= scale <= 1_000_000_000,
            ;
            assert(digits * power <= 0x20_0000_0000_0000 * 0x800) by (nonlinear_arith)
                requires
                    0 <= digits < 0x20_0000_0000_0000,
                    0 <= power <= 0x800,
            ;
            let product: u128 = (digits as u128) * power * (scale as u128);
            if product > most as u128 {
                None
            } else {
                Some(product as u64)
            }
        }
    } else {
        let down: u64 = if exponent == 0 {
            1074
        } else {
            EXPONENT_OF_UNITS - exponent
        };
        assert(digits * scale < 0x20_0000_0000_0000 * 0x4000_0000) by (nonlinear_arith)
            requires
                0 <= digits < 0x20_0000_0000_0000,
                0 <= scale <= 1_000_000_000,
        ;
        let numerator: u128 = (digits as u128) * (scale as u128);
        if down >= 84 {
            proof {
                lemma_pow2_adds(53, 30);
                if down > 84 {
                    lemma_pow2_strictly_increases(84, down as nat);
                }
                lemma_pow2_strictly_increases(83, 84);
                lemma_basic_div(numerator as int, pow2(down as nat) as int);
            }
            Some(0)
        } else {
            let power: u128 = power_of_two(down);
            proof {
                lemma_pow2_pos(down as nat);
            }
            let quotient: u128 = numerator / power;
            if quotient > most as u128 {
                None
            } else {
                Some(quotient as u64)
            }
        }
    }
}

/// Whether the magnitude of a finite number has no fraction.
fn whole(bits: u64) -> (whole: bool)
    requires
        exponent(bits) < EXPONENT_TOP,
    ensures
        whole == is_whole(bits),
{
    let (exponent, digits, _) = fields(bits);
    if exponent >= EXPONENT_OF_UNITS {
        true
    } else {
        let down: u64 = if exponent == 0 {
            1074
        } else {
            EXPONENT_OF_UNITS - exponent
        };
        if down >= 54 {
            proof {
                lemma2_to64_rest();
                if down > 54 {
                    lemma_pow2_strictly_increases(54, down as nat);
                }
                lemma_small_mod(digits as nat, pow2(down as nat));
            }
            digits == 0
        } else {
            let power: u128 = power_of_two(down);
            proof {
                lemma_pow2_pos(down as nat);
            }
            (digits as u128) % power == 0
        }
    }
}

/// Whether a number can be a duration. What is not a number, an infinity and
/// a number below zero are refused; zero of either sign passes.
pub fn check_valid_duration(bits: u64) -> (checked: Result<(), ArgumentError>)
    ensures
        checked == valid_duration(bits),
{
    let (exponent, digits, negative) = fields(bits);
    if exponent == EXPONENT_TOP {
        if digits != MANTISSA_SPAN {
            Err(ArgumentError::NotANumber)
        } else {
            Err(ArgumentError::Infinite)
        }
    } else if negative && digits != 0 {
        Err(ArgumentError::Negative)
    } else {
        Ok(())
    }
}

/// A duration in nanoseconds from a number of seconds.
pub fn float_to_nanos(bits: u64) -> (checked: Result<u64, ArgumentError>)
    ensures
        checked == nanos_of_number(bits),
{
    match check_valid_duration(bits) {
        Err(problem) => Err(problem),
        Ok(()) => match scaled_within(bits, NANOS_PER_SECOND, u64::MAX) {
            Some(nanos) => Ok(nanos),
            None => Ok(u64::MAX),
        },
    }
}

/// A count or an offset from a number.
pub fn float_to_usize(bits: u64) -> (checked: Result<usize, ArgumentError>)
    ensures
        match whole_of_number(bits, usize::MAX as u64) {
            Ok(value) => checked == Ok::<usize, ArgumentError>(value as usize),
            Err(problem) => checked == Err::<usize, ArgumentError>(problem),
        },
{
    match check_valid_duration(bits) {
        Err(problem) => Err(problem),
        Ok(()) => {
            if !whole(bits) {
                Err(ArgumentError::Fractional)
            } else {
                match scaled_within(bits, 1, usize::MAX as u64) {
                    Some(value) => Ok(value as usize),
                    None => Err(ArgumentError::TooLarge),
                }
            }
        },
    }
}

/// A number of milliseconds from a number.
pub fn float_to_u64(bits: u64) -> (checked: Result<u64, ArgumentError>)
    ensures
        checked == whole_of_number(bits, u64::MAX),
{
    match check_valid_duration(bits) {
        Err(problem) => Err(problem),
        Ok(()) => {
            if !whole(bits) {
                Err(ArgumentError::Fractional)
            } else {
                match scaled_within(bits, 1, u64::MAX) {
                    Some(value) => Ok(value),
                    None => Err(ArgumentError::TooLarge),
                }
            }
        },
    }
}


} // verus!
