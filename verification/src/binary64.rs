//! Script floats, seen through their IEEE 754 binary64 bit pattern: which
//! of them are integers, and which integer each is.

use crate::error::ConversionError;
use vstd::arithmetic::div_mod::lemma_small_mod;
use vstd::arithmetic::mul::lemma_mul_inequality;
use vstd::arithmetic::power2::{
    lemma2_to64, lemma2_to64_rest, lemma_pow2_pos, lemma_pow2_strictly_increases, pow2,
};
use vstd::prelude::*;

verus! {

/// Two to the power 52: the weight of the implicit leading bit of a
/// normal number's significand, and the number of fraction patterns.
pub const FRACTION_SPAN: u64 = 0x10_0000_0000_0000;

/// The number of exponent patterns.
pub const EXPONENT_SPAN: u64 = 0x800;

/// The exponent pattern of infinities and of values that are no number.
pub const EXPONENT_SPECIAL: u64 = 0x7FF;

/// The exponent pattern at which the unit in the last place of a
/// significand is one.
pub const EXPONENT_UNIT: u64 = 1075;

/// Whether the sign bit of the pattern is set.
pub open spec fn is_negative(bits: u64) -> bool {
    bits >= 0x8000_0000_0000_0000
}

/// The exponent field of the pattern.
pub open spec fn exponent(bits: u64) -> nat {
    ((bits / FRACTION_SPAN) % EXPONENT_SPAN) as nat
}

/// The fraction field of the pattern.
pub open spec fn fraction(bits: u64) -> nat {
    (bits % FRACTION_SPAN) as nat
}

/// `magnitude` with the sign of the pattern.
pub open spec fn with_sign(bits: u64, magnitude: int) -> int {
    if is_negative(bits) {
        -magnitude
    } else {
        magnitude
    }
}

/// The integer that the float with the pattern `bits` is, if it is one.
///
/// Infinities and values that are no number are no integers. Of the
/// patterns with exponent field zero only the two zeros are integers. A
/// normal number is its significand times a power of two, and an integer
/// where that power does not cut into the significand's set bits.
pub open spec fn integer_value(bits: u64) -> Option<int> {
    let e = exponent(bits);
    let significand = (FRACTION_SPAN + fraction(bits)) as nat;
    if e == EXPONENT_SPECIAL {
        None
    } else if e == 0 {
        if fraction(bits) == 0 {
            Some(0)
        } else {
            None
        }
    } else if e >= EXPONENT_UNIT {
        Some(with_sign(bits, (significand * pow2((e - EXPONENT_UNIT) as nat)) as int))
    } else {
        let divisor = pow2((EXPONENT_UNIT - e) as nat);
        if significand % divisor == 0 {
            Some(with_sign(bits, (significand / divisor) as int))
        } else {
            None
        }
    }
}

/// What `to_integer` answers for a float: the integer it is, where that
/// integer lies strictly between minus and plus two to the power 64;
/// `OutOfRange` for an integer beyond; `PrecisionLoss` for a float that is
/// no integer.
pub open spec fn to_integer_spec(bits: u64) -> Result<int, ConversionError> {
    match integer_value(bits) {
        Some(n) => if -0x1_0000_0000_0000_0000 < n < 0x1_0000_0000_0000_0000 {
            Ok(n)
        } else {
            Err(ConversionError::OutOfRange)
        },
        None => Err(ConversionError::PrecisionLoss),
    }
}

/// Two to the power `k`, for a power that fits.
pub fn power_of_two(k: u64) -> (p: u64)
    requires
        k < 64,
    ensures
        p == pow2(k as nat),
{
    let mut p: u64 = 1;
    let mut i: u64 = 0;
    proof {
        lemma2_to64();
    }
    while i < k
        invariant
            i <= k < 64,
            p == pow2(i as nat),
        decreases k - i,
    {
        proof {
            lemma_pow2_strictly_increases((i + 1) as nat, 64);
            lemma2_to64();
            vstd::arithmetic::power2::lemma_pow2_unfold((i + 1) as nat);
        }
        p = p * 2;
        i = i + 1;
    }
    p
}

/// The integer that a script float is, for use as the value of a native
/// integer.
pub fn to_integer(bits: u64) -> (r: Result<i128, ConversionError>)
    ensures
        match to_integer_spec(bits) {
            Ok(n) => r == Ok::<i128, ConversionError>(n as i128) && n == n as i128,
            Err(e) => r == Err::<i128, ConversionError>(e),
        },
{
    let negative: bool = bits >= 0x8000_0000_0000_0000;
    let e: u64 = (bits / FRACTION_SPAN) % EXPONENT_SPAN;
    let f: u64 = bits % FRACTION_SPAN;
    let significand: u64 = FRACTION_SPAN + f;
    proof {
        lemma2_to64();
        lemma2_to64_rest();
    }
    if e == EXPONENT_SPECIAL {
        return Err(ConversionError::PrecisionLoss);
    }
    if e == 0 {
        if f == 0 {
            return Ok(0);
        }
        return Err(ConversionError::PrecisionLoss);
    }
    let magnitude: u64 = if e >= EXPONENT_UNIT {
        let k: u64 = e - EXPONENT_UNIT;
        if k > 11 {
            proof {
                if k > 12 {
                    lemma_pow2_strictly_increases(12, k as nat);
                }
                lemma_mul_inequality(0x1000, pow2(k as nat) as int, significand as int);
                assert(significand * 0x1000 >= 0x1_0000_0000_0000_0000);
                assert(significand * pow2(k as nat) == pow2(k as nat) * significand)
                    by (nonlinear_arith);
                assert(0x1000 * significand == significand * 0x1000) by (nonlinear_arith);
            }
            return Err(ConversionError::OutOfRange);
        }
        let scale: u64 = power_of_two(k);
        proof {
            if k < 11 {
                lemma_pow2_strictly_increases(k as nat, 11);
            }
            lemma_mul_inequality(scale as int, 0x800, significand as int);
            assert(scale * significand == significand * scale) by (nonlinear_arith);
            assert(0x800 * significand == significand * 0x800) by (nonlinear_arith);
        }
        significand * scale
    } else {
        let k: u64 = EXPONENT_UNIT - e;
        if k > 52 {
            proof {
                if k > 53 {
                    lemma_pow2_strictly_increases(53, k as nat);
                }
                lemma_small_mod(significand as nat, pow2(k as nat));
            }
            return Err(ConversionError::PrecisionLoss);
        }
        let divisor: u64 = power_of_two(k);
        proof {
            lemma_pow2_pos(k as nat);
        }
        if significand % divisor != 0 {
            return Err(ConversionError::PrecisionLoss);
        }
        significand / divisor
    };
    if negative {
        Ok(-(magnitude as i128))
    } else {
        Ok(magnitude as i128)
    }
}

} // verus!
