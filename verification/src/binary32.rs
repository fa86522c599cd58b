//! IEEE 754 binary32 bit patterns, and the exact conversions between them
//! and binary64 patterns. Every binary32 number is a binary64 number; the
//! way back exists for the binary64 numbers that need no rounding.

use crate::binary64::{exponent, fraction, is_negative, power_of_two};
use vstd::arithmetic::div_mod::{
    lemma_div_denominator, lemma_fundamental_div_mod, lemma_fundamental_div_mod_converse,
};
use vstd::arithmetic::power2::{
    lemma2_to64, lemma2_to64_rest, lemma_pow2_adds, lemma_pow2_pos, lemma_pow2_strictly_increases,
    lemma_pow2_unfold, pow2,
};
use vstd::prelude::*;

verus! {

/// Whether the sign bit of the binary32 pattern is set.
pub open spec fn single_negative(p: u32) -> bool {
    p >= 0x8000_0000
}

/// The exponent field of the binary32 pattern.
pub open spec fn single_exponent(p: u32) -> nat {
    ((p / 0x80_0000) % 0x100) as nat
}

/// The fraction field of the binary32 pattern.
pub open spec fn single_fraction(p: u32) -> nat {
    (p % 0x80_0000) as nat
}

/// The binary32 pattern with the given fields.
pub open spec fn single_of(negative: bool, exponent: nat, fraction: nat) -> nat {
    (if negative {
        0x8000_0000nat
    } else {
        0nat
    }) + exponent * 0x80_0000 + fraction
}

/// The binary64 pattern with the given fields.
pub open spec fn double_of(negative: bool, exponent: nat, fraction: nat) -> nat {
    (if negative {
        0x8000_0000_0000_0000nat
    } else {
        0nat
    }) + exponent * 0x10_0000_0000_0000 + fraction
}

/// The place of the highest set bit of `n`, counted from zero.
pub open spec fn leading_bit(n: nat) -> nat
    decreases n,
{
    if n < 2 {
        0
    } else {
        1 + leading_bit(n / 2)
    }
}

/// The binary64 pattern of the number that the binary32 pattern `p`
/// denotes.
///
/// Infinities and values that are no number keep their fraction bits, at
/// the top of the wider field. Zeros stay zeros. A subnormal binary32
/// number is a normal binary64 number: its highest set bit becomes the
/// implicit bit. A normal number keeps its significand and has its
/// exponent rebased.
pub open spec fn widen_spec(p: u32) -> u64 {
    let negative = single_negative(p);
    let e = single_exponent(p);
    let f = single_fraction(p);
    if e == 255 {
        double_of(negative, 2047, f * 0x2000_0000) as u64
    } else if e == 0 {
        if f == 0 {
            double_of(negative, 0, 0) as u64
        } else {
            let k = leading_bit(f);
            double_of(negative, 874 + k, ((f - pow2(k)) * pow2((52 - k) as nat)) as nat) as u64
        }
    } else {
        double_of(negative, e + 896, f * 0x2000_0000) as u64
    }
}

/// Whether the number that the binary64 pattern `b` denotes is a binary32
/// number: its exponent is in the narrower range and its significand has
/// no set bit beyond the narrower precision.
pub open spec fn representable(b: u64) -> bool {
    let e = exponent(b);
    let f = fraction(b);
    if e == 2047 || 897 <= e <= 1150 {
        f % 0x2000_0000 == 0
    } else if e == 0 {
        f == 0
    } else if 874 <= e <= 896 {
        f % pow2((926 - e) as nat) == 0
    } else {
        false
    }
}

/// The binary32 pattern of the number that the binary64 pattern `b`
/// denotes, if it is a binary32 number.
pub open spec fn narrow_spec(b: u64) -> Option<u32> {
    let negative = is_negative(b);
    let e = exponent(b);
    let f = fraction(b);
    if !representable(b) {
        None
    } else if e == 2047 {
        Some(single_of(negative, 255, f / 0x2000_0000) as u32)
    } else if e == 0 {
        Some(single_of(negative, 0, 0) as u32)
    } else if e >= 897 {
        Some(single_of(negative, (e - 896) as nat, f / 0x2000_0000) as u32)
    } else {
        Some(
            single_of(negative, 0, pow2((e - 874) as nat) + f / pow2((926 - e) as nat)) as u32,
        )
    }
}

/// The fields of a binary32 pattern put together from fields in range.
pub proof fn lemma_single_fields(negative: bool, e: nat, f: nat)
    requires
        e < 0x100,
        f < 0x80_0000,
    ensures
        single_of(negative, e, f) <= u32::MAX,
        single_negative(single_of(negative, e, f) as u32) == negative,
        single_exponent(single_of(negative, e, f) as u32) == e,
        single_fraction(single_of(negative, e, f) as u32) == f,
{
    let p = single_of(negative, e, f) as int;
    let s: int = if negative {
        1
    } else {
        0
    };
    lemma_fundamental_div_mod_converse(p, 0x80_0000, s * 0x100 + e, f as int);
    lemma_fundamental_div_mod_converse(s * 0x100 + e, 0x100, s, e as int);
}

/// The fields of a binary64 pattern put together from fields in range.
pub proof fn lemma_double_fields(negative: bool, e: nat, f: nat)
    requires
        e < 0x800,
        f < 0x10_0000_0000_0000,
    ensures
        double_of(negative, e, f) <= u64::MAX,
        is_negative(double_of(negative, e, f) as u64) == negative,
        exponent(double_of(negative, e, f) as u64) == e,
        fraction(double_of(negative, e, f) as u64) == f,
{
    let b = double_of(negative, e, f) as int;
    let s: int = if negative {
        1
    } else {
        0
    };
    lemma_fundamental_div_mod_converse(b, 0x10_0000_0000_0000, s * 0x800 + e, f as int);
    lemma_fundamental_div_mod_converse(s * 0x800 + e, 0x800, s, e as int);
}

/// Every binary32 pattern is put together from its fields.
pub proof fn lemma_single_parts(p: u32)
    ensures
        p == single_of(single_negative(p), single_exponent(p), single_fraction(p)),
        single_exponent(p) < 0x100,
        single_fraction(p) < 0x80_0000,
{
    lemma_fundamental_div_mod(p as int, 0x80_0000);
    lemma_fundamental_div_mod(p as int / 0x80_0000, 0x100);
}

/// Every binary64 pattern is put together from its fields.
pub proof fn lemma_double_parts(b: u64)
    ensures
        b == double_of(is_negative(b), exponent(b), fraction(b)),
        exponent(b) < 0x800,
        fraction(b) < 0x10_0000_0000_0000,
{
    lemma_fundamental_div_mod(b as int, 0x10_0000_0000_0000);
    lemma_fundamental_div_mod(b as int / 0x10_0000_0000_0000, 0x800);
}

/// The highest set bit of a positive number `n` is where the largest
/// power of two that does not exceed `n` has its bit.
pub proof fn lemma_leading_bit(n: nat)
    requires
        n > 0,
    ensures
        pow2(leading_bit(n)) <= n < pow2(leading_bit(n) + 1),
    decreases n,
{
    lemma2_to64();
    if n >= 2 {
        lemma_leading_bit(n / 2);
        lemma_pow2_unfold(leading_bit(n));
        lemma_pow2_unfold(leading_bit(n) + 1);
    }
}

/// A power of two and its double enclose only numbers whose highest set
/// bit is the power's.
pub proof fn lemma_leading_bit_unique(n: nat, k: nat)
    requires
        pow2(k) <= n < pow2(k + 1),
    ensures
        leading_bit(n) == k,
    decreases k,
{
    lemma2_to64();
    if k == 0 {
    } else {
        lemma_pow2_unfold(k);
        lemma_pow2_unfold(k + 1);
        lemma_leading_bit_unique(n / 2, (k - 1) as nat);
    }
}

/// The highest set bit of a positive number below two to the power 23
/// is below place 23.
proof fn lemma_leading_bit_bound(n: nat)
    requires
        0 < n < 0x80_0000,
    ensures
        leading_bit(n) <= 22,
        pow2(leading_bit(n)) <= n < pow2(leading_bit(n) + 1),
        pow2(leading_bit(n)) * pow2((52 - leading_bit(n)) as nat) == 0x10_0000_0000_0000,
{
    lemma_leading_bit(n);
    lemma2_to64();
    lemma2_to64_rest();
    if leading_bit(n) > 23 {
        lemma_pow2_strictly_increases(23, leading_bit(n));
    }
    if leading_bit(n) <= 22 {
        lemma_pow2_adds(leading_bit(n), (52 - leading_bit(n)) as nat);
    }
}

/// A multiple of `d` is divisible by `d`, and dividing it yields the
/// other factor.
proof fn lemma_multiple(q: nat, d: nat)
    requires
        d > 0,
    ensures
        (q * d) % d == 0,
        (q * d) / d == q,
{
    lemma_fundamental_div_mod_converse((q * d) as int, d as int, q as int, 0);
}

/// A product of a number below `bound` and a positive factor stays below
/// the product of the bound and the factor.
proof fn lemma_scaled_below(q: nat, bound: nat, d: nat)
    requires
        q < bound,
        d > 0,
    ensures
        q * d < bound * d,
{
    assert(q * d < bound * d) by (nonlinear_arith)
        requires
            q < bound,
            d > 0,
    ;
}

/// Narrowing undoes widening: every binary32 pattern, once widened, is
/// representable and narrows to itself.
pub proof fn lemma_narrow_widen(p: u32)
    ensures
        representable(widen_spec(p)),
        narrow_spec(widen_spec(p)) == Some(p),
{
    let negative = single_negative(p);
    let e = single_exponent(p);
    let f = single_fraction(p);
    lemma_single_parts(p);
    lemma2_to64();
    lemma2_to64_rest();
    if e == 0 && f != 0 {
        let k = leading_bit(f);
        let d = pow2((52 - k) as nat);
        let g = (f - pow2(k)) as nat;
        lemma_leading_bit_bound(f);
        lemma_pow2_pos((52 - k) as nat);
        lemma_pow2_unfold(k + 1);
        lemma_scaled_below(g, pow2(k), d);
        lemma_multiple(g, d);
        lemma_double_fields(negative, 874 + k, g * d);
    } else if e == 0 {
        lemma_double_fields(negative, 0, 0);
    } else {
        let wide: nat = if e == 255 {
            2047
        } else {
            e + 896
        };
        lemma_scaled_below(f, 0x80_0000, 0x2000_0000);
        lemma_multiple(f, 0x2000_0000);
        lemma_double_fields(negative, wide, f * 0x2000_0000);
    }
}

/// Widening undoes narrowing: what a binary64 pattern narrows to widens
/// to that pattern.
pub proof fn lemma_widen_narrow(b: u64)
    requires
        representable(b),
    ensures
        narrow_spec(b) is Some,
        widen_spec(narrow_spec(b)->Some_0) == b,
{
    let negative = is_negative(b);
    let e = exponent(b);
    let f = fraction(b);
    lemma_double_parts(b);
    lemma2_to64();
    lemma2_to64_rest();
    if e == 0 {
        lemma_single_fields(negative, 0, 0);
    } else if e == 2047 || e >= 897 {
        let narrow: nat = if e == 2047 {
            255
        } else {
            (e - 896) as nat
        };
        let g = f / 0x2000_0000;
        lemma_fundamental_div_mod(f as int, 0x2000_0000);
        lemma_single_fields(negative, narrow, g);
        assert(g * 0x2000_0000 == f);
    } else {
        let k = (e - 874) as nat;
        let d = pow2((52 - k) as nat);
        let g = f / d;
        lemma_pow2_pos((52 - k) as nat);
        lemma_pow2_adds(k, (52 - k) as nat);
        lemma_fundamental_div_mod(f as int, d as int);
        assert(g * d == f) by (nonlinear_arith)
            requires
                f == d * g + 0,
        ;
        assert(g < pow2(k)) by (nonlinear_arith)
            requires
                g * d == f,
                f < pow2(k) * d,
                d > 0,
        ;
        lemma_pow2_unfold(k + 1);
        if k < 22 {
            lemma_pow2_strictly_increases(k + 1, 23);
        }
        lemma_leading_bit_unique(pow2(k) + g, k);
        lemma_single_fields(negative, 0, pow2(k) + g);
    }
}

/// The binary64 pattern of the number that the binary32 pattern `p`
/// denotes.
pub fn widen(p: u32) -> (b: u64)
    ensures
        b == widen_spec(p),
{
    let sign: u64 = if p >= 0x8000_0000 {
        0x8000_0000_0000_0000
    } else {
        0
    };
    let e: u64 = ((p / 0x80_0000) % 0x100) as u64;
    let f: u64 = (p % 0x80_0000) as u64;
    proof {
        lemma2_to64();
        lemma2_to64_rest();
    }
    if e == 255 {
        sign + 2047 * 0x10_0000_0000_0000 + f * 0x2000_0000
    } else if e == 0 {
        if f == 0 {
            sign
        } else {
            let mut k: u64 = 0;
            let mut top: u64 = 1;
            proof {
                lemma_leading_bit_bound(f as nat);
            }
            while top * 2 <= f
                invariant
                    0 < f < 0x80_0000,
                    top == pow2(k as nat),
                    0 < top <= f,
                    k <= 22,
                    leading_bit(f as nat) == k + leading_bit(f as nat / top as nat),
                decreases f - top,
            {
                proof {
                    lemma_div_denominator(f as int, top as int, 2);
                    lemma_pow2_unfold((k + 1) as nat);
                    lemma2_to64();
                    if k + 1 > 23 {
                        lemma_pow2_strictly_increases(23, (k + 1) as nat);
                    }
                    assert(f as nat / top as nat >= 2) by (nonlinear_arith)
                        requires
                            top * 2 <= f,
                            top > 0,
                    ;
                }
                top = top * 2;
                k = k + 1;
            }
            proof {
                assert(f as nat / top as nat == 1) by (nonlinear_arith)
                    requires
                        top <= f < top * 2,
                        top > 0,
                ;
                lemma_pow2_adds(k as nat, (52 - k) as nat);
                lemma_pow2_pos((52 - k) as nat);
                lemma_scaled_below((f - top) as nat, top as nat, pow2((52 - k) as nat));
            }
            let scale: u64 = power_of_two(52 - k);
            sign + (874 + k) * 0x10_0000_0000_0000 + (f - top) * scale
        }
    } else {
        sign + (e + 896) * 0x10_0000_0000_0000 + f * 0x2000_0000
    }
}

/// The binary32 pattern of the number that the binary64 pattern `b`
/// denotes, if it is a binary32 number.
pub fn narrow(b: u64) -> (r: Option<u32>)
    ensures
        r == narrow_spec(b),
{
    let sign: u32 = if b >= 0x8000_0000_0000_0000 {
        0x8000_0000
    } else {
        0
    };
    let e: u64 = (b / 0x10_0000_0000_0000) % 0x800;
    let f: u64 = b % 0x10_0000_0000_0000;
    proof {
        lemma2_to64();
        lemma2_to64_rest();
    }
    if e == 2047 || (897 <= e && e <= 1150) {
        if f % 0x2000_0000 != 0 {
            return None;
        }
        let narrow_e: u32 = if e == 2047 {
            255
        } else {
            (e - 896) as u32
        };
        Some(sign + narrow_e * 0x80_0000 + (f / 0x2000_0000) as u32)
    } else if e == 0 {
        if f == 0 {
            Some(sign)
        } else {
            None
        }
    } else if 874 <= e && e <= 896 {
        let k: u64 = e - 874;
        let divisor: u64 = power_of_two(52 - k);
        let top: u64 = power_of_two(k);
        proof {
            lemma_pow2_pos((52 - k) as nat);
            lemma_pow2_adds(k as nat, (52 - k) as nat);
            if k < 22 {
                lemma_pow2_strictly_increases(k as nat, 22);
            }
        }
        if f % divisor != 0 {
            return None;
        }
        proof {
            let g = f / divisor;
            lemma_fundamental_div_mod(f as int, divisor as int);
            assert(g < top) by (nonlinear_arith)
                requires
                    f == divisor * g + 0,
                    f < top * divisor,
                    divisor > 0,
            ;
        }
        Some(sign + (top + f / divisor) as u32)
    } else {
        None
    }
}

} // verus!
