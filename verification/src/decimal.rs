//! Decimal integer text: an optional sign followed by one or more ASCII
//! digits, and nothing else.

use crate::encoding::{in_range, integer_fits, lemma_modulus_values};
use vstd::prelude::*;

verus! {

/// The byte `+`.
pub const PLUS: u8 = 0x2B;

/// The byte `-`.
pub const MINUS: u8 = 0x2D;

/// The byte `0`.
pub const ZERO: u8 = 0x30;

/// Whether `b` is an ASCII decimal digit.
pub open spec fn is_digit(b: u8) -> bool {
    0x30 <= b <= 0x39
}

/// Whether `s` consists of ASCII decimal digits only.
pub open spec fn all_digits(s: Seq<u8>) -> bool {
    forall|i: int| 0 <= i < s.len() ==> is_digit(#[trigger] s[i])
}

/// The number that the decimal digits `s` denote.
pub open spec fn digits_value(s: Seq<u8>) -> nat
    decreases s.len(),
{
    if s.len() == 0 {
        0
    } else {
        digits_value(s.drop_last()) * 10 + (s.last() - 0x30) as nat
    }
}

/// The number that nonempty digits denote, and nothing for anything else.
pub open spec fn parse_digits(s: Seq<u8>) -> Option<int> {
    if s.len() > 0 && all_digits(s) {
        Some(digits_value(s) as int)
    } else {
        None
    }
}

/// The integer that the text `s` denotes. A leading `+` is always
/// accepted; a leading `-` only where negative numbers are `allowed`, as
/// they are for signed types.
pub open spec fn parse_decimal(s: Seq<u8>, negative_allowed: bool) -> Option<int> {
    if s.len() > 0 && s[0] == PLUS {
        parse_digits(s.skip(1))
    } else if s.len() > 0 && s[0] == MINUS && negative_allowed {
        match parse_digits(s.skip(1)) {
            Some(n) => Some(-n),
            None => None,
        }
    } else {
        parse_digits(s)
    }
}

/// The integer that `s` denotes as text of the integer type of `width`
/// bytes: its decimal value, if the type holds it.
pub open spec fn parse_integer_spec(s: Seq<u8>, width: nat, signed: bool) -> Option<int> {
    match parse_decimal(s, signed) {
        Some(n) => if in_range(n, width, signed) {
            Some(n)
        } else {
            None
        },
        None => None,
    }
}

/// Parses `s` as text of the integer type of `width` bytes.
pub fn parse_integer(s: &Vec<u8>, width: usize, signed: bool) -> (r: Option<i128>)
    requires
        width == 1 || width == 2 || width == 4 || width == 8,
    ensures
        r is Some <==> parse_integer_spec(s@, width as nat, signed) is Some,
        r matches Some(v) ==> parse_integer_spec(s@, width as nat, signed) == Some(v as int),
{
    let len: usize = s.len();
    if len == 0 {
        return None;
    }
    let first: u8 = s[0];
    let negative: bool = first == MINUS && signed;
    let start: usize = if first == PLUS || negative {
        1
    } else {
        0
    };
    let ghost body = s@.skip(start as int);
    proof {
        assert(s@.skip(0) =~= s@);
        assert(body.subrange(0, 0) =~= Seq::<u8>::empty());
    }
    if start == len {
        return None;
    }
    let mut acc: i128 = 0;
    let mut saturated: bool = false;
    let mut i: usize = start;
    while i < len
        invariant
            start <= i <= len,
            len == s@.len(),
            body == s@.skip(start as int),
            parse_decimal(s@, signed) == if negative {
                match parse_digits(body) {
                    Some(n) => Some(-n),
                    None => None,
                }
            } else {
                parse_digits(body)
            },
            all_digits(body.subrange(0, i - start)),
            !saturated ==> acc == digits_value(body.subrange(0, i - start)) && acc
                <= 0xFFFF_FFFF_FFFF_FFFF,
            saturated ==> digits_value(body.subrange(0, i - start)) > 0xFFFF_FFFF_FFFF_FFFF,
        decreases len - i,
    {
        let b: u8 = s[i];
        proof {
            let seen = body.subrange(0, i - start);
            let next = body.subrange(0, i - start + 1);
            assert(next.drop_last() =~= seen);
            assert(next.last() == b);
        }
        if b < ZERO || b > 0x39 {
            proof {
                assert(body[i - start] == b);
                assert(!all_digits(body));
            }
            return None;
        }
        proof {
            let seen = body.subrange(0, i - start);
            let next = body.subrange(0, i - start + 1);
            assert forall|j: int| 0 <= j < next.len() implies is_digit(#[trigger] next[j]) by {
                if j < seen.len() {
                    assert(next[j] == seen[j]);
                }
            }
        }
        if !saturated {
            acc = acc * 10 + (b - ZERO) as i128;
            if acc > 0xFFFF_FFFF_FFFF_FFFF {
                saturated = true;
            }
        }
        i = i + 1;
    }
    proof {
        assert(body.subrange(0, len - start) =~= body);
        lemma_modulus_values();
    }
    if saturated {
        return None;
    }
    let value: i128 = if negative {
        -acc
    } else {
        acc
    };
    if integer_fits(value, width, signed) {
        Some(value)
    } else {
        None
    }
}

} // verus!
