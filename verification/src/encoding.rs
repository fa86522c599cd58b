//! Fixed-width two's complement bit patterns of integers, as byte
//! sequences in either byte order.

use vstd::arithmetic::div_mod::{
    lemma_breakdown, lemma_div_denominator, lemma_fundamental_div_mod_converse, lemma_small_mod,
};
use vstd::prelude::*;

verus! {

/// Order in which the bytes of a multi-byte value are laid out in memory.
#[derive(Clone, Copy, Debug, PartialEq, Eq, Structural)]
pub enum ByteOrder {
    /// Least significant byte first.
    LittleEndian,
    /// Most significant byte first.
    BigEndian,
}

/// The number of bit patterns of `width` bytes: 256 to the power `width`.
pub open spec fn modulus(width: nat) -> nat
    decreases width,
{
    if width == 0 {
        1
    } else {
        256 * modulus((width - 1) as nat)
    }
}

/// The byte of significance `k` of the number `v` written in base 256.
pub open spec fn digit(v: nat, k: nat) -> u8 {
    ((v / modulus(k)) % 256) as u8
}

/// The `width` least significant bytes of `v`, least significant first.
pub open spec fn le_bytes(v: nat, width: nat) -> Seq<u8> {
    Seq::new(width, |k: int| digit(v, k as nat))
}

/// The number whose base 256 digits are `bytes`, least significant first.
pub open spec fn le_value(bytes: Seq<u8>) -> nat
    decreases bytes.len(),
{
    if bytes.len() == 0 {
        0
    } else {
        bytes[0] as nat + 256 * le_value(bytes.drop_first())
    }
}

/// The bytes in order of rising significance.
pub open spec fn by_significance(bytes: Seq<u8>, order: ByteOrder) -> Seq<u8> {
    match order {
        ByteOrder::LittleEndian => bytes,
        ByteOrder::BigEndian => bytes.reverse(),
    }
}

/// The smallest integer an integer type of `width` bytes holds.
pub open spec fn integer_min(width: nat, signed: bool) -> int {
    if signed {
        -(modulus(width) / 2)
    } else {
        0
    }
}

/// The largest integer an integer type of `width` bytes holds.
pub open spec fn integer_max(width: nat, signed: bool) -> int {
    if signed {
        modulus(width) / 2 - 1
    } else {
        modulus(width) - 1
    }
}

/// Whether an integer type of `width` bytes holds `v`.
pub open spec fn in_range(v: int, width: nat, signed: bool) -> bool {
    integer_min(width, signed) <= v <= integer_max(width, signed)
}

/// The two's complement bit pattern of `v` in `width` bytes, read as an
/// unsigned number.
pub open spec fn pattern_of(v: int, width: nat) -> nat {
    if v < 0 {
        (v + modulus(width)) as nat
    } else {
        v as nat
    }
}

/// The integer that the bit pattern `p` of `width` bytes stands for.
pub open spec fn integer_of(p: nat, width: nat, signed: bool) -> int {
    if signed && p >= modulus(width) / 2 {
        p - modulus(width)
    } else {
        p as int
    }
}

/// The bytes that hold `v` in an integer slot of `width` bytes.
pub open spec fn encode_integer(v: int, width: nat, order: ByteOrder) -> Seq<u8> {
    by_significance(le_bytes(pattern_of(v, width), width), order)
}

/// The integer that the bytes of an integer slot hold.
pub open spec fn decode_integer(bytes: Seq<u8>, signed: bool, order: ByteOrder) -> int {
    integer_of(le_value(by_significance(bytes, order)), bytes.len(), signed)
}

/// There is at least one bit pattern of every width, and their number is
/// even for every width but zero.
pub proof fn lemma_modulus_positive(width: nat)
    ensures
        modulus(width) > 0,
        width > 0 ==> modulus(width) % 2 == 0,
    decreases width,
{
    if width > 0 {
        lemma_modulus_positive((width - 1) as nat);
    }
}

/// The number of bit patterns of the supported widths.
pub proof fn lemma_modulus_values()
    ensures
        modulus(0) == 1,
        modulus(1) == 0x100,
        modulus(2) == 0x1_0000,
        modulus(4) == 0x1_0000_0000,
        modulus(8) == 0x1_0000_0000_0000_0000,
{
    reveal_with_fuel(modulus, 9);
}

/// Dropping the least significant digit of `v` shifts every other digit
/// down by one place.
proof fn lemma_digit_shift(v: nat, k: nat)
    ensures
        digit(v, k + 1) == digit(v / 256, k),
{
    lemma_modulus_positive(k);
    lemma_div_denominator(v as int, 256, modulus(k) as int);
}

/// Writing a number in `width` bytes and reading the bytes back yields the
/// number's remainder modulo the number of patterns.
pub proof fn lemma_le_value_of_bytes(v: nat, width: nat)
    ensures
        le_bytes(v, width).len() == width,
        le_value(le_bytes(v, width)) == v % modulus(width),
    decreases width,
{
    if width == 0 {
    } else {
        let w = (width - 1) as nat;
        let bytes = le_bytes(v, width);
        lemma_le_value_of_bytes(v / 256, w);
        assert(bytes.drop_first() =~= le_bytes(v / 256, w)) by {
            assert forall|k: int| 0 <= k < w implies bytes.drop_first()[k] == le_bytes(
                v / 256,
                w,
            )[k] by {
                lemma_digit_shift(v, k as nat);
            }
        }
        lemma_modulus_positive(w);
        lemma_breakdown(v as int, 256, modulus(w) as int);
        assert(modulus(0) == 1);
        assert(bytes[0] == (v % 256) as u8);
    }
}

/// Reading bytes as a number and writing the number back in as many bytes
/// yields the same bytes, and the number is smaller than the number of
/// patterns.
pub proof fn lemma_le_bytes_of_value(bytes: Seq<u8>)
    ensures
        le_value(bytes) < modulus(bytes.len()),
        le_bytes(le_value(bytes), bytes.len()) == bytes,
    decreases bytes.len(),
{
    if bytes.len() == 0 {
        assert(le_bytes(le_value(bytes), bytes.len()) =~= bytes);
    } else {
        let rest = bytes.drop_first();
        let v = le_value(bytes);
        let r = le_value(rest);
        lemma_le_bytes_of_value(rest);
        lemma_fundamental_div_mod_converse(v as int, 256, r as int, bytes[0] as int);
        assert forall|k: int| 0 <= k < bytes.len() implies le_bytes(v, bytes.len())[k]
            == bytes[k] by {
            if k == 0 {
                assert(modulus(0) == 1);
            } else {
                lemma_digit_shift(v, (k - 1) as nat);
                assert(le_bytes(r, rest.len())[k - 1] == rest[k - 1]);
            }
        }
        assert(le_bytes(v, bytes.len()) =~= bytes);
    }
}

/// A bit pattern and the integer it stands for determine each other.
pub proof fn lemma_pattern_roundtrip(v: int, width: nat, signed: bool)
    requires
        width > 0,
        in_range(v, width, signed),
    ensures
        pattern_of(v, width) < modulus(width),
        integer_of(pattern_of(v, width), width, signed) == v,
{
    lemma_modulus_positive(width);
}

/// The integer a bit pattern stands for is in the range of the type, and
/// its pattern is the one it came from.
pub proof fn lemma_integer_of_pattern(p: nat, width: nat, signed: bool)
    requires
        width > 0,
        p < modulus(width),
    ensures
        in_range(integer_of(p, width, signed), width, signed),
        pattern_of(integer_of(p, width, signed), width) == p,
{
    lemma_modulus_positive(width);
}

/// Round-trip law of integer slots: every integer in the range of a type,
/// once encoded, decodes to itself, in either byte order.
pub proof fn lemma_integer_roundtrip(v: int, width: nat, signed: bool, order: ByteOrder)
    requires
        width > 0,
        in_range(v, width, signed),
    ensures
        encode_integer(v, width, order).len() == width,
        decode_integer(encode_integer(v, width, order), signed, order) == v,
{
    let p = pattern_of(v, width);
    let digits = le_bytes(p, width);
    lemma_pattern_roundtrip(v, width, signed);
    lemma_le_value_of_bytes(p, width);
    lemma_small_mod(p, modulus(width));
    assert(by_significance(by_significance(digits, order), order) =~= digits);
}

/// The bytes of an integer slot, once decoded, encode to themselves, and
/// what they decode to is in the range of the type.
pub proof fn lemma_bytes_roundtrip(bytes: Seq<u8>, signed: bool, order: ByteOrder)
    requires
        bytes.len() > 0,
    ensures
        in_range(decode_integer(bytes, signed, order), bytes.len(), signed),
        encode_integer(decode_integer(bytes, signed, order), bytes.len(), order) == bytes,
{
    let digits = by_significance(bytes, order);
    lemma_le_bytes_of_value(digits);
    lemma_integer_of_pattern(le_value(digits), bytes.len(), signed);
    assert(by_significance(digits, order) =~= bytes);
}

/// The number of bit patterns grows with the width.
pub proof fn lemma_modulus_grows(narrow: nat, wide: nat)
    requires
        narrow <= wide,
    ensures
        modulus(narrow) <= modulus(wide),
    decreases wide,
{
    if narrow < wide {
        lemma_modulus_grows(narrow, (wide - 1) as nat);
    }
}

/// Memory `mem` after `bytes` have been stored at `offset`.
pub open spec fn overwrite(mem: Seq<u8>, offset: int, bytes: Seq<u8>) -> Seq<u8> {
    Seq::new(
        mem.len(),
        |i: int|
            if offset <= i < offset + bytes.len() {
                bytes[i - offset]
            } else {
                mem[i]
            },
    )
}

/// Where the byte of significance `k` of a slot of `width` bytes that
/// starts at `offset` lies.
pub open spec fn position(offset: int, width: int, k: int, order: ByteOrder) -> int {
    match order {
        ByteOrder::LittleEndian => offset + k,
        ByteOrder::BigEndian => offset + width - 1 - k,
    }
}

/// The number of bit patterns of an integer type of `width` bytes.
pub fn integer_modulus(width: usize) -> (m: i128)
    requires
        width == 1 || width == 2 || width == 4 || width == 8,
    ensures
        m == modulus(width as nat),
{
    proof {
        lemma_modulus_values();
    }
    if width == 1 {
        0x100
    } else if width == 2 {
        0x1_0000
    } else if width == 4 {
        0x1_0000_0000
    } else {
        0x1_0000_0000_0000_0000
    }
}

/// Whether the integer type of `width` bytes holds `value`.
pub fn integer_fits(value: i128, width: usize, signed: bool) -> (r: bool)
    requires
        width == 1 || width == 2 || width == 4 || width == 8,
    ensures
        r == in_range(value as int, width as nat, signed),
{
    let m: i128 = integer_modulus(width);
    if signed {
        -(m / 2) <= value && value <= m / 2 - 1
    } else {
        0 <= value && value <= m - 1
    }
}

/// Stores the bit pattern of `value` in the `width` bytes of `buf` that
/// start at `offset`, and leaves every other byte as it was.
pub fn write_integer(
    buf: &mut Vec<u8>,
    offset: usize,
    width: usize,
    value: i128,
    signed: bool,
    order: ByteOrder,
)
    requires
        width == 1 || width == 2 || width == 4 || width == 8,
        in_range(value as int, width as nat, signed),
        offset + width <= old(buf)@.len(),
    ensures
        final(buf)@ == overwrite(
            old(buf)@,
            offset as int,
            encode_integer(value as int, width as nat, order),
        ),
{
    let ghost before = buf@;
    let len: usize = buf.len();
    let m: i128 = integer_modulus(width);
    proof {
        lemma_pattern_roundtrip(value as int, width as nat, signed);
        lemma_modulus_values();
    }
    let pattern: u64 = if value < 0 {
        (value + m) as u64
    } else {
        value as u64
    };
    let mut rest: u64 = pattern;
    let mut k: usize = 0;
    while k < width
        invariant
            k <= width,
            offset + width <= len,
            len == before.len(),
            buf@.len() == before.len(),
            rest == pattern as nat / modulus(k as nat),
            forall|j: int|
                0 <= j < k ==> #[trigger] buf@[position(offset as int, width as int, j, order)]
                    == digit(pattern as nat, j as nat),
            forall|i: int|
                0 <= i < before.len() && !(offset <= i < offset + width) ==> buf@[i] == before[i],
        decreases width - k,
    {
        let at: usize = match order {
            ByteOrder::LittleEndian => offset + k,
            ByteOrder::BigEndian => offset + (width - 1 - k),
        };
        let byte: u8 = (rest % 256) as u8;
        proof {
            lemma_modulus_positive(k as nat);
            lemma_div_denominator(pattern as int, modulus(k as nat) as int, 256);
            assert(modulus((k + 1) as nat) == modulus(k as nat) * 256) by (nonlinear_arith)
                requires
                    modulus((k + 1) as nat) == 256 * modulus(k as nat),
            ;
        }
        buf.set(at, byte);
        rest = rest / 256;
        proof {
            assert forall|j: int| 0 <= j < k + 1 implies #[trigger] buf@[position(
                offset as int,
                width as int,
                j,
                order,
            )] == digit(pattern as nat, j as nat) by {
                if j < k {
                    assert(position(offset as int, width as int, j, order) != at);
                }
            }
        }
        k = k + 1;
    }
    proof {
        let stored = encode_integer(value as int, width as nat, order);
        assert forall|i: int| 0 <= i < before.len() implies buf@[i] == overwrite(
            before,
            offset as int,
            stored,
        )[i] by {
            if offset <= i < offset + width {
                let j = match order {
                    ByteOrder::LittleEndian => i - offset,
                    ByteOrder::BigEndian => offset + width - 1 - i,
                };
                assert(position(offset as int, width as int, j, order) == i);
            }
        }
        assert(buf@ =~= overwrite(before, offset as int, stored));
    }
}

/// Reads the integer held by the `width` bytes of `buf` that start at
/// `offset`.
pub fn read_integer(
    buf: &Vec<u8>,
    offset: usize,
    width: usize,
    signed: bool,
    order: ByteOrder,
) -> (value: i128)
    requires
        width == 1 || width == 2 || width == 4 || width == 8,
        offset + width <= buf@.len(),
    ensures
        value == decode_integer(
            buf@.subrange(offset as int, offset + width),
            signed,
            order,
        ),
        in_range(value as int, width as nat, signed),
{
    let ghost window = buf@.subrange(offset as int, offset + width);
    let ghost digits = by_significance(window, order);
    let len: usize = buf.len();
    let mut acc: u64 = 0;
    let mut k: usize = 0;
    while k < width
        invariant
            k <= width <= 8,
            offset + width <= len,
            len == buf@.len(),
            window == buf@.subrange(offset as int, offset + width),
            digits == by_significance(window, order),
            digits.len() == width,
            acc == le_value(digits.subrange(width - k, width as int)),
        decreases width - k,
    {
        let at: usize = match order {
            ByteOrder::LittleEndian => offset + (width - 1 - k),
            ByteOrder::BigEndian => offset + k,
        };
        let byte: u8 = buf[at];
        proof {
            let upper = digits.subrange(width - k, width as int);
            let next = digits.subrange(width - k - 1, width as int);
            assert(next.drop_first() =~= upper);
            assert(next[0] == byte);
            lemma_le_bytes_of_value(upper);
            lemma_modulus_grows(k as nat, 7);
            reveal_with_fuel(modulus, 8);
            assert(modulus(7) == 0x100_0000_0000_0000);
        }
        acc = acc * 256 + byte as u64;
        k = k + 1;
    }
    let m: i128 = integer_modulus(width);
    proof {
        assert(digits.subrange(0, width as int) =~= digits);
        lemma_le_bytes_of_value(digits);
        lemma_integer_of_pattern(acc as nat, width as nat, signed);
        lemma_modulus_values();
    }
    if signed && acc as i128 >= m / 2 {
        acc as i128 - m
    } else {
        acc as i128
    }
}

} // verus!
