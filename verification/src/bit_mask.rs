//! The eight bits of a byte, for flags.

use vstd::prelude::*;

verus! {

/// The lowest bit.
pub const U8_MASK1: u8 = 1;

/// The second bit.
pub const U8_MASK2: u8 = 2;

/// The third bit.
pub const U8_MASK3: u8 = 4;

/// The fourth bit.
pub const U8_MASK4: u8 = 8;

/// The fifth bit.
pub const U8_MASK5: u8 = 16;

/// The sixth bit.
pub const U8_MASK6: u8 = 32;

/// The seventh bit.
pub const U8_MASK7: u8 = 64;

/// The highest bit.
pub const U8_MASK8: u8 = 128;

/// Whether `value` has a bit of `mask` set.
pub fn u8_test(value: u8, mask: u8) -> (r: bool)
    ensures
        r == (value & mask != 0),
{
    value & mask != 0
}

} // verus!
