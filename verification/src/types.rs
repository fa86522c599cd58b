//! The catalog of primitive integer types, each under the name by which
//! scripts ask for it.

use crate::descriptor::{valid_integer_width, AbiKind, NativeType};
use vstd::prelude::*;

verus! {

/// The name of the integer type of `width` bytes.
pub open spec fn integer_type_name(width: nat, signed: bool) -> Seq<char> {
    if width == 1 {
        if signed {
            "i8"@
        } else {
            "u8"@
        }
    } else if width == 2 {
        if signed {
            "i16"@
        } else {
            "u16"@
        }
    } else if width == 4 {
        if signed {
            "i32"@
        } else {
            "u32"@
        }
    } else {
        if signed {
            "i64"@
        } else {
            "u64"@
        }
    }
}

/// Creates the integer type of `width` bytes: its name and its
/// descriptor. There is one for each of the widths 1, 2, 4 and 8.
pub fn create_type(width: usize, signed: bool) -> (r: Option<(&'static str, NativeType)>)
    ensures
        r is Some <==> valid_integer_width(width as int),
        r matches Some((name, t)) ==> name@ == integer_type_name(width as nat, signed)
            && t.spec_kind() == AbiKind::Integer && t.spec_size() == width && t.spec_alignment()
            == width && t.spec_signed() == signed,
{
    let t: NativeType = match NativeType::integer(width, signed) {
        Some(t) => t,
        None => {
            return None;
        },
    };
    let name: &'static str = if width == 1 {
        if signed {
            "i8"
        } else {
            "u8"
        }
    } else if width == 2 {
        if signed {
            "i16"
        } else {
            "u16"
        }
    } else if width == 4 {
        if signed {
            "i32"
        } else {
            "u32"
        }
    } else {
        if signed {
            "i64"
        } else {
            "u64"
        }
    };
    Some((name, t))
}

/// Creates every integer type of the catalog, narrowest first, unsigned
/// before signed.
pub fn create_all_types() -> (all: Vec<(&'static str, NativeType)>)
    ensures
        all@.len() == 8,
        forall|i: int|
            0 <= i < 8 ==> {
                let width: nat = if i < 2 {
                    1
                } else if i < 4 {
                    2
                } else if i < 6 {
                    4
                } else {
                    8
                };
                let signed = i % 2 == 1;
                &&& (#[trigger] all@[i]).0@ == integer_type_name(width, signed)
                &&& all@[i].1.spec_kind() == AbiKind::Integer
                &&& all@[i].1.spec_size() == width
                &&& all@[i].1.spec_signed() == signed
            },
{
    let mut all: Vec<(&'static str, NativeType)> = Vec::new();
    let widths: [usize; 4] = [1, 2, 4, 8];
    let mut k: usize = 0;
    while k < 4
        invariant
            k <= 4,
            widths@ == seq![1usize, 2usize, 4usize, 8usize],
            all@.len() == 2 * k,
            forall|i: int|
                0 <= i < 2 * k ==> {
                    let width: nat = if i < 2 {
                        1
                    } else if i < 4 {
                        2
                    } else if i < 6 {
                        4
                    } else {
                        8
                    };
                    let signed = i % 2 == 1;
                    &&& (#[trigger] all@[i]).0@ == integer_type_name(width, signed)
                    &&& all@[i].1.spec_kind() == AbiKind::Integer
                    &&& all@[i].1.spec_size() == width
                    &&& all@[i].1.spec_signed() == signed
                },
        decreases 4 - k,
    {
        let width: usize = widths[k];
        match create_type(width, false) {
            Some(entry) => all.push(entry),
            None => {},
        }
        match create_type(width, true) {
            Some(entry) => all.push(entry),
            None => {},
        }
        k = k + 1;
    }
    all
}

} // verus!
