//! The conversion contract of descriptors: how a script value becomes the
//! bit pattern of a native type, and how a bit pattern becomes a script
//! value again.

use crate::binary32::{lemma_widen_narrow, narrow, narrow_spec, widen, widen_spec};
use crate::binary64::{integer_value, to_integer};
use crate::decimal::{parse_integer, parse_integer_spec};
use crate::descriptor::{AbiKind, NativeType};
use crate::encoding::{
    decode_integer, encode_integer, in_range, integer_fits, lemma_integer_roundtrip,
    lemma_modulus_values, overwrite, ByteOrder,
};
use crate::error::{AccessError, ConversionError, HandleError};
use crate::memory::FfiBox;
use crate::value::{result_view, ScriptValue, ValueView};
use vstd::prelude::*;

verus! {

/// The integer that a script value stands for when it is offered to an
/// integer type of `width` bytes.
///
/// An integer is taken as it is, a float if it is an integer, a string if
/// it is the decimal text of an integer; in each case only if the type
/// holds the integer. No other kind of value is accepted.
pub open spec fn integer_from_value(value: ValueView, width: nat, signed: bool) -> Result<
    int,
    ConversionError,
> {
    match value {
        ValueView::Integer(v) => if in_range(v, width, signed) {
            Ok(v)
        } else {
            Err(ConversionError::OutOfRange)
        },
        ValueView::Float(bits) => match integer_value(bits) {
            Some(n) => if in_range(n, width, signed) {
                Ok(n)
            } else {
                Err(ConversionError::OutOfRange)
            },
            None => Err(ConversionError::PrecisionLoss),
        },
        ValueView::String(text) => match parse_integer_spec(text, width, signed) {
            Some(n) => Ok(n),
            None => Err(ConversionError::ParseFailure),
        },
        _ => Err(ConversionError::UnsupportedValueKind),
    }
}

/// The bit pattern, read as an unsigned number, that a float type of
/// `width` bytes stores for a script value. Only floats are accepted, and
/// of them only those that the type holds exactly.
pub open spec fn float_pattern_from_value(value: ValueView, width: nat) -> Result<
    int,
    ConversionError,
> {
    match value {
        ValueView::Float(bits) => if width == 8 {
            Ok(bits as int)
        } else {
            match narrow_spec(bits) {
                Some(p) => Ok(p as int),
                None => Err(ConversionError::PrecisionLoss),
            }
        },
        _ => Err(ConversionError::UnsupportedValueKind),
    }
}

/// The bytes that a slot of type `t` holds after `value` has been encoded
/// into it, or the reason why `value` is refused.
pub open spec fn encoded(t: NativeType, value: ValueView, order: ByteOrder) -> Result<
    Seq<u8>,
    ConversionError,
> {
    match t.spec_kind() {
        AbiKind::Integer => match integer_from_value(value, t.spec_size(), t.spec_signed()) {
            Ok(n) => Ok(encode_integer(n, t.spec_size(), order)),
            Err(e) => Err(e),
        },
        AbiKind::Float => match float_pattern_from_value(value, t.spec_size()) {
            Ok(p) => Ok(encode_integer(p, t.spec_size(), order)),
            Err(e) => Err(e),
        },
        AbiKind::Pointer => match value {
            ValueView::Handle(id) => Ok(encode_integer(id as int, t.spec_size(), order)),
            _ => Err(ConversionError::UnsupportedValueKind),
        },
        AbiKind::Void => match value {
            ValueView::Nil => Ok(Seq::empty()),
            _ => Err(ConversionError::UnsupportedValueKind),
        },
        AbiKind::Aggregate => Err(ConversionError::UnsupportedValueKind),
    }
}

/// The script value that the bytes of a slot of type `t` stand for.
///
/// Integers of every supported width come back as exact integers, also
/// the unsigned ones of full width. Floats come back as binary64
/// patterns, pointers as handles, and the empty type as the absent value.
/// An aggregate is no script value: it is read member by member.
pub open spec fn decoded(t: NativeType, bytes: Seq<u8>, order: ByteOrder) -> Result<
    ValueView,
    ConversionError,
> {
    match t.spec_kind() {
        AbiKind::Integer => Ok(ValueView::Integer(decode_integer(bytes, t.spec_signed(), order))),
        AbiKind::Float => if t.spec_size() == 8 {
            Ok(ValueView::Float(decode_integer(bytes, false, order) as u64))
        } else {
            Ok(ValueView::Float(widen_spec(decode_integer(bytes, false, order) as u32)))
        },
        AbiKind::Pointer => Ok(ValueView::Handle(decode_integer(bytes, false, order) as u64)),
        AbiKind::Void => Ok(ValueView::Nil),
        AbiKind::Aggregate => Err(ConversionError::UnsupportedValueKind),
    }
}

/// The value in which an accepted script value comes back from a slot of
/// type `t`: the integer it stands for, for an integer type; itself, for
/// every other type.
pub open spec fn canonical(t: NativeType, value: ValueView) -> ValueView {
    match t.spec_kind() {
        AbiKind::Integer => match integer_from_value(value, t.spec_size(), t.spec_signed()) {
            Ok(n) => ValueView::Integer(n),
            Err(_) => value,
        },
        _ => value,
    }
}

/// Round-trip law of conversion: whatever a descriptor accepts, it gives
/// back. Decoding the bytes that encoding has stored yields the accepted
/// value in its canonical form; in particular every integer in the range
/// of an integer type comes back exactly, for every width, both
/// signednesses and both byte orders.
pub proof fn lemma_conversion_roundtrip(t: NativeType, value: ValueView, order: ByteOrder)
    requires
        t.well_formed(),
        encoded(t, value, order) is Ok,
    ensures
        encoded(t, value, order)->Ok_0.len() == t.spec_size(),
        decoded(t, encoded(t, value, order)->Ok_0, order) == Ok::<ValueView, ConversionError>(
            canonical(t, value),
        ),
        t.spec_kind() == AbiKind::Integer && value is Integer ==> canonical(t, value) == value,
{
    lemma_modulus_values();
    match t.spec_kind() {
        AbiKind::Integer => {
            let n = integer_from_value(value, t.spec_size(), t.spec_signed())->Ok_0;
            lemma_integer_roundtrip(n, t.spec_size(), t.spec_signed(), order);
        },
        AbiKind::Float => {
            let p = float_pattern_from_value(value, t.spec_size())->Ok_0;
            lemma_integer_roundtrip(p, t.spec_size(), false, order);
            if t.spec_size() == 4 {
                lemma_widen_narrow(value->Float_0);
            }
        },
        AbiKind::Pointer => {
            lemma_integer_roundtrip(value->Handle_0 as int, t.spec_size(), false, order);
        },
        AbiKind::Void => {},
        AbiKind::Aggregate => {},
    }
}

impl NativeType {
    /// Converts `value` to the bit pattern of this type and stores it in
    /// the slot at `offset` of `handle`. The slot must lie within the
    /// allocation; that is for the caller to check. A refused value leaves
    /// the allocation as it was.
    pub fn encode(
        &self,
        handle: &mut FfiBox,
        offset: usize,
        value: &ScriptValue,
        order: ByteOrder,
    ) -> (r: Result<(), ConversionError>)
        requires
            offset + self.spec_size() <= old(handle)@.len(),
        ensures
            final(handle).spec_alignment() == old(handle).spec_alignment(),
            match encoded(*self, value@, order) {
                Ok(bytes) => r is Ok && final(handle)@ == overwrite(
                    old(handle)@,
                    offset as int,
                    bytes,
                ),
                Err(e) => r == Err::<(), ConversionError>(e) && final(handle)@ == old(handle)@,
            },
    {
        let size: usize = self.size();
        proof {
            lemma_modulus_values();
        }
        match self.kind() {
            AbiKind::Integer => {
                let signed: bool = self.get_signedness();
                let n: i128 = match value {
                    ScriptValue::Integer(v) => {
                        if !integer_fits(*v, size, signed) {
                            return Err(ConversionError::OutOfRange);
                        }
                        *v
                    },
                    ScriptValue::Float(bits) => {
                        let n: i128 = match to_integer(*bits) {
                            Ok(n) => n,
                            Err(e) => {
                                return Err(e);
                            },
                        };
                        if !integer_fits(n, size, signed) {
                            return Err(ConversionError::OutOfRange);
                        }
                        n
                    },
                    ScriptValue::String(text) => match parse_integer(text, size, signed) {
                        Some(n) => n,
                        None => {
                            return Err(ConversionError::ParseFailure);
                        },
                    },
                    _ => {
                        return Err(ConversionError::UnsupportedValueKind);
                    },
                };
                handle.store_integer(offset, size, n, signed, order);
                Ok(())
            },
            AbiKind::Float => {
                let pattern: i128 = match value {
                    ScriptValue::Float(bits) => {
                        if size == 8 {
                            *bits as i128
                        } else {
                            match narrow(*bits) {
                                Some(p) => p as i128,
                                None => {
                                    return Err(ConversionError::PrecisionLoss);
                                },
                            }
                        }
                    },
                    _ => {
                        return Err(ConversionError::UnsupportedValueKind);
                    },
                };
                handle.store_integer(offset, size, pattern, false, order);
                Ok(())
            },
            AbiKind::Pointer => {
                match value {
                    ScriptValue::Handle(id) => {
                        handle.store_integer(offset, size, *id as i128, false, order);
                        Ok(())
                    },
                    _ => Err(ConversionError::UnsupportedValueKind),
                }
            },
            AbiKind::Void => {
                match value {
                    ScriptValue::Nil => {
                        assert(handle@ =~= overwrite(handle@, offset as int, Seq::<u8>::empty()));
                        Ok(())
                    },
                    _ => Err(ConversionError::UnsupportedValueKind),
                }
            },
            AbiKind::Aggregate => Err(ConversionError::UnsupportedValueKind),
        }
    }

    /// Reads the bit pattern in the slot at `offset` of `handle` and gives
    /// the script value it stands for. The slot must lie within the
    /// allocation; that is for the caller to check.
    pub fn decode(&self, handle: &FfiBox, offset: usize, order: ByteOrder) -> (r: Result<
        ScriptValue,
        ConversionError,
    >)
        requires
            offset + self.spec_size() <= handle@.len(),
        ensures
            result_view(r) == decoded(
                *self,
                handle@.subrange(offset as int, offset + self.spec_size()),
                order,
            ),
    {
        let size: usize = self.size();
        proof {
            lemma_modulus_values();
        }
        match self.kind() {
            AbiKind::Integer => {
                let signed: bool = self.get_signedness();
                Ok(ScriptValue::Integer(handle.load_integer(offset, size, signed, order)))
            },
            AbiKind::Float => {
                let pattern: i128 = handle.load_integer(offset, size, false, order);
                if size == 8 {
                    Ok(ScriptValue::Float(pattern as u64))
                } else {
                    Ok(ScriptValue::Float(widen(pattern as u32)))
                }
            },
            AbiKind::Pointer => {
                let pattern: i128 = handle.load_integer(offset, size, false, order);
                Ok(ScriptValue::Handle(pattern as u64))
            },
            AbiKind::Void => Ok(ScriptValue::Nil),
            AbiKind::Aggregate => Err(ConversionError::UnsupportedValueKind),
        }
    }
}

/// What writing `value` as a value of type `t` at `offset` of memory
/// `before` yields, and what the memory holds afterwards. A slot that
/// does not lie within the memory is out of bounds; a refused value and
/// an access out of bounds change nothing.
pub open spec fn written(
    before: Seq<u8>,
    t: NativeType,
    offset: nat,
    value: ValueView,
    order: ByteOrder,
) -> (Result<(), AccessError>, Seq<u8>) {
    if offset + t.spec_size() > before.len() {
        (Err(AccessError::Handle(HandleError::OffsetOutOfBounds)), before)
    } else {
        match encoded(t, value, order) {
            Ok(bytes) => (Ok(()), overwrite(before, offset as int, bytes)),
            Err(e) => (Err(AccessError::Conversion(e)), before),
        }
    }
}

/// What reading a value of type `t` at `offset` of memory `bytes` yields.
pub open spec fn read_back(bytes: Seq<u8>, t: NativeType, offset: nat, order: ByteOrder) -> Result<
    ValueView,
    AccessError,
> {
    if offset + t.spec_size() > bytes.len() {
        Err(AccessError::Handle(HandleError::OffsetOutOfBounds))
    } else {
        match decoded(t, bytes.subrange(offset as int, (offset + t.spec_size()) as int), order) {
            Ok(value) => Ok(value),
            Err(e) => Err(AccessError::Conversion(e)),
        }
    }
}

impl FfiBox {
    /// Writes `value` as a value of type `ty` at `offset`, after checking
    /// that the slot lies within the allocation.
    pub fn write_value(
        &mut self,
        offset: usize,
        ty: &NativeType,
        value: &ScriptValue,
        order: ByteOrder,
    ) -> (r: Result<(), AccessError>)
        ensures
            final(self).spec_alignment() == old(self).spec_alignment(),
            (r, final(self)@) == written(old(self)@, *ty, offset as nat, value@, order),
    {
        if !self.check_boundary(offset, ty.size()) {
            return Err(AccessError::Handle(HandleError::OffsetOutOfBounds));
        }
        match ty.encode(self, offset, value, order) {
            Ok(()) => Ok(()),
            Err(e) => Err(AccessError::Conversion(e)),
        }
    }

    /// Reads a value of type `ty` at `offset`, after checking that the
    /// slot lies within the allocation.
    pub fn read_value(&self, offset: usize, ty: &NativeType, order: ByteOrder) -> (r: Result<
        ScriptValue,
        AccessError,
    >)
        ensures
            result_view(r) == read_back(self@, *ty, offset as nat, order),
    {
        if !self.check_boundary(offset, ty.size()) {
            return Err(AccessError::Handle(HandleError::OffsetOutOfBounds));
        }
        match ty.decode(self, offset, order) {
            Ok(value) => Ok(value),
            Err(e) => Err(AccessError::Conversion(e)),
        }
    }
}

} // verus!
