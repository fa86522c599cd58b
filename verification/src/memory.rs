//! Owned allocations: the only place where bytes of native data live.

use crate::encoding::{
    decode_integer, encode_integer, in_range, overwrite, read_integer, write_integer, ByteOrder,
};
use crate::error::HandleError;
use vstd::prelude::*;

verus! {

/// A place in registered memory: a byte of the allocation that a wrapper
/// identity owns. Stands where a machine address would stand, and can be
/// checked again whenever it is used.
#[derive(Clone, Copy, Debug, PartialEq, Eq, Structural)]
pub struct RawAddress {
    /// Identity of the wrapper that owns the allocation.
    pub region: u64,
    /// Offset of the byte from the start of the allocation.
    pub offset: usize,
}

/// An exclusively owned allocation of a fixed number of bytes.
#[derive(Debug)]
pub struct FfiBox {
    data: Vec<u8>,
    alignment: usize,
}

impl View for FfiBox {
    type V = Seq<u8>;

    /// The bytes of the allocation.
    closed spec fn view(&self) -> Seq<u8> {
        self.data@
    }
}

/// Memory of `size` bytes, all zero.
pub open spec fn zeroed(size: nat) -> Seq<u8> {
    Seq::new(size, |i: int| 0u8)
}

impl FfiBox {
    /// The alignment the allocation was requested with.
    pub closed spec fn spec_alignment(self) -> nat {
        self.alignment as nat
    }

    /// Allocates `size` bytes, all zero.
    pub fn allocate(size: usize, alignment: usize) -> (b: FfiBox)
        ensures
            b@ == zeroed(size as nat),
            b.spec_alignment() == alignment,
    {
        let mut data: Vec<u8> = Vec::new();
        let mut i: usize = 0;
        while i < size
            invariant
                i <= size,
                data@ == zeroed(i as nat),
            decreases size - i,
        {
            data.push(0);
            i = i + 1;
            assert(data@ =~= zeroed(i as nat));
        }
        FfiBox { data, alignment }
    }

    /// An allocation that holds the given bytes.
    pub fn from_bytes(bytes: Vec<u8>, alignment: usize) -> (b: FfiBox)
        ensures
            b@ == bytes@,
            b.spec_alignment() == alignment,
    {
        FfiBox { data: bytes, alignment }
    }

    /// The bytes of the allocation, to look at.
    pub fn as_slice(&self) -> (bytes: &[u8])
        ensures
            bytes@ == self@,
    {
        self.data.as_slice()
    }

    /// Gives up the allocation and hands out its bytes.
    pub fn into_bytes(self) -> (bytes: Vec<u8>)
        ensures
            bytes@ == self@,
    {
        self.data
    }

    /// Number of bytes of the allocation.
    pub fn size(&self) -> (r: usize)
        ensures
            r == self@.len(),
    {
        self.data.len()
    }

    /// The alignment the allocation was requested with.
    pub fn alignment(&self) -> (r: usize)
        ensures
            r == self.spec_alignment(),
    {
        self.alignment
    }

    /// Whether `size` bytes from `offset` on lie within the allocation.
    pub fn check_boundary(&self, offset: usize, size: usize) -> (r: bool)
        ensures
            r == (offset + size <= self@.len()),
    {
        let len: usize = self.data.len();
        offset <= len && size <= len - offset
    }

    /// The address of byte `offset` of this allocation, for the wrapper
    /// identity `region` under which it is registered.
    pub fn get_pointer(&self, region: u64, offset: usize) -> (p: RawAddress)
        requires
            offset < self@.len(),
        ensures
            p == (RawAddress { region, offset }),
    {
        RawAddress { region, offset }
    }

    /// Copies `len` bytes from `offset` on out of the allocation.
    pub fn read(&self, offset: usize, len: usize) -> (r: Result<Vec<u8>, HandleError>)
        ensures
            offset + len <= self@.len() ==> r is Ok && r->Ok_0@ == self@.subrange(
                offset as int,
                offset + len,
            ),
            offset + len > self@.len() ==> r == Err::<Vec<u8>, HandleError>(
                HandleError::OffsetOutOfBounds,
            ),
    {
        if !self.check_boundary(offset, len) {
            return Err(HandleError::OffsetOutOfBounds);
        }
        let mut out: Vec<u8> = Vec::new();
        let total: usize = self.data.len();
        let mut i: usize = 0;
        while i < len
            invariant
                i <= len,
                offset + len <= total,
                total == self.data@.len(),
                out@ == self.data@.subrange(offset as int, offset + i),
            decreases len - i,
        {
            out.push(self.data[offset + i]);
            i = i + 1;
            assert(out@ =~= self.data@.subrange(offset as int, offset + i));
        }
        Ok(out)
    }

    /// Copies `bytes` into the allocation from `offset` on.
    pub fn write(&mut self, offset: usize, bytes: &Vec<u8>) -> (r: Result<(), HandleError>)
        ensures
            final(self).spec_alignment() == old(self).spec_alignment(),
            offset + bytes@.len() <= old(self)@.len() ==> r is Ok && final(self)@ == overwrite(
                old(self)@,
                offset as int,
                bytes@,
            ),
            offset + bytes@.len() > old(self)@.len() ==> r == Err::<(), HandleError>(
                HandleError::OffsetOutOfBounds,
            ) && final(self)@ == old(self)@,
    {
        let len: usize = bytes.len();
        if !self.check_boundary(offset, len) {
            return Err(HandleError::OffsetOutOfBounds);
        }
        let ghost before = self.data@;
        let total: usize = self.data.len();
        let mut i: usize = 0;
        while i < len
            invariant
                i <= len,
                len == bytes@.len(),
                offset + len <= total,
                total == before.len(),
                self.data@.len() == before.len(),
                self.alignment == old(self).alignment,
                forall|j: int|
                    0 <= j < before.len() ==> self.data@[j] == if offset <= j < offset + i {
                        bytes@[j - offset]
                    } else {
                        before[j]
                    },
            decreases len - i,
        {
            self.data.set(offset + i, bytes[i]);
            i = i + 1;
        }
        assert(self.data@ =~= overwrite(before, offset as int, bytes@));
        Ok(())
    }

    /// Stores `value` in the integer slot of `width` bytes at `offset`.
    pub fn store_integer(
        &mut self,
        offset: usize,
        width: usize,
        value: i128,
        signed: bool,
        order: ByteOrder,
    )
        requires
            width == 1 || width == 2 || width == 4 || width == 8,
            in_range(value as int, width as nat, signed),
            offset + width <= old(self)@.len(),
        ensures
            final(self).spec_alignment() == old(self).spec_alignment(),
            final(self)@ == overwrite(
                old(self)@,
                offset as int,
                encode_integer(value as int, width as nat, order),
            ),
    {
        write_integer(&mut self.data, offset, width, value, signed, order);
    }

    /// Reads the integer held by the slot of `width` bytes at `offset`.
    pub fn load_integer(&self, offset: usize, width: usize, signed: bool, order: ByteOrder) -> (value:
        i128)
        requires
            width == 1 || width == 2 || width == 4 || width == 8,
            offset + width <= self@.len(),
        ensures
            value == decode_integer(
                self@.subrange(offset as int, offset + width),
                signed,
                order,
            ),
            in_range(value as int, width as nat, signed),
    {
        read_integer(&self.data, offset, width, signed, order)
    }
}

} // verus!
