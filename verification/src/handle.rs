//! Data handles: capabilities to reach native bytes at an offset. A box
//! owns its bytes; a reference points into bytes that a registered wrapper
//! owns; composite storage is either of the two together with the struct or
//! array type that gives its bytes a shape.

use crate::composite::{array_size, element_offset, ArrayType, StructType};
use crate::convert::encoded;
use crate::descriptor::NativeType;
use crate::encoding::{overwrite, ByteOrder};
use crate::error::{ConversionError, HandleError};
use crate::layout::{all_well_formed, member_offset, struct_alignment, struct_size};
use crate::memory::{zeroed, FfiBox};
use crate::value::{ScriptValue, ValueView};
use vstd::prelude::*;

verus! {

/// A non-owning relation to a region that a registered wrapper owns. It
/// never controls the lifetime of what it points into, and is resolved
/// anew, through the registry, at every use.
#[derive(Clone, Copy, Debug, PartialEq, Eq, Structural)]
pub struct FfiRef {
    /// Identity of the wrapper that owns the bytes.
    pub target: u64,
    /// Offset of the referenced region within the owner's bytes.
    pub offset: usize,
    /// Length of the referenced region, where it is known.
    pub length: Option<usize>,
}

/// The type that gives composite storage its shape.
#[derive(Debug)]
pub enum Shape {
    /// A struct: members at computed offsets.
    Struct(StructType),
    /// An array: elements of one type, back to back.
    Array(ArrayType),
}

/// A shape as a mathematical value.
pub enum ShapeView {
    /// A struct with the given members, in declaration order.
    Struct { members: Seq<NativeType> },
    /// An array of `count` elements of type `element`.
    Array { element: NativeType, count: nat },
}

impl ShapeView {
    /// Number of fields of a struct, or of elements of an array.
    pub open spec fn count(self) -> nat {
        match self {
            ShapeView::Struct { members } => members.len(),
            ShapeView::Array { element, count } => count,
        }
    }

    /// Size in bytes of storage of this shape.
    pub open spec fn size(self) -> nat {
        match self {
            ShapeView::Struct { members } => struct_size(members),
            ShapeView::Array { element, count } => array_size(element, count),
        }
    }

    /// Alignment in bytes of storage of this shape.
    pub open spec fn alignment(self) -> nat {
        match self {
            ShapeView::Struct { members } => struct_alignment(members),
            ShapeView::Array { element, count } => element.spec_alignment(),
        }
    }

    /// The descriptor of field or element `index`.
    pub open spec fn part_type(self, index: int) -> NativeType {
        match self {
            ShapeView::Struct { members } => members[index],
            ShapeView::Array { element, count } => element,
        }
    }

    /// The offset of field or element `index` from the start of the
    /// storage.
    pub open spec fn part_offset(self, index: int) -> nat {
        match self {
            ShapeView::Struct { members } => member_offset(members, index),
            ShapeView::Array { element, count } => element_offset(element, index as nat),
        }
    }

    /// Whether the parts are well-formed descriptors and the whole fits
    /// the machine word.
    pub open spec fn well_formed(self) -> bool {
        &&& self.size() <= usize::MAX
        &&& match self {
            ShapeView::Struct { members } => all_well_formed(members),
            ShapeView::Array { element, count } => element.well_formed() && count <= usize::MAX,
        }
    }
}

impl View for Shape {
    type V = ShapeView;

    open spec fn view(&self) -> ShapeView {
        match self {
            Shape::Struct(t) => ShapeView::Struct { members: t@ },
            Shape::Array(t) => ShapeView::Array {
                element: t.spec_element(),
                count: t.spec_count(),
            },
        }
    }
}

impl Shape {
    /// Number of fields of a struct, or of elements of an array.
    pub fn count(&self) -> (r: usize)
        ensures
            r == self@.count(),
            self@.well_formed(),
    {
        match self {
            Shape::Struct(t) => t.len(),
            Shape::Array(t) => t.count(),
        }
    }

    /// Size in bytes of storage of this shape.
    pub fn size(&self) -> (r: usize)
        ensures
            r == self@.size(),
            self@.well_formed(),
    {
        match self {
            Shape::Struct(t) => t.size(),
            Shape::Array(t) => t.size(),
        }
    }

    /// Alignment in bytes of storage of this shape.
    pub fn alignment(&self) -> (r: usize)
        ensures
            r == self@.alignment(),
    {
        match self {
            Shape::Struct(t) => t.alignment(),
            Shape::Array(t) => t.alignment(),
        }
    }

    /// Offset and descriptor of field or element `index`.
    pub fn part(&self, index: usize) -> (r: Result<(usize, NativeType), HandleError>)
        ensures
            index < self@.count() ==> r == Ok::<(usize, NativeType), HandleError>(
                (self@.part_offset(index as int) as usize, self@.part_type(index as int)),
            ) && self@.part_offset(index as int) + self@.part_type(index as int).spec_size()
                <= self@.size() <= usize::MAX,
            index >= self@.count() ==> r == Err::<(usize, NativeType), HandleError>(
                HandleError::IndexOutOfRange,
            ),
    {
        match self {
            Shape::Struct(t) => {
                let offset: usize = match t.offset(index) {
                    Ok(offset) => offset,
                    Err(e) => {
                        return Err(e);
                    },
                };
                match t.member(index) {
                    Ok(member) => Ok((offset, member)),
                    Err(e) => Err(e),
                }
            },
            Shape::Array(t) => {
                match t.offset(index) {
                    Ok(offset) => Ok((offset, t.element())),
                    Err(e) => Err(e),
                }
            },
        }
    }
}

/// What backs composite storage.
#[derive(Debug)]
enum Backing {
    /// An allocation of its own.
    Owned(FfiBox),
    /// A region owned elsewhere.
    Borrowed(FfiRef),
}

/// Bytes with a shape: the backing store of a struct or array wrapper.
#[derive(Debug)]
pub struct CompositeStorage {
    backing: Backing,
    shape: Shape,
}

/// A data handle as a mathematical value.
pub enum HandleView {
    /// An owned allocation holding `bytes`.
    Box { bytes: Seq<u8>, alignment: nat },
    /// A reference into a region owned elsewhere.
    Ref { reference: FfiRef },
    /// Owned bytes with a shape.
    OwnedComposite { bytes: Seq<u8>, alignment: nat, shape: ShapeView },
    /// A region owned elsewhere, with a shape.
    BorrowedComposite { reference: FfiRef, shape: ShapeView },
}

impl HandleView {
    /// The bytes that the handle owns, if it owns any.
    pub open spec fn bytes(self) -> Option<Seq<u8>> {
        match self {
            HandleView::Box { bytes, alignment } => Some(bytes),
            HandleView::OwnedComposite { bytes, alignment, shape } => Some(bytes),
            _ => None,
        }
    }

    /// The alignment that the bytes the handle owns were requested with,
    /// if it owns any.
    pub open spec fn alignment(self) -> Option<nat> {
        match self {
            HandleView::Box { bytes, alignment } => Some(alignment),
            HandleView::OwnedComposite { bytes, alignment, shape } => Some(alignment),
            _ => None,
        }
    }

    /// The reference that the handle goes through, if it owns no bytes.
    pub open spec fn reference(self) -> Option<FfiRef> {
        match self {
            HandleView::Ref { reference } => Some(reference),
            HandleView::BorrowedComposite { reference, shape } => Some(reference),
            _ => None,
        }
    }

    /// The shape of the handle's bytes, if they have one.
    pub open spec fn shape(self) -> Option<ShapeView> {
        match self {
            HandleView::OwnedComposite { bytes, alignment, shape } => Some(shape),
            HandleView::BorrowedComposite { reference, shape } => Some(shape),
            _ => None,
        }
    }

    /// The number of bytes behind the handle, as far as the handle knows
    /// it.
    pub open spec fn size(self) -> Option<nat> {
        match self {
            HandleView::Box { bytes, alignment } => Some(bytes.len()),
            HandleView::Ref { reference } => match reference.length {
                Some(n) => Some(n as nat),
                None => None,
            },
            HandleView::OwnedComposite { bytes, alignment, shape } => Some(shape.size()),
            HandleView::BorrowedComposite { reference, shape } => Some(shape.size()),
        }
    }

    /// The handle with the bytes it owns replaced by `bytes`.
    pub open spec fn with_bytes(self, bytes: Seq<u8>) -> HandleView {
        match self {
            HandleView::Box { bytes: _, alignment } => HandleView::Box { bytes, alignment },
            HandleView::OwnedComposite { bytes: _, alignment, shape } => {
                HandleView::OwnedComposite { bytes, alignment, shape }
            },
            _ => self,
        }
    }

    /// Whether owned bytes fit the machine word and, where they have a
    /// shape, are exactly as many as the shape needs.
    pub open spec fn well_formed(self) -> bool {
        match self {
            HandleView::Box { bytes, alignment } => bytes.len() <= usize::MAX,
            HandleView::Ref { reference } => true,
            HandleView::OwnedComposite { bytes, alignment, shape } => shape.well_formed()
                && bytes.len() == shape.size(),
            HandleView::BorrowedComposite { reference, shape } => shape.well_formed(),
        }
    }
}

impl View for CompositeStorage {
    type V = HandleView;

    closed spec fn view(&self) -> HandleView {
        match self.backing {
            Backing::Owned(b) => HandleView::OwnedComposite {
                bytes: b@,
                alignment: b.spec_alignment(),
                shape: self.shape@,
            },
            Backing::Borrowed(r) => HandleView::BorrowedComposite {
                reference: r,
                shape: self.shape@,
            },
        }
    }
}

/// The reference to the part of `size` bytes at `offset` of the handle
/// that is registered as `id`. A part of owned bytes is referenced through
/// `id`; a part of borrowed bytes through the owner that the handle's own
/// reference names, so that no reference ever leads to another.
pub open spec fn part_reference(handle: HandleView, id: u64, offset: nat, size: nat) -> FfiRef {
    match handle.reference() {
        Some(through) => FfiRef {
            target: through.target,
            offset: (through.offset + offset) as usize,
            length: Some(size as usize),
        },
        None => FfiRef { target: id, offset: offset as usize, length: Some(size as usize) },
    }
}

/// What asking the handle registered as `id` for the handle of its field
/// `index` yields. Only a struct has fields.
pub open spec fn field_handle(handle: HandleView, id: u64, index: nat) -> Result<
    FfiRef,
    HandleError,
> {
    match handle.shape() {
        Some(ShapeView::Struct { members }) => part_handle(handle, id, index),
        _ => Err(HandleError::IndexOutOfRange),
    }
}

/// What asking the handle registered as `id` for the handle of its
/// element `index` yields. Only an array has elements.
pub open spec fn element_handle(handle: HandleView, id: u64, index: nat) -> Result<
    FfiRef,
    HandleError,
> {
    match handle.shape() {
        Some(ShapeView::Array { element, count }) => part_handle(handle, id, index),
        _ => Err(HandleError::IndexOutOfRange),
    }
}

/// What asking the handle registered as `id` for the handle of its part
/// `index` yields: a reference bound to the part's offset and size, where
/// the index is within the declared count.
pub open spec fn part_handle(handle: HandleView, id: u64, index: nat) -> Result<
    FfiRef,
    HandleError,
> {
    match handle.shape() {
        Some(shape) => if index < shape.count() {
            let offset = shape.part_offset(index as int);
            let size = shape.part_type(index as int).spec_size();
            if handle.reference() matches Some(through) && through.offset + offset
                > usize::MAX {
                Err(HandleError::OffsetOutOfBounds)
            } else {
                Ok(part_reference(handle, id, offset, size))
            }
        } else {
            Err(HandleError::IndexOutOfRange)
        },
        None => Err(HandleError::IndexOutOfRange),
    }
}

impl CompositeStorage {
    #[verifier::type_invariant]
    spec fn inv(self) -> bool {
        self.backing matches Backing::Owned(b) ==> b@.len() == self.shape@.size()
    }

    /// Storage of its own for a value of the given shape, all zero.
    pub fn allocate(shape: Shape) -> (s: CompositeStorage)
        ensures
            s@ == (HandleView::OwnedComposite {
                bytes: zeroed(shape@.size()),
                alignment: shape@.alignment(),
                shape: shape@,
            }),
            s@.well_formed(),
    {
        let b: FfiBox = FfiBox::allocate(shape.size(), shape.alignment());
        CompositeStorage { backing: Backing::Owned(b), shape }
    }

    /// Storage that gives the region behind `reference` the given shape.
    pub fn over(reference: FfiRef, shape: Shape) -> (s: CompositeStorage)
        ensures
            s@ == (HandleView::BorrowedComposite { reference, shape: shape@ }),
    {
        CompositeStorage { backing: Backing::Borrowed(reference), shape }
    }

    /// The shape of the storage.
    pub fn shape(&self) -> (r: &Shape)
        ensures
            Some(r@) == self@.shape(),
    {
        &self.shape
    }

    /// Number of bytes that a value of the storage's shape takes. Storage
    /// of its own has exactly as many.
    pub fn size(&self) -> (r: usize)
        ensures
            self@.size() == Some(r as nat),
            self@.well_formed(),
    {
        proof {
            use_type_invariant(self);
        }
        self.shape.size()
    }

    /// The handle of part `index`, for storage registered as `id`.
    fn part_handle(&self, id: u64, index: usize) -> (r: Result<FfiRef, HandleError>)
        ensures
            r == part_handle(self@, id, index as nat),
    {
        let (offset, part): (usize, NativeType) = match self.shape.part(index) {
            Ok(found) => found,
            Err(e) => {
                return Err(e);
            },
        };
        let size: usize = part.size();
        match &self.backing {
            Backing::Owned(_) => Ok(FfiRef { target: id, offset, length: Some(size) }),
            Backing::Borrowed(through) => match through.offset.checked_add(offset) {
                Some(total) => Ok(
                    FfiRef { target: through.target, offset: total, length: Some(size) },
                ),
                None => Err(HandleError::OffsetOutOfBounds),
            },
        }
    }

    /// The handle of field `index` of a struct, for storage registered as
    /// `id`: a reference bound to the field's offset and size. Fails with
    /// `IndexOutOfRange` for an index outside the declared fields.
    pub fn field_handle(&self, id: u64, index: usize) -> (r: Result<FfiRef, HandleError>)
        ensures
            r == field_handle(self@, id, index as nat),
    {
        match &self.shape {
            Shape::Struct(_) => self.part_handle(id, index),
            Shape::Array(_) => Err(HandleError::IndexOutOfRange),
        }
    }

    /// The handle of element `index` of an array, for storage registered
    /// as `id`: a reference bound to the element's offset and size. Fails
    /// with `IndexOutOfRange` for an index outside the declared count.
    pub fn element_handle(&self, id: u64, index: usize) -> (r: Result<FfiRef, HandleError>)
        ensures
            r == element_handle(self@, id, index as nat),
    {
        match &self.shape {
            Shape::Struct(_) => Err(HandleError::IndexOutOfRange),
            Shape::Array(_) => self.part_handle(id, index),
        }
    }

    /// The allocation behind the storage, if it has one of its own.
    pub fn storage(&self) -> (r: Option<&FfiBox>)
        ensures
            match self@.bytes() {
                Some(bytes) => r is Some && r->Some_0@ == bytes && Some(
                    r->Some_0.spec_alignment(),
                ) == self@.alignment(),
                None => r is None,
            },
    {
        match &self.backing {
            Backing::Owned(b) => Some(b),
            Backing::Borrowed(_) => None,
        }
    }

    /// The reference behind the storage, if it has no allocation of its
    /// own.
    pub fn reference(&self) -> (r: Option<FfiRef>)
        ensures
            r == self@.reference(),
    {
        match &self.backing {
            Backing::Owned(_) => None,
            Backing::Borrowed(through) => Some(*through),
        }
    }

    /// Encodes `value` into the slot at `offset` of the storage's own
    /// allocation, and hands the storage back.
    pub fn encode_at(
        self,
        ty: &NativeType,
        offset: usize,
        value: &ScriptValue,
        order: ByteOrder,
    ) -> (r: (CompositeStorage, Result<(), ConversionError>))
        requires
            self@.bytes() matches Some(bytes) && offset + ty.spec_size() <= bytes.len(),
        ensures
            stored(self@, *ty, offset as nat, value@, order, r.0@, r.1),
    {
        proof {
            use_type_invariant(&self);
        }
        let CompositeStorage { backing, shape } = self;
        match backing {
            Backing::Owned(mut b) => {
                let r = ty.encode(&mut b, offset, value, order);
                (CompositeStorage { backing: Backing::Owned(b), shape }, r)
            },
            Backing::Borrowed(through) => (
                CompositeStorage { backing: Backing::Borrowed(through), shape },
                Ok(()),
            ),
        }
    }
}

/// How a handle that owns bytes has changed when `value` has been offered
/// to the slot of type `ty` at `offset`: an accepted value has its
/// encoding stored there, a refused value changes nothing.
pub open spec fn stored(
    before: HandleView,
    ty: NativeType,
    offset: nat,
    value: ValueView,
    order: ByteOrder,
    after: HandleView,
    result: Result<(), ConversionError>,
) -> bool {
    match encoded(ty, value, order) {
        Ok(bytes) => result is Ok && after == before.with_bytes(
            overwrite(before.bytes()->Some_0, offset as int, bytes),
        ),
        Err(e) => result == Err::<(), ConversionError>(e) && after == before,
    }
}

/// A data handle: a box, a reference, or composite storage.
#[derive(Debug)]
pub enum DataHandle {
    /// An exclusively owned allocation.
    Box(FfiBox),
    /// A reference into a region owned elsewhere.
    Ref(FfiRef),
    /// Bytes with a shape.
    Composite(CompositeStorage),
}

impl View for DataHandle {
    type V = HandleView;

    open spec fn view(&self) -> HandleView {
        match self {
            DataHandle::Box(b) => HandleView::Box { bytes: b@, alignment: b.spec_alignment() },
            DataHandle::Ref(r) => HandleView::Ref { reference: *r },
            DataHandle::Composite(s) => s@,
        }
    }
}

impl DataHandle {
    /// The allocation that the handle owns, if it owns one.
    pub fn storage(&self) -> (r: Option<&FfiBox>)
        ensures
            match self@.bytes() {
                Some(bytes) => r is Some && r->Some_0@ == bytes && Some(
                    r->Some_0.spec_alignment(),
                ) == self@.alignment(),
                None => r is None,
            },
    {
        match self {
            DataHandle::Box(b) => Some(b),
            DataHandle::Ref(_) => None,
            DataHandle::Composite(s) => s.storage(),
        }
    }

    /// The number of bytes behind the handle, as far as the handle knows
    /// it: those of a box, those that a value of a composite's shape
    /// takes, and the length of a reference where it has one.
    pub fn size(&self) -> (r: Option<usize>)
        ensures
            self@.well_formed(),
            match r {
                Some(n) => self@.size() == Some(n as nat),
                None => self@.size() is None,
            },
    {
        match self {
            DataHandle::Box(b) => Some(b.size()),
            DataHandle::Ref(through) => through.length,
            DataHandle::Composite(s) => Some(s.size()),
        }
    }

    /// The reference that the handle goes through, if it owns no bytes.
    pub fn reference(&self) -> (r: Option<FfiRef>)
        ensures
            r == self@.reference(),
    {
        match self {
            DataHandle::Box(_) => None,
            DataHandle::Ref(r) => Some(*r),
            DataHandle::Composite(s) => s.reference(),
        }
    }

    /// The handle of field `index`, for a handle registered as `id`.
    pub fn field_handle(&self, id: u64, index: usize) -> (r: Result<FfiRef, HandleError>)
        ensures
            r == field_handle(self@, id, index as nat),
    {
        match self {
            DataHandle::Composite(s) => s.field_handle(id, index),
            _ => Err(HandleError::IndexOutOfRange),
        }
    }

    /// The handle of element `index`, for a handle registered as `id`.
    pub fn element_handle(&self, id: u64, index: usize) -> (r: Result<FfiRef, HandleError>)
        ensures
            r == element_handle(self@, id, index as nat),
    {
        match self {
            DataHandle::Composite(s) => s.element_handle(id, index),
            _ => Err(HandleError::IndexOutOfRange),
        }
    }

    /// Encodes `value` into the slot at `offset` of the bytes that the
    /// handle owns, and hands the handle back.
    pub fn encode_at(
        self,
        ty: &NativeType,
        offset: usize,
        value: &ScriptValue,
        order: ByteOrder,
    ) -> (r: (DataHandle, Result<(), ConversionError>))
        requires
            self@.bytes() matches Some(bytes) && offset + ty.spec_size() <= bytes.len(),
        ensures
            stored(self@, *ty, offset as nat, value@, order, r.0@, r.1),
    {
        match self {
            DataHandle::Box(mut b) => {
                let r = ty.encode(&mut b, offset, value, order);
                (DataHandle::Box(b), r)
            },
            DataHandle::Ref(through) => (DataHandle::Ref(through), Ok(())),
            DataHandle::Composite(s) => {
                let (s, r) = s.encode_at(ty, offset, value, order);
                (DataHandle::Composite(s), r)
            },
        }
    }
}

} // verus!
