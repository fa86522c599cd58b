//! Native type descriptors: the immutable description of one C type.

use vstd::prelude::*;

verus! {

/// Tag identifying the underlying ABI type of a descriptor.
#[derive(Clone, Copy, Debug, PartialEq, Eq, Structural)]
pub enum AbiKind {
    /// Two's complement integer; its width is the descriptor's size.
    Integer,
    /// IEEE 754 binary floating point; its width is the descriptor's size.
    Float,
    /// Pointer-sized slot holding the identity of a registered wrapper.
    Pointer,
    /// The empty type; only meaningful as a return type.
    Void,
    /// Struct or array, described further by its composite type.
    Aggregate,
}

/// Width in bytes of a pointer slot, on every machine: what a slot holds
/// is the identity of a wrapper, not a machine address.
pub const POINTER_SIZE: usize = 8;

/// Alignments a descriptor can have.
pub open spec fn valid_alignment(a: int) -> bool {
    a == 1 || a == 2 || a == 4 || a == 8
}

/// Widths in bytes an integer descriptor can have.
pub open spec fn valid_integer_width(w: int) -> bool {
    w == 1 || w == 2 || w == 4 || w == 8
}

/// Widths in bytes a floating point descriptor can have.
pub open spec fn valid_float_width(w: int) -> bool {
    w == 4 || w == 8
}

/// Immutable description of one native type.
#[derive(Clone, Copy, Debug, PartialEq, Eq, Structural)]
pub struct NativeType {
    size: usize,
    alignment: usize,
    signed: bool,
    kind: AbiKind,
}

impl NativeType {
    /// Size in bytes.
    pub closed spec fn spec_size(self) -> nat {
        self.size as nat
    }

    /// Alignment in bytes.
    pub closed spec fn spec_alignment(self) -> nat {
        self.alignment as nat
    }

    /// Whether this is a signed integer type.
    pub closed spec fn spec_signed(self) -> bool {
        self.signed
    }

    /// The ABI kind tag.
    pub closed spec fn spec_kind(self) -> AbiKind {
        self.kind
    }

    /// What every descriptor satisfies.
    pub open spec fn well_formed(self) -> bool {
        &&& valid_alignment(self.spec_alignment() as int)
        &&& self.spec_size() % self.spec_alignment() == 0
        &&& match self.spec_kind() {
            AbiKind::Integer => valid_integer_width(self.spec_size() as int)
                && self.spec_alignment() == self.spec_size(),
            AbiKind::Float => valid_float_width(self.spec_size() as int)
                && self.spec_alignment() == self.spec_size() && !self.spec_signed(),
            AbiKind::Pointer => self.spec_size() == POINTER_SIZE
                && self.spec_alignment() == POINTER_SIZE && !self.spec_signed(),
            AbiKind::Void => self.spec_size() == 0 && self.spec_alignment() == 1
                && !self.spec_signed(),
            AbiKind::Aggregate => !self.spec_signed(),
        }
    }

    #[verifier::type_invariant]
    spec fn inv(self) -> bool {
        self.well_formed()
    }

    /// The descriptor of the integer type of `width` bytes, if there is one.
    pub fn integer(width: usize, signed: bool) -> (r: Option<NativeType>)
        ensures
            r is Some <==> valid_integer_width(width as int),
            r matches Some(t) ==> t.spec_kind() == AbiKind::Integer && t.spec_size() == width
                && t.spec_alignment() == width && t.spec_signed() == signed && t.well_formed(),
    {
        if width == 1 || width == 2 || width == 4 || width == 8 {
            Some(NativeType { size: width, alignment: width, signed, kind: AbiKind::Integer })
        } else {
            None
        }
    }

    /// The descriptor of the floating point type of `width` bytes, if there
    /// is one.
    pub fn float(width: usize) -> (r: Option<NativeType>)
        ensures
            r is Some <==> valid_float_width(width as int),
            r matches Some(t) ==> t.spec_kind() == AbiKind::Float && t.spec_size() == width
                && t.spec_alignment() == width && !t.spec_signed() && t.well_formed(),
    {
        if width == 4 || width == 8 {
            Some(NativeType { size: width, alignment: width, signed: false, kind: AbiKind::Float })
        } else {
            None
        }
    }

    /// The descriptor of a pointer.
    pub fn pointer() -> (t: NativeType)
        ensures
            t.spec_kind() == AbiKind::Pointer,
            t.spec_size() == POINTER_SIZE,
            t.spec_alignment() == POINTER_SIZE,
            !t.spec_signed(),
            t.well_formed(),
    {
        NativeType {
            size: POINTER_SIZE,
            alignment: POINTER_SIZE,
            signed: false,
            kind: AbiKind::Pointer,
        }
    }

    /// The descriptor of the empty type.
    pub fn void() -> (t: NativeType)
        ensures
            t.spec_kind() == AbiKind::Void,
            t.spec_size() == 0,
            t.spec_alignment() == 1,
            !t.spec_signed(),
            t.well_formed(),
    {
        NativeType { size: 0, alignment: 1, signed: false, kind: AbiKind::Void }
    }

    /// The descriptor of an aggregate of the given size and alignment, if
    /// the alignment is valid and divides the size.
    pub fn aggregate(size: usize, alignment: usize) -> (r: Option<NativeType>)
        ensures
            r is Some <==> valid_alignment(alignment as int) && size as int % alignment as int
                == 0,
            r matches Some(t) ==> t.spec_kind() == AbiKind::Aggregate && t.spec_size() == size
                && t.spec_alignment() == alignment && !t.spec_signed() && t.well_formed(),
    {
        if (alignment == 1 || alignment == 2 || alignment == 4 || alignment == 8) && size
            % alignment == 0 {
            Some(NativeType { size, alignment, signed: false, kind: AbiKind::Aggregate })
        } else {
            None
        }
    }

    /// The descriptor of an aggregate whose layout has been computed: the
    /// alignment is valid and divides the size.
    pub(crate) fn laid_out(size: usize, alignment: usize) -> (t: NativeType)
        requires
            valid_alignment(alignment as int),
            size as int % alignment as int == 0,
        ensures
            t.spec_kind() == AbiKind::Aggregate,
            t.spec_size() == size,
            t.spec_alignment() == alignment,
            t.well_formed(),
    {
        NativeType { size, alignment, signed: false, kind: AbiKind::Aggregate }
    }

    /// Size in bytes.
    pub fn size(&self) -> (r: usize)
        ensures
            r == self.spec_size(),
            self.well_formed(),
    {
        proof {
            use_type_invariant(self);
        }
        self.size
    }

    /// Alignment in bytes.
    pub fn alignment(&self) -> (r: usize)
        ensures
            r == self.spec_alignment(),
            self.well_formed(),
    {
        proof {
            use_type_invariant(self);
        }
        self.alignment
    }

    /// The ABI kind tag.
    pub fn kind(&self) -> (r: AbiKind)
        ensures
            r == self.spec_kind(),
            self.well_formed(),
    {
        proof {
            use_type_invariant(self);
        }
        self.kind
    }

    /// Whether values of this type carry a sign. Only integer types can;
    /// for every other kind the answer is fixed to `false`.
    pub fn get_signedness(&self) -> (r: bool)
        ensures
            r == self.spec_signed(),
            r ==> self.spec_kind() == AbiKind::Integer,
    {
        proof {
            use_type_invariant(self);
        }
        self.signed
    }
}

} // verus!
