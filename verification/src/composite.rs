//! Composite type descriptors: structs and fixed-size arrays, with the
//! layout computed once when the type is built.

use crate::descriptor::{AbiKind, NativeType};
use crate::error::HandleError;
use crate::layout::{
    all_well_formed, lemma_align_up_not_below, lemma_max_alignment, lemma_running_offset_grows,
    lemma_struct_layout, max_alignment, member_offset, round_up, running_offset, struct_alignment,
    struct_size,
};
use vstd::arithmetic::div_mod::{lemma_fundamental_div_mod, lemma_mod_multiples_basic};
use vstd::prelude::*;

verus! {

/// A struct type: its members in declaration order, with the offset of each.
#[derive(Debug)]
pub struct StructType {
    members: Vec<NativeType>,
    offsets: Vec<usize>,
    size: usize,
    alignment: usize,
}

impl View for StructType {
    type V = Seq<NativeType>;

    /// The member descriptors in declaration order.
    closed spec fn view(&self) -> Seq<NativeType> {
        self.members@
    }
}

impl Clone for StructType {
    fn clone(&self) -> (r: Self)
        ensures
            r@ == self@,
    {
        proof {
            use_type_invariant(self);
        }
        let members: Vec<NativeType> = self.members.clone();
        let offsets: Vec<usize> = self.offsets.clone();
        assert(members@ =~= self.members@);
        assert(offsets@ =~= self.offsets@);
        StructType { members, offsets, size: self.size, alignment: self.alignment }
    }
}

impl StructType {
    #[verifier::type_invariant]
    spec fn inv(self) -> bool {
        &&& all_well_formed(self.members@)
        &&& self.offsets@.len() == self.members@.len()
        &&& forall|i: int|
            0 <= i < self.members@.len() ==> #[trigger] self.offsets@[i] == member_offset(
                self.members@,
                i,
            )
        &&& self.size == struct_size(self.members@)
        &&& self.alignment == struct_alignment(self.members@)
    }

    /// Lays out a struct of the given members, or reports that its size
    /// does not fit the machine word.
    pub fn new(members: Vec<NativeType>) -> (r: Option<StructType>)
        ensures
            r is Some <==> struct_size(members@) <= usize::MAX,
            r matches Some(t) ==> t@ == members@ && all_well_formed(members@),
    {
        let mut offsets: Vec<usize> = Vec::new();
        let mut running: usize = 0;
        let mut alignment: usize = 1;
        let mut i: usize = 0;
        while i < members.len()
            invariant
                i <= members.len(),
                offsets@.len() == i,
                forall|k: int| 0 <= k < i ==> #[trigger] offsets@[k] == member_offset(members@, k),
                forall|k: int| 0 <= k < i ==> (#[trigger] members@[k]).well_formed(),
                running == running_offset(members@, i as nat),
                alignment == max_alignment(members@, i as nat),
            decreases members.len() - i,
        {
            let member: NativeType = members[i];
            let a: usize = member.alignment();
            proof {
                lemma_running_offset_grows(members@, (i + 1) as nat, members@.len());
                lemma_align_up_not_below(
                    running_offset(members@, members@.len()),
                    struct_alignment(members@),
                );
            }
            let start: usize = match round_up(running, a) {
                Some(v) => v,
                None => {
                    return None;
                },
            };
            let end: usize = match start.checked_add(member.size()) {
                Some(v) => v,
                None => {
                    return None;
                },
            };
            offsets.push(start);
            running = end;
            if a > alignment {
                alignment = a;
            }
            i = i + 1;
        }
        let size: usize = match round_up(running, alignment) {
            Some(v) => v,
            None => {
                return None;
            },
        };
        Some(StructType { members, offsets, size, alignment })
    }

    /// Number of members.
    pub fn len(&self) -> (r: usize)
        ensures
            r == self@.len(),
            all_well_formed(self@),
            struct_size(self@) <= usize::MAX,
    {
        proof {
            use_type_invariant(self);
        }
        self.members.len()
    }

    /// The descriptor of member `index`.
    pub fn member(&self, index: usize) -> (r: Result<NativeType, HandleError>)
        ensures
            index < self@.len() ==> r == Ok::<NativeType, HandleError>(self@[index as int]),
            index >= self@.len() ==> r == Err::<NativeType, HandleError>(
                HandleError::IndexOutOfRange,
            ),
    {
        if index < self.members.len() {
            Ok(self.members[index])
        } else {
            Err(HandleError::IndexOutOfRange)
        }
    }

    /// The offset of member `index` from the start of the struct.
    pub fn offset(&self, index: usize) -> (r: Result<usize, HandleError>)
        ensures
            index < self@.len() ==> r == Ok::<usize, HandleError>(
                member_offset(self@, index as int) as usize,
            ) && member_offset(self@, index as int) + self@[index as int].spec_size()
                <= struct_size(self@) <= usize::MAX,
            index >= self@.len() ==> r == Err::<usize, HandleError>(HandleError::IndexOutOfRange),
    {
        proof {
            use_type_invariant(self);
        }
        if index < self.offsets.len() {
            proof {
                lemma_struct_layout(self.members@, index as int);
            }
            Ok(self.offsets[index])
        } else {
            Err(HandleError::IndexOutOfRange)
        }
    }

    /// Offset and descriptor of member `index`, which must be one of the
    /// members.
    pub fn slot(&self, index: usize) -> (r: (usize, NativeType))
        requires
            index < self@.len(),
        ensures
            r.0 == member_offset(self@, index as int),
            r.1 == self@[index as int],
            r.1.well_formed(),
            r.0 + r.1.spec_size() <= struct_size(self@),
    {
        proof {
            use_type_invariant(self);
            lemma_struct_layout(self.members@, index as int);
        }
        (self.offsets[index], self.members[index])
    }

    /// Size of the struct in bytes.
    pub fn size(&self) -> (r: usize)
        ensures
            r == struct_size(self@),
            all_well_formed(self@),
    {
        proof {
            use_type_invariant(self);
        }
        self.size
    }

    /// Alignment of the struct in bytes.
    pub fn alignment(&self) -> (r: usize)
        ensures
            r == struct_alignment(self@),
    {
        proof {
            use_type_invariant(self);
        }
        self.alignment
    }

    /// The struct seen as one opaque aggregate, as it appears when it is a
    /// member of another composite type.
    pub fn descriptor(&self) -> (t: NativeType)
        ensures
            t.spec_kind() == AbiKind::Aggregate,
            t.spec_size() == struct_size(self@),
            t.spec_alignment() == struct_alignment(self@),
            t.well_formed(),
    {
        proof {
            use_type_invariant(self);
            lemma_max_alignment(self.members@, self.members@.len());
            if self.members@.len() > 0 {
                lemma_struct_layout(self.members@, 0);
            }
        }
        NativeType::laid_out(self.size, self.alignment)
    }
}

/// The size of an array of `count` elements: no padding between elements.
pub open spec fn array_size(element: NativeType, count: nat) -> nat {
    count * element.spec_size()
}

/// The offset of element `index` from the start of an array.
pub open spec fn element_offset(element: NativeType, index: nat) -> nat {
    index * element.spec_size()
}

/// Every element of an array lies within the array, and elements do not
/// overlap: element `index` ends where element `index + 1` starts.
pub proof fn lemma_array_layout(element: NativeType, count: nat, index: nat)
    requires
        index < count,
    ensures
        element_offset(element, index) + element.spec_size() == element_offset(
            element,
            index + 1,
        ),
        element_offset(element, index) + element.spec_size() <= array_size(element, count),
{
    let s = element.spec_size() as int;
    assert(index * s + s == (index + 1) * s) by (nonlinear_arith);
    assert((index + 1) * s <= count * s) by (nonlinear_arith)
        requires
            index + 1 <= count,
            s >= 0,
    ;
}

/// A fixed-size array type: an element descriptor and a count.
#[derive(Clone, Copy, Debug)]
pub struct ArrayType {
    element: NativeType,
    count: usize,
    size: usize,
}

impl ArrayType {
    /// The element descriptor.
    pub closed spec fn spec_element(self) -> NativeType {
        self.element
    }

    /// The declared number of elements.
    pub closed spec fn spec_count(self) -> nat {
        self.count as nat
    }

    #[verifier::type_invariant]
    spec fn inv(self) -> bool {
        &&& self.element.well_formed()
        &&& self.size == array_size(self.element, self.count as nat)
    }

    /// The array of `count` elements of type `element`, or nothing if its
    /// size does not fit the machine word.
    pub fn new(element: NativeType, count: usize) -> (r: Option<ArrayType>)
        ensures
            r is Some <==> array_size(element, count as nat) <= usize::MAX,
            r matches Some(t) ==> t.spec_element() == element && t.spec_count() == count,
    {
        let element_size: usize = element.size();
        match count.checked_mul(element_size) {
            Some(size) => Some(ArrayType { element, count, size }),
            None => None,
        }
    }

    /// The element descriptor.
    pub fn element(&self) -> (r: NativeType)
        ensures
            r == self.spec_element(),
            r.well_formed(),
    {
        proof {
            use_type_invariant(self);
        }
        self.element
    }

    /// The declared number of elements.
    pub fn count(&self) -> (r: usize)
        ensures
            r == self.spec_count(),
            self.spec_element().well_formed(),
            array_size(self.spec_element(), self.spec_count()) <= usize::MAX,
    {
        proof {
            use_type_invariant(self);
        }
        self.count
    }

    /// Size of the array in bytes.
    pub fn size(&self) -> (r: usize)
        ensures
            r == array_size(self.spec_element(), self.spec_count()),
            self.spec_element().well_formed(),
            self.spec_count() <= usize::MAX,
    {
        proof {
            use_type_invariant(self);
        }
        self.size
    }

    /// Alignment of the array in bytes: that of its element.
    pub fn alignment(&self) -> (r: usize)
        ensures
            r == self.spec_element().spec_alignment(),
    {
        self.element.alignment()
    }

    /// The offset of element `index` from the start of the array.
    pub fn offset(&self, index: usize) -> (r: Result<usize, HandleError>)
        ensures
            index < self.spec_count() ==> r == Ok::<usize, HandleError>(
                element_offset(self.spec_element(), index as nat) as usize,
            ) && element_offset(self.spec_element(), index as nat)
                + self.spec_element().spec_size() <= array_size(
                self.spec_element(),
                self.spec_count(),
            ) <= usize::MAX,
            index >= self.spec_count() ==> r == Err::<usize, HandleError>(
                HandleError::IndexOutOfRange,
            ),
    {
        proof {
            use_type_invariant(self);
        }
        if index < self.count {
            proof {
                lemma_array_layout(self.element, self.count as nat, index as nat);
                assert(index * self.element.spec_size() >= 0) by (nonlinear_arith);
            }
            let element_size: usize = self.element.size();
            Ok(index * element_size)
        } else {
            Err(HandleError::IndexOutOfRange)
        }
    }

    /// The array seen as one opaque aggregate.
    pub fn descriptor(&self) -> (t: NativeType)
        ensures
            t.spec_kind() == AbiKind::Aggregate,
            t.spec_size() == array_size(self.spec_element(), self.spec_count()),
            t.spec_alignment() == self.spec_element().spec_alignment(),
            t.well_formed(),
    {
        proof {
            use_type_invariant(self);
        }
        let a: usize = self.element.alignment();
        proof {
            let s = self.element.spec_size() as int;
            let n = self.count as int;
            let d = a as int;
            let k = s / d;
            lemma_fundamental_div_mod(s, d);
            assert(n * s == (n * k) * d) by (nonlinear_arith)
                requires
                    s == d * k,
            ;
            lemma_mod_multiples_basic(n * k, d);
        }
        NativeType::laid_out(self.size, a)
    }
}

} // verus!
