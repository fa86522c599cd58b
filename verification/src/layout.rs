//! C-compatible layout arithmetic: rounding offsets up to an alignment, and
//! the offsets, size and alignment of a struct made of an ordered list of
//! members.

use crate::descriptor::{valid_alignment, NativeType};
use vstd::prelude::*;

verus! {

/// The least multiple of `alignment` that is not below `offset`; with no
/// alignment to respect, the offset itself.
pub open spec fn align_up(offset: nat, alignment: nat) -> nat {
    if alignment == 0 {
        offset
    } else {
        (((offset + alignment - 1) / (alignment as int)) * alignment) as nat
    }
}

/// `align_up` yields a multiple of the alignment, reached by padding with
/// fewer bytes than one alignment unit.
pub proof fn lemma_align_up(offset: nat, alignment: nat)
    requires
        alignment > 0,
    ensures
        align_up(offset, alignment) % alignment == 0,
        offset <= align_up(offset, alignment) < offset + alignment,
        offset % alignment == 0 ==> align_up(offset, alignment) == offset,
{
    let a = alignment as int;
    let q = (offset + a - 1) / a;
    let r = (offset + a - 1) % a;
    assert(offset + a - 1 == a * q + r && 0 <= r < a) by (nonlinear_arith)
        requires
            a > 0,
            q == (offset + a - 1) / a,
            r == (offset + a - 1) % a,
    ;
    assert(q >= 0) by (nonlinear_arith)
        requires
            a > 0,
            offset + a - 1 >= 0,
            q == (offset + a - 1) / a,
    ;
    assert(q * a == a * q) by (nonlinear_arith);
    assert((q * a) % a == 0) by (nonlinear_arith)
        requires
            a > 0,
    ;
    assert(q * a >= 0) by (nonlinear_arith)
        requires
            q >= 0,
            a > 0,
    ;
    assert(align_up(offset, alignment) == q * a);
    if offset % alignment == 0 {
        assert(q * a == offset) by (nonlinear_arith)
            requires
                a > 0,
                (offset as int) % a == 0,
                (q * a) % a == 0,
                offset <= q * a < offset + a,
        ;
    }
}

/// No multiple of the alignment lies between `offset` and its rounding.
pub proof fn lemma_align_up_least(offset: nat, alignment: nat, m: nat)
    requires
        alignment > 0,
        m % alignment == 0,
        offset <= m,
    ensures
        align_up(offset, alignment) <= m,
{
    lemma_align_up(offset, alignment);
    let a = alignment as int;
    let up = align_up(offset, alignment) as int;
    assert(up <= m) by (nonlinear_arith)
        requires
            a > 0,
            (m as int) % a == 0,
            up % a == 0,
            offset <= m,
            up < offset + a,
    ;
}

/// Rounds `offset` up to the next multiple of `alignment`, or reports that
/// the result does not fit the machine word.
pub fn round_up(offset: usize, alignment: usize) -> (r: Option<usize>)
    ensures
        r is Some <==> align_up(offset as nat, alignment as nat) <= usize::MAX,
        r matches Some(v) ==> v == align_up(offset as nat, alignment as nat),
{
    if alignment == 0 {
        return Some(offset);
    }
    let rem: usize = offset % alignment;
    proof {
        lemma_align_up(offset as nat, alignment as nat);
    }
    if rem == 0 {
        Some(offset)
    } else {
        let pad: usize = alignment - rem;
        proof {
            let a = alignment as int;
            let up = align_up(offset as nat, alignment as nat) as int;
            assert(up == offset + pad) by (nonlinear_arith)
                requires
                    a > 0,
                    up % a == 0,
                    offset <= up < offset + a,
                    pad == a - (offset as int) % a,
                    (offset as int) % a != 0,
            ;
        }
        offset.checked_add(pad)
    }
}

/// Whether every descriptor of the list is well formed.
pub open spec fn all_well_formed(members: Seq<NativeType>) -> bool {
    forall|i: int| 0 <= i < members.len() ==> (#[trigger] members[i]).well_formed()
}

/// The running offset after the first `n` members have been placed: each
/// member starts at the running offset rounded up to its alignment and
/// advances it by its size.
pub open spec fn running_offset(members: Seq<NativeType>, n: nat) -> nat
    decreases n,
{
    if n == 0 {
        0
    } else {
        align_up(running_offset(members, (n - 1) as nat), members[n - 1].spec_alignment())
            + members[n - 1].spec_size()
    }
}

/// The offset of member `i` within the struct.
pub open spec fn member_offset(members: Seq<NativeType>, i: int) -> nat {
    align_up(running_offset(members, i as nat), members[i].spec_alignment())
}

/// The largest alignment among the first `n` members, and 1 if there is none.
pub open spec fn max_alignment(members: Seq<NativeType>, n: nat) -> nat
    decreases n,
{
    if n == 0 {
        1
    } else {
        let rest = max_alignment(members, (n - 1) as nat);
        let a = members[n - 1].spec_alignment();
        if a > rest {
            a
        } else {
            rest
        }
    }
}

/// The alignment of the struct: the largest alignment among its members.
pub open spec fn struct_alignment(members: Seq<NativeType>) -> nat {
    max_alignment(members, members.len())
}

/// The size of the struct: the end of its last member, rounded up to the
/// struct's alignment.
pub open spec fn struct_size(members: Seq<NativeType>) -> nat {
    align_up(running_offset(members, members.len()), struct_alignment(members))
}

/// Rounding up never moves an offset down.
pub proof fn lemma_align_up_not_below(offset: nat, alignment: nat)
    ensures
        offset <= align_up(offset, alignment),
{
    if alignment > 0 {
        lemma_align_up(offset, alignment);
    }
}

/// The running offset only grows as members are placed.
pub proof fn lemma_running_offset_grows(members: Seq<NativeType>, i: nat, j: nat)
    requires
        i <= j,
    ensures
        running_offset(members, i) <= running_offset(members, j),
    decreases j,
{
    if i < j {
        lemma_running_offset_grows(members, i, (j - 1) as nat);
        lemma_align_up_not_below(
            running_offset(members, (j - 1) as nat),
            members[j - 1].spec_alignment(),
        );
    }
}

/// The largest alignment is a valid alignment, bounds every member's
/// alignment, and is the alignment of one of the members if there is any.
pub proof fn lemma_max_alignment(members: Seq<NativeType>, n: nat)
    requires
        all_well_formed(members),
        n <= members.len(),
    ensures
        valid_alignment(max_alignment(members, n) as int),
        forall|i: int| 0 <= i < n ==> (#[trigger] members[i]).spec_alignment() <= max_alignment(members, n),
        n > 0 ==> exists|j: int| 0 <= j < n && (#[trigger] members[j]).spec_alignment() == max_alignment(members, n),
    decreases n,
{
    if n > 0 {
        lemma_max_alignment(members, (n - 1) as nat);
        assert(members[n - 1].well_formed());
        let rest = max_alignment(members, (n - 1) as nat);
        if members[n - 1].spec_alignment() > rest || n == 1 {
            assert(members[n - 1].spec_alignment() == max_alignment(members, n));
        } else {
            let j = choose|j: int| 0 <= j < n - 1 && (#[trigger] members[j]).spec_alignment() == rest;
            assert(members[j].spec_alignment() == max_alignment(members, n));
        }
    }
}

/// Layout law of a struct. Every member starts at a multiple of its own
/// alignment; a member ends before the next one starts; the last member ends
/// within the struct; the struct's size is a multiple of its alignment,
/// which is the largest alignment among the members and a multiple of
/// each of them.
pub proof fn lemma_struct_layout(members: Seq<NativeType>, i: int)
    requires
        all_well_formed(members),
        0 <= i < members.len(),
    ensures
        member_offset(members, i) % members[i].spec_alignment() == 0,
        i + 1 < members.len() ==> member_offset(members, i) + members[i].spec_size()
            <= member_offset(members, i + 1),
        member_offset(members, i) + members[i].spec_size() <= struct_size(members),
        struct_size(members) % struct_alignment(members) == 0,
        members[i].spec_alignment() <= struct_alignment(members),
        struct_alignment(members) % members[i].spec_alignment() == 0,
        exists|j: int| 0 <= j < members.len() && (#[trigger] members[j]).spec_alignment() == struct_alignment(members),
{
    assert(members[i].well_formed());
    lemma_align_up(running_offset(members, i as nat), members[i].spec_alignment());
    assert(running_offset(members, (i + 1) as nat) == member_offset(members, i)
        + members[i].spec_size());
    if i + 1 < members.len() {
        lemma_align_up_not_below(
            running_offset(members, (i + 1) as nat),
            members[i + 1].spec_alignment(),
        );
    }
    lemma_running_offset_grows(members, (i + 1) as nat, members.len());
    lemma_max_alignment(members, members.len());
    lemma_align_up(running_offset(members, members.len()), struct_alignment(members));
    let own = members[i].spec_alignment();
    let largest = struct_alignment(members);
    assert(largest % own == 0) by {
        assert(valid_alignment(own as int) && valid_alignment(largest as int) && own <= largest);
        if own == 1 {
        } else if own == 2 {
            assert(largest == 2 || largest == 4 || largest == 8);
        } else if own == 4 {
            assert(largest == 4 || largest == 8);
        } else {
            assert(largest == 8);
        }
    }
}

/// Members of a struct do not overlap: of any two, the earlier one ends
/// before the later one starts, and the later one ends within the struct.
pub proof fn lemma_members_apart(members: Seq<NativeType>, i: int, j: int)
    requires
        all_well_formed(members),
        0 <= i < j < members.len(),
    ensures
        member_offset(members, i) + members[i].spec_size() <= member_offset(members, j),
        member_offset(members, j) + members[j].spec_size() <= struct_size(members),
{
    lemma_struct_layout(members, i);
    lemma_struct_layout(members, j);
    lemma_running_offset_grows(members, (i + 1) as nat, j as nat);
    lemma_align_up_not_below(running_offset(members, j as nat), members[j].spec_alignment());
}

} // verus!
