//! The foreign call bridge: a prepared call signature, the transient
//! argument frame that script arguments are marshalled into, and the way
//! back from the bytes that the native side returns.
//!
//! The native call itself is not made here. A caller marshals, performs
//! the call on the frame by whatever calling convention it has, and hands
//! the outcome back to be completed.

use crate::composite::StructType;
use crate::convert::{canonical, decoded, encoded, lemma_conversion_roundtrip};
use crate::descriptor::{AbiKind, NativeType};
use crate::encoding::{overwrite, ByteOrder};
use crate::error::{BridgeError, ConversionError};
use crate::layout::{
    all_well_formed, lemma_members_apart, lemma_struct_layout, member_offset, struct_alignment,
    struct_size,
};
use crate::memory::{zeroed, FfiBox};
use crate::value::{result_view, ScriptValue, ValueView};
use vstd::prelude::*;

verus! {

/// Whether a value of type `t` can be passed as an argument.
pub open spec fn passable_argument(t: NativeType) -> bool {
    t.spec_kind() == AbiKind::Integer || t.spec_kind() == AbiKind::Float || t.spec_kind()
        == AbiKind::Pointer
}

/// Whether a value of type `t` can be returned.
pub open spec fn passable_result(t: NativeType) -> bool {
    passable_argument(t) || t.spec_kind() == AbiKind::Void
}

/// Whether all of the types can be passed as arguments.
pub open spec fn all_passable(arguments: Seq<NativeType>) -> bool {
    forall|i: int| 0 <= i < arguments.len() ==> passable_argument(#[trigger] arguments[i])
}

/// Whether a call with these argument types and this result type can be
/// prepared: every type can cross the boundary, and the argument frame
/// fits the machine word.
pub open spec fn supported(arguments: Seq<NativeType>, result: NativeType) -> bool {
    &&& all_passable(arguments)
    &&& passable_result(result)
    &&& struct_size(arguments) <= usize::MAX
}

/// The argument frame after the first `n` arguments have been encoded
/// into it, or the error of the first argument that is refused. The frame
/// is laid out as a struct of the argument types and starts out zeroed.
pub open spec fn frame_after(
    arguments: Seq<NativeType>,
    values: Seq<ScriptValue>,
    order: ByteOrder,
    n: nat,
) -> Result<Seq<u8>, BridgeError>
    decreases n,
{
    if n == 0 {
        Ok(zeroed(struct_size(arguments)))
    } else {
        match frame_after(arguments, values, order, (n - 1) as nat) {
            Ok(frame) => match encoded(arguments[n - 1], values[n - 1]@, order) {
                Ok(bytes) => Ok(overwrite(frame, member_offset(arguments, n - 1) as int, bytes)),
                Err(e) => Err(BridgeError::Conversion(e)),
            },
            Err(e) => Err(e),
        }
    }
}

/// The argument frame for a call with the given script arguments, or the
/// reason why there is none: a wrong number of arguments, before anything
/// else, or the first argument that is refused.
pub open spec fn marshalled(
    arguments: Seq<NativeType>,
    values: Seq<ScriptValue>,
    order: ByteOrder,
) -> Result<Seq<u8>, BridgeError> {
    if values.len() != arguments.len() {
        Err(BridgeError::ArityMismatch)
    } else {
        frame_after(arguments, values, order, arguments.len())
    }
}

/// The script value for the bytes that the native side returned, or the
/// reason why there is none.
pub open spec fn unmarshalled(result: NativeType, returned: Seq<u8>, order: ByteOrder) -> Result<
    ValueView,
    BridgeError,
> {
    if returned.len() != result.spec_size() {
        Err(BridgeError::NativeFailure)
    } else {
        match decoded(result, returned, order) {
            Ok(value) => Ok(value),
            Err(e) => Err(BridgeError::Conversion(e)),
        }
    }
}

/// How a native call ended.
#[derive(Debug)]
pub enum CallOutcome {
    /// The call returned; these are the bytes of its return slot.
    Returned(Vec<u8>),
    /// The call signalled a failure.
    Failed,
}

/// A prepared foreign call: a function address, the argument types in
/// order, and the result type. Immutable once built; it can serve any
/// number of calls.
#[derive(Debug)]
pub struct Signature {
    address: u64,
    frame: StructType,
    result: NativeType,
}

impl Signature {
    /// The address of the native function.
    pub closed spec fn spec_address(self) -> u64 {
        self.address
    }

    /// The argument types, in order.
    pub closed spec fn spec_arguments(self) -> Seq<NativeType> {
        self.frame@
    }

    /// The result type.
    pub closed spec fn spec_result(self) -> NativeType {
        self.result
    }

    #[verifier::type_invariant]
    spec fn inv(self) -> bool {
        &&& self.address != 0
        &&& supported(self.frame@, self.result)
    }

    /// Prepares a call of the function at `address`.
    ///
    /// A null address is an unresolved symbol. Arguments must be
    /// integers, floats or pointers, and the result one of these or void;
    /// anything else, and an argument frame beyond the machine word, is an
    /// unsupported type.
    pub fn prepare(address: u64, arguments: Vec<NativeType>, result: NativeType) -> (r: Result<
        Signature,
        BridgeError,
    >)
        ensures
            address == 0 ==> r == Err::<Signature, BridgeError>(BridgeError::UnresolvedSymbol),
            address != 0 && !supported(arguments@, result) ==> r == Err::<Signature, BridgeError>(
                BridgeError::UnsupportedType,
            ),
            address != 0 && supported(arguments@, result) ==> r is Ok && r->Ok_0.spec_address()
                == address && r->Ok_0.spec_arguments() == arguments@ && r->Ok_0.spec_result()
                == result,
    {
        if address == 0 {
            return Err(BridgeError::UnresolvedSymbol);
        }
        let mut i: usize = 0;
        while i < arguments.len()
            invariant
                address != 0,
                i <= arguments.len(),
                forall|k: int| 0 <= k < i ==> passable_argument(#[trigger] arguments@[k]),
            decreases arguments.len() - i,
        {
            match arguments[i].kind() {
                AbiKind::Integer | AbiKind::Float | AbiKind::Pointer => {},
                _ => {
                    return Err(BridgeError::UnsupportedType);
                },
            }
            i = i + 1;
        }
        match result.kind() {
            AbiKind::Aggregate => {
                return Err(BridgeError::UnsupportedType);
            },
            _ => {},
        }
        match StructType::new(arguments) {
            Some(frame) => Ok(Signature { address, frame, result }),
            None => Err(BridgeError::UnsupportedType),
        }
    }

    /// The address of the native function.
    pub fn address(&self) -> (r: u64)
        ensures
            r == self.spec_address(),
            r != 0,
    {
        proof {
            use_type_invariant(self);
        }
        self.address
    }

    /// The number of arguments that a call takes.
    pub fn arity(&self) -> (r: usize)
        ensures
            r == self.spec_arguments().len(),
    {
        self.frame.len()
    }

    /// The type of argument `index`, if there is such an argument.
    pub fn argument(&self, index: usize) -> (r: Option<NativeType>)
        ensures
            index < self.spec_arguments().len() ==> r == Some(self.spec_arguments()[index as int]),
            index >= self.spec_arguments().len() ==> r is None,
    {
        match self.frame.member(index) {
            Ok(t) => Some(t),
            Err(_) => None,
        }
    }

    /// The offset of the slot of argument `index` within the argument
    /// frame, if there is such an argument.
    pub fn argument_offset(&self, index: usize) -> (r: Option<usize>)
        ensures
            index < self.spec_arguments().len() ==> r == Some(
                member_offset(self.spec_arguments(), index as int) as usize,
            ),
            index >= self.spec_arguments().len() ==> r is None,
    {
        match self.frame.offset(index) {
            Ok(offset) => Some(offset),
            Err(_) => None,
        }
    }

    /// The result type.
    pub fn result(&self) -> (r: NativeType)
        ensures
            r == self.spec_result(),
    {
        self.result
    }

    /// Marshals the script arguments of one call into a fresh argument
    /// frame. A wrong number of arguments is refused before anything is
    /// encoded. Where an argument is refused, the frame is dropped and
    /// nothing of it is seen outside.
    pub fn marshal(&self, values: &Vec<ScriptValue>, order: ByteOrder) -> (r: Result<
        FfiBox,
        BridgeError,
    >)
        ensures
            match marshalled(self.spec_arguments(), values@, order) {
                Ok(bytes) => r is Ok && r->Ok_0@ == bytes && r->Ok_0.spec_alignment()
                    == struct_alignment(self.spec_arguments()),
                Err(e) => r is Err && r->Err_0 == e,
            },
    {
        let arity: usize = self.frame.len();
        if values.len() != arity {
            return Err(BridgeError::ArityMismatch);
        }
        let mut frame: FfiBox = FfiBox::allocate(self.frame.size(), self.frame.alignment());
        let mut i: usize = 0;
        while i < arity
            invariant
                i <= arity,
                arity == self.frame@.len(),
                values@.len() == arity,
                frame@.len() == struct_size(self.frame@),
                frame.spec_alignment() == struct_alignment(self.frame@),
                frame_after(self.frame@, values@, order, i as nat) == Ok::<
                    Seq<u8>,
                    BridgeError,
                >(frame@),
            decreases arity - i,
        {
            let (offset, ty): (usize, NativeType) = self.frame.slot(i);
            match ty.encode(&mut frame, offset, &values[i], order) {
                Ok(()) => {},
                Err(e) => {
                    proof {
                        lemma_frame_error_stays(
                            self.frame@,
                            values@,
                            order,
                            (i + 1) as nat,
                            arity as nat,
                        );
                    }
                    return Err(BridgeError::Conversion(e));
                },
            }
            i = i + 1;
        }
        Ok(frame)
    }

    /// Turns the bytes of the return slot into the script value that the
    /// call yields. Bytes of another length than the result type's are a
    /// failure of the native side.
    pub fn unmarshal(&self, returned: Vec<u8>, order: ByteOrder) -> (r: Result<
        ScriptValue,
        BridgeError,
    >)
        ensures
            result_view(r) == unmarshalled(self.spec_result(), returned@, order),
    {
        if returned.len() != self.result.size() {
            return Err(BridgeError::NativeFailure);
        }
        let slot: FfiBox = FfiBox::from_bytes(returned, self.result.alignment());
        assert(slot@.subrange(0, slot@.len() as int) =~= slot@);
        match self.result.decode(&slot, 0, order) {
            Ok(value) => Ok(value),
            Err(e) => Err(BridgeError::Conversion(e)),
        }
    }

    /// Completes a call from the outcome of the native side: the script
    /// value for what was returned, or a native failure.
    pub fn complete(&self, outcome: CallOutcome, order: ByteOrder) -> (r: Result<
        ScriptValue,
        BridgeError,
    >)
        ensures
            match outcome {
                CallOutcome::Returned(bytes) => result_view(r) == unmarshalled(
                    self.spec_result(),
                    bytes@,
                    order,
                ),
                CallOutcome::Failed => r == Err::<ScriptValue, BridgeError>(
                    BridgeError::NativeFailure,
                ),
            },
    {
        match outcome {
            CallOutcome::Returned(bytes) => self.unmarshal(bytes, order),
            CallOutcome::Failed => Err(BridgeError::NativeFailure),
        }
    }
}

/// A marshalled frame holds every argument: the frame has the size of
/// the struct of the argument types, and the slot of each argument
/// decodes to the value that was passed, in its canonical form.
pub proof fn lemma_frame_holds_arguments(
    arguments: Seq<NativeType>,
    values: Seq<ScriptValue>,
    order: ByteOrder,
    n: nat,
    i: int,
)
    requires
        all_well_formed(arguments),
        n <= arguments.len(),
        0 <= i < n,
        frame_after(arguments, values, order, n) is Ok,
    ensures
        ({
            let frame = frame_after(arguments, values, order, n)->Ok_0;
            let start = member_offset(arguments, i) as int;
            &&& frame.len() == struct_size(arguments)
            &&& decoded(
                arguments[i],
                frame.subrange(start, start + arguments[i].spec_size()),
                order,
            ) == Ok::<ValueView, ConversionError>(canonical(arguments[i], values[i]@))
        }),
    decreases n,
{
    let last = n - 1;
    let before = frame_after(arguments, values, order, last as nat)->Ok_0;
    let bytes = encoded(arguments[last], values[last]@, order)->Ok_0;
    let frame = frame_after(arguments, values, order, n)->Ok_0;
    let start = member_offset(arguments, i) as int;
    let size = arguments[i].spec_size();
    assert(arguments[last].well_formed());
    lemma_conversion_roundtrip(arguments[last], values[last]@, order);
    lemma_struct_layout(arguments, last);
    lemma_frame_size(arguments, values, order, last as nat);
    if i == last {
        assert(frame.subrange(start, start + size) =~= bytes);
    } else {
        lemma_frame_holds_arguments(arguments, values, order, last as nat, i);
        lemma_members_apart(arguments, i, last);
        assert(frame.subrange(start, start + size) =~= before.subrange(start, start + size));
    }
}

/// A frame has the size of the struct of the argument types, however many
/// arguments have been encoded into it.
pub proof fn lemma_frame_size(
    arguments: Seq<NativeType>,
    values: Seq<ScriptValue>,
    order: ByteOrder,
    n: nat,
)
    requires
        frame_after(arguments, values, order, n) is Ok,
    ensures
        frame_after(arguments, values, order, n)->Ok_0.len() == struct_size(arguments),
    decreases n,
{
    if n > 0 {
        lemma_frame_size(arguments, values, order, (n - 1) as nat);
    }
}

/// Once an argument has been refused, the frame stays refused with the
/// same error, whatever follows.
pub proof fn lemma_frame_error_stays(
    arguments: Seq<NativeType>,
    values: Seq<ScriptValue>,
    order: ByteOrder,
    failed: nat,
    n: nat,
)
    requires
        failed <= n,
        frame_after(arguments, values, order, failed) is Err,
    ensures
        frame_after(arguments, values, order, n) == frame_after(arguments, values, order, failed),
    decreases n,
{
    if failed < n {
        lemma_frame_error_stays(arguments, values, order, failed, (n - 1) as nat);
    }
}

} // verus!
