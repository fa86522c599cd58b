//! Error taxonomy of the marshalling core.

use vstd::prelude::*;

verus! {

/// Why a script value could not be turned into a native bit pattern, or back.
#[derive(Clone, Copy, Debug, PartialEq, Eq, Structural)]
pub enum ConversionError {
    /// The dynamic kind of the value is not accepted by the native type.
    UnsupportedValueKind,
    /// A string was offered where a number is needed and it does not parse
    /// as a number of the native type.
    ParseFailure,
    /// The number is an integer that the native type cannot hold.
    OutOfRange,
    /// The number has a fractional part, or is not finite, where an exact
    /// integer is required.
    PrecisionLoss,
}

/// Why an access through a data handle was refused.
#[derive(Clone, Copy, Debug, PartialEq, Eq, Structural)]
pub enum HandleError {
    /// A field or element index lies outside the declared count.
    IndexOutOfRange,
    /// The region a reference points into is no longer registered.
    DanglingReference,
    /// The access would leave the region the handle is bound to.
    OffsetOutOfBounds,
}

/// Why a foreign call could not be prepared or completed.
#[derive(Clone, Copy, Debug, PartialEq, Eq, Structural)]
pub enum BridgeError {
    /// The number of script arguments differs from the declared arity.
    ArityMismatch,
    /// A descriptor cannot be passed through the native calling convention.
    UnsupportedType,
    /// The function address is null.
    UnresolvedSymbol,
    /// The native side reported a failure or handed back a malformed result.
    NativeFailure,
    /// An argument or the result could not be converted.
    Conversion(ConversionError),
}

/// Failure of an access that resolves a handle and then converts a value.
#[derive(Clone, Copy, Debug, PartialEq, Eq, Structural)]
pub enum AccessError {
    /// The handle did not resolve, or the access was out of bounds.
    Handle(HandleError),
    /// The value could not be converted.
    Conversion(ConversionError),
}

} // verus!
