//! The script value union, as far as marshalling needs to look into it.

use vstd::prelude::*;

verus! {

/// A value of the dynamically typed scripting side.
///
/// Integers are held wide enough for every value of every native integer
/// type. A float is held as its IEEE 754 binary64 bit pattern, which keeps
/// every float distinct and exact. A handle is the identity of a wrapper
/// object that the association registry may know.
#[derive(Debug, PartialEq, Eq)]
pub enum ScriptValue {
    /// The absent value.
    Nil,
    /// A boolean.
    Boolean(bool),
    /// An exact integer.
    Integer(i128),
    /// A float, as the bit pattern of a binary64 number.
    Float(u64),
    /// A byte string.
    String(Vec<u8>),
    /// An opaque handle: the identity of a wrapper object.
    Handle(u64),
}

/// A script value as a mathematical value.
pub enum ValueView {
    /// The absent value.
    Nil,
    /// A boolean.
    Boolean(bool),
    /// An exact integer.
    Integer(int),
    /// A float, as the bit pattern of a binary64 number.
    Float(u64),
    /// A byte string.
    String(Seq<u8>),
    /// An opaque handle: the identity of a wrapper object.
    Handle(u64),
}

impl View for ScriptValue {
    type V = ValueView;

    open spec fn view(&self) -> ValueView {
        match self {
            ScriptValue::Nil => ValueView::Nil,
            ScriptValue::Boolean(b) => ValueView::Boolean(*b),
            ScriptValue::Integer(v) => ValueView::Integer(*v as int),
            ScriptValue::Float(bits) => ValueView::Float(*bits),
            ScriptValue::String(bytes) => ValueView::String(bytes@),
            ScriptValue::Handle(id) => ValueView::Handle(*id),
        }
    }
}

/// A result with the value it holds, if it holds one, as a mathematical
/// value.
pub open spec fn result_view<E>(r: Result<ScriptValue, E>) -> Result<ValueView, E> {
    match r {
        Ok(value) => Ok(value@),
        Err(e) => Err(e),
    }
}

/// The name under which scripts know the kind of a value.
pub open spec fn spec_kind_name(value: ValueView) -> Seq<char> {
    match value {
        ValueView::Nil => "nil"@,
        ValueView::Boolean(_) => "boolean"@,
        ValueView::Integer(_) => "integer"@,
        ValueView::Float(_) => "number"@,
        ValueView::String(_) => "string"@,
        ValueView::Handle(_) => "userdata"@,
    }
}

impl Clone for ScriptValue {
    fn clone(&self) -> (r: Self)
        ensures
            r@ == self@,
    {
        match self {
            ScriptValue::Nil => ScriptValue::Nil,
            ScriptValue::Boolean(b) => ScriptValue::Boolean(*b),
            ScriptValue::Integer(v) => ScriptValue::Integer(*v),
            ScriptValue::Float(bits) => ScriptValue::Float(*bits),
            ScriptValue::String(bytes) => {
                let copy: Vec<u8> = bytes.clone();
                assert(copy@ =~= bytes@);
                ScriptValue::String(copy)
            },
            ScriptValue::Handle(id) => ScriptValue::Handle(*id),
        }
    }
}

impl ScriptValue {
    /// The name under which scripts know the kind of this value.
    pub fn kind_name(&self) -> (name: &'static str)
        ensures
            name@ == spec_kind_name(self@),
    {
        match self {
            ScriptValue::Nil => "nil",
            ScriptValue::Boolean(_) => "boolean",
            ScriptValue::Integer(_) => "integer",
            ScriptValue::Float(_) => "number",
            ScriptValue::String(_) => "string",
            ScriptValue::Handle(_) => "userdata",
        }
    }
}

} // verus!
