//! What a byte pipe between a child process and a script decides, apart
//! from moving the bytes: how much to ask for, and what a chunk is to the
//! script.

use crate::value::{ScriptValue, ValueView};
use vstd::prelude::*;

verus! {

/// Number of bytes that one read asks for where the script names none.
pub const CHUNK_SIZE: usize = 8;

/// The capacity of the buffer for one read.
pub fn chunk_capacity(chunk_size: Option<usize>) -> (capacity: usize)
    ensures
        capacity == match chunk_size {
            Some(n) => n,
            None => CHUNK_SIZE,
        },
{
    match chunk_size {
        Some(n) => n,
        None => CHUNK_SIZE,
    }
}

/// What the script gets for the bytes of one read: the absent value for
/// no bytes, which is how the end of the stream shows, and else the bytes
/// as a string.
pub fn chunk_value(chunk: Vec<u8>) -> (value: ScriptValue)
    ensures
        chunk@.len() == 0 ==> value@ == ValueView::Nil,
        chunk@.len() > 0 ==> value@ == ValueView::String(chunk@),
{
    if chunk.len() == 0 {
        ScriptValue::Nil
    } else {
        ScriptValue::String(chunk)
    }
}

} // verus!
