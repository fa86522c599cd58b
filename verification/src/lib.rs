//! Marshalling between dynamically typed script values and fixed-layout
//! native data: type descriptors, C-compatible composite layout, bounds-checked
//! data handles, the association registry and the foreign call bridge.

pub mod binary32;
pub mod binary64;
pub mod bit_mask;
pub mod bridge;
pub mod composite;
pub mod convert;
pub mod decimal;
pub mod descriptor;
pub mod encoding;
pub mod error;
pub mod handle;
pub mod layout;
pub mod memory;
pub mod registry;
pub mod stream;
pub mod types;
pub mod value;
