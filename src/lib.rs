use vstd::prelude::*;

pub mod assoc;
pub mod context;
pub mod decode;
pub mod dispatch;
pub mod error;
pub mod logging;
pub mod manifest;
pub mod memory;
pub mod watchdog;

verus! {

/// Size of a byte range inside a plugin's linear memory.
pub type Size = u64;

} // verus!
