//! Statuses and limits shared by the runtime-facing groups.
use vstd::prelude::*;

verus! {

/// A buffer was too small; the call reports the size it needs.
pub const BUFFER_TOO_SMALL: u32 = 7;
/// The thing asked for does not exist.
pub const NOT_FOUND: u32 = 8;
/// Longest name or path, in bytes and without its terminator.
pub const MAX_NAME: usize = 4095;

} // verus!
