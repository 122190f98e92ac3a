//! The ways in which a request to the allocator can be turned down.

use vstd::prelude::*;

verus! {

/// Why the allocator refused a request.
#[derive(Clone, Copy, Debug, PartialEq, Eq, Structural)]
pub enum AllocError {
    /// The region offered does not end exactly where the managed span starts.
    InvalidParam,
    /// The region offered shares addresses with the managed span.
    MemoryOverlap,
    /// Granting the request would make the byte and page cursors cross.
    NoMemory,
}

} // verus!
