//! Errors raised by buffer operations.
use vstd::prelude::*;

verus! {

/// Why a buffer operation was refused.
#[derive(Debug, Clone, Copy, PartialEq, Eq, Structural)]
pub enum BufferError {
    /// A slice `start..end` does not lie within a buffer of `len` bytes.
    OutOfBounds { start: usize, end: usize, len: usize },
    /// A buffer of `requested` bytes exceeds the `maximum` a frame may hold.
    CapacityExceeded { requested: usize, maximum: usize },
}

} // verus!
