//! Failures reported by the decoders.

use vstd::prelude::*;

verus! {

/// Why a buffer could not be decoded.
#[derive(Debug, Clone, Copy, PartialEq, Eq, Structural)]
pub enum DecodeError {
    /// The header byte is not one that the decoder's categories can start with.
    InvalidMarker,
    /// The buffer ends before the bytes that its header announces.
    Truncated,
}

} // verus!
