use vstd::prelude::*;

verus! {

/// What can go wrong while the host collects a guest's result.
#[derive(Debug, Clone, Copy, PartialEq, Eq, Structural)]
pub enum ProtocolError {
    /// The entry point returned the null sentinel `0`.
    NullResult,
    /// A guest address to be resolved was `0`.
    NullPointer,
    /// An address, or an address plus a length, lies outside linear memory.
    OutOfBounds,
    /// The payload is not valid in the agreed encoding, or not valid text.
    DecodeFailure,
}

} // verus!
