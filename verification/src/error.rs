//! What can go wrong with a value at the boundary, and with a wrap as a whole.

use vstd::prelude::*;

verus! {

/// Why a value could not be put into, or read out of, a boundary buffer.
///
/// Either one is a fault of the caller, not a passing condition: the same
/// input fails the same way again.
#[derive(Debug, Clone, Copy, PartialEq, Eq, Structural)]
pub enum DecodeError {
    /// The value cannot be written or read under the boundary's text
    /// convention: artifacts that do not serialise, a buffer without
    /// terminator, a verdict that is neither `true` nor `false`.
    Malformed,
    /// The value holds the terminator byte.
    IllegalByte,
}

/// Why a wrap did not end in a proof, or what went wrong beside it.
#[derive(Debug, Clone, Copy, PartialEq, Eq, Structural)]
pub enum WrapError {
    /// The inner proof does not hold of the circuit it came with: it failed
    /// the check against that circuit, or the outer circuit, which attests to
    /// that check, could not be proved for it.
    InvalidProof,
    /// A value could not cross the boundary.
    Marshalling(DecodeError),
    /// The foreign prover ran and answered with something that is no proof.
    ExternalFailure,
    /// The artifacts could not be stored.
    PersistenceFailure,
}

} // verus!
