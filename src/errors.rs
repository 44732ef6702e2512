use vstd::prelude::*;

verus! {

/// Failures of decryption.
#[derive(Clone, Copy, Debug, PartialEq, Eq, Structural)]
pub enum IbeError {
    /// The pairing value could not be inverted.
    GtInverseError,
    /// No exponent in the searched range matched.
    OutOfBoundError,
}

/// Failures of the proof systems.
#[derive(Clone, Copy, Debug, PartialEq, Eq, Structural)]
pub enum ZkError {
    /// A proof could not be produced.
    ProofError,
    /// The recomputed challenge differs from the one in the proof.
    VerificationError,
}

} // verus!
