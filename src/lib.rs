//! Boneh–Franklin identity-based encryption over the BN254 pairing, with an
//! additively homomorphic ciphertext algebra, a bounded discrete-log solver
//! and two Sigma-protocol proof systems (burn and transfer).
//!
//! Every group element carries, as ghost state, its discrete logarithm with
//! respect to the fixed generator of its group; the contracts are stated over
//! these exponents in the scalar field.
pub mod group;
pub mod errors;
pub mod utils;
pub mod bf_ibe;
pub mod zk;
