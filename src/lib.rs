//! A non-interactive proof that two Pedersen commitments, possibly in two
//! different groups sharing one scalar field, hide the same secret scalar.

pub mod encoding;
pub mod bls12381;
pub mod curve25519;
