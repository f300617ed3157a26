//! STROBE protocol framework over the Keccak-f[1600] permutation.
//!
//! A duplex-sponge state machine that unifies hashing, authenticated
//! encryption, pseudorandom generation, key derivation, and message
//! authentication into a small algebra of tagged operations.

pub mod keccak;
pub mod laws;
pub mod model;
pub mod strobe;

pub use crate::model::SecParam;
pub use crate::strobe::AuthError;
pub use crate::strobe::Strobe;

