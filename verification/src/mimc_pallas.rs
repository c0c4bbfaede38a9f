//! The MiMC5 permutation over the Pallas base field: the reference
//! computation, and the circuits that check it, keyed and unkeyed.

pub mod mimc;
pub mod mimc_proofs;
pub mod mimc_hash;
pub mod mimc_hash_proofs;
pub mod primitives;
