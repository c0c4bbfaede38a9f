//! Data for the MiMC5 hash.

pub mod pallas_round_constants;
