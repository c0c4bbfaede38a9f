//! Circuits that check a bounded run of the Collatz iteration.

pub mod collatz;
pub mod collatz_one_column;
pub mod collatz_proofs;
pub mod collatz_one_column_proofs;
