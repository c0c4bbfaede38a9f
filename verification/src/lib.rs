//! A small PLONKish arithmetization engine over the Pallas base field, with
//! two circuits built on it: a bounded Collatz-sequence verifier and the
//! MiMC5 permutation, keyed (cipher) and unkeyed (hash).
//!
//! A circuit is a [`plonk::ConstraintSystem`] (columns, selectors and gates)
//! together with a [`circuit::Layouter`] that records one witness assignment.
//! Every chip states exactly which cells it fills and with which values, and
//! the satisfaction of its gates by that witness is proved.
//!
//! - [`field`]: the elements of the field; `pasta_curves` does the arithmetic.
//! - [`plonk`]: columns, selectors, expressions, gates, the constraint system.
//! - [`circuit`]: the witness, as public inputs and recorded steps.
//! - [`dev`]: what it means for a witness to satisfy a system, and the check.
//! - [`collatz`]: the Collatz circuits, six bits per row or one value per row.
//! - [`mimc_pallas`]: MiMC5 computed directly, and its two circuits.
//! - [`mimc_hash`]: the round constants of MiMC5.
//! - [`error`]: why a circuit instance is given up.

pub mod circuit;
pub mod collatz;
pub mod dev;
pub mod error;
pub mod field;
pub mod mimc_hash;
pub mod mimc_pallas;
pub mod plonk;
