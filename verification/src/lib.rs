//! Algebraic constraint gates for a plonky2-style arithmetic proof system.
//!
//! Each gate encodes a computation (a chain of powers, a batch of fused
//! multiply-add operations) as a set of low-degree polynomial equalities over
//! the wires of one row, together with the witness generator that fills those
//! wires consistently.  The gates work over the Goldilocks field; wire
//! layout, the three constraint evaluators, degree accounting, witness
//! generation and parameter serialization are all verified, and the three
//! evaluation forms are proved to agree on every assignment.

pub mod bytes;
pub mod circuit;
pub mod config;
pub mod exp_constant;
pub mod exp_variable;
pub mod expr;
pub mod ext;
pub mod field;
pub mod mul_add;
pub mod wire;
