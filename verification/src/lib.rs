//! Exact matrix arithmetic over a generic numeric element type.
//!
//! The crate offers a validated rectangular [`matrix::Matrix`], the usual
//! arithmetic on it (transpose, sum, product, identity) and the determinant
//! by expansion over all permutations.  Every operation carries a contract
//! over a mathematical model of the matrix, a sequence of rows.
//!
//! - [`numeric`] says what an element type must offer, and offers it for the
//!   machine integers.
//! - [`matrix`] holds the matrix type and its operations.
//! - [`operations`] holds the element-wise sum of two vectors.
//! - [`permutation`] enumerates the permutations of `0..n` and computes
//!   their signs.
//! - [`theorems`] proves what holds of the operations for every operand.
//! - [`error`] lists the failures.
//! - [`models`] holds the data shapes of a classifier.

pub mod error;
pub mod matrix;
pub mod models;
pub mod numeric;
pub mod operations;
pub mod permutation;
pub mod theorems;
