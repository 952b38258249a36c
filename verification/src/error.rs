//! The failures that the matrix operations report.

use vstd::prelude::*;

verus! {

/// An input sequence has no elements, or a requested dimension is zero.
#[derive(Debug, Clone, Copy, PartialEq, Eq)]
pub struct EmptyVectorError;

/// The rows proposed for a matrix do not all have the same length.
#[derive(Debug, Clone, Copy, PartialEq, Eq)]
pub struct NonUniformError;

/// The shapes of two operands do not fit the requested operation.
#[derive(Debug, Clone, Copy, PartialEq, Eq)]
pub struct MismatchError;

/// The operation is not defined for the given operand.
#[derive(Debug, Clone, Copy, PartialEq, Eq)]
pub struct NotImplementedError;

/// Every failure of this crate, one variant per kind.
#[derive(Debug, Clone, Copy, PartialEq, Eq)]
pub enum CustomErrors {
    EmptyVector(EmptyVectorError),
    NonUniform(NonUniformError),
    Mismatch(MismatchError),
    NotImplemented(NotImplementedError),
}

} // verus!
