use vstd::prelude::*;

verus! {

/// Why an operation on a matrix was refused.
#[derive(Debug, Clone, Copy, PartialEq, Eq, Structural)]
pub enum MatrixError {
    /// The shapes of the operands do not fit the operation.
    DimensionMismatch,
    /// A row or column index lies outside the matrix.
    OutOfRange,
}

} // verus!
