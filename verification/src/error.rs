use vstd::prelude::*;

verus! {

/// Why an operation of this crate gave no result.
#[derive(Debug, Clone, Copy, PartialEq, Eq, Structural)]
pub enum MatrixError {
    /// A dot product was asked of two vectors of different lengths.
    DimensionMismatch,
    /// The left matrix has a number of columns other than the right matrix's
    /// number of rows.
    IncompatibleDimensions,
    /// A reply channel was closed before any value was sent over it.
    ChannelDisconnected,
    /// A reply named a cell that the result matrix does not have.
    ReplyOutOfRange,
}

} // verus!
