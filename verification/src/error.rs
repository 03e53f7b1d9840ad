//! The errors of the two directions of a line buffer.

use vstd::prelude::*;

verus! {

/// Why bytes could not be appended.
#[derive(Debug)]
pub enum LineBufferTxError {
    /// The buffer holds as many bytes as it has cells.
    BufferFull,
}

/// Why no line could be extracted.
#[derive(Debug)]
pub enum LineBufferRxError {
    /// The buffer holds no bytes.
    BufferEmpty,
    /// The buffer holds bytes, but no complete line.
    NoLines,
}

} // verus!
