//! A fixed-capacity, allocation-free ring buffer that accumulates a byte
//! stream and hands out complete lines, delimited by a configurable
//! terminator.
//!
//! A producer appends bytes with [`LineBuffer::push_byte`] and
//! [`LineBuffer::push_bytes`]; a consumer polls for lines with
//! [`LineBuffer::read_line_bytes`], which copies the first line into a
//! buffer of the caller and takes the line and its terminator out of the
//! ring. Bytes are opaque: nothing is said of their encoding. The buffer
//! never allocates and never grows, and it does no locking: one owner at a
//! time.
//!
//! The contracts speak of a buffer by its view, the sequence of held
//! bytes. [`line`] says what the first line of such a sequence is, and
//! [`ring`] how the sequence lies in the storage cells.

pub mod buffer;
pub mod error;
pub mod line;
pub mod ring;
pub mod terminator;

pub use buffer::LineBuffer;
pub use error::{LineBufferRxError, LineBufferTxError};
pub use terminator::{LineBufferConfig, Terminator};
