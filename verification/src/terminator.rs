//! Line terminators and the buffer configuration that selects one.

use vstd::prelude::*;

verus! {

/// The byte `\r`.
pub const CARRIAGE_RETURN: u8 = 0x0D;

/// The byte `\n`.
pub const NEWLINE: u8 = 0x0A;

/// The byte `\0`.
pub const NUL: u8 = 0x00;

/// The byte sequence that marks the end of a line.
#[derive(Debug, Clone, Copy, PartialEq, Eq, Structural)]
pub enum Terminator {
    /// No terminator: everything held in the buffer is one line.
    NoTerminator,
    /// `\r` (carriage return).
    CarriageReturn,
    /// `\n` (newline).
    Newline,
    /// `\0` (NUL).
    NULL,
    /// `\r\n` (carriage return, then newline).
    CarriageReturnNewline,
    /// `\n\r` (newline, then carriage return).
    NewlineCarriageReturn,
}

impl Terminator {
    /// The bytes of the terminator, in the order in which they arrive.
    pub open spec fn bytes(self) -> Seq<u8> {
        match self {
            Terminator::NoTerminator => seq![],
            Terminator::CarriageReturn => seq![CARRIAGE_RETURN],
            Terminator::Newline => seq![NEWLINE],
            Terminator::NULL => seq![NUL],
            Terminator::CarriageReturnNewline => seq![CARRIAGE_RETURN, NEWLINE],
            Terminator::NewlineCarriageReturn => seq![NEWLINE, CARRIAGE_RETURN],
        }
    }

    /// The number of bytes of the terminator.
    pub open spec fn spec_width(self) -> usize {
        match self {
            Terminator::NoTerminator => 0,
            Terminator::CarriageReturn | Terminator::Newline | Terminator::NULL => 1,
            Terminator::CarriageReturnNewline | Terminator::NewlineCarriageReturn => 2,
        }
    }

    /// Whether `byte` begins the terminator and `following` completes it.
    /// `following` is the byte after `byte`, where there is one. A
    /// two-byte terminator needs both bytes: its first byte alone, or
    /// followed by another byte, is data.
    pub open spec fn spec_recognizes(self, byte: u8, following: Option<u8>) -> bool {
        match self {
            Terminator::NoTerminator => false,
            Terminator::CarriageReturn => byte == CARRIAGE_RETURN,
            Terminator::Newline => byte == NEWLINE,
            Terminator::NULL => byte == NUL,
            Terminator::CarriageReturnNewline => byte == CARRIAGE_RETURN && following == Some(
                NEWLINE,
            ),
            Terminator::NewlineCarriageReturn => byte == NEWLINE && following == Some(
                CARRIAGE_RETURN,
            ),
        }
    }

    /// The width of a terminator is the number of its bytes.
    pub proof fn lemma_bytes_len(self)
        ensures
            self.bytes().len() == self.width(),
    {
    }

    /// The number of bytes of the terminator.
    #[verifier::when_used_as_spec(spec_width)]
    pub fn width(self) -> (width: usize)
        ensures
            width == self.spec_width(),
    {
        match self {
            Terminator::NoTerminator => 0,
            Terminator::CarriageReturn | Terminator::Newline | Terminator::NULL => 1,
            Terminator::CarriageReturnNewline | Terminator::NewlineCarriageReturn => 2,
        }
    }

    /// Whether `byte` begins the terminator and `following`, the byte after
    /// it where there is one, completes it.
    #[verifier::when_used_as_spec(spec_recognizes)]
    pub fn recognizes(self, byte: u8, following: Option<u8>) -> (recognized: bool)
        ensures
            recognized == self.spec_recognizes(byte, following),
    {
        match self {
            Terminator::NoTerminator => false,
            Terminator::CarriageReturn => byte == CARRIAGE_RETURN,
            Terminator::Newline => byte == NEWLINE,
            Terminator::NULL => byte == NUL,
            Terminator::CarriageReturnNewline => byte == CARRIAGE_RETURN && match following {
                Some(second) => second == NEWLINE,
                None => false,
            },
            Terminator::NewlineCarriageReturn => byte == NEWLINE && match following {
                Some(second) => second == CARRIAGE_RETURN,
                None => false,
            },
        }
    }
}

/// Configuration of a line buffer.
pub struct LineBufferConfig {
    /// The terminator that ends a line.
    pub terminator: Terminator,
}

impl Default for LineBufferConfig {
    /// The default configuration ends lines at a newline.
    fn default() -> (config: Self)
        ensures
            config.terminator == Terminator::Newline,
    {
        Self { terminator: Terminator::Newline }
    }
}

} // verus!
