//! The line buffer: a ring of bytes with a producer side that appends and a
//! consumer side that extracts complete lines.

use vstd::prelude::*;
use crate::error::{LineBufferRxError, LineBufferTxError};
use crate::line::{first_line_len, lemma_line_then_terminator, line_ends_at, no_line, terminator_at};
use crate::ring::{lemma_ring_index, ring_index, ring_read, ring_write};
use crate::terminator::{LineBufferConfig, Terminator};

verus! {

/// The bytes of `bytes` that go into `room` free cells: all of them where
/// they fit, else the first `room`.
pub open spec fn fitting_prefix(bytes: Seq<u8>, room: int) -> Seq<u8> {
    if bytes.len() <= room {
        bytes
    } else {
        bytes.take(room)
    }
}

/// Where the held bytes stand in a ring of `CAPACITY` cells: from `start`
/// on, up to and without `end`. With `start == end` the ring holds either
/// nothing or a byte in every cell, and `empty` tells which.
struct Span<const CAPACITY: usize> {
    start: usize,
    end: usize,
    empty: bool,
}

impl<const CAPACITY: usize> Span<CAPACITY> {
    /// Both indices name a cell, and an empty span has them equal.
    #[verifier::type_invariant]
    spec fn inv(self) -> bool {
        &&& self.start < CAPACITY
        &&& self.end < CAPACITY
        &&& self.empty ==> self.start == self.end
    }
}

/// A ring buffer of `CAPACITY` bytes that stores bytes until a line
/// terminator arrives.
///
/// Its view is the sequence of held bytes: those appended and not yet
/// extracted, oldest first.
pub struct LineBuffer<const CAPACITY: usize> {
    /// The storage cells. Cells outside the held region hold stale bytes.
    pub buffer: [u8; CAPACITY],
    /// The configuration, read at each extraction.
    pub config: LineBufferConfig,
    span: Span<CAPACITY>,
}

impl<const CAPACITY: usize> View for LineBuffer<CAPACITY> {
    type V = Seq<u8>;

    /// The held bytes, read around the ring from the oldest on.
    open spec fn view(&self) -> Seq<u8> {
        ring_read(self.storage(), self.start() as int, self.held_len())
    }
}

impl<const CAPACITY: usize> LineBuffer<CAPACITY> {
    /// The bytes in the storage cells, stale ones included.
    pub closed spec fn storage(&self) -> Seq<u8> {
        self.buffer@
    }

    /// The terminator that the configuration selects.
    pub closed spec fn terminator(&self) -> Terminator {
        self.config.terminator
    }

    /// The cell of the oldest held byte.
    pub closed spec fn spec_start(&self) -> usize {
        self.span.start
    }

    /// The cell after the newest held byte, where the next byte goes.
    pub closed spec fn spec_end(&self) -> usize {
        self.span.end
    }

    /// The flag that tells an empty buffer from a full one: both have
    /// `start == end`.
    pub closed spec fn empty_flag(&self) -> bool {
        self.span.empty
    }

    /// The number of held bytes, as the two indices and the flag give it.
    pub open spec fn held_len(&self) -> nat {
        if self.empty_flag() {
            0
        } else if self.start() < self.end() {
            (self.end() - self.start()) as nat
        } else {
            (CAPACITY - self.start() + self.end()) as nat
        }
    }

    /// The invariant of the buffer, which every buffer that the library
    /// hands out meets: the storage has `CAPACITY` cells, both indices
    /// name a cell, and an empty buffer has them equal.
    pub open spec fn wf(&self) -> bool {
        &&& self.storage().len() == CAPACITY
        &&& self.start() < CAPACITY
        &&& self.end() < CAPACITY
        &&& self.empty_flag() ==> self.start() == self.end()
    }

    /// The number of bytes that can still be appended.
    pub open spec fn room(&self) -> int {
        CAPACITY - self@.len()
    }

    /// Whether no byte is held.
    pub open spec fn spec_is_empty(&self) -> bool {
        self@.len() == 0
    }

    /// Whether every cell holds a byte.
    pub open spec fn spec_is_full(&self) -> bool {
        self@.len() == CAPACITY
    }

    /// Whether this buffer is `before` after a clear: it is empty, both
    /// indices are at cell 0, and storage and terminator are those of
    /// `before`.
    pub open spec fn cleared_from(&self, before: Self) -> bool {
        &&& self.wf()
        &&& self.is_empty()
        &&& self.start() == 0
        &&& self.end() == 0
        &&& self.storage() == before.storage()
        &&& self.terminator() == before.terminator()
    }

    /// Creates an empty buffer that ends lines at a newline. A buffer has
    /// at least one cell.
    pub fn new() -> (buffer: Self)
        requires
            CAPACITY >= 1,
        ensures
            buffer.wf(),
            buffer@ == Seq::<u8>::empty(),
            buffer.start() == 0,
            buffer.end() == 0,
            buffer.terminator() == Terminator::Newline,
            buffer.storage() == Seq::new(CAPACITY as nat, |i: int| 0u8),
    {
        Self::new_with_config(LineBufferConfig::default())
    }

    /// Creates an empty buffer with the given configuration. A buffer has
    /// at least one cell.
    pub fn new_with_config(config: LineBufferConfig) -> (buffer: Self)
        requires
            CAPACITY >= 1,
        ensures
            buffer.wf(),
            buffer@ == Seq::<u8>::empty(),
            buffer.start() == 0,
            buffer.end() == 0,
            buffer.terminator() == config.terminator,
            buffer.storage() == Seq::new(CAPACITY as nat, |i: int| 0u8),
    {
        Self { buffer: [0u8; CAPACITY], config, span: Span { start: 0, end: 0, empty: true } }
    }

    /// The cell of the oldest held byte.
    #[verifier::when_used_as_spec(spec_start)]
    pub fn start(&self) -> (index: usize)
        ensures
            index == self.spec_start(),
            self.wf(),
    {
        proof {
            use_type_invariant(&self.span);
        }
        self.span.start
    }

    /// The cell after the newest held byte.
    #[verifier::when_used_as_spec(spec_end)]
    pub fn end(&self) -> (index: usize)
        ensures
            index == self.spec_end(),
            self.wf(),
    {
        proof {
            use_type_invariant(&self.span);
        }
        self.span.end
    }

    /// Whether no byte is held.
    #[verifier::when_used_as_spec(spec_is_empty)]
    pub fn is_empty(&self) -> (empty: bool)
        ensures
            empty == self.spec_is_empty(),
            self.wf(),
    {
        proof {
            use_type_invariant(&self.span);
        }
        self.span.empty
    }

    /// Whether every cell holds a byte, so that nothing can be appended.
    #[verifier::when_used_as_spec(spec_is_full)]
    pub fn is_full(&self) -> (full: bool)
        ensures
            full == self.spec_is_full(),
            self.wf(),
    {
        proof {
            use_type_invariant(&self.span);
        }
        !self.span.empty && self.span.start == self.span.end
    }

    /// Appends one byte, or refuses when the buffer is full. Nothing is
    /// overwritten: a full buffer is left as it was.
    pub fn push_byte(&mut self, byte: u8) -> (result: Result<(), LineBufferTxError>)
        ensures
            old(self).wf(),
            final(self).wf(),
            final(self).terminator() == old(self).terminator(),
            final(self).start() == old(self).start(),
            result is Ok <==> !old(self).is_full(),
            match result {
                Ok(()) => {
                    &&& final(self)@ == old(self)@.push(byte)
                    &&& final(self).storage() == old(self).storage().update(
                        old(self).end() as int,
                        byte,
                    )
                    &&& final(self).end() == ring_index(old(self).end() as int, 1, CAPACITY as int)
                },
                Err(LineBufferTxError::BufferFull) => *final(self) == *old(self),
            },
    {
        if self.is_full() {
            return Err(LineBufferTxError::BufferFull);
        }
        self.span.empty = false;
        self.buffer[self.span.end] = byte;
        self.span.end = Self::next_cell(self.span.end);
        Ok(())
    }

    /// Appends the bytes in order, one by one, until the buffer is full.
    ///
    /// The call is not atomic. When not all of `bytes` fit, those that do
    /// are appended and stay appended, and the call reports `BufferFull`:
    /// a producer that has handed bytes over does not get them back, at
    /// the price of a buffer that has changed although the call failed.
    /// A caller that needs all or nothing appends only what fits into the
    /// room that is left.
    pub fn push_bytes(&mut self, bytes: &[u8]) -> (result: Result<(), LineBufferTxError>)
        ensures
            old(self).wf(),
            final(self).wf(),
            final(self).terminator() == old(self).terminator(),
            final(self).start() == old(self).start(),
            result is Ok <==> bytes@.len() <= old(self).room(),
            ({
                let taken = fitting_prefix(bytes@, old(self).room());
                &&& final(self)@ == old(self)@ + taken
                &&& final(self).storage() == ring_write(
                    old(self).storage(),
                    old(self).end() as int,
                    taken,
                )
                &&& final(self).end() == ring_index(
                    old(self).end() as int,
                    taken.len() as int,
                    CAPACITY as int,
                )
                &&& taken.len() == 0 ==> *final(self) == *old(self)
            }),
    {
        let ghost before = *old(self);
        proof {
            use_type_invariant(&self.span);
        }
        let mut i: usize = 0;
        while i < bytes.len()
            invariant
                before == *old(self),
                before.wf(),
                self.wf(),
                self.terminator() == before.terminator(),
                self.start() == before.start(),
                i <= bytes@.len(),
                i <= before.room(),
                self@ == before@ + bytes@.take(i as int),
                self.storage() == ring_write(
                    before.storage(),
                    before.end() as int,
                    bytes@.take(i as int),
                ),
                self.end() == ring_index(before.end() as int, i as int, CAPACITY as int),
                i == 0 ==> *self == before,
            decreases bytes@.len() - i,
        {
            match self.push_byte(bytes[i]) {
                Ok(()) => {},
                Err(error) => {
                    return Err(error);
                },
            }
            i += 1;
        }
        Ok(())
    }

    /// Discards the held bytes. The storage cells keep their bytes; only
    /// the indices and the flag are reset.
    pub fn clear(&mut self)
        ensures
            old(self).wf(),
            final(self).cleared_from(*old(self)),
    {
        proof {
            use_type_invariant(&self.span);
        }
        self.span = Span { start: 0, end: 0, empty: true };
    }

    /// The cell after `cell`, which is cell 0 after the last one.
    fn next_cell(cell: usize) -> (next: usize)
        requires
            cell < CAPACITY,
        ensures
            next == ring_index(cell as int, 1, CAPACITY as int),
    {
        proof {
            lemma_ring_index(cell as int, 1, CAPACITY as int);
        }
        (cell + 1) % CAPACITY
    }

    /// Extracts the first line into `aux_buffer` and returns its length.
    /// `aux_buffer` has as many cells as the ring, so that any line fits.
    ///
    /// The held bytes are scanned from the oldest on. Each byte that
    /// does not begin a terminator is copied to `aux_buffer`. At the first
    /// terminator the scan ends: the line and the terminator leave the
    /// buffer, and the terminator is not copied. Without a terminator
    /// configured, all held bytes are one line.
    ///
    /// When the held bytes run out before a terminator, the call reports
    /// `NoLines` and the buffer is as it was before; the bytes scanned
    /// have by then been copied to the front of `aux_buffer`. On an empty
    /// buffer the call reports `BufferEmpty` and changes nothing.
    ///
    /// Which of the three it is follows from the held bytes alone. A
    /// caller that proves it for given bytes names, before the call, the
    /// index at which their first line ends: `line_ends_at(self@, t, i)`.
    pub fn read_line_bytes(&mut self, aux_buffer: &mut [u8; CAPACITY]) -> (result: Result<
        usize,
        LineBufferRxError,
    >)
        ensures
            old(self).wf(),
            final(self).wf(),
            final(self).storage() == old(self).storage(),
            final(self).terminator() == old(self).terminator(),
            final(self).end() == old(self).end(),
            ({
                let held = old(self)@;
                let t = old(self).terminator();
                &&& result is Ok <==> held.len() > 0 && !no_line(held, t)
                &&& (result matches Err(LineBufferRxError::BufferEmpty)) <==> held.len() == 0
                &&& (result matches Err(LineBufferRxError::NoLines)) <==> held.len() > 0 && no_line(
                    held,
                    t,
                )
                &&& result is Err ==> *final(self) == *old(self)
                &&& match result {
                    Ok(count) => {
                        let used = count + t.width();
                        &&& first_line_len(held, t, count as int)
                        &&& final(aux_buffer)@ == held.take(count as int) + old(aux_buffer)@.skip(
                            count as int,
                        )
                        &&& final(self)@ == held.skip(used)
                        &&& final(self).start() == ring_index(
                            old(self).start() as int,
                            used,
                            CAPACITY as int,
                        )
                    },
                    Err(LineBufferRxError::BufferEmpty) => *final(aux_buffer) == *old(aux_buffer),
                    Err(LineBufferRxError::NoLines) => final(aux_buffer)@ == held + old(
                        aux_buffer,
                    )@.skip(held.len() as int),
                }
            }),
    {
        if self.is_empty() {
            return Err(LineBufferRxError::BufferEmpty);
        }
        let ghost held = self@;
        let terminator = self.config.terminator;
        let mut cursor = self.span.start;
        let mut bytes_read: usize = 0;
        loop
            invariant
                *self == *old(self),
                self.wf(),
                held == self@,
                terminator == self.terminator(),
                bytes_read < held.len(),
                cursor == ring_index(self.start() as int, bytes_read as int, CAPACITY as int),
                forall|j: int| 0 <= j < bytes_read ==> !line_ends_at(held, terminator, j),
                aux_buffer@ == held.take(bytes_read as int) + old(aux_buffer)@.skip(
                    bytes_read as int,
                ),
            decreases held.len() - bytes_read,
        {
            let byte = self.buffer[cursor];
            let after = Self::next_cell(cursor);
            let following = if after != self.span.end {
                Some(self.buffer[after])
            } else {
                None
            };
            if terminator.recognizes(byte, following) {
                self.span.start = if terminator.width() == 2 {
                    Self::next_cell(after)
                } else {
                    after
                };
                if self.span.start == self.span.end {
                    self.span.empty = true;
                }
                assert(line_ends_at(held, terminator, bytes_read as int));
                return Ok(bytes_read);
            }
            aux_buffer[bytes_read] = byte;
            bytes_read += 1;
            cursor = after;
            if cursor == self.span.end {
                match terminator {
                    Terminator::NoTerminator => {
                        self.span.start = cursor;
                        self.span.empty = true;
                        assert(line_ends_at(held, terminator, bytes_read as int));
                        return Ok(bytes_read);
                    },
                    _ => {
                        return Err(LineBufferRxError::NoLines);
                    },
                }
            }
        }
    }
}

/// What holds of every buffer, whatever its capacity and wherever in the
/// ring it stands.
impl<const CAPACITY: usize> LineBuffer<CAPACITY> {
    /// A buffer holds at most `CAPACITY` bytes, its flag is set exactly
    /// when it holds none, it is full exactly when the flag is not set and
    /// the indices are equal, and its end lies as many cells past its start
    /// as it holds bytes.
    pub proof fn lemma_held_len(&self)
        requires
            self.wf(),
        ensures
            self@.len() == self.held_len(),
            self@.len() <= CAPACITY,
            self.empty_flag() <==> self.is_empty(),
            self.is_full() <==> !self.empty_flag() && self.start() == self.end(),
            self.end() == ring_index(self.start() as int, self@.len() as int, CAPACITY as int),
    {
    }

    /// A buffer that was empty and has since been offered `appended`, no
    /// more than `CAPACITY` bytes, is full exactly when `appended` has
    /// `CAPACITY` bytes.
    pub proof fn lemma_full_iff_capacity_appended(emptied: Self, appended: Seq<u8>, filled: Self)
        requires
            emptied.is_empty(),
            appended.len() <= CAPACITY,
            filled@ == emptied@ + fitting_prefix(appended, emptied.room()),
        ensures
            filled.is_full() <==> appended.len() == CAPACITY,
    {
    }

    /// A line and its terminator, appended to an empty buffer that has
    /// room for both, come out again as that line and leave the buffer
    /// empty, wherever in the ring the buffer stands.
    pub proof fn lemma_append_then_extract(emptied: Self, line: Seq<u8>)
        requires
            emptied.is_empty(),
            emptied.terminator() != Terminator::NoTerminator,
            forall|j: int| 0 <= j < line.len() ==> !terminator_at(line, emptied.terminator(), j),
            line.len() + emptied.terminator().width() <= CAPACITY,
        ensures
            ({
                let t = emptied.terminator();
                let appended = line + t.bytes();
                let held = emptied@ + fitting_prefix(appended, emptied.room());
                &&& appended.len() <= emptied.room()
                &&& held.len() > 0
                &&& first_line_len(held, t, line.len() as int)
                &&& held.take(line.len() as int) == line
                &&& held.skip(line.len() + t.width()).len() == 0
            }),
    {
        lemma_line_then_terminator(line, emptied.terminator(), Seq::empty());
    }

    /// Clearing is idempotent: a cleared buffer is empty, and to clear it
    /// again changes nothing.
    pub proof fn lemma_clear_idempotent(before: Self, once: Self, twice: Self)
        requires
            once.cleared_from(before),
            twice.cleared_from(once),
        ensures
            once.is_empty(),
            twice.is_empty(),
            twice == once,
    {
        assert(twice.buffer =~= once.buffer);
    }
}

} // verus!
