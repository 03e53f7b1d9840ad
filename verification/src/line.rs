//! What a line is: where the first line of a sequence of held bytes ends
//! under a given terminator.
//!
//! The quantifiers of [`first_line_len`] and [`no_line`] are instantiated
//! on [`line_ends_at`]. A proof about given bytes names the index at which
//! their first line ends, as in `assert(line_ends_at(held, t, 5))`; the
//! rest follows from the bytes.

use vstd::prelude::*;
use crate::terminator::Terminator;

verus! {

/// Whether the terminator `t` stands in `held` at index `i`, all of it
/// among the held bytes.
pub open spec fn terminator_at(held: Seq<u8>, t: Terminator, i: int) -> bool {
    &&& 0 <= i < held.len()
    &&& t.recognizes(
        held[i],
        if i + 1 < held.len() {
            Some(held[i + 1])
        } else {
            None
        },
    )
}

/// Whether a line of `held` can end before index `i`: at a terminator, or,
/// without a terminator, where the held bytes end.
pub open spec fn line_ends_at(held: Seq<u8>, t: Terminator, i: int) -> bool {
    if t == Terminator::NoTerminator {
        i == held.len()
    } else {
        terminator_at(held, t, i)
    }
}

/// Whether the first line of `held` has `count` bytes: a line ends before
/// index `count`, and none ends earlier.
pub open spec fn first_line_len(held: Seq<u8>, t: Terminator, count: int) -> bool {
    &&& line_ends_at(held, t, count)
    &&& forall|j: int| 0 <= j < count ==> !line_ends_at(held, t, j)
}

/// Whether `held` holds no complete line.
pub open spec fn no_line(held: Seq<u8>, t: Terminator) -> bool {
    forall|j: int| 0 <= j <= held.len() ==> !line_ends_at(held, t, j)
}

/// A terminator stands at index `i` exactly when its bytes do: it has
/// bytes, they fit between `i` and the end of `held`, and `held` has them
/// there.
pub proof fn lemma_terminator_at_bytes(held: Seq<u8>, t: Terminator, i: int)
    ensures
        terminator_at(held, t, i) <==> {
            &&& t.width() > 0
            &&& 0 <= i
            &&& i + t.width() <= held.len()
            &&& held.subrange(i, i + t.width()) == t.bytes()
        },
{
    if t.width() > 0 && 0 <= i && i + t.width() <= held.len() {
        let window = held.subrange(i, i + t.width());
        if terminator_at(held, t, i) {
            assert(window =~= t.bytes());
        }
        if window == t.bytes() {
            assert(window[0] == held[i]);
        }
    }
}

/// The length of the first line is unique, and lies within the held bytes.
pub proof fn lemma_first_line_unique(held: Seq<u8>, t: Terminator, a: int, b: int)
    requires
        first_line_len(held, t, a),
        first_line_len(held, t, b),
    ensures
        a == b,
        0 <= a <= held.len(),
        a + t.width() <= held.len(),
{
}

/// Either the held bytes have a first line or they hold no complete line,
/// and never both.
pub proof fn lemma_line_or_no_line(held: Seq<u8>, t: Terminator)
    ensures
        no_line(held, t) <==> !exists|count: int| first_line_len(held, t, count),
{
    if !no_line(held, t) {
        let j = choose|j: int| 0 <= j <= held.len() && line_ends_at(held, t, j);
        lemma_least_line_end(held, t, j);
    }
}

/// Where a line ends before index `i`, the held bytes have a first line.
proof fn lemma_least_line_end(held: Seq<u8>, t: Terminator, i: int)
    requires
        0 <= i,
        line_ends_at(held, t, i),
    ensures
        exists|count: int| first_line_len(held, t, count),
    decreases i,
{
    if exists|j: int| 0 <= j < i && line_ends_at(held, t, j) {
        let j = choose|j: int| 0 <= j < i && line_ends_at(held, t, j);
        lemma_least_line_end(held, t, j);
    } else {
        assert(first_line_len(held, t, i));
    }
}

/// A line that holds no terminator, followed by the terminator and by
/// anything else, is the first line: extraction gives back the line,
/// takes the terminator with it, and leaves what followed.
pub proof fn lemma_line_then_terminator(line: Seq<u8>, t: Terminator, rest: Seq<u8>)
    requires
        t != Terminator::NoTerminator,
        forall|j: int| 0 <= j < line.len() ==> !terminator_at(line, t, j),
    ensures
        first_line_len(line + t.bytes() + rest, t, line.len() as int),
        (line + t.bytes() + rest).take(line.len() as int) == line,
        (line + t.bytes() + rest).skip(line.len() + t.width()) == rest,
{
    let held = line + t.bytes() + rest;
    let count = line.len() as int;
    assert forall|j: int| 0 <= j < count implies !line_ends_at(held, t, j) by {
        assert(!terminator_at(line, t, j));
    }
}

/// Without a terminator, all held bytes are the first line.
pub proof fn lemma_unterminated_line(held: Seq<u8>)
    ensures
        first_line_len(held, Terminator::NoTerminator, held.len() as int),
{
}

} // verus!
