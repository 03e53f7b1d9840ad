//! Index arithmetic on a ring of storage cells, and the byte sequences that
//! reading and writing around the ring give.

use vstd::prelude::*;
use vstd::arithmetic::div_mod::{lemma_mod_sub_multiples_vanish, lemma_mod_add_multiples_vanish, lemma_small_mod};

verus! {

/// The cell that lies `offset` cells past `start` in a ring of `capacity`
/// cells, for a walk of at most once around the ring: the walk wraps to
/// cell 0 after the last cell.
pub open spec fn ring_index(start: int, offset: int, capacity: int) -> int {
    if start + offset < capacity {
        start + offset
    } else {
        start + offset - capacity
    }
}

/// How many cells one walks forward from `start` to reach `index` in a ring
/// of `capacity` cells.
pub open spec fn ring_offset(start: int, index: int, capacity: int) -> int {
    if start <= index {
        index - start
    } else {
        index - start + capacity
    }
}

/// The `len` bytes that stand in `storage` from cell `start` on, wrapping
/// to cell 0 after the last cell.
pub open spec fn ring_read(storage: Seq<u8>, start: int, len: nat) -> Seq<u8> {
    Seq::new(len, |i: int| storage[ring_index(start, i, storage.len() as int)])
}

/// `storage` after `bytes` have been written into it from cell `at` on,
/// wrapping to cell 0 after the last cell. Meant for `bytes` no longer than
/// `storage`, so that no cell is written twice.
pub open spec fn ring_write(storage: Seq<u8>, at: int, bytes: Seq<u8>) -> Seq<u8> {
    Seq::new(
        storage.len(),
        |j: int|
            {
                let offset = ring_offset(at, j, storage.len() as int);
                if offset < bytes.len() {
                    bytes[offset]
                } else {
                    storage[j]
                }
            },
    )
}

/// The cell that a walk reaches is the remainder of the cells walked from
/// cell 0, and the walk can be walked back.
pub proof fn lemma_ring_index(start: int, offset: int, capacity: int)
    requires
        0 <= start < capacity,
        0 <= offset <= capacity,
    ensures
        ring_index(start, offset, capacity) == (start + offset) % capacity,
        0 <= ring_index(start, offset, capacity) < capacity,
        offset < capacity ==> ring_offset(start, ring_index(start, offset, capacity), capacity)
            == offset,
{
    if start + offset < capacity {
        lemma_small_mod((start + offset) as nat, capacity as nat);
    } else {
        lemma_mod_sub_multiples_vanish(start + offset, capacity);
        lemma_small_mod((start + offset - capacity) as nat, capacity as nat);
    }
}

/// The way forward from one cell to another is the remainder of their
/// difference, and is shorter than the ring.
pub proof fn lemma_ring_offset(start: int, index: int, capacity: int)
    requires
        0 <= start < capacity,
        0 <= index < capacity,
    ensures
        ring_offset(start, index, capacity) == (index - start) % capacity,
        0 <= ring_offset(start, index, capacity) < capacity,
        ring_index(start, ring_offset(start, index, capacity), capacity) == index,
{
    if start <= index {
        lemma_small_mod((index - start) as nat, capacity as nat);
    } else {
        lemma_mod_add_multiples_vanish(index - start, capacity);
        lemma_small_mod((index - start + capacity) as nat, capacity as nat);
    }
}

/// Writing one byte more changes one cell more: the cell that lies as many
/// cells past `at` as bytes were written before.
pub proof fn lemma_ring_write_push(storage: Seq<u8>, at: int, bytes: Seq<u8>, byte: u8)
    requires
        0 <= at < storage.len(),
        bytes.len() < storage.len(),
    ensures
        ring_write(storage, at, bytes.push(byte)) == ring_write(storage, at, bytes).update(
            ring_index(at, bytes.len() as int, storage.len() as int),
            byte,
        ),
{
}

} // verus!
