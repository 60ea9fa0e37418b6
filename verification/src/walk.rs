//! Walking a rule: how a reader gets from block to block by the sizes that
//! the blocks declare.

use crate::extension::{block_bytes, block_bytes_at, block_bytes_len, block_size};
use crate::layout::{is_aligned, u16_at, u16_bytes, ByteOrder, NAME_FIELD_LEN, SUBHEADER_SIZE};
use vstd::prelude::*;

verus! {

/// Whether blocks lie back to back in `bytes` from position `from` up to
/// position `to`: each declares a size of at least a sub-header, in whole
/// words, the next starts where it ends, and the last ends at `to`.
pub open spec fn blocks_between(order: ByteOrder, bytes: Seq<u8>, from: int, to: int) -> bool
    decreases to - from,
{
    if from >= to {
        from == to
    } else {
        let size = u16_at(order, bytes, from);
        if size < SUBHEADER_SIZE || !is_aligned(size) || from + size > to {
            false
        } else {
            blocks_between(order, bytes, from + size, to)
        }
    }
}

/// Whether the block at position `at` of `bytes` declares `size` bytes, and
/// `size` is one a block can have.
pub open spec fn block_at(order: ByteOrder, bytes: Seq<u8>, at: int, size: int) -> bool {
    &&& SUBHEADER_SIZE <= size
    &&& is_aligned(size)
    &&& u16_at(order, bytes, at) == size
}

/// Only the bytes between `from` and `to` decide whether blocks lie back to
/// back there.
pub proof fn blocks_between_same(order: ByteOrder, a: Seq<u8>, b: Seq<u8>, from: int, to: int)
    requires
        0 <= from,
        to <= a.len(),
        to <= b.len(),
        forall|i: int| from <= i < to ==> a[i] == b[i],
        blocks_between(order, a, from, to),
    ensures
        blocks_between(order, b, from, to),
    decreases to - from,
{
    if from < to {
        let size = u16_at(order, a, from);
        assert(a[from] == b[from]);
        assert(a[from + 1] == b[from + 1]);
        blocks_between_same(order, a, b, from + size, to);
    }
}

/// A row of blocks that ends at `to`, with one more block that starts there,
/// is a row of blocks that ends where the new block ends.
pub proof fn blocks_between_one_more(
    order: ByteOrder,
    bytes: Seq<u8>,
    from: int,
    to: int,
    size: int,
)
    requires
        0 <= from <= to,
        to + size <= bytes.len(),
        blocks_between(order, bytes, from, to),
        block_at(order, bytes, to, size),
    ensures
        blocks_between(order, bytes, from, to + size),
    decreases to - from,
{
    if from < to {
        let first = u16_at(order, bytes, from);
        blocks_between_one_more(order, bytes, from + first, to, size);
    } else {
        assert(blocks_between(order, bytes, to + size, to + size));
    }
}

/// A block declares its own size in its first field.
pub proof fn block_declares_its_size(
    order: ByteOrder,
    name: Seq<u8>,
    revision: u8,
    payload: Seq<u8>,
)
    requires
        name.len() <= NAME_FIELD_LEN,
        block_size(payload.len() as int) <= u16::MAX,
    ensures
        block_at(
            order,
            block_bytes(order, name, revision, payload),
            0,
            block_size(payload.len() as int),
        ),
{
    let size = block_size(payload.len() as int);
    let block = block_bytes(order, name, revision, payload);
    block_bytes_len(order, name, revision, payload);
    block_bytes_at(order, name, revision, payload, 0);
    block_bytes_at(order, name, revision, payload, 1);
    let declared = u16_bytes(order, size as u16);
    assert(block[0] == declared[0] && block[1] == declared[1]);
}

/// Blocks that lie back to back up to the end of `bytes` still do so when
/// one more block is put behind them.
pub proof fn appended_block_keeps_row(
    order: ByteOrder,
    bytes: Seq<u8>,
    name: Seq<u8>,
    revision: u8,
    payload: Seq<u8>,
    from: int,
)
    requires
        name.len() <= NAME_FIELD_LEN,
        block_size(payload.len() as int) <= u16::MAX,
        0 <= from <= bytes.len(),
        blocks_between(order, bytes, from, bytes.len() as int),
    ensures
        blocks_between(
            order,
            bytes + block_bytes(order, name, revision, payload),
            from,
            bytes.len() + block_size(payload.len() as int),
        ),
{
    let block = block_bytes(order, name, revision, payload);
    let whole = bytes + block;
    let end = bytes.len() as int;
    block_bytes_len(order, name, revision, payload);
    block_declares_its_size(order, name, revision, payload);
    blocks_between_same(order, bytes, whole, from, end);
    assert(whole[end] == block[0] && whole[end + 1] == block[1]);
    blocks_between_one_more(order, whole, from, end, block_size(payload.len() as int));
}

} // verus!
