//! The arena: an owned, growable region of bytes that knows nothing of rules.
//!
//! Its capacity is always a whole number of machine words. Bytes are reached
//! by position only, so nothing can keep pointing into a region that a later
//! growth has moved.

use crate::layout::{align_up, aligned, is_aligned, overwrite, zeros};
use vstd::prelude::*;
use vstd::std_specs::cmp::PartialEqSpecImpl;

verus! {

/// A zero-initialised block of bytes that can grow. Its view is the whole
/// block; the length of the view is the capacity.
#[derive(Debug)]
pub struct Arena {
    bytes: Vec<u8>,
}

impl View for Arena {
    type V = Seq<u8>;

    closed spec fn view(&self) -> Seq<u8> {
        self.bytes@
    }
}

impl Clone for Arena {
    /// A second arena with the same bytes.
    fn clone(&self) -> (copy: Arena)
        ensures
            copy@ == self@,
    {
        let bytes = self.bytes.clone();
        assert(bytes@ =~= self.bytes@);
        Arena { bytes }
    }
}

impl PartialEq for Arena {
    /// Whether the two arenas hold the same bytes.
    fn eq(&self, other: &Arena) -> (same: bool) {
        let same = self.bytes == other.bytes;
        proof {
            if same {
                assert(self.bytes@ =~= other.bytes@);
            }
        }
        same
    }
}

impl PartialEqSpecImpl for Arena {
    open spec fn obeys_eq_spec() -> bool {
        true
    }

    open spec fn eq_spec(&self, other: &Arena) -> bool {
        self@ == other@
    }
}

/// The capacity that a block of `previous` bytes grows to when `required`
/// bytes are asked for: at least what is asked, at least twice what was
/// there, in whole words.
pub open spec fn grown_capacity(previous: int, required: int) -> int {
    aligned(
        if required >= 2 * previous {
            required
        } else {
            2 * previous
        },
    )
}

impl Arena {
    /// What holds of every arena: the capacity is a multiple of `ALIGN`.
    pub open spec fn wf(&self) -> bool {
        is_aligned(self@.len() as int)
    }

    /// A block of `capacity` zero bytes, rounded up to whole words.
    pub fn allocate(capacity: usize) -> (arena: Arena)
        requires
            aligned(capacity as int) <= usize::MAX,
        ensures
            arena.wf(),
            arena@ == zeros(aligned(capacity as int)),
    {
        let size = align_up(capacity);
        let bytes = vec![0u8; size];
        assert(bytes@ =~= zeros(size as int));
        Arena { bytes }
    }

    /// The number of bytes in the block.
    pub fn capacity(&self) -> (n: usize)
        ensures
            n == self@.len(),
    {
        self.bytes.len()
    }

    /// Grows the block to `grown_capacity` bytes. What was in it stays where
    /// it was, and the bytes added are zero.
    pub fn grow(&mut self, required: usize)
        requires
            old(self).wf(),
            grown_capacity(old(self)@.len() as int, required as int) <= usize::MAX,
        ensures
            final(self).wf(),
            final(self)@ == old(self)@ + zeros(
                grown_capacity(old(self)@.len() as int, required as int) - old(self)@.len(),
            ),
            final(self)@.subrange(0, old(self)@.len() as int) == old(self)@,
    {
        let previous = self.bytes.len();
        let wanted = if required >= 2 * previous {
            required
        } else {
            2 * previous
        };
        let size = align_up(wanted);
        self.bytes.resize(size, 0u8);
        assert(self.bytes@ =~= old(self).bytes@ + zeros(size - previous));
        assert(self.bytes@.subrange(0, previous as int) =~= old(self).bytes@);
    }

    /// Cuts the block down to its first `len` bytes.
    pub fn truncate(&mut self, len: usize)
        requires
            len <= old(self)@.len(),
            is_aligned(len as int),
        ensures
            final(self).wf(),
            final(self)@ == old(self)@.subrange(0, len as int),
    {
        self.bytes.truncate(len);
    }

    /// The byte at position `at`.
    pub fn get(&self, at: usize) -> (byte: u8)
        requires
            at < self@.len(),
        ensures
            byte == self@[at as int],
    {
        self.bytes[at]
    }

    /// Stores `byte` at position `at`.
    pub fn put(&mut self, at: usize, byte: u8)
        requires
            old(self).wf(),
            at < old(self)@.len(),
        ensures
            final(self).wf(),
            final(self)@ == old(self)@.update(at as int, byte),
    {
        self.bytes[at] = byte;
    }

    /// Copies `data` into the block from position `at` on. The capacity does
    /// not change, and no byte outside the range is touched.
    pub fn write(&mut self, at: usize, data: &[u8])
        requires
            old(self).wf(),
            at + data@.len() <= old(self)@.len(),
        ensures
            final(self).wf(),
            final(self)@ == overwrite(old(self)@, at as int, data@),
    {
        let n = data.len();
        let capacity = self.bytes.len();
        let mut i: usize = 0;
        while i < n
            invariant
                n == data@.len(),
                i <= n,
                at + n <= capacity,
                capacity == self.bytes@.len(),
                self.bytes@.len() == old(self).bytes@.len(),
                is_aligned(self.bytes@.len() as int),
                self.bytes@ == overwrite(old(self).bytes@, at as int, data@.subrange(0, i as int)),
            decreases n - i,
        {
            self.bytes[at + i] = data[i];
            i += 1;
            assert(self.bytes@ =~= overwrite(
                old(self).bytes@,
                at as int,
                data@.subrange(0, i as int),
            ));
        }
        assert(data@.subrange(0, n as int) =~= data@);
    }

    /// The whole block, for reading.
    pub fn as_slice(&self) -> (bytes: &[u8])
        ensures
            bytes@ == self@,
    {
        self.bytes.as_slice()
    }
}

} // verus!
