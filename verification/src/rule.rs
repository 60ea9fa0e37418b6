//! The rule builder and the finished rule.
//!
//! A builder starts as a zeroed entry header. Header fields are written in
//! place; match blocks are appended behind the header, each on a word
//! boundary, with the arena growing as needed. Appending the target block
//! sets the header's two offsets and turns the builder into a `Rule`, to
//! which nothing can be added any more.

use crate::arena::Arena;
use crate::error::ValidationError;
use crate::extension::{
    block_bytes, block_bytes_at, block_bytes_len, block_size, comment_error, comment_name,
    comment_payload, has_nul, name_error, Extension,
};
use crate::family::{
    ipv4_header, ipv4_layout, ipv6_header, ipv6_layout, store_offsets, with_offsets, HeaderField, HeaderLayout, Ipv4Addr,
    Ipv6Addr,
};
use crate::layout::{
    align_up, aligned, aligned_is_least_multiple, decode_u16, encode_u16, i32_at, i32_bytes,
    i32_round_trip, is_aligned, overwrite, u16_at, u16_bytes, u16_stored, zeros, ByteOrder, MAX_COMMENT_LEN,
    MAX_RULE_LEN, NAME_POS, NF_ACCEPT, REVISION_POS, SUBHEADER_SIZE,
};
use crate::walk::{appended_block_keeps_row, blocks_between, blocks_between_same};
use core::marker::PhantomData;
use vstd::prelude::*;
use vstd::slice::{slice_subrange, slice_to_vec};
use vstd::std_specs::cmp::PartialEqSpecImpl;
use vstd::string::StringSliceAdditionalSpecFns;

verus! {

/// An address family. The type that stands for the family is the type of its
/// addresses.
pub trait Entry: Sized {
    /// The layout of the family's entry header.
    spec fn layout() -> HeaderLayout;

    /// The address as it stands in the header: its octets in network order.
    spec fn wire(&self) -> Seq<u8>;

    /// The layout is one the builder can work with.
    proof fn layout_wf()
        ensures
            Self::layout().wf(),
    ;

    /// An address is as wide as the layout says.
    proof fn wire_len(&self)
        ensures
            self.wire().len() == Self::layout().address_len,
    ;

    /// The layout of the family's entry header.
    fn header_layout() -> (layout: HeaderLayout)
        ensures
            layout == Self::layout(),
    ;

    /// The address as it stands in the header.
    fn to_wire(&self) -> (bytes: Vec<u8>)
        ensures
            bytes@ == self.wire(),
    ;

    /// Stores the offset of the target block and the offset of the end of
    /// the rule in the header at the start of `entry`. Nothing else changes.
    fn set_offsets(entry: &mut Arena, order: ByteOrder, target: usize, next: usize)
        requires
            old(entry).wf(),
            Self::layout().size <= old(entry)@.len(),
            target <= u16::MAX,
            next <= u16::MAX,
        ensures
            final(entry).wf(),
            final(entry)@ == with_offsets(
                Self::layout(),
                order,
                old(entry)@,
                target as int,
                next as int,
            ),
    ;
}

impl Entry for Ipv4Addr {
    open spec fn layout() -> HeaderLayout {
        ipv4_layout()
    }

    open spec fn wire(&self) -> Seq<u8> {
        self@
    }

    proof fn layout_wf() {
    }

    proof fn wire_len(&self) {
        self.has_four_octets();
    }

    fn header_layout() -> (layout: HeaderLayout) {
        ipv4_header()
    }

    fn to_wire(&self) -> (bytes: Vec<u8>) {
        let octets = self.octets();
        let bytes = vec![octets[0], octets[1], octets[2], octets[3]];
        assert(bytes@ =~= self@);
        bytes
    }

    fn set_offsets(entry: &mut Arena, order: ByteOrder, target: usize, next: usize) {
        let layout = Self::header_layout();
        store_offsets(&layout, entry, order, target, next);
    }
}

impl Entry for Ipv6Addr {
    open spec fn layout() -> HeaderLayout {
        ipv6_layout()
    }

    open spec fn wire(&self) -> Seq<u8> {
        self@
    }

    proof fn layout_wf() {
    }

    proof fn wire_len(&self) {
        self.has_sixteen_octets();
    }

    fn header_layout() -> (layout: HeaderLayout) {
        ipv6_header()
    }

    fn to_wire(&self) -> (bytes: Vec<u8>) {
        let octets = self.octets();
        let mut bytes: Vec<u8> = Vec::new();
        let mut i: usize = 0;
        while i < 16
            invariant
                i <= 16,
                bytes@ == octets@.subrange(0, i as int),
            decreases 16 - i,
        {
            bytes.push(octets[i]);
            i += 1;
            assert(bytes@ =~= octets@.subrange(0, i as int));
        }
        assert(bytes@ =~= self@);
        bytes
    }

    fn set_offsets(entry: &mut Arena, order: ByteOrder, target: usize, next: usize) {
        let layout = Self::header_layout();
        store_offsets(&layout, entry, order, target, next);
    }
}

/// The bytes a builder may hold: an entry header of the family, then whole
/// words up to the largest rule length, with the header's two offsets not yet
/// set.
pub open spec fn in_progress<E: Entry>(bytes: Seq<u8>) -> bool {
    let layout = E::layout();
    &&& layout.size <= bytes.len() <= MAX_RULE_LEN
    &&& is_aligned(bytes.len() as int)
    &&& bytes[layout.target_offset as int] == 0
    &&& bytes[layout.target_offset + 1] == 0
    &&& bytes[layout.next_offset as int] == 0
    &&& bytes[layout.next_offset + 1] == 0
}

/// The capacity after room for `needed` bytes was made in an arena of
/// `capacity` bytes: unchanged where they fit, else twice what is needed.
pub open spec fn extended_capacity(capacity: int, needed: int) -> int {
    if needed <= capacity {
        capacity
    } else {
        2 * needed
    }
}

/// Why a block with this name and a payload of `payload_len` bytes cannot be
/// put behind `len` bytes of rule, if it cannot: the name does not fit its
/// field, or the rule would pass `MAX_RULE_LEN`.
pub open spec fn append_error(len: int, name: Seq<u8>, payload_len: int) -> Option<
    ValidationError,
> {
    match name_error(name) {
        Some(e) => Some(e),
        None => if len + block_size(payload_len) > MAX_RULE_LEN {
            Some(ValidationError::RuleTooLong)
        } else {
            None
        },
    }
}

/// Why a comment match with this text cannot be put behind `len` bytes of
/// rule, if it cannot.
pub open spec fn comment_append_error(len: int, text: Seq<u8>) -> Option<ValidationError> {
    match comment_error(text) {
        Some(e) => Some(e),
        None => append_error(len, comment_name(), MAX_COMMENT_LEN as int),
    }
}

/// The position at which `len` bytes can be stored in the header field
/// `field`: the field's position, where the header has the field and `len`
/// is its width.
pub open spec fn field_position(layout: HeaderLayout, field: HeaderField, len: int) -> Option<int> {
    match layout.field(field) {
        Some((at, width)) => if width == len {
            Some(at)
        } else {
            None
        },
        None => None,
    }
}

/// The bytes of the rule that comes of a builder holding `bytes` when the
/// target block is put behind them: the block starts where `bytes` end, and
/// the header's offsets give that position and the end of the block.
pub open spec fn finished<E: Entry>(
    order: ByteOrder,
    bytes: Seq<u8>,
    name: Seq<u8>,
    revision: u8,
    payload: Seq<u8>,
) -> Seq<u8> {
    with_offsets(
        E::layout(),
        order,
        bytes + block_bytes(order, name, revision, payload),
        bytes.len() as int,
        bytes.len() + block_size(payload.len() as int),
    )
}

/// The bytes a finished rule may hold: the header's second offset is the
/// length of the rule, its first offset is the position of a block behind
/// the header, and that block declares the size that is left up to the end
/// of the rule.
pub open spec fn complete<E: Entry>(order: ByteOrder, bytes: Seq<u8>) -> bool {
    let layout = E::layout();
    let target = u16_at(order, bytes, layout.target_offset as int);
    let next = u16_at(order, bytes, layout.next_offset as int);
    &&& layout.size + SUBHEADER_SIZE <= bytes.len() <= MAX_RULE_LEN
    &&& next == bytes.len()
    &&& layout.size <= target <= next - SUBHEADER_SIZE
    &&& is_aligned(target)
    &&& u16_at(order, bytes, target) == next - target
}

/// A rule under construction: an arena and the length written so far.
#[derive(Debug)]
pub struct RuleBuilder<E: Entry> {
    arena: Arena,
    len: usize,
    order: ByteOrder,
    family: PhantomData<E>,
}

/// A builder handed back with the reason why an input was turned away. The
/// builder is as it was before the call.
#[derive(Debug)]
pub struct Rejected<E: Entry> {
    /// The builder, unchanged.
    pub builder: RuleBuilder<E>,
    /// What was wrong with the input.
    pub reason: ValidationError,
}

impl<E: Entry> Clone for RuleBuilder<E> {
    /// A second builder in the same state.
    fn clone(&self) -> (copy: Self)
        ensures
            copy.bytes() == self.bytes(),
            copy.spec_order() == self.spec_order(),
            copy.spec_capacity() == self.spec_capacity(),
            self.wf() ==> copy.wf(),
    {
        RuleBuilder {
            arena: self.arena.clone(),
            len: self.len,
            order: self.order,
            family: PhantomData,
        }
    }
}

impl<E: Entry> RuleBuilder<E> {
    /// The bytes written so far: the header and the blocks behind it.
    pub closed spec fn bytes(&self) -> Seq<u8> {
        self.arena@.subrange(0, self.len as int)
    }

    /// The byte order of the integer fields.
    pub closed spec fn spec_order(&self) -> ByteOrder {
        self.order
    }

    /// The capacity of the arena.
    pub closed spec fn spec_capacity(&self) -> usize {
        self.arena@.len() as usize
    }

    /// What holds of the arena behind the bytes written: it is well formed,
    /// it holds them all, and what lies behind them is zero.
    pub closed spec fn storage_wf(&self) -> bool {
        &&& self.arena.wf()
        &&& self.len <= self.arena@.len() <= usize::MAX
        &&& forall|i: int| self.len <= i < self.arena@.len() ==> self.arena@[i] == 0
    }

    /// Whether the blocks written so far lie back to back from the end of
    /// the header to the end of what is written. This holds of a builder
    /// that got its blocks by appending extensions; room made with `extend`
    /// is no block.
    pub open spec fn chained(&self) -> bool {
        blocks_between(
            self.spec_order(),
            self.bytes(),
            E::layout().size as int,
            self.bytes().len() as int,
        )
    }

    /// What holds of every builder.
    pub open spec fn wf(&self) -> bool {
        &&& self.storage_wf()
        &&& in_progress::<E>(self.bytes())
        &&& self.bytes().len() <= self.spec_capacity()
        &&& is_aligned(self.spec_capacity() as int)
    }

    /// A builder for the family `E` with integer fields in the given order:
    /// a zeroed header in an arena of just the header's size.
    pub fn with_order(order: ByteOrder) -> (builder: Self)
        ensures
            builder.wf(),
            builder.bytes() == zeros(E::layout().size as int),
            builder.spec_order() == order,
            builder.spec_capacity() == E::layout().size,
            builder.chained(),
    {
        proof {
            E::layout_wf();
        }
        let layout = E::header_layout();
        let arena = Arena::allocate(layout.size);
        let builder = RuleBuilder { arena, len: layout.size, order, family: PhantomData };
        assert(builder.bytes() =~= zeros(layout.size as int));
        builder
    }

    /// A builder for the family `E` with integer fields in the order of the
    /// machine it runs on, as the kernel reads them.
    pub fn new() -> (builder: Self)
        ensures
            builder.wf(),
            builder.bytes() == zeros(E::layout().size as int),
            builder.spec_capacity() == E::layout().size,
            builder.chained(),
    {
        Self::with_order(ByteOrder::host())
    }

    /// The number of bytes written so far.
    pub fn len(&self) -> (n: usize)
        requires
            self.wf(),
        ensures
            n == self.bytes().len(),
    {
        self.len
    }

    /// The capacity of the arena.
    #[verifier::when_used_as_spec(spec_capacity)]
    pub fn capacity(&self) -> (n: usize)
        requires
            self.wf(),
        ensures
            n == self.spec_capacity(),
    {
        self.arena.capacity()
    }

    /// The byte order of the integer fields.
    #[verifier::when_used_as_spec(spec_order)]
    pub fn order(&self) -> (order: ByteOrder)
        ensures
            order == self.spec_order(),
    {
        self.order
    }

    /// The bytes written so far, for reading.
    pub fn view(&self) -> (bytes: &[u8])
        requires
            self.wf(),
        ensures
            bytes@ == self.bytes(),
    {
        slice_subrange(self.arena.as_slice(), 0, self.len)
    }

    /// Sees to it that the arena holds `needed` bytes: where it does not, it
    /// grows to twice that. What is written stays as it was.
    fn reserve(&mut self, needed: usize)
        requires
            old(self).wf(),
            old(self).len <= needed <= MAX_RULE_LEN,
            is_aligned(needed as int),
        ensures
            final(self).wf(),
            final(self).len == old(self).len,
            final(self).order == old(self).order,
            final(self).arena@.len() == extended_capacity(
                old(self).arena@.len() as int,
                needed as int,
            ),
            final(self).arena@.subrange(0, old(self).arena@.len() as int) == old(self).arena@,
            needed <= old(self).arena@.len() ==> *final(self) == *old(self),
    {
        if needed > self.arena.capacity() {
            proof {
                aligned_is_least_multiple(2 * needed);
            }
            let ghost before = self.arena@;
            self.arena.grow(2 * needed);
            assert(self.arena@.subrange(0, before.len() as int) =~= before);
            assert(self.bytes() =~= old(self).bytes());
        }
    }

    /// Makes room for `size` bytes behind what is written, rounded up to
    /// whole words, and gives the position where the room starts. The arena
    /// grows to twice what is needed where the room does not fit. The room is
    /// zero; what was written stays as it was. Where the rule would pass
    /// `MAX_RULE_LEN`, nothing changes.
    #[verifier::rlimit(40)]
    pub fn extend(&mut self, size: usize) -> (r: Result<usize, ValidationError>)
        requires
            old(self).wf(),
        ensures
            final(self).wf(),
            final(self).spec_order() == old(self).spec_order(),
            match r {
                Ok(at) => {
                    &&& at == old(self).bytes().len()
                    &&& at + aligned(size as int) <= MAX_RULE_LEN
                    &&& final(self).bytes() == old(self).bytes() + zeros(aligned(size as int))
                    &&& final(self).bytes().subrange(0, at as int) == old(self).bytes()
                    &&& final(self).spec_capacity() == extended_capacity(
                        old(self).spec_capacity() as int,
                        at + aligned(size as int),
                    )
                },
                Err(e) => {
                    &&& e == ValidationError::RuleTooLong
                    &&& old(self).bytes().len() + aligned(size as int) > MAX_RULE_LEN
                    &&& *final(self) == *old(self)
                },
            },
    {
        if size > MAX_RULE_LEN {
            return Err(ValidationError::RuleTooLong);
        }
        proof {
            aligned_is_least_multiple(size as int);
        }
        let padded = align_up(size);
        let at = self.len;
        if padded > MAX_RULE_LEN - at {
            return Err(ValidationError::RuleTooLong);
        }
        let needed = at + padded;
        self.reserve(needed);
        let ghost whole = self.arena@;
        assert forall|i: int| 0 <= i < whole.len() implies whole[i] == if i < at {
            old(self).bytes()[i]
        } else {
            0u8
        } by {
            if i < old(self).arena@.len() {
                assert(whole.subrange(0, old(self).arena@.len() as int)[i] == whole[i]);
            }
        }
        self.len = needed;
        assert(self.bytes() =~= old(self).bytes() + zeros(padded as int));
        assert(self.bytes().subrange(0, at as int) =~= old(self).bytes());
        proof {
            E::layout_wf();
        }
        Ok(at)
    }

    /// Copies `data` into the header, before the two offsets.
    fn write_header(self, at: usize, data: &[u8]) -> (builder: Self)
        requires
            self.wf(),
            at + data@.len() <= E::layout().target_offset,
        ensures
            builder.wf(),
            builder.bytes() == overwrite(self.bytes(), at as int, data@),
            builder.spec_order() == self.spec_order(),
            builder.spec_capacity() == self.spec_capacity(),
            self.chained() ==> builder.chained(),
    {
        proof {
            E::layout_wf();
        }
        let mut builder = self;
        builder.arena.write(at, data);
        assert(builder.bytes() =~= overwrite(self.bytes(), at as int, data@));
        proof {
            if self.chained() {
                blocks_between_same(
                    self.order,
                    self.bytes(),
                    builder.bytes(),
                    E::layout().size as int,
                    self.len as int,
                );
            }
        }
        builder
    }

    /// Stores `value` in the header field `field`, in place. The arena does
    /// not grow. A field that the family's header does not have, or a value
    /// that is not as wide as the field, is turned away.
    pub fn set_header_field(self, field: HeaderField, value: &[u8]) -> (r: Result<
        Self,
        Rejected<E>,
    >)
        requires
            self.wf(),
        ensures
            match r {
                Ok(builder) => {
                    &&& builder.wf()
                    &&& builder.spec_order() == self.spec_order()
                    &&& builder.spec_capacity() == self.spec_capacity()
                    &&& self.chained() ==> builder.chained()
                    &&& match field_position(E::layout(), field, value@.len() as int) {
                        Some(at) => builder.bytes() == overwrite(self.bytes(), at, value@),
                        None => false,
                    }
                },
                Err(rejected) => {
                    &&& rejected.builder == self
                    &&& rejected.reason == ValidationError::FieldMismatch
                    &&& field_position(E::layout(), field, value@.len() as int) is None
                },
            },
    {
        proof {
            E::layout_wf();
        }
        let layout = E::header_layout();
        match layout.field_range(field) {
            Some((at, width)) => {
                if value.len() == width {
                    assert(layout.field(field) == Some((at as int, width as int)));
                    Ok(self.write_header(at, value))
                } else {
                    Err(Rejected { builder: self, reason: ValidationError::FieldMismatch })
                }
            },
            None => Err(Rejected { builder: self, reason: ValidationError::FieldMismatch }),
        }
    }

    /// Stores the source address `ip` in the header.
    fn set_source(self, ip: &E) -> (builder: Self)
        requires
            self.wf(),
        ensures
            builder.wf(),
            builder.bytes() == overwrite(self.bytes(), E::layout().source as int, ip.wire()),
            builder.spec_order() == self.spec_order(),
            builder.spec_capacity() == self.spec_capacity(),
            self.chained() ==> builder.chained(),
    {
        proof {
            E::layout_wf();
            ip.wire_len();
        }
        let layout = E::header_layout();
        assert(layout.field(HeaderField::Source) == Some(
            (layout.source as int, layout.address_len as int),
        ));
        let wire = ip.to_wire();
        self.write_header(layout.source, wire.as_slice())
    }

    /// Puts the block of `ext` behind what is written. Looks at the name and
    /// at the length first; where either is wrong, nothing is written.
    #[verifier::rlimit(40)]
    fn place(&mut self, ext: &Extension) -> (r: Result<usize, ValidationError>)
        requires
            old(self).wf(),
        ensures
            final(self).wf(),
            final(self).spec_order() == old(self).spec_order(),
            match r {
                Ok(at) => {
                    &&& append_error(at as int, ext.name@, ext.payload@.len() as int) is None
                    &&& at == old(self).bytes().len()
                    &&& final(self).bytes() == old(self).bytes() + ext.block(old(self).spec_order())
                    &&& old(self).chained() ==> final(self).chained()
                    &&& final(self).spec_capacity() == extended_capacity(
                        old(self).spec_capacity() as int,
                        at + block_size(ext.payload@.len() as int),
                    )
                },
                Err(e) => {
                    &&& append_error(
                        old(self).bytes().len() as int,
                        ext.name@,
                        ext.payload@.len() as int,
                    ) == Some(e)
                    &&& *final(self) == *old(self)
                },
            },
    {
        if let Err(e) = ext.check_name() {
            return Err(e);
        }
        let payload_len = ext.payload.len();
        proof {
            aligned_is_least_multiple(SUBHEADER_SIZE + payload_len);
        }
        if payload_len > MAX_RULE_LEN {
            return Err(ValidationError::RuleTooLong);
        }
        let at = match self.extend(SUBHEADER_SIZE + payload_len) {
            Ok(at) => at,
            Err(e) => {
                return Err(e);
            },
        };
        let size = self.len - at;
        let ghost reserved = self.arena@;
        let size_bytes = encode_u16(self.order, size as u16);
        self.arena.write(at, size_bytes.as_slice());
        self.arena.write(at + NAME_POS, ext.name.as_slice());
        self.arena.put(at + REVISION_POS, ext.revision);
        self.arena.write(at + SUBHEADER_SIZE, ext.payload.as_slice());
        proof {
            let block = ext.block(self.order);
            block_bytes_len(self.order, ext.name@, ext.revision, ext.payload@);
            E::layout_wf();
            assert forall|i: int| self.len <= i < self.arena@.len() implies self.arena@[i]
                == 0 by {
                assert(self.arena@[i] == reserved[i]);
            }
            let room = reserved.subrange(0, self.len as int);
            assert(room == old(self).bytes() + zeros(size as int));
            assert forall|i: int| 0 <= i < self.len implies self.bytes()[i] == (old(self).bytes()
                + block)[i] by {
                assert(room[i] == reserved[i]);
                if i >= at {
                    block_bytes_at(self.order, ext.name@, ext.revision, ext.payload@, i - at);
                }
            }
            assert(self.bytes() =~= old(self).bytes() + block);
            if old(self).chained() {
                appended_block_keeps_row(
                    self.order,
                    old(self).bytes(),
                    ext.name@,
                    ext.revision,
                    ext.payload@,
                    E::layout().size as int,
                );
            }
        }
        Ok(at)
    }

    /// Puts a match block behind what is written: the declared size, the
    /// name, the revision and the payload, padded to whole words. Where the
    /// name does not fit its field or the rule would grow too long, the
    /// builder comes back unchanged with the reason.
    pub fn append_extension(self, ext: &Extension) -> (r: Result<Self, Rejected<E>>)
        requires
            self.wf(),
        ensures
            match r {
                Ok(builder) => {
                    &&& append_error(
                        self.bytes().len() as int,
                        ext.name@,
                        ext.payload@.len() as int,
                    ) is None
                    &&& builder.wf()
                    &&& builder.spec_order() == self.spec_order()
                    &&& builder.bytes() == self.bytes() + ext.block(self.spec_order())
                    &&& builder.bytes().subrange(0, self.bytes().len() as int) == self.bytes()
                    &&& self.chained() ==> builder.chained()
                    &&& builder.spec_capacity() == extended_capacity(
                        self.spec_capacity() as int,
                        self.bytes().len() + block_size(ext.payload@.len() as int),
                    )
                },
                Err(rejected) => {
                    &&& append_error(
                        self.bytes().len() as int,
                        ext.name@,
                        ext.payload@.len() as int,
                    ) == Some(rejected.reason)
                    &&& rejected.builder == self
                },
            },
    {
        let mut builder = self;
        match builder.place(ext) {
            Ok(_) => {
                proof {
                    append_keeps_prior_bytes(
                        self.order,
                        self.bytes(),
                        ext.name@,
                        ext.revision,
                        ext.payload@,
                    );
                }
                Ok(builder)
            },
            Err(reason) => Err(Rejected { builder, reason }),
        }
    }

    /// Puts a comment match behind what is written. A text of up to 255
    /// bytes is taken; a longer one, or one with a zero byte in it, is turned
    /// away, and the builder comes back unchanged.
    pub fn match_comment(self, comment: &str) -> (r: Result<Self, Rejected<E>>)
        requires
            self.wf(),
        ensures
            match r {
                Ok(builder) => {
                    &&& comment_append_error(self.bytes().len() as int, comment.spec_bytes())
                        is None
                    &&& builder.wf()
                    &&& builder.spec_order() == self.spec_order()
                    &&& builder.bytes() == self.bytes() + block_bytes(
                        self.spec_order(),
                        comment_name(),
                        0,
                        comment_payload(comment.spec_bytes()),
                    )
                    &&& builder.bytes().subrange(0, self.bytes().len() as int) == self.bytes()
                    &&& self.chained() ==> builder.chained()
                    &&& builder.spec_capacity() == extended_capacity(
                        self.spec_capacity() as int,
                        self.bytes().len() + block_size(MAX_COMMENT_LEN as int),
                    )
                },
                Err(rejected) => {
                    &&& comment_append_error(self.bytes().len() as int, comment.spec_bytes())
                        == Some(rejected.reason)
                    &&& rejected.builder == self
                },
            },
    {
        match Extension::comment(comment) {
            Ok(ext) => self.append_extension(&ext),
            Err(reason) => Err(Rejected { builder: self, reason }),
        }
    }

    /// Puts the target block behind what is written and closes the rule:
    /// the header's first offset is set to where the target block starts,
    /// its second to where it ends, which is the end of the rule. The arena
    /// goes over to the rule, cut to the rule's length. Where the target's
    /// name does not fit its field or the rule would grow too long, the
    /// builder comes back unchanged with the reason.
    pub fn finalize_target(self, target: &Extension) -> (r: Result<Rule<E>, Rejected<E>>)
        requires
            self.wf(),
        ensures
            match r {
                Ok(rule) => {
                    &&& append_error(
                        self.bytes().len() as int,
                        target.name@,
                        target.payload@.len() as int,
                    ) is None
                    &&& rule.wf()
                    &&& rule.spec_order() == self.spec_order()
                    &&& rule.bytes() == finished::<E>(
                        self.spec_order(),
                        self.bytes(),
                        target.name@,
                        target.revision,
                        target.payload@,
                    )
                    &&& self.chained() ==> rule.walkable()
                },
                Err(rejected) => {
                    &&& append_error(
                        self.bytes().len() as int,
                        target.name@,
                        target.payload@.len() as int,
                    ) == Some(rejected.reason)
                    &&& rejected.builder == self
                },
            },
    {
        let mut builder = self;
        match builder.place(target) {
            Ok(at) => {
                proof {
                    E::layout_wf();
                    block_bytes_len(
                        self.order,
                        target.name@,
                        target.revision,
                        target.payload@,
                    );
                    finished_is_complete::<E>(
                        self.order,
                        self.bytes(),
                        target.name@,
                        target.revision,
                        target.payload@,
                    );
                    if self.chained() {
                        finished_is_walkable::<E>(
                            self.order,
                            self.bytes(),
                            target.name@,
                            target.revision,
                            target.payload@,
                        );
                    }
                }
                let next = builder.len;
                let RuleBuilder { arena, len, order, family } = builder;
                let mut arena = arena;
                let ghost placed = arena@;
                E::set_offsets(&mut arena, order, at, next);
                arena.truncate(next);
                assert(arena@ =~= with_offsets(
                    E::layout(),
                    order,
                    placed.subrange(0, next as int),
                    at as int,
                    next as int,
                ));
                Ok(Rule { arena, order, family })
            },
            Err(reason) => Err(Rejected { builder, reason }),
        }
    }

    /// Closes the rule with the "accept" target.
    pub fn target_accept(self) -> (r: Result<Rule<E>, Rejected<E>>)
        requires
            self.wf(),
        ensures
            match r {
                Ok(rule) => {
                    &&& self.bytes().len() + block_size(4) <= MAX_RULE_LEN
                    &&& rule.wf()
                    &&& rule.spec_order() == self.spec_order()
                    &&& rule.bytes() == finished::<E>(
                        self.spec_order(),
                        self.bytes(),
                        Seq::<u8>::empty(),
                        0,
                        i32_bytes(self.spec_order(), NF_ACCEPT),
                    )
                    &&& self.chained() ==> rule.walkable()
                },
                Err(rejected) => {
                    &&& self.bytes().len() + block_size(4) > MAX_RULE_LEN
                    &&& rejected.reason == ValidationError::RuleTooLong
                    &&& rejected.builder == self
                },
            },
    {
        let target = Extension::accept(self.order);
        self.finalize_target(&target)
    }
}


impl RuleBuilder<Ipv4Addr> {
    /// A builder for an IPv4 rule.
    pub fn ip4() -> (builder: Self)
        ensures
            builder.wf(),
            builder.bytes() == zeros(ipv4_layout().size as int),
            builder.spec_capacity() == ipv4_layout().size,
            builder.chained(),
    {
        RuleBuilder::new()
    }

    /// Stores the source address `ip` in the header, first octet first.
    /// Nothing else changes, and the arena does not grow.
    pub fn src(self, ip: Ipv4Addr) -> (builder: Self)
        requires
            self.wf(),
        ensures
            builder.wf(),
            builder.bytes() == overwrite(self.bytes(), ipv4_layout().source as int, ip@),
            builder.spec_order() == self.spec_order(),
            builder.spec_capacity() == self.spec_capacity(),
            self.chained() ==> builder.chained(),
    {
        self.set_source(&ip)
    }
}

impl RuleBuilder<Ipv6Addr> {
    /// A builder for an IPv6 rule.
    pub fn ip6() -> (builder: Self)
        ensures
            builder.wf(),
            builder.bytes() == zeros(ipv6_layout().size as int),
            builder.spec_capacity() == ipv6_layout().size,
            builder.chained(),
    {
        RuleBuilder::new()
    }

    /// Stores the source address `ip` in the header, first octet first.
    /// Nothing else changes, and the arena does not grow.
    pub fn src(self, ip: Ipv6Addr) -> (builder: Self)
        requires
            self.wf(),
        ensures
            builder.wf(),
            builder.bytes() == overwrite(self.bytes(), ipv6_layout().source as int, ip@),
            builder.spec_order() == self.spec_order(),
            builder.spec_capacity() == self.spec_capacity(),
            self.chained() ==> builder.chained(),
    {
        self.set_source(&ip)
    }
}

/// A finished rule: header, match blocks and target block in one piece, as
/// the kernel takes it. Nothing can be added to it.
#[derive(Debug)]
pub struct Rule<E: Entry> {
    arena: Arena,
    order: ByteOrder,
    family: PhantomData<E>,
}

impl<E: Entry> Clone for Rule<E> {
    /// A second rule with the same bytes.
    fn clone(&self) -> (copy: Self)
        ensures
            copy.bytes() == self.bytes(),
            copy.spec_order() == self.spec_order(),
            self.wf() ==> copy.wf(),
    {
        Rule { arena: self.arena.clone(), order: self.order, family: PhantomData }
    }
}

impl<E: Entry> PartialEq for Rule<E> {
    /// Whether the two rules are the same bytes.
    fn eq(&self, other: &Rule<E>) -> (same: bool) {
        self.arena == other.arena
    }
}

impl<E: Entry> PartialEqSpecImpl for Rule<E> {
    open spec fn obeys_eq_spec() -> bool {
        true
    }

    open spec fn eq_spec(&self, other: &Rule<E>) -> bool {
        self.bytes() == other.bytes()
    }
}

impl<E: Entry> Rule<E> {
    /// The bytes of the rule.
    pub closed spec fn bytes(&self) -> Seq<u8> {
        self.arena@
    }

    /// The byte order of the integer fields.
    pub closed spec fn spec_order(&self) -> ByteOrder {
        self.order
    }

    /// What holds of every rule.
    pub open spec fn wf(&self) -> bool {
        complete::<E>(self.spec_order(), self.bytes())
    }

    /// Whether a reader that starts behind the header and goes from block to
    /// block by the sizes they declare comes to the target block, and from
    /// there to the end of the rule. This holds of a rule whose builder got
    /// its blocks by appending extensions.
    pub open spec fn walkable(&self) -> bool {
        walkable_rule::<E>(self.spec_order(), self.bytes())
    }

    /// The whole rule, for reading. The bytes are the same at every call.
    pub fn view(&self) -> (bytes: &[u8])
        ensures
            bytes@ == self.bytes(),
    {
        self.arena.as_slice()
    }

    /// The length of the rule in bytes.
    pub fn len(&self) -> (n: usize)
        ensures
            n == self.bytes().len(),
    {
        self.arena.capacity()
    }

    /// The byte order of the integer fields.
    #[verifier::when_used_as_spec(spec_order)]
    pub fn order(&self) -> (order: ByteOrder)
        ensures
            order == self.spec_order(),
    {
        self.order
    }

    /// The position of the target block, as the header gives it.
    pub fn target_offset(&self) -> (at: usize)
        requires
            self.wf(),
        ensures
            at == u16_at(self.spec_order(), self.bytes(), E::layout().target_offset as int),
            at == self.bytes().len() - u16_at(self.spec_order(), self.bytes(), at as int),
    {
        proof {
            E::layout_wf();
        }
        let layout = E::header_layout();
        decode_u16(self.order, self.arena.as_slice(), layout.target_offset) as usize
    }

    /// The bytes of the header field `field`, or `None` where the header of
    /// the family has no such field.
    pub fn header_field(&self, field: HeaderField) -> (r: Option<Vec<u8>>)
        requires
            self.wf(),
        ensures
            match r {
                Some(value) => match E::layout().field(field) {
                    Some((at, width)) => value@ == self.bytes().subrange(at, at + width),
                    None => false,
                },
                None => E::layout().field(field) is None,
            },
    {
        proof {
            E::layout_wf();
        }
        let layout = E::header_layout();
        match layout.field_range(field) {
            Some((at, width)) => {
                assert(layout.field(field) == Some((at as int, width as int)));
                Some(slice_to_vec(slice_subrange(self.arena.as_slice(), at, at + width)))
            },
            None => None,
        }
    }

    /// What lies behind the sub-header of the target block, up to the end of
    /// the rule: the target's payload and its padding.
    pub fn target_payload(&self) -> (payload: &[u8])
        requires
            self.wf(),
        ensures
            payload@ == self.bytes().subrange(
                u16_at(self.spec_order(), self.bytes(), E::layout().target_offset as int)
                    + SUBHEADER_SIZE,
                self.bytes().len() as int,
            ),
    {
        let at = self.target_offset();
        slice_subrange(self.arena.as_slice(), at + SUBHEADER_SIZE, self.arena.capacity())
    }

    /// The end of the rule, as the header gives it: the length of the rule.
    pub fn next_offset(&self) -> (end: usize)
        requires
            self.wf(),
        ensures
            end == u16_at(self.spec_order(), self.bytes(), E::layout().next_offset as int),
            end == self.bytes().len(),
    {
        proof {
            E::layout_wf();
        }
        let layout = E::header_layout();
        decode_u16(self.order, self.arena.as_slice(), layout.next_offset) as usize
    }
}

/// Whether blocks lie back to back in the rule `bytes` from the end of the
/// header to the position that the header's first offset gives, and from
/// there to the end of the rule.
pub open spec fn walkable_rule<E: Entry>(order: ByteOrder, bytes: Seq<u8>) -> bool {
    let layout = E::layout();
    let target = u16_at(order, bytes, layout.target_offset as int);
    &&& blocks_between(order, bytes, layout.size as int, target)
    &&& blocks_between(order, bytes, target, bytes.len() as int)
}

/// Closing a rule sets offsets that agree with what was laid down: the
/// second offset of the finished rule is the rule's length, and the first is
/// the second less the size that the target block declares.
pub proof fn finished_is_complete<E: Entry>(
    order: ByteOrder,
    bytes: Seq<u8>,
    name: Seq<u8>,
    revision: u8,
    payload: Seq<u8>,
)
    requires
        in_progress::<E>(bytes),
        append_error(bytes.len() as int, name, payload.len() as int) is None,
    ensures
        complete::<E>(order, finished::<E>(order, bytes, name, revision, payload)),
        finished::<E>(order, bytes, name, revision, payload).len() == bytes.len() + block_size(
            payload.len() as int,
        ),
        u16_at(
            order,
            finished::<E>(order, bytes, name, revision, payload),
            E::layout().next_offset as int,
        ) == bytes.len() + block_size(payload.len() as int),
        u16_at(
            order,
            finished::<E>(order, bytes, name, revision, payload),
            E::layout().target_offset as int,
        ) == bytes.len(),
{
    E::layout_wf();
    let layout = E::layout();
    let block = block_bytes(order, name, revision, payload);
    block_bytes_len(order, name, revision, payload);
    let size = block_size(payload.len() as int);
    let target = bytes.len() as int;
    let next = target + size;
    let whole = bytes + block;
    let first = overwrite(whole, layout.target_offset as int, u16_bytes(order, target as u16));
    let rule = finished::<E>(order, bytes, name, revision, payload);
    assert(rule == overwrite(first, layout.next_offset as int, u16_bytes(order, next as u16)));
    u16_stored(order, first, layout.next_offset as int, next);
    u16_stored(order, whole, layout.target_offset as int, target);
    assert(u16_bytes(order, next as u16).len() == 2);
    assert(u16_bytes(order, target as u16).len() == 2);
    assert(rule[layout.target_offset as int] == first[layout.target_offset as int]);
    assert(rule[layout.target_offset + 1] == first[layout.target_offset + 1]);
    block_bytes_at(order, name, revision, payload, 0);
    block_bytes_at(order, name, revision, payload, 1);
    assert(rule[target] == block[0]);
    assert(rule[target + 1] == block[1]);
    let declared = u16_bytes(order, size as u16);
    assert(block[0] == declared[0] && block[1] == declared[1]);
    assert(u16_at(order, rule, target) == size);
}

/// Closing a rule keeps its blocks in a row: where the blocks of the builder
/// lie back to back behind the header, the finished rule can be walked from
/// the header to the target block and on to its end.
pub proof fn finished_is_walkable<E: Entry>(
    order: ByteOrder,
    bytes: Seq<u8>,
    name: Seq<u8>,
    revision: u8,
    payload: Seq<u8>,
)
    requires
        in_progress::<E>(bytes),
        append_error(bytes.len() as int, name, payload.len() as int) is None,
        blocks_between(order, bytes, E::layout().size as int, bytes.len() as int),
    ensures
        walkable_rule::<E>(order, finished::<E>(order, bytes, name, revision, payload)),
{
    E::layout_wf();
    let layout = E::layout();
    let block = block_bytes(order, name, revision, payload);
    block_bytes_len(order, name, revision, payload);
    let size = block_size(payload.len() as int);
    let whole = bytes + block;
    let rule = finished::<E>(order, bytes, name, revision, payload);
    let target = bytes.len() as int;
    finished_is_complete::<E>(order, bytes, name, revision, payload);
    assert(u16_bytes(order, target as u16).len() == 2);
    assert(u16_bytes(order, (target + size) as u16).len() == 2);
    assert forall|i: int| layout.size <= i < rule.len() implies whole[i] == rule[i] by {}
    blocks_between_same(order, bytes, whole, layout.size as int, target);
    blocks_between_same(order, whole, rule, layout.size as int, target);
    appended_block_keeps_row(order, bytes, name, revision, payload, target);
    assert(blocks_between(order, bytes, target, target));
    blocks_between_same(order, whole, rule, target, target + size);
}

/// What was written before a block is appended is still there afterwards,
/// byte for byte, whether or not the arena had to grow for the block.
pub proof fn append_keeps_prior_bytes(
    order: ByteOrder,
    bytes: Seq<u8>,
    name: Seq<u8>,
    revision: u8,
    payload: Seq<u8>,
)
    ensures
        (bytes + block_bytes(order, name, revision, payload)).subrange(0, bytes.len() as int)
            == bytes,
{
    let whole = bytes + block_bytes(order, name, revision, payload);
    assert(whole.subrange(0, bytes.len() as int) =~= bytes);
}

/// Closing a rule changes nothing but the two offsets of the header: the
/// header fields before them and the match blocks are in the finished rule
/// as they were in the builder.
pub proof fn finished_keeps_fields_and_blocks<E: Entry>(
    order: ByteOrder,
    bytes: Seq<u8>,
    name: Seq<u8>,
    revision: u8,
    payload: Seq<u8>,
)
    requires
        in_progress::<E>(bytes),
    ensures
        ({
            let layout = E::layout();
            let rule = finished::<E>(order, bytes, name, revision, payload);
            &&& rule.subrange(0, layout.target_offset as int) == bytes.subrange(
                0,
                layout.target_offset as int,
            )
            &&& rule.subrange(layout.size as int, bytes.len() as int) == bytes.subrange(
                layout.size as int,
                bytes.len() as int,
            )
        }),
{
    E::layout_wf();
    let layout = E::layout();
    let rule = finished::<E>(order, bytes, name, revision, payload);
    let target = bytes.len() as int;
    let next = target + block_size(payload.len() as int);
    assert(u16_bytes(order, target as u16).len() == 2);
    assert(u16_bytes(order, next as u16).len() == 2);
    assert(rule.subrange(0, layout.target_offset as int) =~= bytes.subrange(
        0,
        layout.target_offset as int,
    ));
    assert(rule.subrange(layout.size as int, target) =~= bytes.subrange(
        layout.size as int,
        target,
    ));
}

/// Where the rule has room for a comment match, a text without a zero byte
/// is taken if it has at most 255 bytes, and turned away as too long if it
/// has more.
pub proof fn comment_limit(len: int, text: Seq<u8>)
    requires
        !has_nul(text),
        len + block_size(MAX_COMMENT_LEN as int) <= MAX_RULE_LEN,
    ensures
        text.len() <= 255 ==> comment_append_error(len, text) is None,
        text.len() >= 256 ==> comment_append_error(len, text) == Some(
            ValidationError::CommentTooLong,
        ),
{
    assert(!has_nul(comment_name())) by {
        assert forall|i: int| 0 <= i < comment_name().len() implies comment_name()[i] != 0 by {}
    }
}

/// A rule made by storing the source address `ip` in a builder and closing
/// it with the "accept" target holds `ip` in the source field of its header,
/// and the payload of its target block reads as the verdict `NF_ACCEPT`.
pub proof fn accepted_rule_decodes<E: Entry>(order: ByteOrder, bytes: Seq<u8>, ip: E)
    requires
        in_progress::<E>(bytes),
        bytes.len() + block_size(4) <= MAX_RULE_LEN,
    ensures
        ({
            let layout = E::layout();
            let rule = finished::<E>(
                order,
                overwrite(bytes, layout.source as int, ip.wire()),
                Seq::<u8>::empty(),
                0,
                i32_bytes(order, NF_ACCEPT),
            );
            &&& rule.subrange(layout.source as int, layout.source + layout.address_len)
                == ip.wire()
            &&& u16_at(order, rule, layout.target_offset as int) == bytes.len()
            &&& i32_at(order, rule, bytes.len() + SUBHEADER_SIZE) == NF_ACCEPT
        }),
{
    E::layout_wf();
    ip.wire_len();
    let layout = E::layout();
    assert(layout.field(HeaderField::Source) == Some(
        (layout.source as int, layout.address_len as int),
    ));
    let name = Seq::<u8>::empty();
    let payload = i32_bytes(order, NF_ACCEPT);
    let with_source = overwrite(bytes, layout.source as int, ip.wire());
    let block = block_bytes(order, name, 0, payload);
    let rule = finished::<E>(order, with_source, name, 0, payload);
    let target = bytes.len() as int;
    assert(payload.len() == 4);
    assert(!has_nul(name));
    block_bytes_len(order, name, 0, payload);
    finished_is_complete::<E>(order, with_source, name, 0, payload);
    assert(u16_bytes(order, target as u16).len() == 2);
    assert(u16_bytes(order, (target + block_size(4)) as u16).len() == 2);
    assert(rule.subrange(layout.source as int, layout.source + layout.address_len) =~= ip.wire());
    assert forall|i: int| 0 <= i < 4 implies #[trigger] rule[target + SUBHEADER_SIZE + i]
        == payload[i] by {
        block_bytes_at(order, name, 0, payload, SUBHEADER_SIZE + i);
    }
    assert(rule.subrange(target + SUBHEADER_SIZE, target + SUBHEADER_SIZE + 4) =~= payload) by {
        assert forall|i: int| 0 <= i < 4 implies rule.subrange(
            target + SUBHEADER_SIZE,
            target + SUBHEADER_SIZE + 4,
        )[i] == payload[i] by {
            assert(rule[target + SUBHEADER_SIZE + i] == payload[i]);
        }
    }
    i32_round_trip(order, NF_ACCEPT, rule, target + SUBHEADER_SIZE);
}

/// The bytes of a rule are the same at every reading: whatever `view` gives
/// for a rule at one call, it gives at the next.
pub proof fn view_is_stable<E: Entry>(rule: &Rule<E>, first: &[u8], second: &[u8])
    requires
        call_ensures(Rule::<E>::view, (rule,), first),
        call_ensures(Rule::<E>::view, (rule,), second),
    ensures
        first@ == second@,
{
}

/// A header, one comment match and the "accept" target: the rule is as long
/// as the three together, the first offset gives the end of the comment
/// block, and the second gives the end of the rule.
pub proof fn comment_then_accept<E: Entry>(order: ByteOrder, header: Seq<u8>, text: Seq<u8>)
    requires
        in_progress::<E>(header),
        comment_error(text) is None,
        header.len() + block_size(MAX_COMMENT_LEN as int) + block_size(4) <= MAX_RULE_LEN,
    ensures
        ({
            let matched = header + block_bytes(order, comment_name(), 0, comment_payload(text));
            let rule = finished::<E>(
                order,
                matched,
                Seq::<u8>::empty(),
                0,
                i32_bytes(order, NF_ACCEPT),
            );
            &&& block_size(MAX_COMMENT_LEN as int) == 288
            &&& block_size(4) == 40
            &&& rule.len() == header.len() + 288 + 40
            &&& u16_at(order, rule, E::layout().target_offset as int) == header.len() + 288
            &&& u16_at(order, rule, E::layout().next_offset as int) == rule.len()
        }),
{
    E::layout_wf();
    let comment = comment_payload(text);
    let matched = header + block_bytes(order, comment_name(), 0, comment);
    assert(comment.len() == MAX_COMMENT_LEN);
    block_bytes_len(order, comment_name(), 0, comment);
    let verdict = i32_bytes(order, NF_ACCEPT);
    assert(verdict.len() == 4);
    assert(!has_nul(Seq::<u8>::empty()));
    assert(matched[E::layout().target_offset as int] == header[E::layout().target_offset as int]);
    assert(matched[E::layout().target_offset + 1] == header[E::layout().target_offset + 1]);
    assert(matched[E::layout().next_offset as int] == header[E::layout().next_offset as int]);
    assert(matched[E::layout().next_offset + 1] == header[E::layout().next_offset + 1]);
    finished_is_complete::<E>(order, matched, Seq::<u8>::empty(), 0, verdict);
}

} // verus!
