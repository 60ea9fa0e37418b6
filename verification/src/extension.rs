//! Extension encoders: from typed fields to the name, revision and payload
//! of a block. They place nothing and allocate no rule memory; where and how
//! a block is laid down is the builder's business.

use crate::error::ValidationError;
use crate::layout::{
    aligned, encode_i32, i32_bytes, is_aligned, u16_bytes, zeros, ByteOrder, MAX_COMMENT_LEN,
    NAME_FIELD_LEN, NAME_POS, NF_ACCEPT, REVISION_POS, SUBHEADER_SIZE,
};
use vstd::prelude::*;
use vstd::slice::slice_to_vec;
use vstd::string::StringSliceAdditionalSpecFns;

verus! {

/// What a match or target block says: which extension it is for, in which
/// revision, and the extension's own data.
#[derive(Debug)]
pub struct Extension {
    /// The extension's name, without padding or terminator.
    pub name: Vec<u8>,
    /// The revision of the extension's data layout.
    pub revision: u8,
    /// The extension's data, without alignment padding.
    pub payload: Vec<u8>,
}

impl Clone for Extension {
    /// A second extension with the same three parts.
    fn clone(&self) -> (copy: Extension)
        ensures
            copy.parts() == self.parts(),
    {
        let name = self.name.clone();
        let payload = self.payload.clone();
        assert(name@ =~= self.name@);
        assert(payload@ =~= self.payload@);
        Extension { name, revision: self.revision, payload }
    }
}

/// Whether `s` has a zero byte in it.
pub open spec fn has_nul(s: Seq<u8>) -> bool {
    exists|i: int| 0 <= i < s.len() && s[i] == 0
}

/// The name of the comment match, `comment` in ASCII.
pub open spec fn comment_name() -> Seq<u8> {
    seq![0x63u8, 0x6fu8, 0x6du8, 0x6du8, 0x65u8, 0x6eu8, 0x74u8]
}

/// The text field of a comment match: the text, then zero bytes up to the
/// field's width.
pub open spec fn comment_payload(text: Seq<u8>) -> Seq<u8> {
    text + zeros(MAX_COMMENT_LEN - text.len())
}

/// Why `text` cannot be a comment, if it cannot.
pub open spec fn comment_error(text: Seq<u8>) -> Option<ValidationError> {
    if has_nul(text) {
        Some(ValidationError::CommentHasNul)
    } else if text.len() >= MAX_COMMENT_LEN {
        Some(ValidationError::CommentTooLong)
    } else {
        None
    }
}

/// Why `name` cannot stand in the name field of a sub-header, if it cannot.
pub open spec fn name_error(name: Seq<u8>) -> Option<ValidationError> {
    if name.len() > NAME_FIELD_LEN {
        Some(ValidationError::NameTooLong)
    } else if has_nul(name) {
        Some(ValidationError::NameHasNul)
    } else {
        None
    }
}

/// The size of a block with a payload of `payload_len` bytes: sub-header and
/// payload, rounded up to whole words. This is the size that the block
/// declares in its first field.
pub open spec fn block_size(payload_len: int) -> int {
    aligned(SUBHEADER_SIZE + payload_len)
}

/// The bytes of a block: the declared size, the name padded with zeros to the
/// width of its field, the revision, the payload, and zeros up to the
/// declared size.
pub open spec fn block_bytes(order: ByteOrder, name: Seq<u8>, revision: u8, payload: Seq<u8>) -> Seq<
    u8,
> {
    u16_bytes(order, block_size(payload.len() as int) as u16) + name + zeros(
        NAME_FIELD_LEN - name.len(),
    ) + seq![revision] + payload + zeros(
        block_size(payload.len() as int) - SUBHEADER_SIZE - payload.len(),
    )
}

/// A block is as long as it declares.
pub proof fn block_bytes_len(order: ByteOrder, name: Seq<u8>, revision: u8, payload: Seq<u8>)
    requires
        name.len() <= NAME_FIELD_LEN,
    ensures
        block_bytes(order, name, revision, payload).len() == block_size(payload.len() as int),
        is_aligned(block_size(payload.len() as int)),
        block_size(payload.len() as int) >= SUBHEADER_SIZE + payload.len(),
{
    assert(u16_bytes(order, block_size(payload.len() as int) as u16).len() == 2);
}

/// The byte at position `i` of a block, field by field.
pub proof fn block_bytes_at(
    order: ByteOrder,
    name: Seq<u8>,
    revision: u8,
    payload: Seq<u8>,
    i: int,
)
    requires
        name.len() <= NAME_FIELD_LEN,
        0 <= i < block_size(payload.len() as int),
    ensures
        block_bytes(order, name, revision, payload)[i] == if i < NAME_POS {
            u16_bytes(order, block_size(payload.len() as int) as u16)[i]
        } else if i < NAME_POS + name.len() {
            name[i - NAME_POS]
        } else if i < REVISION_POS {
            0u8
        } else if i == REVISION_POS {
            revision
        } else if i < SUBHEADER_SIZE + payload.len() {
            payload[i - SUBHEADER_SIZE]
        } else {
            0u8
        },
{
    assert(u16_bytes(order, block_size(payload.len() as int) as u16).len() == 2);
}

/// Looks for a zero byte in `s`.
pub fn contains_nul(s: &[u8]) -> (found: bool)
    ensures
        found == has_nul(s@),
{
    let n = s.len();
    let mut i: usize = 0;
    while i < n
        invariant
            n == s@.len(),
            i <= n,
            forall|j: int| 0 <= j < i ==> s@[j] != 0,
        decreases n - i,
    {
        if s[i] == 0 {
            return true;
        }
        i += 1;
    }
    false
}

impl Extension {
    /// The three parts of the extension, as sequences.
    pub open spec fn parts(&self) -> (Seq<u8>, u8, Seq<u8>) {
        (self.name@, self.revision, self.payload@)
    }

    /// The bytes of the block that carries this extension.
    pub open spec fn block(&self, order: ByteOrder) -> Seq<u8> {
        block_bytes(order, self.name@, self.revision, self.payload@)
    }

    /// An extension from its three parts, taken as they are. Whether the name
    /// fits is looked at when the extension is placed.
    pub fn new(name: &[u8], revision: u8, payload: &[u8]) -> (ext: Extension)
        ensures
            ext.parts() == (name@, revision, payload@),
    {
        Extension { name: slice_to_vec(name), revision, payload: slice_to_vec(payload) }
    }

    /// The comment match: name `comment`, revision 0, and the text in a
    /// zero-padded field of `MAX_COMMENT_LEN` bytes. A text that leaves no
    /// room for the terminator, or that has a zero byte in it, is turned
    /// away.
    pub fn comment(text: &str) -> (r: Result<Extension, ValidationError>)
        ensures
            match r {
                Ok(ext) => comment_error(text.spec_bytes()) is None && ext.parts() == (
                    comment_name(),
                    0u8,
                    comment_payload(text.spec_bytes()),
                ),
                Err(e) => comment_error(text.spec_bytes()) == Some(e),
            },
    {
        let bytes = text.as_bytes();
        if contains_nul(bytes) {
            return Err(ValidationError::CommentHasNul);
        }
        if bytes.len() >= MAX_COMMENT_LEN {
            return Err(ValidationError::CommentTooLong);
        }
        let mut payload = slice_to_vec(bytes);
        payload.resize(MAX_COMMENT_LEN, 0u8);
        assert(payload@ =~= comment_payload(bytes@));
        let name: Vec<u8> = vec![0x63u8, 0x6fu8, 0x6du8, 0x6du8, 0x65u8, 0x6eu8, 0x74u8];
        assert(name@ =~= comment_name());
        Ok(Extension { name, revision: 0, payload })
    }

    /// The "accept" target: no name, revision 0, and the verdict `NF_ACCEPT`
    /// as a four-byte integer in the given byte order.
    pub fn accept(order: ByteOrder) -> (ext: Extension)
        ensures
            ext.parts() == (Seq::<u8>::empty(), 0u8, i32_bytes(order, NF_ACCEPT)),
    {
        let name: Vec<u8> = Vec::new();
        Extension { name, revision: 0, payload: encode_i32(order, NF_ACCEPT) }
    }

    /// Looks at whether the name fits the name field of a sub-header.
    pub fn check_name(&self) -> (r: Result<(), ValidationError>)
        ensures
            match r {
                Ok(_) => name_error(self.name@) is None,
                Err(e) => name_error(self.name@) == Some(e),
            },
    {
        if self.name.len() > NAME_FIELD_LEN {
            Err(ValidationError::NameTooLong)
        } else if contains_nul(self.name.as_slice()) {
            Err(ValidationError::NameHasNul)
        } else {
            Ok(())
        }
    }
}

} // verus!
