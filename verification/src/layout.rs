//! Sizes, positions and integer encodings of the rule format.
//!
//! Everything here is pure: constants, functions on byte sequences, and the
//! executable code that computes them.

use vstd::prelude::*;

verus! {

/// Blocks start and end on multiples of this many bytes (the machine word).
pub const ALIGN: usize = 8;

/// Bytes of the sub-header that opens every match and target block.
pub const SUBHEADER_SIZE: usize = 32;

/// Position of the name field inside a sub-header.
pub const NAME_POS: usize = 2;

/// Width of the name field of a sub-header.
pub const NAME_FIELD_LEN: usize = 29;

/// Position of the revision byte inside a sub-header.
pub const REVISION_POS: usize = 31;

/// Width of the text field of a comment match, terminator included.
pub const MAX_COMMENT_LEN: usize = 256;

/// Largest length a rule can have: the header's offsets are 16 bits wide and
/// every block boundary is a multiple of `ALIGN`.
pub const MAX_RULE_LEN: usize = 65528;

/// Verdict of the "accept" target.
pub const NF_ACCEPT: i32 = 1;

/// Whether `n` is a multiple of `ALIGN`.
pub open spec fn is_aligned(n: int) -> bool {
    n % 8 == 0
}

/// `n` rounded up to the next multiple of `ALIGN`.
pub open spec fn aligned(n: int) -> int {
    (n + 7) / 8 * 8
}

/// A sequence of `n` zero bytes.
pub open spec fn zeros(n: int) -> Seq<u8> {
    Seq::new(n as nat, |i: int| 0u8)
}

/// `s` with the bytes from position `at` on replaced by `data`.
pub open spec fn overwrite(s: Seq<u8>, at: int, data: Seq<u8>) -> Seq<u8> {
    Seq::new(
        s.len(),
        |i: int|
            if at <= i < at + data.len() {
                data[i - at]
            } else {
                s[i]
            },
    )
}

/// What `aligned` gives: the least multiple of `ALIGN` that is not below `n`.
pub proof fn aligned_is_least_multiple(n: int)
    requires
        0 <= n,
    ensures
        is_aligned(aligned(n)),
        n <= aligned(n) < n + ALIGN,
        is_aligned(n) ==> aligned(n) == n,
{
}

/// `is_aligned` and `aligned` in terms of `ALIGN`.
pub proof fn alignment_is_by_align(n: int)
    ensures
        is_aligned(n) <==> n % (ALIGN as int) == 0,
        aligned(n) == (n + (ALIGN - 1)) / (ALIGN as int) * ALIGN,
{
}

/// Rounds `n` up to the next multiple of `ALIGN`.
pub fn align_up(n: usize) -> (r: usize)
    requires
        aligned(n as int) <= usize::MAX,
    ensures
        r == aligned(n as int),
{
    let over = n % ALIGN;
    if over == 0 {
        n
    } else {
        n - over + ALIGN
    }
}

/// The order in which the bytes of a multi-byte integer field are stored.
/// The rule format stores integers as the host keeps them in memory.
#[derive(Clone, Copy, Debug, PartialEq, Eq, Structural)]
pub enum ByteOrder {
    /// Least significant byte first.
    Little,
    /// Most significant byte first.
    Big,
}

/// The two bytes of `x` in the given order.
pub open spec fn u16_bytes(order: ByteOrder, x: u16) -> Seq<u8> {
    match order {
        ByteOrder::Little => seq![(x % 256) as u8, (x / 256) as u8],
        ByteOrder::Big => seq![(x / 256) as u8, (x % 256) as u8],
    }
}

/// The number that the two bytes of `s` from position `at` on stand for.
pub open spec fn u16_at(order: ByteOrder, s: Seq<u8>, at: int) -> int {
    match order {
        ByteOrder::Little => s[at] + 256 * s[at + 1],
        ByteOrder::Big => 256 * s[at] + s[at + 1],
    }
}

/// The four bytes of `x` in the given order.
pub open spec fn u32_bytes(order: ByteOrder, x: u32) -> Seq<u8> {
    match order {
        ByteOrder::Little => seq![
            (x % 256) as u8,
            (x / 256 % 256) as u8,
            (x / 65536 % 256) as u8,
            (x / 16777216) as u8,
        ],
        ByteOrder::Big => seq![
            (x / 16777216) as u8,
            (x / 65536 % 256) as u8,
            (x / 256 % 256) as u8,
            (x % 256) as u8,
        ],
    }
}

/// The number that the four bytes of `s` from position `at` on stand for.
pub open spec fn u32_at(order: ByteOrder, s: Seq<u8>, at: int) -> int {
    match order {
        ByteOrder::Little => s[at] + 256 * s[at + 1] + 65536 * s[at + 2] + 16777216 * s[at + 3],
        ByteOrder::Big => 16777216 * s[at] + 65536 * s[at + 1] + 256 * s[at + 2] + s[at + 3],
    }
}

/// The unsigned number with the same 32 bits as `x` in two's complement.
pub open spec fn twos_complement(x: i32) -> int {
    if x >= 0 {
        x as int
    } else {
        x + 0x1_0000_0000
    }
}

/// The four bytes of the signed `x`, in two's complement, in the given order.
pub open spec fn i32_bytes(order: ByteOrder, x: i32) -> Seq<u8> {
    u32_bytes(order, twos_complement(x) as u32)
}

/// The signed number that the four bytes of `s` from position `at` on stand
/// for in two's complement.
pub open spec fn i32_at(order: ByteOrder, s: Seq<u8>, at: int) -> int {
    let unsigned = u32_at(order, s, at);
    if unsigned < 0x8000_0000 {
        unsigned
    } else {
        unsigned - 0x1_0000_0000
    }
}

/// `std`'s `u16::to_ne_bytes`: the two bytes of `x` as the host keeps them in
/// memory. Its documentation gives the result as that of `to_le_bytes` or of
/// `to_be_bytes`, by the target's endianness; the contract says no more.
#[verifier::external_body]
fn native_bytes(x: u16) -> (b: [u8; 2])
    ensures
        b@ == u16_bytes(ByteOrder::Little, x) || b@ == u16_bytes(ByteOrder::Big, x),
{
    x.to_ne_bytes()
}

impl ByteOrder {
    /// The order that stored the number one as the two bytes `probe`.
    pub fn of_probe(probe: &[u8; 2]) -> (order: ByteOrder)
        ensures
            order == if probe@[0] == 1 {
                ByteOrder::Little
            } else {
                ByteOrder::Big
            },
            probe@ == u16_bytes(ByteOrder::Little, 1) ==> order == ByteOrder::Little,
            probe@ == u16_bytes(ByteOrder::Big, 1) ==> order == ByteOrder::Big,
    {
        if probe[0] == 1 {
            ByteOrder::Little
        } else {
            ByteOrder::Big
        }
    }

    /// The order of the machine this code runs on, found by looking at how it
    /// stores the number one.
    pub fn host() -> (order: ByteOrder) {
        let probe = native_bytes(1);
        ByteOrder::of_probe(&probe)
    }
}

/// A number stored as a 16-bit field can be read back from where it was
/// stored.
pub proof fn u16_stored(order: ByteOrder, s: Seq<u8>, at: int, x: int)
    requires
        0 <= at,
        at + 2 <= s.len(),
        0 <= x <= u16::MAX,
    ensures
        u16_at(order, overwrite(s, at, u16_bytes(order, x as u16)), at) == x,
{
    let b = u16_bytes(order, x as u16);
    let t = overwrite(s, at, b);
    assert(b.len() == 2);
    assert(t[at] == b[0]);
    assert(t[at + 1] == b[1]);
}

/// Decoding undoes encoding: the four bytes of `x`, wherever they lie in a
/// sequence, stand for `x`.
pub proof fn u32_round_trip(order: ByteOrder, x: u32, s: Seq<u8>, at: int)
    requires
        0 <= at,
        at + 4 <= s.len(),
        s.subrange(at, at + 4) == u32_bytes(order, x),
    ensures
        u32_at(order, s, at) == x,
{
    let b = s.subrange(at, at + 4);
    assert(b[0] == s[at] && b[1] == s[at + 1] && b[2] == s[at + 2] && b[3] == s[at + 3]);
}

/// Decoding undoes encoding for signed four-byte fields.
pub proof fn i32_round_trip(order: ByteOrder, x: i32, s: Seq<u8>, at: int)
    requires
        0 <= at,
        at + 4 <= s.len(),
        s.subrange(at, at + 4) == i32_bytes(order, x),
    ensures
        i32_at(order, s, at) == x,
{
    u32_round_trip(order, twos_complement(x) as u32, s, at);
}

/// Encodes a 16-bit field.
pub fn encode_u16(order: ByteOrder, x: u16) -> (b: Vec<u8>)
    ensures
        b@ == u16_bytes(order, x),
{
    let low: u8 = (x % 256) as u8;
    let high: u8 = (x / 256) as u8;
    let b = match order {
        ByteOrder::Little => vec![low, high],
        ByteOrder::Big => vec![high, low],
    };
    assert(b@ =~= u16_bytes(order, x));
    b
}

/// Decodes the 16-bit field that starts at position `at` of `s`.
pub fn decode_u16(order: ByteOrder, s: &[u8], at: usize) -> (x: u16)
    requires
        at + 2 <= s@.len(),
    ensures
        x == u16_at(order, s@, at as int),
{
    let first: u16 = s[at] as u16;
    let second: u16 = s[at + 1] as u16;
    match order {
        ByteOrder::Little => first + 256 * second,
        ByteOrder::Big => 256 * first + second,
    }
}

/// Encodes a signed 32-bit field.
pub fn encode_i32(order: ByteOrder, x: i32) -> (b: Vec<u8>)
    ensures
        b@ == i32_bytes(order, x),
{
    let u: u32 = if x >= 0 {
        x as u32
    } else {
        ((x + i32::MAX) + 1) as u32 + 0x8000_0000u32
    };
    assert(u == twos_complement(x));
    let b0: u8 = (u % 256) as u8;
    let b1: u8 = (u / 256 % 256) as u8;
    let b2: u8 = (u / 65536 % 256) as u8;
    let b3: u8 = (u / 16777216) as u8;
    let b = match order {
        ByteOrder::Little => vec![b0, b1, b2, b3],
        ByteOrder::Big => vec![b3, b2, b1, b0],
    };
    assert(b@ =~= i32_bytes(order, x));
    b
}

/// Decodes the signed 32-bit field that starts at position `at` of `s`.
pub fn decode_i32(order: ByteOrder, s: &[u8], at: usize) -> (x: i32)
    requires
        at + 4 <= s@.len(),
    ensures
        x == i32_at(order, s@, at as int),
{
    let n = s.len();
    assert(at + 4 <= n);
    let (b0, b1, b2, b3) = match order {
        ByteOrder::Little => (s[at], s[at + 1], s[at + 2], s[at + 3]),
        ByteOrder::Big => (s[at + 3], s[at + 2], s[at + 1], s[at]),
    };
    let low: u32 = b0 as u32 + 256 * (b1 as u32) + 65536 * (b2 as u32);
    if b3 < 128 {
        (low + 16777216 * (b3 as u32)) as i32
    } else {
        let high: i32 = (b3 as i32 - 256) * 16777216;
        high + low as i32
    }
}

} // verus!
