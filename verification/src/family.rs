//! Entry headers: where the fields of the IPv4 and of the IPv6 header stand,
//! and the address types of the two families.

use crate::arena::Arena;
use crate::layout::{
    encode_u16, is_aligned, overwrite, u16_bytes, ByteOrder, MAX_RULE_LEN, SUBHEADER_SIZE,
};
use vstd::prelude::*;

verus! {

/// A field of the entry header that a caller can set.
#[derive(Clone, Copy, Debug, PartialEq, Eq, Structural)]
pub enum HeaderField {
    /// The source address.
    Source,
    /// The mask that says which bits of the source address count.
    SourceMask,
    /// The destination address.
    Destination,
    /// The mask that says which bits of the destination address count.
    DestinationMask,
    /// The name of the interface a packet came in by, padded with zeros.
    InInterface,
    /// The mask that says which bytes of the incoming interface's name count.
    InInterfaceMask,
    /// The name of the interface a packet goes out by, padded with zeros.
    OutInterface,
    /// The mask that says which bytes of the outgoing interface's name count.
    OutInterfaceMask,
    /// The traffic class byte. Only the IPv6 header has it.
    TrafficClass,
}

/// Where things stand in the entry header of one family. All positions are
/// in bytes from the start of the header.
#[derive(Clone, Copy, Debug)]
pub struct HeaderLayout {
    /// The size of the header. The first block starts here.
    pub size: usize,
    /// The width of an address and of a mask.
    pub address_len: usize,
    /// Position of the source address.
    pub source: usize,
    /// Position of the destination address.
    pub destination: usize,
    /// Position of the source mask.
    pub source_mask: usize,
    /// Position of the destination mask.
    pub destination_mask: usize,
    /// The width of an interface name and of its mask.
    pub interface_len: usize,
    /// Position of the incoming interface's name.
    pub in_interface: usize,
    /// Position of the outgoing interface's name.
    pub out_interface: usize,
    /// Position of the mask of the incoming interface's name.
    pub in_interface_mask: usize,
    /// Position of the mask of the outgoing interface's name.
    pub out_interface_mask: usize,
    /// Position of the traffic class byte, where the header has one.
    pub traffic_class: Option<usize>,
    /// Position of the 16-bit offset of the target block.
    pub target_offset: usize,
    /// Position of the 16-bit offset of the end of the rule.
    pub next_offset: usize,
}

impl HeaderLayout {
    /// Position and width of a settable field, or `None` where the header has
    /// no such field.
    pub open spec fn field(&self, field: HeaderField) -> Option<(int, int)> {
        match field {
            HeaderField::Source => Some((self.source as int, self.address_len as int)),
            HeaderField::SourceMask => Some((self.source_mask as int, self.address_len as int)),
            HeaderField::Destination => Some((self.destination as int, self.address_len as int)),
            HeaderField::DestinationMask => Some(
                (self.destination_mask as int, self.address_len as int),
            ),
            HeaderField::InInterface => Some(
                (self.in_interface as int, self.interface_len as int),
            ),
            HeaderField::InInterfaceMask => Some(
                (self.in_interface_mask as int, self.interface_len as int),
            ),
            HeaderField::OutInterface => Some(
                (self.out_interface as int, self.interface_len as int),
            ),
            HeaderField::OutInterfaceMask => Some(
                (self.out_interface_mask as int, self.interface_len as int),
            ),
            HeaderField::TrafficClass => match self.traffic_class {
                Some(at) => Some((at as int, 1int)),
                None => None,
            },
        }
    }

    /// What the builder relies on: the header is a whole number of words and
    /// leaves room for a block below the largest rule length, every settable
    /// field lies before the two offsets, and the offsets lie inside the
    /// header, one after the other.
    pub open spec fn wf(&self) -> bool {
        &&& is_aligned(self.size as int)
        &&& self.size + SUBHEADER_SIZE <= MAX_RULE_LEN
        &&& forall|f: HeaderField|
            (#[trigger] self.field(f)) matches Some((at, width)) ==> 0 < width && at + width
                <= self.target_offset
        &&& self.target_offset + 2 <= self.next_offset
        &&& self.next_offset + 2 <= self.size
    }

    /// Position and width of a settable field.
    pub fn field_range(&self, field: HeaderField) -> (r: Option<(usize, usize)>)
        ensures
            match r {
                Some((at, width)) => self.field(field) == Some((at as int, width as int)),
                None => self.field(field) is None,
            },
    {
        match field {
            HeaderField::Source => Some((self.source, self.address_len)),
            HeaderField::SourceMask => Some((self.source_mask, self.address_len)),
            HeaderField::Destination => Some((self.destination, self.address_len)),
            HeaderField::DestinationMask => Some((self.destination_mask, self.address_len)),
            HeaderField::InInterface => Some((self.in_interface, self.interface_len)),
            HeaderField::InInterfaceMask => Some((self.in_interface_mask, self.interface_len)),
            HeaderField::OutInterface => Some((self.out_interface, self.interface_len)),
            HeaderField::OutInterfaceMask => Some((self.out_interface_mask, self.interface_len)),
            HeaderField::TrafficClass => match self.traffic_class {
                Some(at) => Some((at, 1)),
                None => None,
            },
        }
    }
}

/// `bytes` with the two offsets of the header set to `target` and `next`.
pub open spec fn with_offsets(
    layout: HeaderLayout,
    order: ByteOrder,
    bytes: Seq<u8>,
    target: int,
    next: int,
) -> Seq<u8> {
    overwrite(
        overwrite(bytes, layout.target_offset as int, u16_bytes(order, target as u16)),
        layout.next_offset as int,
        u16_bytes(order, next as u16),
    )
}

/// Stores the two offsets in a header that starts at position 0 of `entry`.
pub fn store_offsets(
    layout: &HeaderLayout,
    entry: &mut Arena,
    order: ByteOrder,
    target: usize,
    next: usize,
)
    requires
        layout.wf(),
        old(entry).wf(),
        layout.size <= old(entry)@.len(),
        target <= u16::MAX,
        next <= u16::MAX,
    ensures
        final(entry).wf(),
        final(entry)@ == with_offsets(*layout, order, old(entry)@, target as int, next as int),
{
    let target_bytes = encode_u16(order, target as u16);
    entry.write(layout.target_offset, target_bytes.as_slice());
    let next_bytes = encode_u16(order, next as u16);
    entry.write(layout.next_offset, next_bytes.as_slice());
}

/// An IPv4 address, and the IPv4 family.
#[derive(Clone, Copy, Debug, PartialEq, Eq)]
pub struct Ipv4Addr {
    octets: [u8; 4],
}

/// An IPv6 address, and the IPv6 family.
#[derive(Clone, Copy, Debug, PartialEq, Eq)]
pub struct Ipv6Addr {
    octets: [u8; 16],
}

/// The most significant byte of `x`.
pub open spec fn high_byte(x: u16) -> u8 {
    (x / 256) as u8
}

/// The least significant byte of `x`.
pub open spec fn low_byte(x: u16) -> u8 {
    (x % 256) as u8
}

impl View for Ipv4Addr {
    type V = Seq<u8>;

    closed spec fn view(&self) -> Seq<u8> {
        self.octets@
    }
}

impl View for Ipv6Addr {
    type V = Seq<u8>;

    closed spec fn view(&self) -> Seq<u8> {
        self.octets@
    }
}

impl Ipv4Addr {
    /// The address `a.b.c.d`.
    pub fn new(a: u8, b: u8, c: u8, d: u8) -> (ip: Ipv4Addr)
        ensures
            ip@ == seq![a, b, c, d],
    {
        let ip = Ipv4Addr { octets: [a, b, c, d] };
        assert(ip@ =~= seq![a, b, c, d]);
        ip
    }

    /// The address with the given octets, first octet first.
    pub fn from_octets(octets: [u8; 4]) -> (ip: Ipv4Addr)
        ensures
            ip@ == octets@,
    {
        Ipv4Addr { octets }
    }

    /// An IPv4 address has four octets.
    pub proof fn has_four_octets(&self)
        ensures
            self@.len() == 4,
    {
    }

    /// The four octets, first octet first.
    pub fn octets(&self) -> (octets: [u8; 4])
        ensures
            octets@ == self@,
    {
        self.octets
    }
}

impl Ipv6Addr {
    /// The address of the eight 16-bit groups `a:b:c:d:e:f:g:h`.
    pub fn new(a: u16, b: u16, c: u16, d: u16, e: u16, f: u16, g: u16, h: u16) -> (ip: Ipv6Addr)
        ensures
            ip@ == seq![
                high_byte(a),
                low_byte(a),
                high_byte(b),
                low_byte(b),
                high_byte(c),
                low_byte(c),
                high_byte(d),
                low_byte(d),
                high_byte(e),
                low_byte(e),
                high_byte(f),
                low_byte(f),
                high_byte(g),
                low_byte(g),
                high_byte(h),
                low_byte(h),
            ],
    {
        let ip = Ipv6Addr {
            octets: [
                (a / 256) as u8,
                (a % 256) as u8,
                (b / 256) as u8,
                (b % 256) as u8,
                (c / 256) as u8,
                (c % 256) as u8,
                (d / 256) as u8,
                (d % 256) as u8,
                (e / 256) as u8,
                (e % 256) as u8,
                (f / 256) as u8,
                (f % 256) as u8,
                (g / 256) as u8,
                (g % 256) as u8,
                (h / 256) as u8,
                (h % 256) as u8,
            ],
        };
        assert(ip@ =~= seq![
            high_byte(a),
            low_byte(a),
            high_byte(b),
            low_byte(b),
            high_byte(c),
            low_byte(c),
            high_byte(d),
            low_byte(d),
            high_byte(e),
            low_byte(e),
            high_byte(f),
            low_byte(f),
            high_byte(g),
            low_byte(g),
            high_byte(h),
            low_byte(h),
        ]);
        ip
    }

    /// The address with the given octets, first octet first.
    pub fn from_octets(octets: [u8; 16]) -> (ip: Ipv6Addr)
        ensures
            ip@ == octets@,
    {
        Ipv6Addr { octets }
    }

    /// An IPv6 address has sixteen octets.
    pub proof fn has_sixteen_octets(&self)
        ensures
            self@.len() == 16,
    {
    }

    /// The sixteen octets, first octet first.
    pub fn octets(&self) -> (octets: [u8; 16])
        ensures
            octets@ == self@,
    {
        self.octets
    }
}

/// The entry header of IPv4 rules.
pub open spec fn ipv4_layout() -> HeaderLayout {
    HeaderLayout {
        size: 112,
        address_len: 4,
        source: 0,
        destination: 4,
        source_mask: 8,
        destination_mask: 12,
        interface_len: 16,
        in_interface: 16,
        out_interface: 32,
        in_interface_mask: 48,
        out_interface_mask: 64,
        traffic_class: None,
        target_offset: 88,
        next_offset: 90,
    }
}

/// The entry header of IPv6 rules.
pub open spec fn ipv6_layout() -> HeaderLayout {
    HeaderLayout {
        size: 168,
        address_len: 16,
        source: 0,
        destination: 16,
        source_mask: 32,
        destination_mask: 48,
        interface_len: 16,
        in_interface: 64,
        out_interface: 80,
        in_interface_mask: 96,
        out_interface_mask: 112,
        traffic_class: Some(130usize),
        target_offset: 140,
        next_offset: 142,
    }
}

/// The entry header of IPv4 rules.
pub fn ipv4_header() -> (layout: HeaderLayout)
    ensures
        layout == ipv4_layout(),
{
    HeaderLayout {
        size: 112,
        address_len: 4,
        source: 0,
        destination: 4,
        source_mask: 8,
        destination_mask: 12,
        interface_len: 16,
        in_interface: 16,
        out_interface: 32,
        in_interface_mask: 48,
        out_interface_mask: 64,
        traffic_class: None,
        target_offset: 88,
        next_offset: 90,
    }
}

/// The entry header of IPv6 rules.
pub fn ipv6_header() -> (layout: HeaderLayout)
    ensures
        layout == ipv6_layout(),
{
    HeaderLayout {
        size: 168,
        address_len: 16,
        source: 0,
        destination: 16,
        source_mask: 32,
        destination_mask: 48,
        interface_len: 16,
        in_interface: 64,
        out_interface: 80,
        in_interface_mask: 96,
        out_interface_mask: 112,
        traffic_class: Some(130),
        target_offset: 140,
        next_offset: 142,
    }
}

} // verus!
