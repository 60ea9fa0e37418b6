use ip6tables::error::ValidationError;
use ip6tables::extension::Extension;
use ip6tables::family::{HeaderField, Ipv4Addr, Ipv6Addr};
use ip6tables::layout::{decode_i32, ByteOrder, NF_ACCEPT};
use ip6tables::rule::{Entry, Rule, RuleBuilder};

const IP4_HEADER: usize = 112;
const IP6_HEADER: usize = 168;
const COMMENT_BLOCK: usize = 288;
const ACCEPT_BLOCK: usize = 40;

fn host_u16(bytes: &[u8], at: usize) -> usize {
    u16::from_ne_bytes([bytes[at], bytes[at + 1]]) as usize
}

/// Reads an address written as hexadecimal groups with at most one `::`.
fn parse_ip6(text: &str) -> Ipv6Addr {
    let groups = |part: &str| -> Vec<u16> {
        part.split(':')
            .filter(|g| !g.is_empty())
            .map(|g| u16::from_str_radix(g, 16).unwrap())
            .collect()
    };
    let (head, tail) = match text.split_once("::") {
        Some((head, tail)) => (groups(head), groups(tail)),
        None => (groups(text), Vec::new()),
    };
    let mut g = [0u16; 8];
    g[..head.len()].copy_from_slice(&head);
    g[8 - tail.len()..].copy_from_slice(&tail);
    Ipv6Addr::new(g[0], g[1], g[2], g[3], g[4], g[5], g[6], g[7])
}

fn documentation_prefix() -> Ipv6Addr {
    parse_ip6("2001:db8::")
}

#[test]
fn build_rule() {
    let builder = RuleBuilder::ip6()
        .src(documentation_prefix())
        .match_comment("hello world")
        .unwrap();
    let rule: Rule<_> = builder.target_accept().unwrap();

    assert_eq!(rule.len(), IP6_HEADER + COMMENT_BLOCK + ACCEPT_BLOCK);
    assert_eq!(rule.target_offset(), IP6_HEADER + COMMENT_BLOCK);
    assert_eq!(rule.next_offset(), rule.len());
}

#[test]
fn parsed_prefix_equals_its_groups() {
    assert_eq!(documentation_prefix(), Ipv6Addr::new(0x2001, 0xdb8, 0, 0, 0, 0, 0, 0));
    assert_eq!(
        documentation_prefix().octets(),
        [0x20, 0x01, 0x0d, 0xb8, 0, 0, 0, 0, 0, 0, 0, 0, 0, 0, 0, 0]
    );
}

#[test]
fn new_builder_is_a_zeroed_header() {
    let four = RuleBuilder::ip4();
    assert_eq!(four.len(), IP4_HEADER);
    assert_eq!(four.capacity(), IP4_HEADER);
    assert_eq!(four.view(), &[0u8; IP4_HEADER][..]);

    let six = RuleBuilder::ip6();
    assert_eq!(six.len(), IP6_HEADER);
    assert_eq!(six.capacity(), IP6_HEADER);
    assert_eq!(six.view(), &[0u8; IP6_HEADER][..]);

    let generic: RuleBuilder<Ipv4Addr> = RuleBuilder::new();
    assert_eq!(generic.view(), four.view());
    assert_eq!(generic.order(), ByteOrder::host());
}

#[test]
fn end_to_end_ipv6() {
    let rule = RuleBuilder::ip6()
        .src(Ipv6Addr::new(0x2001, 0xdb8, 0, 0, 0, 0, 0, 0))
        .match_comment("hello world")
        .unwrap()
        .target_accept()
        .unwrap();
    let bytes = rule.view();
    assert_eq!(bytes.len(), 496);
    assert_eq!(host_u16(bytes, 140), 456);
    assert_eq!(host_u16(bytes, 142), 496);
    assert_eq!(rule.target_offset(), 456);
    assert_eq!(rule.next_offset(), 496);
}

#[test]
fn end_to_end_ipv4() {
    let rule = RuleBuilder::ip4()
        .src(Ipv4Addr::new(192, 0, 2, 0))
        .match_comment("hello world")
        .unwrap()
        .target_accept()
        .unwrap();
    let bytes = rule.view();
    assert_eq!(bytes.len(), 440);
    assert_eq!(host_u16(bytes, 88), 400);
    assert_eq!(host_u16(bytes, 90), 440);
    assert_eq!(rule.target_offset(), 400);
    assert_eq!(rule.next_offset(), 440);
}

#[test]
fn whole_rule_little_endian() {
    let rule = RuleBuilder::<Ipv4Addr>::with_order(ByteOrder::Little)
        .src(Ipv4Addr::new(192, 0, 2, 1))
        .match_comment("hi")
        .unwrap()
        .target_accept()
        .unwrap();
    let mut expected = vec![0u8; 440];
    expected[0..4].copy_from_slice(&[192, 0, 2, 1]);
    expected[88..90].copy_from_slice(&[0x90, 0x01]);
    expected[90..92].copy_from_slice(&[0xb8, 0x01]);
    expected[112..114].copy_from_slice(&[0x20, 0x01]);
    expected[114..121].copy_from_slice(b"comment");
    expected[144..146].copy_from_slice(b"hi");
    expected[400..402].copy_from_slice(&[0x28, 0x00]);
    expected[432..436].copy_from_slice(&[1, 0, 0, 0]);
    assert_eq!(rule.view(), &expected[..]);
}

#[test]
fn whole_rule_big_endian() {
    let rule = RuleBuilder::<Ipv6Addr>::with_order(ByteOrder::Big)
        .src(Ipv6Addr::new(0x2001, 0xdb8, 0, 0, 0, 0, 0, 1))
        .match_comment("hi")
        .unwrap()
        .target_accept()
        .unwrap();
    let mut expected = vec![0u8; 496];
    expected[0..4].copy_from_slice(&[0x20, 0x01, 0x0d, 0xb8]);
    expected[15] = 1;
    expected[140..142].copy_from_slice(&[0x01, 0xc8]);
    expected[142..144].copy_from_slice(&[0x01, 0xf0]);
    expected[168..170].copy_from_slice(&[0x01, 0x20]);
    expected[170..177].copy_from_slice(b"comment");
    expected[200..202].copy_from_slice(b"hi");
    expected[456..458].copy_from_slice(&[0x00, 0x28]);
    expected[488..492].copy_from_slice(&[0, 0, 0, 1]);
    assert_eq!(rule.view(), &expected[..]);
    assert_eq!(rule.order(), ByteOrder::Big);
}

fn check_offsets<E: Entry>(rule: &Rule<E>, header: usize, target_block: usize) {
    let bytes = rule.view();
    assert_eq!(rule.next_offset(), bytes.len());
    assert_eq!(rule.target_offset(), rule.next_offset() - target_block);
    let declared = host_u16(bytes, rule.target_offset());
    assert_eq!(declared, target_block);
    let mut at = header;
    while at < rule.target_offset() {
        let size = host_u16(bytes, at);
        assert!(size >= 32 && size % 8 == 0);
        at += size;
    }
    assert_eq!(at, rule.target_offset());
}

#[test]
fn offsets_after_any_number_of_matches() {
    for matches in 0..6 {
        let mut builder = RuleBuilder::ip6();
        for i in 0..matches {
            let payload = vec![7u8; 3 * i + 1];
            let ext = Extension::new(b"mark", 1, &payload);
            builder = builder.append_extension(&ext).unwrap();
        }
        let target = Extension::new(b"LOG", 0, &[1, 2, 3, 4, 5, 6, 7, 8, 9]);
        let rule = builder.finalize_target(&target).unwrap();
        check_offsets(&rule, IP6_HEADER, 48);
    }
    let rule = RuleBuilder::ip4().target_accept().unwrap();
    check_offsets(&rule, IP4_HEADER, ACCEPT_BLOCK);
    assert_eq!(rule.len(), IP4_HEADER + ACCEPT_BLOCK);
}

#[test]
fn growth_keeps_what_was_written() {
    let builder = RuleBuilder::ip6()
        .src(Ipv6Addr::new(0xfe80, 0, 0, 0, 0, 0, 0, 0x55))
        .match_comment("first")
        .unwrap();
    assert_eq!(builder.capacity(), 2 * (IP6_HEADER + COMMENT_BLOCK));
    let builder = builder.match_comment("second").unwrap();
    assert_eq!(builder.capacity(), 2 * (IP6_HEADER + COMMENT_BLOCK));
    let before = builder.view().to_vec();
    assert_eq!(before.len(), IP6_HEADER + 2 * COMMENT_BLOCK);

    let builder = builder.match_comment("third").unwrap();
    assert_eq!(builder.capacity(), 2 * (IP6_HEADER + 3 * COMMENT_BLOCK));
    assert_eq!(builder.len(), IP6_HEADER + 3 * COMMENT_BLOCK);
    assert_eq!(&builder.view()[..before.len()], &before[..]);
    assert_eq!(host_u16(builder.view(), before.len()), COMMENT_BLOCK);
}

#[test]
fn extend_reserves_zeroed_words() {
    let mut builder = RuleBuilder::ip4();
    assert_eq!(builder.extend(13), Ok(IP4_HEADER));
    assert_eq!(builder.len(), IP4_HEADER + 16);
    assert_eq!(builder.capacity(), 2 * (IP4_HEADER + 16));
    assert_eq!(builder.view(), &[0u8; IP4_HEADER + 16][..]);
    assert_eq!(builder.extend(0), Ok(IP4_HEADER + 16));
    assert_eq!(builder.len(), IP4_HEADER + 16);
    assert_eq!(builder.extend(8), Ok(IP4_HEADER + 16));
    assert_eq!(builder.len(), IP4_HEADER + 24);
    assert_eq!(builder.capacity(), 2 * (IP4_HEADER + 16));
}

#[test]
fn extend_past_the_largest_rule_is_rejected() {
    let mut builder = RuleBuilder::ip4();
    assert_eq!(builder.extend(65528 - IP4_HEADER + 1), Err(ValidationError::RuleTooLong));
    assert_eq!(builder.extend(usize::MAX), Err(ValidationError::RuleTooLong));
    assert_eq!(builder.len(), IP4_HEADER);
    assert_eq!(builder.capacity(), IP4_HEADER);
    assert_eq!(builder.extend(65528 - IP4_HEADER), Ok(IP4_HEADER));
    assert_eq!(builder.len(), 65528);
    assert_eq!(builder.extend(1), Err(ValidationError::RuleTooLong));
    assert_eq!(builder.len(), 65528);
}

#[test]
fn comment_of_255_bytes_is_taken() {
    let text = "c".repeat(255);
    let builder = RuleBuilder::ip6().match_comment(&text).unwrap();
    assert_eq!(builder.len(), IP6_HEADER + COMMENT_BLOCK);
    let bytes = builder.view();
    assert_eq!(&bytes[200..455], text.as_bytes());
    assert_eq!(bytes[455], 0);
}

#[test]
fn comment_of_256_bytes_is_rejected() {
    let builder = RuleBuilder::ip6().src(Ipv6Addr::new(1, 2, 3, 4, 5, 6, 7, 8));
    let before = builder.view().to_vec();
    let capacity = builder.capacity();
    let rejected = builder.match_comment(&"c".repeat(256)).unwrap_err();
    assert_eq!(rejected.reason, ValidationError::CommentTooLong);
    assert_eq!(rejected.builder.len(), IP6_HEADER);
    assert_eq!(rejected.builder.capacity(), capacity);
    assert_eq!(rejected.builder.view(), &before[..]);

    let retried = rejected.builder.match_comment(&"c".repeat(255)).unwrap();
    assert_eq!(retried.len(), IP6_HEADER + COMMENT_BLOCK);
}

#[test]
fn comment_with_a_zero_byte_is_rejected() {
    let rejected = RuleBuilder::ip4().match_comment("a\0b").unwrap_err();
    assert_eq!(rejected.reason, ValidationError::CommentHasNul);
    assert_eq!(rejected.builder.len(), IP4_HEADER);
}

#[test]
fn name_that_does_not_fit_is_rejected() {
    let fits = Extension::new(&[b'n'; 29], 2, &[]);
    let builder = RuleBuilder::ip4().append_extension(&fits).unwrap();
    assert_eq!(builder.len(), IP4_HEADER + 32);
    assert_eq!(&builder.view()[IP4_HEADER + 2..IP4_HEADER + 31], &[b'n'; 29][..]);
    assert_eq!(builder.view()[IP4_HEADER + 31], 2);

    let long = Extension::new(&[b'n'; 30], 2, &[]);
    let rejected = builder.append_extension(&long).unwrap_err();
    assert_eq!(rejected.reason, ValidationError::NameTooLong);
    assert_eq!(rejected.builder.len(), IP4_HEADER + 32);

    let rejected = rejected.builder.finalize_target(&long).unwrap_err();
    assert_eq!(rejected.reason, ValidationError::NameTooLong);

    let cut = Extension::new(b"a\0b", 0, &[]);
    let rejected = rejected.builder.append_extension(&cut).unwrap_err();
    assert_eq!(rejected.reason, ValidationError::NameHasNul);
    let rejected = rejected.builder.finalize_target(&cut).unwrap_err();
    assert_eq!(rejected.reason, ValidationError::NameHasNul);
    assert_eq!(rejected.builder.len(), IP4_HEADER + 32);
}

#[test]
fn rule_that_grows_too_long_is_rejected() {
    let big = Extension::new(b"big", 0, &vec![0xaau8; 65100]);
    let builder = RuleBuilder::ip6().append_extension(&big).unwrap();
    assert_eq!(builder.len(), IP6_HEADER + 65136);
    let before = builder.view().to_vec();

    let rejected = builder.match_comment("no room").unwrap_err();
    assert_eq!(rejected.reason, ValidationError::RuleTooLong);
    assert_eq!(rejected.builder.view(), &before[..]);

    let rejected = rejected.builder.append_extension(&big).unwrap_err();
    assert_eq!(rejected.reason, ValidationError::RuleTooLong);

    let huge = Extension::new(b"huge", 0, &vec![0u8; 70000]);
    let rejected = rejected.builder.finalize_target(&huge).unwrap_err();
    assert_eq!(rejected.reason, ValidationError::RuleTooLong);

    let rule = rejected.builder.target_accept().unwrap();
    assert_eq!(rule.len(), IP6_HEADER + 65136 + ACCEPT_BLOCK);
    assert_eq!(rule.next_offset(), 65344);
}

#[test]
fn accept_without_room_is_rejected() {
    let mut builder = RuleBuilder::ip4();
    assert_eq!(builder.extend(65528 - IP4_HEADER - 32), Ok(IP4_HEADER));
    let rejected = builder.target_accept().unwrap_err();
    assert_eq!(rejected.reason, ValidationError::RuleTooLong);
    assert_eq!(rejected.builder.len(), 65528 - 32);
}

#[test]
fn source_and_verdict_can_be_read_back() {
    let address = Ipv6Addr::new(0x2001, 0xdb8, 0x85a3, 0, 0, 0x8a2e, 0x370, 0x7334);
    let rule = RuleBuilder::ip6().src(address).target_accept().unwrap();
    let bytes = rule.view();
    assert_eq!(&bytes[0..16], &address.octets()[..]);
    let at = rule.target_offset();
    assert_eq!(at, IP6_HEADER);
    let verdict = i32::from_ne_bytes([bytes[at + 32], bytes[at + 33], bytes[at + 34], bytes[at + 35]]);
    assert_eq!(verdict, ip6tables::layout::NF_ACCEPT);
    assert_eq!(verdict, 1);

    let address = Ipv4Addr::new(203, 0, 113, 9);
    let rule = RuleBuilder::ip4().src(address).target_accept().unwrap();
    let bytes = rule.view();
    assert_eq!(&bytes[0..4], &[203, 0, 113, 9][..]);
    let at = rule.target_offset();
    let verdict = i32::from_ne_bytes([bytes[at + 32], bytes[at + 33], bytes[at + 34], bytes[at + 35]]);
    assert_eq!(verdict, 1);
}

#[test]
fn rule_hands_out_header_fields_and_target_payload() {
    let address = Ipv6Addr::new(0x2001, 0xdb8, 0x85a3, 0, 0, 0x8a2e, 0x370, 0x7334);
    let rule = RuleBuilder::ip6()
        .src(address)
        .set_header_field(HeaderField::TrafficClass, &[0x10])
        .unwrap()
        .match_comment("between")
        .unwrap()
        .target_accept()
        .unwrap();
    assert_eq!(rule.header_field(HeaderField::Source), Some(address.octets().to_vec()));
    assert_eq!(rule.header_field(HeaderField::Destination), Some(vec![0u8; 16]));
    assert_eq!(rule.header_field(HeaderField::TrafficClass), Some(vec![0x10]));
    let payload = rule.target_payload();
    assert_eq!(payload.len(), 8);
    assert_eq!(decode_i32(rule.order(), payload, 0), NF_ACCEPT);
    assert_eq!(&payload[4..], &[0, 0, 0, 0][..]);

    let rule = RuleBuilder::ip4().src(Ipv4Addr::new(203, 0, 113, 9)).target_accept().unwrap();
    assert_eq!(rule.header_field(HeaderField::Source), Some(vec![203, 0, 113, 9]));
    assert_eq!(rule.header_field(HeaderField::SourceMask), Some(vec![0, 0, 0, 0]));
    assert_eq!(rule.header_field(HeaderField::TrafficClass), None);
    assert_eq!(decode_i32(rule.order(), rule.target_payload(), 0), 1);

    let target = Extension::new(b"MARK", 2, &[1, 2, 3, 4, 5, 6, 7, 8, 9, 10]);
    let rule = RuleBuilder::ip4().finalize_target(&target).unwrap();
    assert_eq!(rule.target_payload(), &[1, 2, 3, 4, 5, 6, 7, 8, 9, 10, 0, 0, 0, 0, 0, 0][..]);
}

#[test]
fn source_can_be_set_after_a_match() {
    let address = Ipv4Addr::new(10, 1, 2, 3);
    let early = RuleBuilder::ip4().src(address).match_comment("x").unwrap();
    let late = RuleBuilder::ip4().match_comment("x").unwrap().src(address);
    assert_eq!(early.view(), late.view());
    assert_eq!(late.capacity(), 2 * (IP4_HEADER + COMMENT_BLOCK));
}

#[test]
fn view_reads_the_same_bytes_twice() {
    let rule = RuleBuilder::ip4()
        .src(Ipv4Addr::new(198, 51, 100, 7))
        .match_comment("twice")
        .unwrap()
        .target_accept()
        .unwrap();
    let first = rule.view().to_vec();
    let second = rule.view().to_vec();
    assert_eq!(first, second);
    assert_eq!(rule.view(), rule.view());
}

#[test]
fn rules_compare_by_their_bytes() {
    let make = |text: &str| {
        RuleBuilder::ip4()
            .src(Ipv4Addr::new(198, 51, 100, 7))
            .match_comment(text)
            .unwrap()
            .target_accept()
            .unwrap()
    };
    let one = make("same");
    let two = make("same");
    let other = make("other");
    assert!(one == two);
    assert!(one != other);
    assert!(one.clone() == one);
    assert_eq!(one.clone().view(), one.view());
}

#[test]
fn cloned_builder_goes_its_own_way() {
    let builder = RuleBuilder::ip6().match_comment("shared").unwrap();
    let copy = builder.clone();
    assert_eq!(copy.view(), builder.view());
    assert_eq!(copy.capacity(), builder.capacity());
    let longer = copy.match_comment("more").unwrap();
    assert_eq!(builder.len(), IP6_HEADER + COMMENT_BLOCK);
    assert_eq!(longer.len(), IP6_HEADER + 2 * COMMENT_BLOCK);
}

#[test]
fn header_fields_are_written_in_place() {
    let builder = RuleBuilder::ip4()
        .set_header_field(HeaderField::Source, &[10, 0, 0, 1])
        .unwrap()
        .set_header_field(HeaderField::Destination, &[10, 0, 0, 2])
        .unwrap()
        .set_header_field(HeaderField::SourceMask, &[255, 255, 255, 0])
        .unwrap()
        .set_header_field(HeaderField::DestinationMask, &[255, 255, 0, 0])
        .unwrap();
    assert_eq!(builder.len(), IP4_HEADER);
    assert_eq!(builder.capacity(), IP4_HEADER);
    let mut expected = vec![0u8; IP4_HEADER];
    expected[0..16]
        .copy_from_slice(&[10, 0, 0, 1, 10, 0, 0, 2, 255, 255, 255, 0, 255, 255, 0, 0]);
    assert_eq!(builder.view(), &expected[..]);

    let builder = RuleBuilder::ip6()
        .set_header_field(HeaderField::Destination, &[0xab; 16])
        .unwrap()
        .set_header_field(HeaderField::DestinationMask, &[0xff; 16])
        .unwrap()
        .set_header_field(HeaderField::SourceMask, &[0xf0; 16])
        .unwrap()
        .set_header_field(HeaderField::TrafficClass, &[0x2e])
        .unwrap();
    let mut expected = vec![0u8; IP6_HEADER];
    expected[16..32].copy_from_slice(&[0xab; 16]);
    expected[32..48].copy_from_slice(&[0xf0; 16]);
    expected[48..64].copy_from_slice(&[0xff; 16]);
    expected[130] = 0x2e;
    assert_eq!(builder.view(), &expected[..]);
}

#[test]
fn interface_names_are_header_fields() {
    let mut name = [0u8; 16];
    name[..4].copy_from_slice(b"eth0");
    let mut mask = [0u8; 16];
    mask[..5].copy_from_slice(&[0xff; 5]);
    let builder = RuleBuilder::ip4()
        .set_header_field(HeaderField::InInterface, &name)
        .unwrap()
        .set_header_field(HeaderField::InInterfaceMask, &mask)
        .unwrap()
        .set_header_field(HeaderField::OutInterface, &[b'o'; 16])
        .unwrap()
        .set_header_field(HeaderField::OutInterfaceMask, &[0xff; 16])
        .unwrap();
    let mut expected = vec![0u8; IP4_HEADER];
    expected[16..32].copy_from_slice(&name);
    expected[32..48].copy_from_slice(&[b'o'; 16]);
    expected[48..64].copy_from_slice(&mask);
    expected[64..80].copy_from_slice(&[0xff; 16]);
    assert_eq!(builder.view(), &expected[..]);

    let rule = RuleBuilder::ip6()
        .set_header_field(HeaderField::OutInterface, &name)
        .unwrap()
        .set_header_field(HeaderField::OutInterfaceMask, &mask)
        .unwrap()
        .set_header_field(HeaderField::InInterface, &[b'i'; 16])
        .unwrap()
        .set_header_field(HeaderField::InInterfaceMask, &[0xff; 16])
        .unwrap()
        .target_accept()
        .unwrap();
    let bytes = rule.view();
    assert_eq!(&bytes[64..80], &[b'i'; 16][..]);
    assert_eq!(&bytes[80..96], &name[..]);
    assert_eq!(&bytes[96..112], &[0xff; 16][..]);
    assert_eq!(&bytes[112..128], &mask[..]);
    assert_eq!(rule.header_field(HeaderField::OutInterface), Some(name.to_vec()));

    let rejected = RuleBuilder::ip6()
        .set_header_field(HeaderField::InInterface, b"eth0")
        .unwrap_err();
    assert_eq!(rejected.reason, ValidationError::FieldMismatch);
}

#[test]
fn header_field_of_the_other_family_is_rejected() {
    let rejected = RuleBuilder::ip4()
        .set_header_field(HeaderField::TrafficClass, &[0x2e])
        .unwrap_err();
    assert_eq!(rejected.reason, ValidationError::FieldMismatch);
    assert_eq!(rejected.builder.view(), &[0u8; IP4_HEADER][..]);

    let rejected = rejected
        .builder
        .set_header_field(HeaderField::Source, &[0; 16])
        .unwrap_err();
    assert_eq!(rejected.reason, ValidationError::FieldMismatch);

    let rejected = RuleBuilder::ip6()
        .set_header_field(HeaderField::Source, &[1, 2, 3, 4])
        .unwrap_err();
    assert_eq!(rejected.reason, ValidationError::FieldMismatch);
    let rejected = rejected
        .builder
        .set_header_field(HeaderField::TrafficClass, &[])
        .unwrap_err();
    assert_eq!(rejected.reason, ValidationError::FieldMismatch);
    assert_eq!(rejected.builder.view(), &[0u8; IP6_HEADER][..]);
}

#[test]
fn src_is_the_source_field() {
    let by_name = RuleBuilder::ip4()
        .set_header_field(HeaderField::Source, &[192, 0, 2, 33])
        .unwrap();
    let by_method = RuleBuilder::ip4().src(Ipv4Addr::new(192, 0, 2, 33));
    assert_eq!(by_name.view(), by_method.view());
}
