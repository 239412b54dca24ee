use netlink::align::align_to;
use netlink::attr::{write_attr, write_attr_bytes, write_attr_header, write_bytes};
use netlink::attr::{AttrValue, NestedAttrs, NlAttrHeader};
use netlink::error::{IoError, NlAttrError, OtherError};
use netlink::native::htons;
use netlink::parse::{parse_attrs, NlAttrsIterator};
use netlink::text::c_string_text;
use netlink::uapi::{
    IFLA_XDP, IFLA_XDP_EXPECTED_FD, IFLA_XDP_FD, NLA_F_NESTED, NLA_HDR_LEN, NLA_TYPE_MASK,
    TCA_BPF_FD, TCA_BPF_NAME, TCA_OPTIONS,
};

const U32_LEN: usize = 4;

fn u16_from(buf: &[u8], at: usize) -> u16 {
    u16::from_ne_bytes([buf[at], buf[at + 1]])
}

fn u32_from(buf: &[u8], at: usize) -> u32 {
    u32::from_ne_bytes([buf[at], buf[at + 1], buf[at + 2], buf[at + 3]])
}

fn header_from(buf: &[u8], at: usize) -> NlAttrHeader {
    NlAttrHeader { nla_len: u16_from(buf, at), nla_type: u16_from(buf, at + 2) }
}

fn no_space<T>() -> Result<T, IoError> {
    Err(IoError::Other(OtherError::NoSpaceLeft))
}

#[test]
fn test_nested_attrs() {
    let mut buf = [0; 64];

    // write IFLA_XDP with 2 nested attrs
    let mut attrs = NestedAttrs::new(&mut buf, IFLA_XDP);
    attrs.write_attr(IFLA_XDP_FD, 42u32).unwrap();
    attrs.write_attr(IFLA_XDP_EXPECTED_FD, 24u32).unwrap();
    let len = attrs.finish().unwrap() as u16;

    // 3 nlattr headers (IFLA_XDP, IFLA_XDP_FD and IFLA_XDP_EXPECTED_FD) + the fd
    let nla_len = (NLA_HDR_LEN * 3 + U32_LEN * 2) as u16;
    assert_eq!(len, nla_len);

    // read IFLA_XDP
    let attr = header_from(&buf, 0);
    assert_eq!(attr.nla_type, NLA_F_NESTED | IFLA_XDP);
    assert_eq!(attr.nla_len, nla_len);

    // read IFLA_XDP_FD + fd
    let attr = header_from(&buf, NLA_HDR_LEN);
    assert_eq!(attr.nla_type, IFLA_XDP_FD);
    assert_eq!(attr.nla_len, (NLA_HDR_LEN + U32_LEN) as u16);
    let fd = u32_from(&buf, NLA_HDR_LEN * 2);
    assert_eq!(fd, 42);

    // read IFLA_XDP_EXPECTED_FD + fd
    let attr = header_from(&buf, NLA_HDR_LEN * 2 + U32_LEN);
    assert_eq!(attr.nla_type, IFLA_XDP_EXPECTED_FD);
    assert_eq!(attr.nla_len, (NLA_HDR_LEN + U32_LEN) as u16);
    let fd = u32_from(&buf, NLA_HDR_LEN * 3 + U32_LEN);
    assert_eq!(fd, 24);
}

#[test]
fn test_nlattr_iterator_empty() {
    let mut iter = NlAttrsIterator::new(&[]);
    assert!(iter.next().is_none());
}

#[test]
fn test_nlattr_iterator_one() {
    let mut buf = [0; NLA_HDR_LEN + U32_LEN];

    write_attr(&mut buf, 0, IFLA_XDP_FD, 42u32).unwrap();

    let mut iter = NlAttrsIterator::new(&buf);
    let attr = iter.next().unwrap().unwrap();
    assert_eq!(attr.header.nla_type, IFLA_XDP_FD);
    assert_eq!(attr.data.len(), U32_LEN);
    assert_eq!(u32::from_ne_bytes(attr.data.try_into().unwrap()), 42);

    assert!(iter.next().is_none());
}

#[test]
fn test_nlattr_iterator_many() {
    let mut buf = [0; (NLA_HDR_LEN + U32_LEN) * 2];

    write_attr(&mut buf, 0, IFLA_XDP_FD, 42u32).unwrap();
    write_attr(&mut buf, NLA_HDR_LEN + U32_LEN, IFLA_XDP_EXPECTED_FD, 12u32).unwrap();

    let mut iter = NlAttrsIterator::new(&buf);

    let attr = iter.next().unwrap().unwrap();
    assert_eq!(attr.header.nla_type, IFLA_XDP_FD);
    assert_eq!(attr.data.len(), U32_LEN);
    assert_eq!(u32::from_ne_bytes(attr.data.try_into().unwrap()), 42);

    let attr = iter.next().unwrap().unwrap();
    assert_eq!(attr.header.nla_type, IFLA_XDP_EXPECTED_FD);
    assert_eq!(attr.data.len(), U32_LEN);
    assert_eq!(u32::from_ne_bytes(attr.data.try_into().unwrap()), 12);

    assert!(iter.next().is_none());
}

#[test]
fn test_nlattr_iterator_nested() {
    let mut buf = [0; 1024];

    let mut options = NestedAttrs::new(&mut buf, TCA_OPTIONS);
    options.write_attr(TCA_BPF_FD, 42i32).unwrap();

    let name = b"foo\0";
    options.write_attr_bytes(TCA_BPF_NAME, name).unwrap();
    options.finish().unwrap();

    let mut iter = NlAttrsIterator::new(&buf);
    let outer = iter.next().unwrap().unwrap();
    assert_eq!(outer.header.nla_type & NLA_TYPE_MASK, TCA_OPTIONS);

    let mut iter = NlAttrsIterator::new(outer.data);
    let inner = iter.next().unwrap().unwrap();
    assert_eq!(inner.header.nla_type & NLA_TYPE_MASK, TCA_BPF_FD);
    let inner = iter.next().unwrap().unwrap();
    assert_eq!(inner.header.nla_type & NLA_TYPE_MASK, TCA_BPF_NAME);
    let name = c_string_text(inner.data).unwrap();
    assert_eq!(name.as_str(), "foo");
}

#[test]
fn align_to_rounds_up_to_powers_of_two() {
    assert_eq!(align_to(0, 4), 0);
    assert_eq!(align_to(1, 4), 4);
    assert_eq!(align_to(4, 4), 4);
    assert_eq!(align_to(5, 4), 8);
    assert_eq!(align_to(17, 16), 32);
    assert_eq!(align_to(9, 1), 9);
    assert_eq!(align_to(usize::MAX - 3, 4), usize::MAX - 3);
}

#[test]
fn align_to_masks_for_any_alignment() {
    // 6 - 1 = 0b101: the mask clears bits 0 and 2 of 7 + 5 = 0b1100
    assert_eq!(align_to(7, 6), 8);
}

#[test]
fn htons_stores_the_high_byte_first() {
    assert_eq!(htons(0x1234).to_ne_bytes(), [0x12, 0x34]);
    assert_eq!(htons(3), 3u16.to_be());
}

#[test]
fn values_are_stored_in_machine_order() {
    assert_eq!(0x0102_0304u32.to_bytes(), 0x0102_0304u32.to_ne_bytes().to_vec());
    assert_eq!((-2i32).to_bytes(), (-2i32).to_ne_bytes().to_vec());
}

#[test]
fn write_bytes_leaves_the_padding_alone() {
    let mut buf = [9u8; 12];
    assert_eq!(write_bytes(&mut buf, 4, &[1, 2, 3, 4, 5]), Ok(8));
    assert_eq!(buf, [9, 9, 9, 9, 1, 2, 3, 4, 5, 9, 9, 9]);
}

#[test]
fn write_bytes_needs_room_for_the_padding() {
    let mut buf = [9u8; 11];
    assert_eq!(write_bytes(&mut buf, 4, &[1, 2, 3, 4, 5]), no_space());
    assert_eq!(buf, [9u8; 11]);
}

#[test]
fn write_attr_header_returns_its_length() {
    let mut buf = [0u8; 6];
    let attr = NlAttrHeader { nla_len: 0x0102, nla_type: 0x0304 };
    assert_eq!(write_attr_header(&mut buf, 2, attr), Ok(4));
    assert_eq!(header_from(&buf, 2), attr);
    assert_eq!(write_attr_header(&mut buf, 3, attr), no_space());
}

#[test]
fn write_attr_bytes_returns_the_padded_length() {
    let mut buf = [0xffu8; 12];
    assert_eq!(write_attr_bytes(&mut buf, 0, 7, &[1, 2, 3, 4, 5]), Ok(12));
    assert_eq!(header_from(&buf, 0), NlAttrHeader { nla_len: 9, nla_type: 7 });
    assert_eq!(&buf[4..], &[1, 2, 3, 4, 5, 0xff, 0xff, 0xff]);
}

#[test]
fn write_attr_bytes_without_room_for_the_value_writes_the_header() {
    let mut buf = [0u8; 10];
    assert_eq!(write_attr_bytes(&mut buf, 0, 7, &[1, 2, 3, 4, 5]), no_space());
    assert_eq!(header_from(&buf, 0), NlAttrHeader { nla_len: 9, nla_type: 7 });
    assert_eq!(&buf[4..], &[0, 0, 0, 0, 0, 0]);
}

#[test]
fn write_attr_bytes_without_room_for_the_header_writes_nothing() {
    let mut buf = [8u8; 3];
    assert_eq!(write_attr_bytes(&mut buf, 0, 7, &[]), no_space());
    assert_eq!(buf, [8, 8, 8]);
}

#[test]
fn write_attr_bytes_keeps_the_low_bits_of_the_length() {
    let value = vec![1u8; 65_540];
    let mut buf = vec![0u8; 70_000];
    assert_eq!(write_attr_bytes(&mut buf, 0, 7, &value), Ok(65_544));
    assert_eq!(header_from(&buf, 0).nla_len, 8);
}

#[test]
fn nested_attrs_without_room_stay_where_they_are() {
    let mut buf = [0u8; 16];
    let mut attrs = NestedAttrs::new(&mut buf, 5);
    assert_eq!(attrs.write_attr(1, 10u32), Ok(8));
    assert_eq!(attrs.write_attr(2, 20u32), no_space());
    assert_eq!(attrs.offset, 12);
    assert_eq!(attrs.write_attr_bytes(3, &[]), Ok(4));
    assert_eq!(attrs.finish(), Ok(16));
    assert_eq!(header_from(&buf, 0), NlAttrHeader { nla_len: 16, nla_type: 0x8005 });
    assert_eq!(header_from(&buf, 12), NlAttrHeader { nla_len: 4, nla_type: 3 });
}

#[test]
fn nested_attrs_need_room_for_their_header() {
    let mut buf = [7u8; 2];
    let attrs = NestedAttrs::new(&mut buf, 5);
    assert_eq!(attrs.finish(), no_space());
    assert_eq!(buf, [7, 7]);
}

#[test]
fn iterator_reports_a_short_buffer() {
    let mut iter = NlAttrsIterator::new(&[1, 2, 3]);
    let error = iter.next().unwrap().unwrap_err();
    assert_eq!(error, NlAttrError::InvalidBufferLength { size: 3, expected: 4 });
    assert!(iter.next().is_none());
}

#[test]
fn iterator_goes_to_the_offset_of_the_short_length() {
    // one attribute of 8 bytes, then 2 bytes that are no header
    let mut buf = [0u8; 10];
    write_attr(&mut buf, 0, 1, 42u32).unwrap();
    let mut iter = NlAttrsIterator::new(&buf);
    assert!(iter.next().unwrap().is_ok());
    assert_eq!(iter.offset, 8);
    let error = iter.next().unwrap().unwrap_err();
    assert_eq!(error, NlAttrError::InvalidBufferLength { size: 2, expected: 4 });
    assert_eq!(iter.offset, 2);
}

#[test]
fn iterator_stays_at_a_bad_header_length() {
    let mut buf = [0u8; 8];
    buf[..2].copy_from_slice(&3u16.to_ne_bytes());
    let mut iter = NlAttrsIterator::new(&buf);
    assert_eq!(iter.next().unwrap().unwrap_err(), NlAttrError::InvalidHeaderLength(3));
    assert_eq!(iter.offset, 0);
    assert_eq!(iter.next().unwrap().unwrap_err(), NlAttrError::InvalidHeaderLength(3));
}

#[test]
fn iterator_needs_the_padding() {
    let mut buf = [0u8; 9];
    buf[..2].copy_from_slice(&9u16.to_ne_bytes());
    let mut iter = NlAttrsIterator::new(&buf);
    let error = iter.next().unwrap().unwrap_err();
    assert_eq!(error, NlAttrError::InvalidBufferLength { size: 9, expected: 12 });
    assert_eq!(iter.offset, 0);
}

#[test]
fn written_attr_reads_back_from_a_dirty_buffer() {
    let mut buf = [0xabu8; 32];
    write_attr_bytes(&mut buf, 8, 6, &[1, 2, 3]).unwrap();
    let mut iter = NlAttrsIterator::new(&buf[8..]);
    let attr = iter.next().unwrap().unwrap();
    assert_eq!(attr.header, NlAttrHeader { nla_len: 7, nla_type: 6 });
    assert_eq!(attr.data, &[1, 2, 3]);
    assert_eq!(iter.offset, 8);
    assert_eq!(&buf[..8], &[0xab; 8]);
    assert_eq!(&buf[15..], &[0xab; 17]);
}

#[test]
fn nested_list_reads_back_from_a_dirty_buffer() {
    let mut buf = [0xeeu8; 40];
    let mut attrs = NestedAttrs::new(&mut buf, TCA_OPTIONS);
    attrs.write_attr_bytes(TCA_BPF_NAME, b"a\0").unwrap();
    attrs.write_attr(TCA_BPF_FD, 5i32).unwrap();
    let len = attrs.finish().unwrap();
    assert_eq!(len, 20);
    let outer = parse_attrs(&buf[..len]).unwrap();
    let inner = parse_attrs(outer[&TCA_OPTIONS].data).unwrap();
    assert_eq!(inner[&TCA_BPF_NAME].data, b"a\0");
    assert_eq!(inner[&TCA_BPF_FD].data, &5i32.to_ne_bytes());
}

#[test]
fn table_drops_the_flags_and_keeps_the_last() {
    let mut buf = [0u8; 24];
    write_attr(&mut buf, 0, 5, 1u32).unwrap();
    write_attr(&mut buf, 8, 6, 2u32).unwrap();
    write_attr(&mut buf, 16, 0xc005, 3u32).unwrap();
    let table = parse_attrs(&buf).unwrap();
    assert_eq!(table.len(), 2);
    assert_eq!(table[&5].data, &3u32.to_ne_bytes());
    assert_eq!(table[&5].header.nla_type, 0xc005);
    assert_eq!(table[&6].data, &2u32.to_ne_bytes());
}

#[test]
fn table_of_nothing_is_empty() {
    assert!(parse_attrs(&[]).unwrap().is_empty());
}

#[test]
fn table_stops_at_the_first_error() {
    let mut buf = [0u8; 14];
    write_attr(&mut buf, 0, 5, 1u32).unwrap();
    assert_eq!(parse_attrs(&buf).unwrap_err(), NlAttrError::InvalidHeaderLength(0));
    assert_eq!(
        parse_attrs(&buf[..11]).unwrap_err(),
        NlAttrError::InvalidBufferLength { size: 3, expected: 4 }
    );
}
