//! Where every field of a message stands, byte by byte.
use vstd::endian;
use vstd::prelude::*;

use crate::attr::NlAttrHeader;
use crate::message::{NlMsgError, NlMsgHeader};
use crate::request::{IfInfoMsg, TcMsg};
use crate::{align, attr, encode, message, native, request};

verus! {

/// An integer of two bytes is the sum of its bytes, each with the weight of its place, and the machine
/// stores the place of weight 1 first or last.
pub proof fn law_u16_is_stored_by_places(v: u16)
    ensures
        ({
            let b = native::u16_bytes(v);
            &&& b.len() == 2
            &&& endian::endianness() is Little ==> v == b[0] + 0x100 * b[1]
            &&& endian::endianness() is Big ==> v == 0x100 * b[0] + b[1]
        }),
{
}

/// An integer of four bytes is the sum of its bytes, each with the weight of its place.
pub proof fn law_u32_is_stored_by_places(v: u32)
    ensures
        ({
            let b = native::u32_bytes(v);
            &&& b.len() == 4
            &&& endian::endianness() is Little ==> v == b[0] + 0x100 * b[1] + 0x1_0000 * b[2]
                + 0x100_0000 * b[3]
            &&& endian::endianness() is Big ==> v == 0x100_0000 * b[0] + 0x1_0000 * b[1] + 0x100
                * b[2] + b[3]
        }),
{
}

/// A signed integer is stored as the unsigned one that differs from it by a multiple of 2^32.
pub proof fn law_i32_is_stored_in_twos_complement(v: i32)
    ensures
        v >= 0 ==> native::i32_bytes(v) == native::u32_bytes(v as u32),
        v < 0 ==> native::i32_bytes(v) == native::u32_bytes((v + 0x1_0000_0000) as u32),
{
    assert(v >= 0 ==> v as u32 == v) by (bit_vector);
    assert(v < 0 ==> v as u32 == v + 0x1_0000_0000) by (bit_vector);
}

/// Two bytes are read as the integer that is stored in them, wherever they stand.
pub proof fn law_two_bytes_are_read_as_stored(s: Seq<u8>, at: int)
    requires
        0 <= at,
        at + 2 <= s.len(),
    ensures
        native::u16_bytes(native::u16_at(s, at)) == s.subrange(at, at + 2),
{
    assert(native::u16_bytes(native::u16_at(s, at)) =~= s.subrange(at, at + 2));
}

/// Four bytes are read as the integer that is stored in them, wherever they stand and whether it has
/// a sign or not.
pub proof fn law_four_bytes_are_read_as_stored(s: Seq<u8>, at: int)
    requires
        0 <= at,
        at + 4 <= s.len(),
    ensures
        native::u32_bytes(native::u32_at(s, at)) == s.subrange(at, at + 4),
        native::i32_bytes(native::i32_at(s, at)) == s.subrange(at, at + 4),
{
    let v = native::u32_at(s, at);
    assert((v as i32) as u32 == v) by (bit_vector);
    let (b0, b1, b2, b3) = (s[at], s[at + 1], s[at + 2], s[at + 3]);
    if endian::endianness() is Little {
        lemma_places(b0, b1, b2, b3, v);
    } else {
        lemma_places(b3, b2, b1, b0, v);
    }
    assert(native::u32_bytes(v) =~= s.subrange(at, at + 4));
}

/// The bytes of an integer, from the lowest to the highest.
proof fn lemma_places(b0: u8, b1: u8, b2: u8, b3: u8, v: u32)
    requires
        v == b0 + 256 * b1 + 0x1_0000 * b2 + 0x100_0000 * b3,
    ensures
        v % 256 == b0,
        v / 256 % 256 == b1,
        v / 0x1_0000 % 256 == b2,
        v / 0x100_0000 == b3,
{
    assert(v / 256 == b1 + 256 * b2 + 0x1_0000 * b3);
    assert(v / 0x1_0000 == b2 + 256 * b3);
}

/// Byte order is undone by the same step that brought it about.
pub proof fn law_network_order_is_its_own_inverse(v: u16)
    ensures
        native::network_order(native::network_order(v)) == v,
{
}

/// What is read from the front of a concatenation depends on the front alone.
pub proof fn lemma_front_reads_the_same(front: Seq<u8>, back: Seq<u8>, at: int)
    ensures
        0 <= at && at + 2 <= front.len() ==> native::u16_at(front + back, at) == native::u16_at(
            front,
            at,
        ),
        0 <= at && at + 4 <= front.len() ==> native::u32_at(front + back, at) == native::u32_at(
            front,
            at,
        ),
        0 <= at && at + 4 <= front.len() ==> native::i32_at(front + back, at) == native::i32_at(
            front,
            at,
        ),
{
}

/// What is read from the back of a concatenation depends on the back alone.
pub proof fn lemma_back_reads_the_same(front: Seq<u8>, back: Seq<u8>, at: int)
    ensures
        0 <= at && at + 2 <= back.len() ==> native::u16_at(front + back, front.len() + at)
            == native::u16_at(back, at),
        0 <= at && at + 4 <= back.len() ==> native::u32_at(front + back, front.len() + at)
            == native::u32_at(back, at),
        0 <= at && at + 4 <= back.len() ==> native::i32_at(front + back, front.len() + at)
            == native::i32_at(back, at),
{
}

/// The header of a message has its length in bytes 0 to 3, its type in 4 and 5, its flags in 6 and 7,
/// its sequence number in 8 to 11 and its port in 12 to 15.
pub proof fn law_header_layout(header: NlMsgHeader)
    ensures
        ({
            let b = header.bytes();
            &&& b.len() == 16
            &&& native::u32_at(b, 0) == header.nlmsg_len
            &&& native::u16_at(b, 4) == header.nlmsg_type
            &&& native::u16_at(b, 6) == header.nlmsg_flags
            &&& native::u32_at(b, 8) == header.nlmsg_seq
            &&& native::u32_at(b, 12) == header.nlmsg_pid
        }),
{
    let b = header.bytes();
    assert(b.subrange(0, 4) =~= native::u32_bytes(header.nlmsg_len));
    native::lemma_u32_reads_back(b, 0, header.nlmsg_len);
    assert(b.subrange(4, 6) =~= native::u16_bytes(header.nlmsg_type));
    native::lemma_u16_reads_back(b, 4, header.nlmsg_type);
    assert(b.subrange(6, 8) =~= native::u16_bytes(header.nlmsg_flags));
    native::lemma_u16_reads_back(b, 6, header.nlmsg_flags);
    assert(b.subrange(8, 12) =~= native::u32_bytes(header.nlmsg_seq));
    native::lemma_u32_reads_back(b, 8, header.nlmsg_seq);
    assert(b.subrange(12, 16) =~= native::u32_bytes(header.nlmsg_pid));
    native::lemma_u32_reads_back(b, 12, header.nlmsg_pid);
}

/// A header is read from the same places, whatever they hold.
pub proof fn law_header_is_read_from_its_places(s: Seq<u8>, at: int)
    requires
        0 <= at,
        at + 16 <= s.len(),
    ensures
        message::header_at(s, at).nlmsg_len == native::u32_at(s, at),
        message::header_at(s, at).nlmsg_type == native::u16_at(s, at + 4),
        message::header_at(s, at).nlmsg_flags == native::u16_at(s, at + 6),
        message::header_at(s, at).nlmsg_seq == native::u32_at(s, at + 8),
        message::header_at(s, at).nlmsg_pid == native::u32_at(s, at + 12),
{
}

/// The report of an error message has the error number in bytes 0 to 3, then the header of the request
/// that it answers.
pub proof fn law_error_layout(report: NlMsgError)
    ensures
        report.bytes().len() == 20,
        native::i32_at(report.bytes(), 0) == report.error,
        report.bytes().skip(4) == report.msg.bytes(),
{
    law_header_layout(report.msg);
    lemma_two_parts(native::i32_bytes(report.error), report.msg.bytes());
    native::lemma_i32_reads_back(report.bytes(), 0, report.error);
}

/// Where the two parts of a concatenation stand.
proof fn lemma_two_parts(a: Seq<u8>, b: Seq<u8>)
    ensures
        (a + b).len() == a.len() + b.len(),
        (a + b).subrange(0, a.len() as int) == a,
        (a + b).skip(a.len() as int) == b,
{
    assert((a + b).subrange(0, a.len() as int) =~= a);
    assert((a + b).skip(a.len() as int) =~= b);
}

/// Link information has the address family in byte 0, a zero byte, the type in bytes 2 and 3, the link
/// in 4 to 7, the flags in 8 to 11 and the flags to change in 12 to 15.
pub proof fn law_link_info_layout(info: IfInfoMsg)
    ensures
        ({
            let b = info.bytes();
            &&& b.len() == 16
            &&& b[0] == info.ifi_family
            &&& b[1] == 0
            &&& native::u16_at(b, 2) == info.ifi_type
            &&& native::i32_at(b, 4) == info.ifi_index
            &&& native::u32_at(b, 8) == info.ifi_flags
            &&& native::u32_at(b, 12) == info.ifi_change
        }),
{
    let b = info.bytes();
    assert(b.subrange(2, 4) =~= native::u16_bytes(info.ifi_type));
    native::lemma_u16_reads_back(b, 2, info.ifi_type);
    assert(b.subrange(4, 8) =~= native::i32_bytes(info.ifi_index));
    native::lemma_i32_reads_back(b, 4, info.ifi_index);
    assert(b.subrange(8, 12) =~= native::u32_bytes(info.ifi_flags));
    native::lemma_u32_reads_back(b, 8, info.ifi_flags);
    assert(b.subrange(12, 16) =~= native::u32_bytes(info.ifi_change));
    native::lemma_u32_reads_back(b, 12, info.ifi_change);
}

/// Traffic control information has the address family in byte 0, three zero bytes, the link in bytes 4
/// to 7, the handle in 8 to 11, the parent in 12 to 15 and what else is to be said in 16 to 19.
pub proof fn law_tc_info_layout(info: TcMsg)
    ensures
        ({
            let b = info.bytes();
            &&& b.len() == 20
            &&& b[0] == info.tcm_family
            &&& b[1] == 0
            &&& b[2] == 0
            &&& b[3] == 0
            &&& native::i32_at(b, 4) == info.tcm_ifindex
            &&& native::u32_at(b, 8) == info.tcm_handle
            &&& native::u32_at(b, 12) == info.tcm_parent
            &&& native::u32_at(b, 16) == info.tcm_info
        }),
{
    let b = info.bytes();
    assert(b.subrange(4, 8) =~= native::i32_bytes(info.tcm_ifindex));
    native::lemma_i32_reads_back(b, 4, info.tcm_ifindex);
    assert(b.subrange(8, 12) =~= native::u32_bytes(info.tcm_handle));
    native::lemma_u32_reads_back(b, 8, info.tcm_handle);
    assert(b.subrange(12, 16) =~= native::u32_bytes(info.tcm_parent));
    native::lemma_u32_reads_back(b, 12, info.tcm_parent);
    assert(b.subrange(16, 20) =~= native::u32_bytes(info.tcm_info));
    native::lemma_u32_reads_back(b, 16, info.tcm_info);
}

/// Traffic control information is read from the same places, whatever they hold.
pub proof fn law_tc_info_is_read_from_its_places(s: Seq<u8>)
    requires
        20 <= s.len(),
    ensures
        request::tc_msg_of(s).tcm_family == s[0],
        request::tc_msg_of(s).tcm_ifindex == native::i32_at(s, 4),
        request::tc_msg_of(s).tcm_handle == native::u32_at(s, 8),
        request::tc_msg_of(s).tcm_parent == native::u32_at(s, 12),
        request::tc_msg_of(s).tcm_info == native::u32_at(s, 16),
{
}

/// The header of an attribute has its length in bytes 0 and 1 and its type in 2 and 3.
pub proof fn law_attr_header_layout(header: NlAttrHeader)
    ensures
        ({
            let b = header.bytes();
            &&& b.len() == 4
            &&& native::u16_at(b, 0) == header.nla_len
            &&& native::u16_at(b, 2) == header.nla_type
        }),
{
    let b = header.bytes();
    assert(b.subrange(0, 2) =~= native::u16_bytes(header.nla_len));
    native::lemma_u16_reads_back(b, 0, header.nla_len);
    assert(b.subrange(2, 4) =~= native::u16_bytes(header.nla_type));
    native::lemma_u16_reads_back(b, 2, header.nla_type);
}

/// An encoded attribute has its length without padding in bytes 0 and 1, its type with all flags in 2
/// and 3, then its payload, then the zero bytes that make its length a multiple of 4, and no more.
pub proof fn law_attr_layout(attr_type: u16, payload: Seq<u8>)
    requires
        4 + payload.len() <= u16::MAX,
    ensures
        ({
            let s = encode::encode_attr(attr_type, payload);
            &&& s.len() % 4 == 0
            &&& 4 + payload.len() <= s.len() < 4 + payload.len() + 4
            &&& native::u16_at(s, 0) == 4 + payload.len()
            &&& native::u16_at(s, 2) == attr_type
            &&& s.subrange(4, 4 + payload.len() as int) == payload
            &&& forall|i: int| 4 + payload.len() <= i < s.len() ==> s[i] == 0
        }),
{
    let s = encode::encode_attr(attr_type, payload);
    let header = attr::header_for(attr_type, payload.len() as int);
    encode::lemma_encode_attr_len(attr_type, payload);
    align::lemma_align_up_4(payload.len() as int);
    law_attr_header_layout(header);
    let rest = payload + encode::zeros(
        align::align_up(payload.len() as int, 4) - payload.len(),
    );
    assert(s =~= header.bytes() + rest);
    lemma_front_reads_the_same(header.bytes(), rest, 0);
    lemma_front_reads_the_same(header.bytes(), rest, 2);
    assert(s.subrange(4, 4 + payload.len() as int) =~= payload);
}

/// The attribute around a list has the type that was asked for, marked by the highest bit.
pub proof fn law_nested_type_is_marked(attr_type: u16)
    ensures
        attr::nested_type(attr_type) == attr_type | 0x8000,
        attr::nested_type(attr_type) & 0x8000 == 0x8000,
        attr::nested_type(attr_type) & 0x7fff == attr_type & 0x7fff,
{
    assert((0x8000 + attr_type % 0x8000) as u16 == attr_type | 0x8000) by (bit_vector);
    assert((attr_type | 0x8000) & 0x8000 == 0x8000) by (bit_vector);
    assert((attr_type | 0x8000) & 0x7fff == attr_type & 0x7fff) by (bit_vector);
}

} // verus!
