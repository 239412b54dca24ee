//! Link requests, as whoever receives them reads them.
use vstd::prelude::*;

use crate::error::NlAttrError;
use crate::laws::{attrs, layout, requests, traffic};
use crate::request::IfInfoMsg;
use crate::uapi::{
    IFLA_XDP, IFLA_XDP_EXPECTED_FD, IFLA_XDP_FD, IFLA_XDP_FLAGS, RTM_SETLINK, XDP_FLAGS_REPLACE,
};
use crate::{attr, encode, link, native, parse, request};

verus! {

/// A link request names its link in bytes 20 to 23, the flags that it sets in 24 to 27 and the flags
/// that it changes in 28 to 31, and the attributes follow.
pub proof fn law_link_request_layout(
    nlmsg_type: u16,
    nlmsg_flags: u16,
    info: IfInfoMsg,
    attrs: Seq<u8>,
)
    requires
        32 + attrs.len() <= u32::MAX,
    ensures
        ({
            let m = request::request_message(nlmsg_type, nlmsg_flags, info.bytes(), attrs);
            &&& m.len() == 32 + attrs.len()
            &&& native::u32_at(m, 0) == m.len()
            &&& native::u16_at(m, 4) == nlmsg_type
            &&& native::u16_at(m, 6) == nlmsg_flags
            &&& native::u32_at(m, 8) == 1
            &&& native::u32_at(m, 12) == 0
            &&& m[16] == info.ifi_family
            &&& m[17] == 0
            &&& native::u16_at(m, 18) == info.ifi_type
            &&& native::i32_at(m, 20) == info.ifi_index
            &&& native::u32_at(m, 24) == info.ifi_flags
            &&& native::u32_at(m, 28) == info.ifi_change
            &&& m.skip(32) == attrs
        }),
{
    let m = request::request_message(nlmsg_type, nlmsg_flags, info.bytes(), attrs);
    layout::law_link_info_layout(info);
    requests::law_request_layout(nlmsg_type, nlmsg_flags, info.bytes(), attrs);
    requests::lemma_part_reads_the_same(m, 16, 32, 0);
    requests::lemma_part_reads_the_same(m, 16, 32, 1);
    requests::lemma_part_reads_the_same(m, 16, 32, 2);
    requests::lemma_part_reads_the_same(m, 16, 32, 4);
    requests::lemma_part_reads_the_same(m, 16, 32, 8);
    requests::lemma_part_reads_the_same(m, 16, 32, 12);
}

/// The request to bring a link up names that link, whichever it is, and sets the flag for links that
/// are up, and changes no other flag. It has no attributes.
pub proof fn law_link_up_request(if_index: i32)
    ensures
        ({
            let m = link::link_up_message(if_index);
            &&& m.len() == 32
            &&& native::u32_at(m, 0) == 32
            &&& native::u16_at(m, 4) == RTM_SETLINK
            &&& native::u16_at(m, 6) == 5
            &&& native::u32_at(m, 8) == 1
            &&& native::u32_at(m, 12) == 0
            &&& m[16] == 0
            &&& m[17] == 0
            &&& native::u16_at(m, 18) == 0
            &&& native::i32_at(m, 20) == if_index
            &&& native::u32_at(m, 24) == 1
            &&& native::u32_at(m, 28) == 1
        }),
{
    let info = IfInfoMsg {
        ifi_family: 0,
        ifi_type: 0,
        ifi_index: if_index,
        ifi_flags: 1,
        ifi_change: 1,
    };
    assert(1u16 | 4 == 5) by (bit_vector);
    law_link_request_layout(RTM_SETLINK, 5, info, Seq::empty());
}

/// The request to attach or detach an XDP program names the link, whichever it is, and changes none of
/// its flags. Its only attribute is a list.
pub proof fn law_xdp_request(if_index: i32, fd: Option<i32>, old_fd: Option<i32>, flags: u32)
    ensures
        ({
            let m = link::xdp_message(if_index, fd, old_fd, flags);
            let list = parse::attrs_of(m.skip(32));
            &&& native::u32_at(m, 0) == m.len()
            &&& native::u16_at(m, 4) == RTM_SETLINK
            &&& native::u16_at(m, 6) == 5
            &&& native::u32_at(m, 8) == 1
            &&& native::u32_at(m, 12) == 0
            &&& m[16] == 0
            &&& m[17] == 0
            &&& native::u16_at(m, 18) == 0
            &&& native::i32_at(m, 20) == if_index
            &&& native::u32_at(m, 24) == 0
            &&& native::u32_at(m, 28) == 0
            &&& list is Ok
            &&& list->Ok_0.len() == 1
            &&& list->Ok_0[0].header.nla_type == IFLA_XDP | 0x8000
            &&& parse::attrs_of(list->Ok_0[0].data) is Ok
        }),
{
    let info = IfInfoMsg {
        ifi_family: 0,
        ifi_type: 0,
        ifi_index: if_index,
        ifi_flags: 0,
        ifi_change: 0,
    };
    assert(1u16 | 4 == 5) by (bit_vector);
    lemma_xdp_attrs_len(fd, old_fd, flags);
    law_link_request_layout(
        RTM_SETLINK,
        5,
        info,
        encode::encode_nested(IFLA_XDP, link::xdp_attrs(fd, old_fd, flags)),
    );
    traffic::law_xdp_attrs_read_back(fd, old_fd, flags);
    layout::law_nested_type_is_marked(IFLA_XDP);
}

/// The length of the attributes of an XDP request.
proof fn lemma_xdp_attrs_len(fd: Option<i32>, old_fd: Option<i32>, flags: u32)
    ensures
        encode::encode_nested(IFLA_XDP, link::xdp_attrs(fd, old_fd, flags)).len() <= 28,
{
    let list = link::xdp_attrs(fd, old_fd, flags);
    traffic::lemma_short_payloads(list);
    encode::lemma_encode_attr_len(attr::nested_type(IFLA_XDP), encode::encode_list(list));
}

/// Flags ask to replace a program exactly where that bit is set, whatever the others are.
pub proof fn law_one_bit_asks_to_replace(flags: u32)
    ensures
        link::replaces(flags) <==> flags & XDP_FLAGS_REPLACE != 0,
{
    assert(flags & 16 != 0 <==> flags / 16 % 2 == 1) by (bit_vector);
}

/// The list in an XDP request, as it reads back, has the program to attach, or -1 to detach one; the
/// flags exactly where any is set; the program to replace exactly where the flags, whatever else they
/// hold, ask to replace one; and nothing else.
pub proof fn law_xdp_request_asks_for(
    if_index: i32,
    fd: Option<i32>,
    old_fd: Option<i32>,
    flags: u32,
)
    requires
        flags & XDP_FLAGS_REPLACE != 0 ==> old_fd is Some,
    ensures
        ({
            let outer = parse::attrs_of(
                link::xdp_message(if_index, fd, old_fd, flags).skip(32),
            )->Ok_0[0];
            let list = parse::attrs_of(outer.data)->Ok_0;
            let table = parse::by_type(list);
            &&& forall|i: int|
                0 <= i < list.len() ==> (#[trigger] list[i]).header.nla_type < 0x4000
                    && list[i].data.len() == 4
            &&& table.contains_key(IFLA_XDP_FD)
            &&& fd is Some ==> native::i32_at(table[IFLA_XDP_FD].data, 0) == fd->0
            &&& fd is None ==> native::i32_at(table[IFLA_XDP_FD].data, 0) == -1
            &&& table.contains_key(IFLA_XDP_FLAGS) <==> flags != 0
            &&& flags != 0 ==> native::u32_at(table[IFLA_XDP_FLAGS].data, 0) == flags
            &&& table.contains_key(IFLA_XDP_EXPECTED_FD) <==> flags & XDP_FLAGS_REPLACE != 0
            &&& flags & XDP_FLAGS_REPLACE != 0 ==> native::i32_at(
                table[IFLA_XDP_EXPECTED_FD].data,
                0,
            ) == old_fd->0
            &&& list.len() == 1 + (if flags != 0 {
                1int
            } else {
                0
            }) + (if flags & XDP_FLAGS_REPLACE != 0 {
                1int
            } else {
                0
            })
        }),
{
    lemma_attrs_of_message(if_index, fd, old_fd, flags);
    traffic::law_xdp_attrs_read_back(fd, old_fd, flags);
    let outer = parse::attrs_of(
        link::xdp_message(if_index, fd, old_fd, flags).skip(32),
    )->Ok_0[0];
    lemma_list_asks_for(outer, fd, old_fd, flags);
}

/// What the list in an XDP request asks for.
proof fn lemma_list_asks_for(
    outer: parse::NlAttrView,
    fd: Option<i32>,
    old_fd: Option<i32>,
    flags: u32,
)
    requires
        parse::attrs_of(outer.data) == Ok::<Seq<parse::NlAttrView>, NlAttrError>(
            attrs::list_view(link::xdp_attrs(fd, old_fd, flags)),
        ),
    ensures
        ({
            let list = parse::attrs_of(outer.data)->Ok_0;
            let table = parse::by_type(list);
            &&& forall|i: int|
                0 <= i < list.len() ==> (#[trigger] list[i]).header.nla_type < 0x4000
                    && list[i].data.len() == 4
            &&& table.contains_key(IFLA_XDP_FD)
            &&& fd is Some ==> native::i32_at(table[IFLA_XDP_FD].data, 0) == fd->0
            &&& fd is None ==> native::i32_at(table[IFLA_XDP_FD].data, 0) == -1
            &&& table.contains_key(IFLA_XDP_FLAGS) <==> flags != 0
            &&& flags != 0 ==> native::u32_at(table[IFLA_XDP_FLAGS].data, 0) == flags
            &&& table.contains_key(IFLA_XDP_EXPECTED_FD) <==> flags & XDP_FLAGS_REPLACE != 0
            &&& flags & XDP_FLAGS_REPLACE != 0 ==> native::i32_at(
                table[IFLA_XDP_EXPECTED_FD].data,
                0,
            ) == old_fd->0
            &&& list.len() == 1 + (if flags != 0 {
                1int
            } else {
                0
            }) + (if flags & XDP_FLAGS_REPLACE != 0 {
                1int
            } else {
                0
            })
        }),
{
    let new_fd = match fd {
        Some(fd) => fd,
        None => -1i32,
    };
    assert(flags & 16 != 0 <==> flags / 16 % 2 == 1) by (bit_vector);
    lemma_fd_reads_back(new_fd);
    lemma_flags_read_back(flags);
    lemma_fd_reads_back(old_fd->0);
    lemma_xdp_table(
        native::i32_bytes(new_fd),
        native::u32_bytes(flags),
        native::i32_bytes(old_fd->0),
        flags > 0,
        link::replaces(flags),
    );
}

/// Up to three attributes of the list in an XDP request.
spec fn xdp_list(
    fd: Seq<u8>,
    flags: Seq<u8>,
    old_fd: Seq<u8>,
    flagged: bool,
    replacing: bool,
) -> Seq<(u16, Seq<u8>)> {
    let attach = seq![(IFLA_XDP_FD, fd)];
    let attach = if flagged {
        attach.push((IFLA_XDP_FLAGS, flags))
    } else {
        attach
    };
    if replacing {
        attach.push((IFLA_XDP_EXPECTED_FD, old_fd))
    } else {
        attach
    }
}

/// What a table of the list in an XDP request holds.
proof fn lemma_xdp_table(
    fd: Seq<u8>,
    flags: Seq<u8>,
    old_fd: Seq<u8>,
    flagged: bool,
    replacing: bool,
)
    requires
        fd.len() == 4,
        flags.len() == 4,
        old_fd.len() == 4,
    ensures
        ({
            let list = attrs::list_view(xdp_list(fd, flags, old_fd, flagged, replacing));
            let table = parse::by_type(list);
            &&& forall|i: int|
                0 <= i < list.len() ==> (#[trigger] list[i]).header.nla_type < 0x4000
                    && list[i].data.len() == 4
            &&& table.contains_key(IFLA_XDP_FD)
            &&& table[IFLA_XDP_FD].data == fd
            &&& table.contains_key(IFLA_XDP_FLAGS) <==> flagged
            &&& flagged ==> table[IFLA_XDP_FLAGS].data == flags
            &&& table.contains_key(IFLA_XDP_EXPECTED_FD) <==> replacing
            &&& replacing ==> table[IFLA_XDP_EXPECTED_FD].data == old_fd
            &&& list.len() == 1 + (if flagged {
                1int
            } else {
                0
            }) + (if replacing {
                1int
            } else {
                0
            })
        }),
{
    let list = attrs::list_view(xdp_list(fd, flags, old_fd, flagged, replacing));
    let last = list.len() - 1;
    attrs::law_table_keeps_the_last(list, IFLA_XDP_FD);
    attrs::law_table_keeps_the_last(list, IFLA_XDP_FLAGS);
    attrs::law_table_keeps_the_last(list, IFLA_XDP_EXPECTED_FD);
    assert(list[0] == attrs::attr_view(IFLA_XDP_FD, fd));
    assert(parse::type_of(list[0]) == IFLA_XDP_FD);
    if flagged {
        assert(list[1] == attrs::attr_view(IFLA_XDP_FLAGS, flags));
        assert(parse::type_of(list[1]) == IFLA_XDP_FLAGS);
    }
    if replacing {
        assert(list[last] == attrs::attr_view(IFLA_XDP_EXPECTED_FD, old_fd));
        assert(parse::type_of(list[last]) == IFLA_XDP_EXPECTED_FD);
    }
}

/// The attributes of an XDP request are what follows the link information.
proof fn lemma_attrs_of_message(if_index: i32, fd: Option<i32>, old_fd: Option<i32>, flags: u32)
    ensures
        link::xdp_message(if_index, fd, old_fd, flags).skip(32) == encode::encode_nested(
            IFLA_XDP,
            link::xdp_attrs(fd, old_fd, flags),
        ),
{
    lemma_xdp_attrs_len(fd, old_fd, flags);
    law_link_request_layout(
        RTM_SETLINK,
        1u16 | 4,
        link::link_named(if_index),
        encode::encode_nested(IFLA_XDP, link::xdp_attrs(fd, old_fd, flags)),
    );
}

/// The number of a program reads back from its own bytes.
proof fn lemma_fd_reads_back(fd: i32)
    ensures
        native::i32_at(native::i32_bytes(fd), 0) == fd,
{
    let b = native::i32_bytes(fd);
    assert(b.subrange(0, 4) =~= b);
    native::lemma_i32_reads_back(b, 0, fd);
}

/// Flags read back from their own bytes.
proof fn lemma_flags_read_back(flags: u32)
    ensures
        native::u32_at(native::u32_bytes(flags), 0) == flags,
{
    let b = native::u32_bytes(flags);
    assert(b.subrange(0, 4) =~= b);
    native::lemma_u32_reads_back(b, 0, flags);
}

} // verus!
