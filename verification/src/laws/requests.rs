//! Traffic control requests, as whoever receives them reads them.
use vstd::prelude::*;

use crate::laws::{attrs, layout, traffic};
use crate::message::NlMsgHeader;
use crate::request::TcMsg;
use crate::tc::TcAttachType;
use crate::uapi::{
    ETH_P_ALL, NLMSGHDR_LEN, RTM_DELTFILTER, RTM_GETQDISC, RTM_GETTFILTER, RTM_NEWQDISC,
    RTM_NEWTFILTER, TCA_BPF_FD, TCA_BPF_FLAGS, TCA_BPF_NAME, TCA_KIND, TCA_OPTIONS,
};
use crate::{align, encode, native, parse, request, tc};

verus! {

/// A request says in its first four bytes how long it is, then its type, its flags, the sequence
/// number 1 and the port 0; after 16 bytes comes the information, and then the attributes.
pub proof fn law_request_layout(
    nlmsg_type: u16,
    nlmsg_flags: u16,
    info: Seq<u8>,
    attrs: Seq<u8>,
)
    requires
        16 + info.len() + attrs.len() <= u32::MAX,
    ensures
        ({
            let m = request::request_message(nlmsg_type, nlmsg_flags, info, attrs);
            &&& m.len() == 16 + info.len() + attrs.len()
            &&& native::u32_at(m, 0) == m.len()
            &&& native::u16_at(m, 4) == nlmsg_type
            &&& native::u16_at(m, 6) == nlmsg_flags
            &&& native::u32_at(m, 8) == 1
            &&& native::u32_at(m, 12) == 0
            &&& m.subrange(16, 16 + info.len() as int) == info
            &&& m.skip(16 + info.len() as int) == attrs
        }),
{
    let header = NlMsgHeader {
        nlmsg_len: (NLMSGHDR_LEN + info.len() + attrs.len()) as u32,
        nlmsg_type,
        nlmsg_flags,
        nlmsg_seq: 1,
        nlmsg_pid: 0,
    };
    layout::law_header_layout(header);
    lemma_request_reads(header.bytes(), info, attrs);
}

/// What is read from a header that is followed by something.
proof fn lemma_request_reads(header: Seq<u8>, info: Seq<u8>, attrs: Seq<u8>)
    requires
        header.len() == 16,
    ensures
        ({
            let m = header + info + attrs;
            &&& m.len() == 16 + info.len() + attrs.len()
            &&& native::u32_at(m, 0) == native::u32_at(header, 0)
            &&& native::u16_at(m, 4) == native::u16_at(header, 4)
            &&& native::u16_at(m, 6) == native::u16_at(header, 6)
            &&& native::u32_at(m, 8) == native::u32_at(header, 8)
            &&& native::u32_at(m, 12) == native::u32_at(header, 12)
            &&& m.subrange(16, 16 + info.len() as int) == info
            &&& m.skip(16 + info.len() as int) == attrs
        }),
{
    let m = header + info + attrs;
    assert(m =~= header + (info + attrs));
    layout::lemma_front_reads_the_same(header, info + attrs, 0);
    layout::lemma_front_reads_the_same(header, info + attrs, 4);
    layout::lemma_front_reads_the_same(header, info + attrs, 6);
    layout::lemma_front_reads_the_same(header, info + attrs, 8);
    layout::lemma_front_reads_the_same(header, info + attrs, 12);
    assert(m.subrange(16, 16 + info.len() as int) =~= info);
    assert(m.skip(16 + info.len() as int) =~= attrs);
}

/// What is read from a part of `m` is what is read from `m`.
pub proof fn lemma_part_reads_the_same(m: Seq<u8>, from: int, to: int, at: int)
    requires
        0 <= from <= to <= m.len(),
        0 <= at,
    ensures
        at < to - from ==> m.subrange(from, to)[at] == m[from + at],
        at + 2 <= to - from ==> native::u16_at(m.subrange(from, to), at) == native::u16_at(
            m,
            from + at,
        ),
        at + 4 <= to - from ==> native::u32_at(m.subrange(from, to), at) == native::u32_at(
            m,
            from + at,
        ),
        at + 4 <= to - from ==> native::i32_at(m.subrange(from, to), at) == native::i32_at(
            m,
            from + at,
        ),
{
}

/// A traffic control request names its link in bytes 20 to 23, its handle in 24 to 27 and its parent
/// in 28 to 31; what else is to be said comes in 32 to 35, and the attributes follow.
pub proof fn law_tc_request_layout(
    nlmsg_type: u16,
    nlmsg_flags: u16,
    info: TcMsg,
    attrs: Seq<u8>,
)
    requires
        36 + attrs.len() <= u32::MAX,
    ensures
        ({
            let m = request::request_message(nlmsg_type, nlmsg_flags, info.bytes(), attrs);
            &&& m.len() == 36 + attrs.len()
            &&& native::u32_at(m, 0) == m.len()
            &&& native::u16_at(m, 4) == nlmsg_type
            &&& native::u16_at(m, 6) == nlmsg_flags
            &&& native::u32_at(m, 8) == 1
            &&& native::u32_at(m, 12) == 0
            &&& m[16] == info.tcm_family
            &&& m[17] == 0
            &&& m[18] == 0
            &&& m[19] == 0
            &&& native::i32_at(m, 20) == info.tcm_ifindex
            &&& native::u32_at(m, 24) == info.tcm_handle
            &&& native::u32_at(m, 28) == info.tcm_parent
            &&& native::u32_at(m, 32) == info.tcm_info
            &&& m.skip(36) == attrs
        }),
{
    let m = request::request_message(nlmsg_type, nlmsg_flags, info.bytes(), attrs);
    layout::law_tc_info_layout(info);
    law_request_layout(nlmsg_type, nlmsg_flags, info.bytes(), attrs);
    lemma_part_reads_the_same(m, 16, 36, 0);
    lemma_part_reads_the_same(m, 16, 36, 1);
    lemma_part_reads_the_same(m, 16, 36, 2);
    lemma_part_reads_the_same(m, 16, 36, 3);
    lemma_part_reads_the_same(m, 16, 36, 4);
    lemma_part_reads_the_same(m, 16, 36, 8);
    lemma_part_reads_the_same(m, 16, 36, 12);
    lemma_part_reads_the_same(m, 16, 36, 16);
}

/// A handle has the upper half of the one number and the lower half of the other.
pub proof fn law_handle_has_both_halves(major: u32, minor: u32)
    ensures
        tc::handle_of(major, minor) / 0x1_0000 == major / 0x1_0000,
        tc::handle_of(major, minor) % 0x1_0000 == minor % 0x1_0000,
{
}

/// Filters are attached under `clsact` where packets come in or go out, or to the very parent that was
/// asked for.
pub proof fn law_attach_types_name_their_parents(parent: u32)
    ensures
        TcAttachType::Ingress.parent() == 0xffff_fff2u32,
        TcAttachType::Egress.parent() == 0xffff_fff3u32,
        TcAttachType::Custom(parent).parent() == parent,
{
}

/// The information of a filter has any priority in its upper half, and in its lower half the number
/// that stands for every protocol, which is stored with its high byte first.
pub proof fn law_filters_are_for_every_protocol(priority: u16)
    ensures
        tc::filter_info(priority) / 0x1_0000 == priority,
        tc::filter_info(priority) % 0x1_0000 == native::network_order(ETH_P_ALL),
        native::u16_bytes((tc::filter_info(priority) % 0x1_0000) as u16) == seq![0u8, 3u8],
{
    native::law_network_order_is_stored_high_byte_first(ETH_P_ALL);
}

/// A request has room for every name of up to 480 bytes, and for no longer one.
pub proof fn law_names_fit_up_to_480_bytes(prog_name: Seq<u8>)
    ensures
        tc::name_fits(prog_name) <==> prog_name.len() <= 480,
{
    align::lemma_align_up_4(prog_name.len() as int);
}

/// The request for all queueing disciplines asks for a list and names no link.
pub proof fn law_list_qdiscs_request()
    ensures
        ({
            let m = tc::list_qdiscs_message();
            &&& m.len() == 36
            &&& native::u32_at(m, 0) == 36
            &&& native::u16_at(m, 4) == RTM_GETQDISC
            &&& native::u16_at(m, 6) == 0x305
            &&& native::u32_at(m, 8) == 1
            &&& forall|i: int| 12 <= i < 36 ==> m[i] == 0
        }),
{
    let info = TcMsg {
        tcm_family: 0,
        tcm_ifindex: 0,
        tcm_handle: 0,
        tcm_parent: 0,
        tcm_info: 0,
    };
    let m = tc::list_qdiscs_message();
    assert(1u16 | 4 | 0x300 == 0x305) by (bit_vector);
    law_tc_request_layout(RTM_GETQDISC, 0x305, info, Seq::empty());
    lemma_zero_bytes(m, 12);
    lemma_zero_bytes(m, 20);
    lemma_zero_bytes(m, 24);
    lemma_zero_bytes(m, 28);
    lemma_zero_bytes(m, 32);
}

/// Only four zero bytes hold a zero.
proof fn lemma_zero_bytes(s: Seq<u8>, at: int)
    ensures
        native::u32_at(s, at) == 0 ==> s[at] == 0 && s[at + 1] == 0 && s[at + 2] == 0 && s[at + 3]
            == 0,
        native::i32_at(s, at) == 0 ==> native::u32_at(s, at) == 0,
{
    let v = native::u32_at(s, at);
    assert(v as i32 == 0 ==> v == 0) by (bit_vector);
}

/// The request to add `clsact` asks for a new queueing discipline of the link, with the handle and the
/// parent that belong to `clsact`, and its only attribute is the kind, with exactly these seven bytes.
pub proof fn law_add_clsact_request(if_index: i32)
    ensures
        ({
            let m = tc::add_clsact_message(if_index);
            let list = parse::attrs_of(m.skip(36));
            &&& m.len() == 48
            &&& native::u32_at(m, 0) == 48
            &&& native::u16_at(m, 4) == RTM_NEWQDISC
            &&& native::u16_at(m, 6) == 0x605
            &&& native::u32_at(m, 8) == 1
            &&& native::u32_at(m, 12) == 0
            &&& m[16] == 0
            &&& native::i32_at(m, 20) == if_index
            &&& native::u32_at(m, 24) == 0xffff_0000u32
            &&& native::u32_at(m, 28) == 0xffff_fff1u32
            &&& native::u32_at(m, 32) == 0
            &&& list is Ok
            &&& list->Ok_0.len() == 1
            &&& list->Ok_0[0].header.nla_type == TCA_KIND
            &&& list->Ok_0[0].data == seq![
                0x63u8,
                0x6cu8,
                0x73u8,
                0x61u8,
                0x63u8,
                0x74u8,
                0u8,
            ]
        }),
{
    let info = TcMsg {
        tcm_family: 0,
        tcm_ifindex: if_index,
        tcm_handle: 0xffff_0000u32,
        tcm_parent: 0xffff_fff1u32,
        tcm_info: 0,
    };
    assert(1u16 | 4 | 0x200 | 0x400 == 0x605) by (bit_vector);
    encode::lemma_encode_attr_len(TCA_KIND, tc::clsact());
    law_tc_request_layout(RTM_NEWQDISC, 0x605, info, encode::encode_attr(TCA_KIND, tc::clsact()));
    attrs::law_attr_reads_back(TCA_KIND, tc::clsact());
}

/// The request to attach a filter names the link, the parent, the handle and the priority that were
/// asked for, for every protocol. It creates a filter where there is none, or replaces one.
pub proof fn law_attach_request(
    if_index: i32,
    attach_type: TcAttachType,
    prog_fd: i32,
    prog_name: Seq<u8>,
    priority: u16,
    handle: u32,
    create: bool,
)
    requires
        prog_name.len() <= 480,
    ensures
        ({
            let m = tc::attach_message(
                if_index,
                attach_type,
                prog_fd,
                prog_name,
                priority,
                handle,
                create,
            );
            &&& native::u32_at(m, 0) == m.len()
            &&& native::u16_at(m, 4) == RTM_NEWTFILTER
            &&& create ==> native::u16_at(m, 6) == 0x60d
            &&& !create ==> native::u16_at(m, 6) == 0xd
            &&& native::u32_at(m, 8) == 1
            &&& native::u32_at(m, 12) == 0
            &&& m[16] == 0
            &&& native::i32_at(m, 20) == if_index
            &&& native::u32_at(m, 24) == handle
            &&& native::u32_at(m, 28) == attach_type.parent()
            &&& native::u32_at(m, 32) / 0x1_0000 == priority
            &&& native::u16_bytes((native::u32_at(m, 32) % 0x1_0000) as u16) == seq![0u8, 3u8]
        }),
{
    let info = TcMsg {
        tcm_family: 0,
        tcm_ifindex: if_index,
        tcm_handle: handle,
        tcm_parent: attach_type.parent(),
        tcm_info: tc::filter_info(priority),
    };
    assert(1u16 | 4 | 8 | (0x400u16 | 0x200) == 0x60d) by (bit_vector);
    assert(1u16 | 4 | 8 | 0 == 0xd) by (bit_vector);
    law_names_fit_up_to_480_bytes(prog_name);
    law_filters_are_for_every_protocol(priority);
    traffic::lemma_attach_attrs_len(prog_fd, prog_name);
    law_tc_request_layout(
        RTM_NEWTFILTER,
        tc::attach_flags(create),
        info,
        tc::attach_attrs(prog_fd, prog_name),
    );
}

/// The attributes of the request to attach a filter are the kind, with the four bytes of `bpf`, and a
/// list of options: the program, the name as it is, and the one flag that makes the program's verdict
/// final.
#[verifier::rlimit(40)]
pub proof fn law_attach_request_describes_the_program(
    if_index: i32,
    attach_type: TcAttachType,
    prog_fd: i32,
    prog_name: Seq<u8>,
    priority: u16,
    handle: u32,
    create: bool,
)
    requires
        prog_name.len() <= 480,
    ensures
        ({
            let m = tc::attach_message(
                if_index,
                attach_type,
                prog_fd,
                prog_name,
                priority,
                handle,
                create,
            );
            let list = parse::attrs_of(m.skip(36));
            let options = parse::attrs_of(list->Ok_0[1].data);
            &&& list is Ok
            &&& list->Ok_0.len() == 2
            &&& list->Ok_0[0].header.nla_type == TCA_KIND
            &&& list->Ok_0[0].data == seq![0x62u8, 0x70u8, 0x66u8, 0u8]
            &&& list->Ok_0[1].header.nla_type == TCA_OPTIONS | 0x8000
            &&& options is Ok
            &&& options->Ok_0.len() == 3
            &&& options->Ok_0[0].header.nla_type == TCA_BPF_FD
            &&& options->Ok_0[0].data.len() == 4
            &&& native::i32_at(options->Ok_0[0].data, 0) == prog_fd
            &&& options->Ok_0[1].header.nla_type == TCA_BPF_NAME
            &&& options->Ok_0[1].data == prog_name
            &&& options->Ok_0[2].header.nla_type == TCA_BPF_FLAGS
            &&& options->Ok_0[2].data.len() == 4
            &&& native::u32_at(options->Ok_0[2].data, 0) == 1
        }),
{
    law_names_fit_up_to_480_bytes(prog_name);
    lemma_attrs_of_attach(
        if_index,
        attach_type,
        prog_fd,
        prog_name,
        priority,
        handle,
        create,
    );
    lemma_attach_attrs_describe(prog_fd, prog_name);
}

/// The attributes of the request to attach a filter are what follows the information.
proof fn lemma_attrs_of_attach(
    if_index: i32,
    attach_type: TcAttachType,
    prog_fd: i32,
    prog_name: Seq<u8>,
    priority: u16,
    handle: u32,
    create: bool,
)
    requires
        prog_name.len() <= 480,
    ensures
        tc::attach_message(
            if_index,
            attach_type,
            prog_fd,
            prog_name,
            priority,
            handle,
            create,
        ).skip(36) == tc::attach_attrs(prog_fd, prog_name),
{
    law_names_fit_up_to_480_bytes(prog_name);
    traffic::lemma_attach_attrs_len(prog_fd, prog_name);
    law_tc_request_layout(
        RTM_NEWTFILTER,
        tc::attach_flags(create),
        tc::filter_named(if_index, attach_type.parent(), priority, handle),
        tc::attach_attrs(prog_fd, prog_name),
    );
}

/// What the attributes of the request to attach a filter read back as.
proof fn lemma_attach_attrs_describe(prog_fd: i32, prog_name: Seq<u8>)
    requires
        tc::name_fits(prog_name),
    ensures
        ({
            let list = parse::attrs_of(tc::attach_attrs(prog_fd, prog_name));
            let options = parse::attrs_of(list->Ok_0[1].data);
            &&& list is Ok
            &&& list->Ok_0.len() == 2
            &&& list->Ok_0[0].header.nla_type == TCA_KIND
            &&& list->Ok_0[0].data == seq![0x62u8, 0x70u8, 0x66u8, 0u8]
            &&& list->Ok_0[1].header.nla_type == TCA_OPTIONS | 0x8000
            &&& options is Ok
            &&& options->Ok_0.len() == 3
            &&& options->Ok_0[0].header.nla_type == TCA_BPF_FD
            &&& options->Ok_0[0].data.len() == 4
            &&& native::i32_at(options->Ok_0[0].data, 0) == prog_fd
            &&& options->Ok_0[1].header.nla_type == TCA_BPF_NAME
            &&& options->Ok_0[1].data == prog_name
            &&& options->Ok_0[2].header.nla_type == TCA_BPF_FLAGS
            &&& options->Ok_0[2].data.len() == 4
            &&& native::u32_at(options->Ok_0[2].data, 0) == 1
        }),
{
    traffic::lemma_attach_attrs_read_back(prog_fd, prog_name);
    layout::law_nested_type_is_marked(TCA_OPTIONS);
    lemma_options_describe(prog_fd, prog_name);
}

/// What the options of the request to attach a filter say.
proof fn lemma_options_describe(prog_fd: i32, prog_name: Seq<u8>)
    ensures
        ({
            let options = attrs::list_view(tc::bpf_options(prog_fd, prog_name));
            &&& options.len() == 3
            &&& options[0].header.nla_type == TCA_BPF_FD
            &&& options[0].data.len() == 4
            &&& native::i32_at(options[0].data, 0) == prog_fd
            &&& options[1].header.nla_type == TCA_BPF_NAME
            &&& options[1].data == prog_name
            &&& options[2].header.nla_type == TCA_BPF_FLAGS
            &&& options[2].data.len() == 4
            &&& native::u32_at(options[2].data, 0) == 1
        }),
{
    let fd = native::i32_bytes(prog_fd);
    let flags = native::u32_bytes(1);
    lemma_options_view(fd, prog_name, flags);
    assert(fd.subrange(0, 4) =~= fd);
    native::lemma_i32_reads_back(fd, 0, prog_fd);
    assert(flags.subrange(0, 4) =~= flags);
    native::lemma_u32_reads_back(flags, 0, 1);
}

/// What the options of a filter read back as.
proof fn lemma_options_view(fd: Seq<u8>, name: Seq<u8>, flags: Seq<u8>)
    ensures
        attrs::list_view(seq![(TCA_BPF_FD, fd), (TCA_BPF_NAME, name), (TCA_BPF_FLAGS, flags)])
            == seq![
            attrs::attr_view(TCA_BPF_FD, fd),
            attrs::attr_view(TCA_BPF_NAME, name),
            attrs::attr_view(TCA_BPF_FLAGS, flags),
        ],
{
    let list = seq![(TCA_BPF_FD, fd), (TCA_BPF_NAME, name), (TCA_BPF_FLAGS, flags)];
    assert(attrs::list_view(list) =~= seq![
        attrs::attr_view(TCA_BPF_FD, fd),
        attrs::attr_view(TCA_BPF_NAME, name),
        attrs::attr_view(TCA_BPF_FLAGS, flags),
    ]);
}

/// The request to detach a filter names the link, the parent, the handle and the priority that were
/// asked for, for every protocol, and has no attributes.
pub proof fn law_detach_request(
    if_index: i32,
    attach_type: TcAttachType,
    priority: u16,
    handle: u32,
)
    ensures
        ({
            let m = tc::detach_message(if_index, attach_type, priority, handle);
            &&& m.len() == 36
            &&& native::u32_at(m, 0) == 36
            &&& native::u16_at(m, 4) == RTM_DELTFILTER
            &&& native::u16_at(m, 6) == 5
            &&& native::u32_at(m, 8) == 1
            &&& native::u32_at(m, 12) == 0
            &&& m[16] == 0
            &&& native::i32_at(m, 20) == if_index
            &&& native::u32_at(m, 24) == handle
            &&& native::u32_at(m, 28) == attach_type.parent()
            &&& native::u32_at(m, 32) / 0x1_0000 == priority
            &&& native::u16_bytes((native::u32_at(m, 32) % 0x1_0000) as u16) == seq![0u8, 3u8]
        }),
{
    let info = TcMsg {
        tcm_family: 0,
        tcm_ifindex: if_index,
        tcm_handle: handle,
        tcm_parent: attach_type.parent(),
        tcm_info: tc::filter_info(priority),
    };
    assert(1u16 | 4 == 5) by (bit_vector);
    law_filters_are_for_every_protocol(priority);
    law_tc_request_layout(RTM_DELTFILTER, 5, info, Seq::empty());
}

/// What is attached is detached by the same twenty bytes of information.
pub proof fn law_detach_undoes_attach(
    if_index: i32,
    attach_type: TcAttachType,
    prog_fd: i32,
    prog_name: Seq<u8>,
    priority: u16,
    handle: u32,
    create: bool,
)
    requires
        prog_name.len() <= 480,
    ensures
        tc::detach_message(if_index, attach_type, priority, handle).subrange(16, 36)
            == tc::attach_message(
            if_index,
            attach_type,
            prog_fd,
            prog_name,
            priority,
            handle,
            create,
        ).subrange(16, 36),
{
    let info = tc::filter_named(if_index, attach_type.parent(), priority, handle);
    layout::law_tc_info_layout(info);
    traffic::lemma_attach_attrs_len(prog_fd, prog_name);
    law_names_fit_up_to_480_bytes(prog_name);
    law_request_layout(
        RTM_NEWTFILTER,
        tc::attach_flags(create),
        info.bytes(),
        tc::attach_attrs(prog_fd, prog_name),
    );
    assert(1u16 | 4 == 5) by (bit_vector);
    law_request_layout(RTM_DELTFILTER, 5, info.bytes(), Seq::empty());
}

/// The request for the filters of a link asks for a list, names the link and the parent, and nothing
/// else.
pub proof fn law_list_filters_request(if_index: i32, attach_type: TcAttachType)
    ensures
        ({
            let m = tc::list_filters_message(if_index, attach_type);
            &&& m.len() == 36
            &&& native::u32_at(m, 0) == 36
            &&& native::u16_at(m, 4) == RTM_GETTFILTER
            &&& native::u16_at(m, 6) == 0x301
            &&& native::u32_at(m, 8) == 1
            &&& native::u32_at(m, 12) == 0
            &&& m[16] == 0
            &&& native::i32_at(m, 20) == if_index
            &&& native::u32_at(m, 24) == 0
            &&& native::u32_at(m, 28) == attach_type.parent()
            &&& native::u32_at(m, 32) == 0
        }),
{
    let info = TcMsg {
        tcm_family: 0,
        tcm_ifindex: if_index,
        tcm_handle: 0,
        tcm_parent: attach_type.parent(),
        tcm_info: 0,
    };
    assert(1u16 | 0x300 == 0x301) by (bit_vector);
    law_tc_request_layout(RTM_GETTFILTER, 0x301, info, Seq::empty());
}

} // verus!
