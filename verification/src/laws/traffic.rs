//! Traffic control and XDP: what one request makes, the others find.
use vstd::prelude::*;

use crate::error::NlAttrError;
use crate::laws::attrs;
use crate::message::NetlinkMessageView;
use crate::parse::NlAttrView;
use crate::request::TcMsg;
use crate::tc::TcAttachType;
use crate::uapi::{
    IFLA_XDP, RTM_NEWQDISC, RTM_NEWTFILTER, TCA_BPF_NAME, TCA_KIND, TCA_OPTIONS, TCMSG_LEN,
};
use crate::{align, attr, encode, link, native, parse, request, tc, tc_reply, text};

verus! {

/// Traffic control information reads back from the front of a payload, and the attributes are what
/// follows it.
pub proof fn law_tc_msg_reads_back(msg: TcMsg, rest: Seq<u8>)
    ensures
        request::tc_msg_of(msg.bytes() + rest) == msg,
        (msg.bytes() + rest).skip(TCMSG_LEN as int) == rest,
        (msg.bytes() + rest).len() == TCMSG_LEN + rest.len(),
{
    let pad = seq![msg.tcm_family, 0u8, 0u8, 0u8];
    let index = native::i32_bytes(msg.tcm_ifindex);
    let handle = native::u32_bytes(msg.tcm_handle);
    let parent = native::u32_bytes(msg.tcm_parent);
    let info = native::u32_bytes(msg.tcm_info);
    let s = msg.bytes() + rest;
    lemma_tc_parts(pad, index, handle, parent, info, rest);
    native::lemma_i32_reads_back(s, 4, msg.tcm_ifindex);
    native::lemma_u32_reads_back(s, 8, msg.tcm_handle);
    native::lemma_u32_reads_back(s, 12, msg.tcm_parent);
    native::lemma_u32_reads_back(s, 16, msg.tcm_info);
}

/// Where the parts of a traffic control message stand.
proof fn lemma_tc_parts(
    pad: Seq<u8>,
    index: Seq<u8>,
    handle: Seq<u8>,
    parent: Seq<u8>,
    info: Seq<u8>,
    rest: Seq<u8>,
)
    requires
        pad.len() == 4,
        index.len() == 4,
        handle.len() == 4,
        parent.len() == 4,
        info.len() == 4,
    ensures
        ({
            let s = pad + index + handle + parent + info + rest;
            &&& s[0] == pad[0]
            &&& s.subrange(4, 8) == index
            &&& s.subrange(8, 12) == handle
            &&& s.subrange(12, 16) == parent
            &&& s.subrange(16, 20) == info
            &&& s.skip(20) == rest
            &&& s.len() == 20 + rest.len()
        }),
{
    let s = pad + index + handle + parent + info + rest;
    assert(s.subrange(4, 8) =~= index);
    assert(s.subrange(8, 12) =~= handle);
    assert(s.subrange(12, 16) =~= parent);
    assert(s.subrange(16, 20) =~= info);
    assert(s.skip(20) =~= rest);
}

/// The priority that a filter is attached with is the priority that is read from its description.
pub proof fn law_priority_reads_back(priority: u16)
    ensures
        tc_reply::priority_of(tc::filter_info(priority)) == priority,
{
}

/// A filter is detached by naming exactly what the kernel described: the link and the parent that it
/// was attached to, and the priority and the handle from the reply.
pub proof fn law_detach_names_the_described_filter(
    reply: NetlinkMessageView,
    if_index: i32,
    parent: u32,
    priority: u16,
    handle: u32,
)
    requires
        request::tc_msg_of(reply.data) == tc::filter_named(if_index, parent, priority, handle),
    ensures
        tc_reply::filter_id(reply) == (priority, handle),
        tc::filter_named(
            if_index,
            parent,
            tc_reply::filter_id(reply).0,
            tc_reply::filter_id(reply).1,
        ) == request::tc_msg_of(reply.data),
{
    law_priority_reads_back(priority);
}

/// A name of up to 256 bytes, the most that the kernel keeps, fits in a request.
pub proof fn law_names_of_the_kernel_fit(prog_name: Seq<u8>)
    requires
        prog_name.len() <= 256,
    ensures
        tc::name_fits(prog_name),
{
}

/// Only a request for a new filter says that it creates one and that there must be none yet.
pub proof fn law_only_new_filters_are_exclusive(create: bool)
    ensures
        tc::attach_flags(create) / 0x400 % 2 == 1 <==> create,
        tc::attach_flags(create) / 0x200 % 2 == 1 <==> create,
{
    assert(1u16 | 4 | 8 | (0x400u16 | 0x200) == 0x60d) by (bit_vector);
    assert(1u16 | 4 | 8 | 0 == 0xd) by (bit_vector);
}

/// The options of a filter, as they read back from the request to attach it.
pub(crate) proof fn lemma_attach_attrs_read_back(prog_fd: i32, prog_name: Seq<u8>)
    requires
        tc::name_fits(prog_name),
    ensures
        ({
            let kind = attrs::attr_view(TCA_KIND, tc::bpf());
            let list = tc::bpf_options(prog_fd, prog_name);
            let options = attrs::attr_view(
                attr::nested_type(TCA_OPTIONS),
                encode::encode_list(list),
            );
            &&& parse::attrs_of(tc::attach_attrs(prog_fd, prog_name)) == Ok::<
                Seq<NlAttrView>,
                NlAttrError,
            >(seq![kind, options])
            &&& parse::type_of(kind) == TCA_KIND
            &&& parse::type_of(options) == TCA_OPTIONS
            &&& parse::attrs_of(options.data) == Ok::<Seq<NlAttrView>, NlAttrError>(
                attrs::list_view(list),
            )
        }),
{
    let list = tc::bpf_options(prog_fd, prog_name);
    lemma_options_len(prog_fd, prog_name);
    attrs::law_attr_reads_back(TCA_KIND, tc::bpf());
    attrs::law_nested_reads_back(TCA_OPTIONS, list);
    attrs::lemma_attrs_of_concat(
        encode::encode_attr(TCA_KIND, tc::bpf()),
        encode::encode_nested(TCA_OPTIONS, list),
    );
    let kind = attrs::attr_view(TCA_KIND, tc::bpf());
    let options = attrs::attr_view(attr::nested_type(TCA_OPTIONS), encode::encode_list(list));
    assert(seq![kind] + seq![options] =~= seq![kind, options]);
}

/// The length of the options of a filter.
proof fn lemma_options_len(prog_fd: i32, prog_name: Seq<u8>)
    ensures
        encode::encode_list(tc::bpf_options(prog_fd, prog_name)).len() == 20 + align::align_up(
            prog_name.len() as int,
            4,
        ),
{
    let fd = native::i32_bytes(prog_fd);
    let flags = native::u32_bytes(crate::uapi::TCA_BPF_FLAG_ACT_DIRECT);
    let none = Seq::<(u16, Seq<u8>)>::empty();
    let one = none.push((crate::uapi::TCA_BPF_FD, fd));
    let two = one.push((TCA_BPF_NAME, prog_name));
    let three = two.push((crate::uapi::TCA_BPF_FLAGS, flags));
    assert(three =~= tc::bpf_options(prog_fd, prog_name));
    encode::lemma_encode_list_push(none, crate::uapi::TCA_BPF_FD, fd);
    encode::lemma_encode_list_push(one, TCA_BPF_NAME, prog_name);
    encode::lemma_encode_list_push(two, crate::uapi::TCA_BPF_FLAGS, flags);
    encode::lemma_encode_attr_len(crate::uapi::TCA_BPF_FD, fd);
    encode::lemma_encode_attr_len(TCA_BPF_NAME, prog_name);
    encode::lemma_encode_attr_len(crate::uapi::TCA_BPF_FLAGS, flags);
}

/// The length of the attributes of the request to attach a filter.
pub(crate) proof fn lemma_attach_attrs_len(prog_fd: i32, prog_name: Seq<u8>)
    ensures
        tc::attach_attrs(prog_fd, prog_name).len() == 32 + align::align_up(
            prog_name.len() as int,
            4,
        ),
{
    let options = encode::encode_list(tc::bpf_options(prog_fd, prog_name));
    lemma_options_len(prog_fd, prog_name);
    encode::lemma_encode_attr_len(TCA_KIND, tc::bpf());
    encode::lemma_encode_attr_len(attr::nested_type(TCA_OPTIONS), options);
    align::lemma_align_up_4(prog_name.len() as int);
    align::lemma_align_up_4(options.len() as int);
}

/// The name in the options of a filter is the one that it was attached with.
proof fn lemma_options_hold_the_name(prog_fd: i32, prog_name: Seq<u8>)
    requires
        text::is_c_string(prog_name),
        tc::name_fits(prog_name),
    ensures
        tc_reply::filter_name(
            parse::by_type(attrs::list_view(tc::bpf_options(prog_fd, prog_name))),
        ) == Some(prog_name),
{
    let list = attrs::list_view(tc::bpf_options(prog_fd, prog_name));
    attrs::law_table_keeps_the_last(list, TCA_BPF_NAME);
    assert(list.len() == 3);
    assert(list[1] == attrs::attr_view(TCA_BPF_NAME, prog_name));
    assert(parse::type_of(list[1]) == TCA_BPF_NAME);
    assert(parse::type_of(list[2]) != TCA_BPF_NAME);
}

/// A filter that is described as it was attached is found under its name, and under no other, with
/// its priority and its handle.
pub proof fn law_attached_filter_is_found_by_name(
    reply: NetlinkMessageView,
    if_index: i32,
    attach_type: TcAttachType,
    prog_fd: i32,
    prog_name: Seq<u8>,
    priority: u16,
    handle: u32,
    name: Seq<u8>,
)
    requires
        text::is_c_string(prog_name),
        tc::name_fits(prog_name),
        reply.header.nlmsg_type == RTM_NEWTFILTER,
        reply.data == tc::filter_named(
            if_index,
            attach_type.parent(),
            priority,
            handle,
        ).bytes() + tc::attach_attrs(prog_fd, prog_name),
    ensures
        tc_reply::complete(reply, RTM_NEWTFILTER),
        tc_reply::filter_matches(reply, name) == Ok::<bool, NlAttrError>(name == prog_name),
        tc_reply::filter_id(reply) == (priority, handle),
{
    let msg = tc::filter_named(if_index, attach_type.parent(), priority, handle);
    law_tc_msg_reads_back(msg, tc::attach_attrs(prog_fd, prog_name));
    law_detach_names_the_described_filter(
        reply,
        if_index,
        attach_type.parent(),
        priority,
        handle,
    );
    lemma_attach_attrs_read_back(prog_fd, prog_name);
    lemma_options_hold_the_name(prog_fd, prog_name);
    let kind = attrs::attr_view(TCA_KIND, tc::bpf());
    let options = attrs::attr_view(
        attr::nested_type(TCA_OPTIONS),
        encode::encode_list(tc::bpf_options(prog_fd, prog_name)),
    );
    let list = seq![kind, options];
    attrs::law_table_keeps_the_last(list, TCA_OPTIONS);
    assert(list[1] == options);
    assert(parse::by_type(list)[TCA_OPTIONS] == options);
}

/// A `clsact` queueing discipline that is described with the kind it was added with is found on its
/// own link, and says nothing of any other.
pub proof fn law_added_clsact_is_found(reply: NetlinkMessageView, msg: TcMsg, if_index: i32)
    requires
        reply.header.nlmsg_type == RTM_NEWQDISC,
        reply.data == msg.bytes() + encode::encode_attr(TCA_KIND, tc::clsact()),
    ensures
        tc_reply::complete(reply, RTM_NEWQDISC),
        tc_reply::clsact_verdict(reply, if_index) == (if msg.tcm_ifindex == if_index {
            Some(Ok::<bool, NlAttrError>(true))
        } else {
            None
        }),
{
    law_tc_msg_reads_back(msg, encode::encode_attr(TCA_KIND, tc::clsact()));
    attrs::law_attr_reads_back(TCA_KIND, tc::clsact());
    let list = seq![attrs::attr_view(TCA_KIND, tc::clsact())];
    attrs::law_table_keeps_the_last(list, TCA_KIND);
    assert(list[0] == attrs::attr_view(TCA_KIND, tc::clsact()));
    assert(parse::type_of(list[0]) == TCA_KIND);
    assert(parse::by_type(list)[TCA_KIND] == list[0]);
}

/// A link has a `clsact` queueing discipline exactly where some message says so before any
/// malformed one, and has none exactly where no message says anything.
pub proof fn law_clsact_exists_where_a_message_says_so(
    messages: Seq<NetlinkMessageView>,
    if_index: i32,
)
    ensures
        tc_reply::clsact_exists(messages, if_index) == Ok::<bool, NlAttrError>(true)
            <==> exists|i: int|
            0 <= i < messages.len() && #[trigger] tc_reply::clsact_verdict(messages[i], if_index)
                == Some(Ok::<bool, NlAttrError>(true)) && forall|j: int|
                0 <= j < i ==> #[trigger] tc_reply::clsact_verdict(messages[j], if_index) is None,
        tc_reply::clsact_exists(messages, if_index) == Ok::<bool, NlAttrError>(false)
            <==> forall|i: int|
            0 <= i < messages.len() ==> #[trigger] tc_reply::clsact_verdict(
                messages[i],
                if_index,
            ) is None,
    decreases messages.len(),
{
    if messages.len() > 0 {
        let first = tc_reply::clsact_verdict(messages[0], if_index);
        let later = messages.drop_first();
        law_clsact_exists_where_a_message_says_so(later, if_index);
        assert(forall|i: int| 0 <= i < later.len() ==> later[i] == messages[i + 1]);
        if first is None {
            if tc_reply::clsact_exists(later, if_index) == Ok::<bool, NlAttrError>(true) {
                let i = choose|i: int|
                    0 <= i < later.len() && #[trigger] tc_reply::clsact_verdict(later[i], if_index)
                        == Some(Ok::<bool, NlAttrError>(true)) && forall|j: int|
                        0 <= j < i ==> #[trigger] tc_reply::clsact_verdict(
                            later[j],
                            if_index,
                        ) is None;
                assert forall|j: int| 0 <= j < i + 1 implies #[trigger] tc_reply::clsact_verdict(
                    messages[j],
                    if_index,
                ) is None by {
                    if j > 0 {
                        assert(later[j - 1] == messages[j]);
                    }
                }
                assert(messages[i + 1] == later[i]);
            } else {
                assert forall|i: int|
                    0 <= i < messages.len() && #[trigger] tc_reply::clsact_verdict(
                        messages[i],
                        if_index,
                    ) == Some(Ok::<bool, NlAttrError>(true)) implies exists|j: int|
                    0 <= j < i && #[trigger] tc_reply::clsact_verdict(
                        messages[j],
                        if_index,
                    ) is Some by {
                    assert(later[i - 1] == messages[i]);
                    let j = choose|j: int|
                        0 <= j < i - 1 && #[trigger] tc_reply::clsact_verdict(
                            later[j],
                            if_index,
                        ) is Some;
                    assert(messages[j + 1] == later[j]);
                }
                if tc_reply::clsact_exists(later, if_index) == Ok::<bool, NlAttrError>(false) {
                    assert forall|i: int|
                        0 <= i < messages.len() implies #[trigger] tc_reply::clsact_verdict(
                        messages[i],
                        if_index,
                    ) is None by {
                        if i > 0 {
                            assert(later[i - 1] == messages[i]);
                        }
                    }
                } else {
                    let i = choose|i: int|
                        0 <= i < later.len() && #[trigger] tc_reply::clsact_verdict(
                            later[i],
                            if_index,
                        ) is Some;
                    assert(messages[i + 1] == later[i]);
                }
            }
        } else {
            assert(tc_reply::clsact_verdict(messages[0], if_index) is Some);
        }
    }
}

/// The filters that are found are those that messages describe under the name, each of them.
pub proof fn law_found_filters_are_the_described_ones(
    messages: Seq<NetlinkMessageView>,
    name: Seq<u8>,
    id: (u16, u32),
)
    requires
        tc_reply::filters_named(messages, name) is Ok,
    ensures
        tc_reply::filters_named(messages, name)->Ok_0.contains(id) <==> exists|i: int|
            0 <= i < messages.len() && #[trigger] tc_reply::filter_matches(messages[i], name)
                == Ok::<bool, NlAttrError>(true) && tc_reply::filter_id(messages[i]) == id,
    decreases messages.len(),
{
    if messages.len() > 0 {
        let found = tc_reply::filters_named(messages, name)->Ok_0;
        let later = messages.drop_first();
        let rest = tc_reply::filters_named(later, name)->Ok_0;
        law_found_filters_are_the_described_ones(later, name, id);
        let matches = tc_reply::filter_matches(messages[0], name)->Ok_0;
        if rest.contains(id) {
            let i = choose|i: int|
                0 <= i < later.len() && #[trigger] tc_reply::filter_matches(later[i], name) == Ok::<
                    bool,
                    NlAttrError,
                >(true) && tc_reply::filter_id(later[i]) == id;
            assert(messages[i + 1] == later[i]);
            let k = choose|k: int| 0 <= k < rest.len() && rest[k] == id;
            if matches {
                assert(found[k + 1] == id);
            }
        }
        if found.contains(id) {
            let k = choose|k: int| 0 <= k < found.len() && found[k] == id;
            if matches && k == 0 {
                assert(tc_reply::filter_id(messages[0]) == id);
            } else if matches {
                assert(rest[k - 1] == id);
            }
        }
        if exists|i: int|
            0 <= i < messages.len() && #[trigger] tc_reply::filter_matches(messages[i], name)
                == Ok::<bool, NlAttrError>(true) && tc_reply::filter_id(messages[i]) == id {
            let i = choose|i: int|
                0 <= i < messages.len() && #[trigger] tc_reply::filter_matches(messages[i], name)
                    == Ok::<bool, NlAttrError>(true) && tc_reply::filter_id(messages[i]) == id;
            if i == 0 {
                assert(found[0] == id);
            } else {
                assert(later[i - 1] == messages[i]);
            }
        }
    }
}

/// What is asked of the XDP program of a link reads back from the attributes of the request.
pub proof fn law_xdp_attrs_read_back(fd: Option<i32>, old_fd: Option<i32>, flags: u32)
    ensures
        ({
            let list = link::xdp_attrs(fd, old_fd, flags);
            let outer = attrs::attr_view(attr::nested_type(IFLA_XDP), encode::encode_list(list));
            &&& parse::attrs_of(encode::encode_nested(IFLA_XDP, list)) == Ok::<
                Seq<NlAttrView>,
                NlAttrError,
            >(seq![outer])
            &&& parse::type_of(outer) == IFLA_XDP
            &&& parse::attrs_of(outer.data) == Ok::<Seq<NlAttrView>, NlAttrError>(
                attrs::list_view(list),
            )
        }),
{
    let list = link::xdp_attrs(fd, old_fd, flags);
    lemma_short_payloads(list);
    attrs::law_nested_reads_back(IFLA_XDP, list);
}

/// A list of attributes with four bytes each takes eight for each.
pub(crate) proof fn lemma_short_payloads(list: Seq<(u16, Seq<u8>)>)
    requires
        forall|i: int| 0 <= i < list.len() ==> (#[trigger] list[i]).1.len() == 4,
    ensures
        encode::encode_list(list).len() == 8 * list.len(),
    decreases list.len(),
{
    if list.len() > 0 {
        assert(list[list.len() - 1].1.len() == 4);
        assert forall|i: int| 0 <= i < list.drop_last().len() implies (
        #[trigger] list.drop_last()[i]).1.len() == 4 by {
            assert(list.drop_last()[i] == list[i]);
        }
        lemma_short_payloads(list.drop_last());
        encode::lemma_encode_attr_len(list.last().0, list.last().1);
    }
}

} // verus!
