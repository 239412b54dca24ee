//! What the kernel answers to traffic control requests.
use vstd::prelude::*;
use vstd::slice::slice_subrange;

use crate::error::{
    IoError, NetlinkError, NetlinkErrorInternal, NetlinkErrorView, NlAttrError, OtherError,
};
use crate::message::{NetlinkMessage, NetlinkMessageView};
use crate::parse::{parse_attrs, NlAttrView};
use crate::request::TcMsg;
use crate::text::{ends_at_first_zero, same_bytes};
use crate::uapi::{
    RTM_NEWQDISC, RTM_NEWTFILTER, TCA_BPF_NAME, TCA_KIND, TCA_OPTIONS, TCMSG_LEN, TC_H_MAJ_MASK,
};
use crate::{message, native, parse, request, tc, text};

verus! {

/// Whether a message, if it is of this type, has room for the traffic control information that such
/// a message opens with.
pub open spec fn complete(message: NetlinkMessageView, nlmsg_type: u16) -> bool {
    message.header.nlmsg_type == nlmsg_type ==> message.data.len() >= TCMSG_LEN
}

/// The attributes of a traffic control message.
pub open spec fn tc_attrs(message: NetlinkMessageView) -> Result<Seq<NlAttrView>, NlAttrError> {
    parse::attrs_of(message.data.skip(TCMSG_LEN as int))
}

/// Whether attributes name the kind `clsact`.
pub open spec fn is_clsact(attrs: Map<u16, NlAttrView>) -> bool {
    attrs.contains_key(TCA_KIND) && attrs[TCA_KIND].data == tc::clsact()
}

/// What one message says on whether the link has a `clsact` queueing discipline: that it has one,
/// that the message is malformed, or nothing.
pub open spec fn clsact_verdict(message: NetlinkMessageView, if_index: i32) -> Option<
    Result<bool, NlAttrError>,
> {
    if message.header.nlmsg_type != RTM_NEWQDISC {
        None
    } else if request::tc_msg_of(message.data).tcm_ifindex != if_index {
        None
    } else {
        match tc_attrs(message) {
            Err(e) => Some(Err(e)),
            Ok(list) => if is_clsact(parse::by_type(list)) {
                Some(Ok(true))
            } else {
                None
            },
        }
    }
}

/// Whether the link has a `clsact` queueing discipline: the first message that says something
/// decides.
pub open spec fn clsact_exists(messages: Seq<NetlinkMessageView>, if_index: i32) -> Result<
    bool,
    NlAttrError,
>
    decreases messages.len(),
{
    if messages.len() == 0 {
        Ok(false)
    } else {
        match clsact_verdict(messages[0], if_index) {
            Some(verdict) => verdict,
            None => clsact_exists(messages.drop_first(), if_index),
        }
    }
}

/// Whether every message up to the one that decides is complete.
pub open spec fn qdiscs_complete(messages: Seq<NetlinkMessageView>, if_index: i32) -> bool
    decreases messages.len(),
{
    messages.len() == 0 || {
        &&& complete(messages[0], RTM_NEWQDISC)
        &&& clsact_verdict(messages[0], if_index) is None ==> qdiscs_complete(
            messages.drop_first(),
            if_index,
        )
    }
}

/// The priority in the information of a filter.
pub open spec fn priority_of(tcm_info: u32) -> u16 {
    (tcm_info / 0x1_0000) as u16
}

/// The name of a filter among its options, if it is a string in the convention of C.
pub open spec fn filter_name(options: Map<u16, NlAttrView>) -> Option<Seq<u8>> {
    if options.contains_key(TCA_BPF_NAME) && text::is_c_string(options[TCA_BPF_NAME].data) {
        Some(options[TCA_BPF_NAME].data)
    } else {
        None
    }
}

/// Whether attributes describe a filter of this name.
pub open spec fn names_filter(attrs: Map<u16, NlAttrView>, name: Seq<u8>) -> Result<
    bool,
    NlAttrError,
> {
    if attrs.contains_key(TCA_OPTIONS) {
        match parse::attrs_of(attrs[TCA_OPTIONS].data) {
            Err(e) => Err(e),
            Ok(options) => Ok(filter_name(parse::by_type(options)) == Some(name)),
        }
    } else {
        Ok(false)
    }
}

/// Whether a message describes a filter of this name.
pub open spec fn filter_matches(message: NetlinkMessageView, name: Seq<u8>) -> Result<
    bool,
    NlAttrError,
> {
    if message.header.nlmsg_type != RTM_NEWTFILTER {
        Ok(false)
    } else {
        match tc_attrs(message) {
            Err(e) => Err(e),
            Ok(list) => names_filter(parse::by_type(list), name),
        }
    }
}

/// The priority and the handle of the filter that a message describes.
pub open spec fn filter_id(message: NetlinkMessageView) -> (u16, u32) {
    let info = request::tc_msg_of(message.data);
    (priority_of(info.tcm_info), info.tcm_handle)
}

/// The filters of this name, in the order of the messages that describe them, or the first thing
/// that is wrong with a message.
pub open spec fn filters_named(messages: Seq<NetlinkMessageView>, name: Seq<u8>) -> Result<
    Seq<(u16, u32)>,
    NlAttrError,
>
    decreases messages.len(),
{
    if messages.len() == 0 {
        Ok(Seq::empty())
    } else {
        match filter_matches(messages[0], name) {
            Err(e) => Err(e),
            Ok(matches) => match filters_named(messages.drop_first(), name) {
                Err(e) => Err(e),
                Ok(rest) => Ok(
                    if matches {
                        seq![filter_id(messages[0])] + rest
                    } else {
                        rest
                    },
                ),
            },
        }
    }
}

/// Whether every message up to the first malformed one is complete.
pub open spec fn filters_complete(messages: Seq<NetlinkMessageView>, name: Seq<u8>) -> bool
    decreases messages.len(),
{
    messages.len() == 0 || {
        &&& complete(messages[0], RTM_NEWTFILTER)
        &&& filter_matches(messages[0], name) is Ok ==> filters_complete(
            messages.drop_first(),
            name,
        )
    }
}

/// The first message that describes a filter.
pub open spec fn first_filter(messages: Seq<NetlinkMessageView>) -> Option<NetlinkMessageView>
    decreases messages.len(),
{
    if messages.len() == 0 {
        None
    } else if messages[0].header.nlmsg_type == RTM_NEWTFILTER {
        Some(messages[0])
    } else {
        first_filter(messages.drop_first())
    }
}

/// Whether the first message that describes a filter is complete.
pub open spec fn first_filter_complete(messages: Seq<NetlinkMessageView>) -> bool {
    first_filter(messages) matches Some(message) ==> complete(message, RTM_NEWTFILTER)
}

/// What a message says on whether the link has a `clsact` queueing discipline.
fn read_clsact_verdict(msg: &NetlinkMessage, if_index: i32) -> (r: Option<
    Result<bool, NlAttrError>,
>)
    requires
        complete(msg@, RTM_NEWQDISC),
    ensures
        r == clsact_verdict(msg@, if_index),
{
    if msg.header.nlmsg_type != RTM_NEWQDISC {
        return None;
    }
    let tc_msg = TcMsg::read(msg.data.as_slice());
    if tc_msg.tcm_ifindex != if_index {
        return None;
    }
    let rest: &[u8] = slice_subrange(msg.data.as_slice(), TCMSG_LEN, msg.data.len());
    assert(rest@ == msg@.data.skip(TCMSG_LEN as int));
    match parse_attrs(rest) {
        Err(e) => Some(Err(e)),
        Ok(attrs) => {
            let ghost table = parse::table_view(attrs@);
            assert(table.contains_key(TCA_KIND) <==> attrs@.contains_key(TCA_KIND));
            if let Some(opts) = attrs.get(&TCA_KIND) {
                assert(table[TCA_KIND] == opts@);
                let kind: [u8; 7] = [0x63u8, 0x6cu8, 0x73u8, 0x61u8, 0x63u8, 0x74u8, 0u8];
                assert(kind@ == tc::clsact());
                if same_bytes(opts.data, kind.as_slice()) {
                    return Some(Ok(true));
                }
            }
            None
        },
    }
}

/// Whether every message up to the one that decides whether the link `if_index` has a `clsact`
/// queueing discipline is complete.
pub fn qdisc_replies_are_complete(messages: &Vec<NetlinkMessage>, if_index: i32) -> (r: bool)
    ensures
        r == qdiscs_complete(message::messages_view(messages@), if_index),
{
    let ghost views = message::messages_view(messages@);
    assert(views.skip(0) == views);
    let mut i: usize = 0;
    while i < messages.len()
        invariant
            i <= messages@.len(),
            views == message::messages_view(messages@),
            qdiscs_complete(views, if_index) == qdiscs_complete(views.skip(i as int), if_index),
        decreases messages@.len() - i,
    {
        let msg = &messages[i];
        proof {
            assert(views.skip(i as int)[0] == msg@);
            assert(views.skip(i as int).drop_first() == views.skip(i + 1));
        }
        if msg.header.nlmsg_type == RTM_NEWQDISC && msg.data.len() < TCMSG_LEN {
            return false;
        }
        if read_clsact_verdict(msg, if_index).is_some() {
            return true;
        }
        i += 1;
    }
    true
}

/// Reads from the replies to [`crate::tc::netlink_clsact_qdisc_exists_request`] whether the link
/// `if_index` has a `clsact` queueing discipline.
pub fn netlink_clsact_qdisc_exists_reply(messages: &Vec<NetlinkMessage>, if_index: i32) -> (r:
    Result<bool, NetlinkError>)
    requires
        qdiscs_complete(message::messages_view(messages@), if_index),
    ensures
        match r {
            Ok(exists) => clsact_exists(message::messages_view(messages@), if_index) == Ok::<
                bool,
                NlAttrError,
            >(exists),
            Err(e) => {
                &&& clsact_exists(message::messages_view(messages@), if_index) is Err
                &&& e@ == NetlinkErrorView::NlAttrError(
                    clsact_exists(message::messages_view(messages@), if_index)->Err_0,
                )
            },
        },
        r matches Ok(true) ==> exists|i: int|
            0 <= i < messages@.len() && (#[trigger] messages@[i]).header.nlmsg_type == RTM_NEWQDISC
                && native::i32_at(messages@[i].data@, 4) == if_index,
{
    let ghost views = message::messages_view(messages@);
    assert(views.skip(0) == views);
    let mut i: usize = 0;
    while i < messages.len()
        invariant
            i <= messages@.len(),
            views == message::messages_view(messages@),
            qdiscs_complete(views.skip(i as int), if_index),
            clsact_exists(views, if_index) == clsact_exists(views.skip(i as int), if_index),
        decreases messages@.len() - i,
    {
        let msg = &messages[i];
        proof {
            assert(views.skip(i as int)[0] == msg@);
            assert(views.skip(i as int).drop_first() == views.skip(i + 1));
        }
        match read_clsact_verdict(msg, if_index) {
            None => {},
            Some(Ok(verdict)) => return Ok(verdict),
            Some(Err(e)) => return Err(NetlinkError(NetlinkErrorInternal::NlAttrError(e))),
        }
        i += 1;
    }
    Ok(false)
}

/// Whether the first message that describes a filter is complete.
pub fn attach_reply_is_complete(messages: &Vec<NetlinkMessage>) -> (r: bool)
    ensures
        r == first_filter_complete(message::messages_view(messages@)),
{
    match find_first_filter(messages) {
        Some(reply) => reply.data.len() >= TCMSG_LEN,
        None => true,
    }
}

/// The first message that describes a filter.
fn find_first_filter(messages: &Vec<NetlinkMessage>) -> (r: Option<&NetlinkMessage>)
    ensures
        match r {
            Some(message) => first_filter(message::messages_view(messages@)) == Some(message@),
            None => first_filter(message::messages_view(messages@)) is None,
        },
        r matches Some(message) ==> message.header.nlmsg_type == RTM_NEWTFILTER,
        r matches Some(message) ==> exists|i: int|
            0 <= i < messages@.len() && #[trigger] messages@[i] == *message && forall|j: int|
                0 <= j < i ==> (#[trigger] messages@[j]).header.nlmsg_type != RTM_NEWTFILTER,
        r is None ==> forall|i: int|
            0 <= i < messages@.len() ==> (#[trigger] messages@[i]).header.nlmsg_type
                != RTM_NEWTFILTER,
{
    let ghost views = message::messages_view(messages@);
    assert(views.skip(0) == views);
    let mut i: usize = 0;
    while i < messages.len()
        invariant
            i <= messages@.len(),
            views == message::messages_view(messages@),
            first_filter(views) == first_filter(views.skip(i as int)),
            forall|j: int|
                0 <= j < i ==> (#[trigger] messages@[j]).header.nlmsg_type != RTM_NEWTFILTER,
        decreases messages@.len() - i,
    {
        let reply = &messages[i];
        proof {
            assert(views.skip(i as int)[0] == reply@);
            assert(views.skip(i as int).drop_first() == views.skip(i + 1));
        }
        if reply.header.nlmsg_type == RTM_NEWTFILTER {
            assert(messages@[i as int] == *reply);
            return Some(reply);
        }
        i += 1;
    }
    None
}

/// Reads from the replies to [`crate::tc::netlink_qdisc_attach_request`] the priority and the handle
/// that the kernel gave the filter, which are needed to detach it.
pub fn netlink_qdisc_attach_reply(messages: &Vec<NetlinkMessage>) -> (r: Result<
    (u16, u32),
    NetlinkError,
>)
    requires
        first_filter_complete(message::messages_view(messages@)),
    ensures
        match first_filter(message::messages_view(messages@)) {
            Some(reply) => r == Ok::<(u16, u32), NetlinkError>(filter_id(reply)),
            None => r matches Err(e) && e@ == NetlinkErrorView::IoError(
                IoError::Other(OtherError::MissingFilterReply),
            ),
        },
        r is Ok <==> exists|i: int|
            0 <= i < messages@.len() && (#[trigger] messages@[i]).header.nlmsg_type
                == RTM_NEWTFILTER,
        r matches Ok(id) ==> exists|i: int|
            0 <= i < messages@.len() && (#[trigger] messages@[i]).header.nlmsg_type
                == RTM_NEWTFILTER && id.0 == native::u32_at(messages@[i].data@, 16) / 0x1_0000
                && id.1 == native::u32_at(messages@[i].data@, 8) && forall|j: int|
                0 <= j < i ==> (#[trigger] messages@[j]).header.nlmsg_type != RTM_NEWTFILTER,
{
    match find_first_filter(messages) {
        Some(reply) => {
            let tc_msg = TcMsg::read(reply.data.as_slice());
            let priority: u16 = ((tc_msg.tcm_info & TC_H_MAJ_MASK) >> 16) as u16;
            proof {
                lemma_priority_bits(tc_msg.tcm_info);
            }
            Ok((priority, tc_msg.tcm_handle))
        },
        None => Err(
            NetlinkError(
                NetlinkErrorInternal::IoError(IoError::Other(OtherError::MissingFilterReply)),
            ),
        ),
    }
}

/// The upper half of a number, by shifting and by masking first.
proof fn lemma_priority_bits(info: u32)
    ensures
        ((info & TC_H_MAJ_MASK) >> 16) as u16 == priority_of(info),
        (info >> 16) as u16 == priority_of(info),
{
    assert(((info & 0xffff_0000u32) >> 16) == info / 0x1_0000) by (bit_vector);
    assert((info >> 16) == info / 0x1_0000) by (bit_vector);
}

/// Whether a message describes a filter of this name.
fn read_filter_matches(msg: &NetlinkMessage, name: &[u8]) -> (r: Result<bool, NlAttrError>)
    requires
        complete(msg@, RTM_NEWTFILTER),
    ensures
        r == filter_matches(msg@, name@),
{
    if msg.header.nlmsg_type != RTM_NEWTFILTER {
        return Ok(false);
    }
    let rest: &[u8] = slice_subrange(msg.data.as_slice(), TCMSG_LEN, msg.data.len());
    assert(rest@ == msg@.data.skip(TCMSG_LEN as int));
    let attrs = match parse_attrs(rest) {
        Ok(attrs) => attrs,
        Err(e) => return Err(e),
    };
    let ghost table = parse::table_view(attrs@);
    assert(table.contains_key(TCA_OPTIONS) <==> attrs@.contains_key(TCA_OPTIONS));
    if let Some(opts) = attrs.get(&TCA_OPTIONS) {
        assert(table[TCA_OPTIONS] == opts@);
        let opts = match parse_attrs(opts.data) {
            Ok(opts) => opts,
            Err(e) => return Err(e),
        };
        let ghost options = parse::table_view(opts@);
        assert(options.contains_key(TCA_BPF_NAME) <==> opts@.contains_key(TCA_BPF_NAME));
        if let Some(f_name) = opts.get(&TCA_BPF_NAME) {
            assert(options[TCA_BPF_NAME] == f_name@);
            if ends_at_first_zero(f_name.data) && same_bytes(name, f_name.data) {
                return Ok(true);
            }
        }
    }
    Ok(false)
}

/// Whether every message up to the first malformed one is complete.
pub fn filter_replies_are_complete(messages: &Vec<NetlinkMessage>, name: &[u8]) -> (r: bool)
    ensures
        r == filters_complete(message::messages_view(messages@), name@),
{
    let ghost views = message::messages_view(messages@);
    assert(views.skip(0) == views);
    let mut i: usize = 0;
    while i < messages.len()
        invariant
            i <= messages@.len(),
            views == message::messages_view(messages@),
            filters_complete(views, name@) == filters_complete(views.skip(i as int), name@),
        decreases messages@.len() - i,
    {
        let msg = &messages[i];
        proof {
            assert(views.skip(i as int)[0] == msg@);
            assert(views.skip(i as int).drop_first() == views.skip(i + 1));
        }
        if msg.header.nlmsg_type == RTM_NEWTFILTER && msg.data.len() < TCMSG_LEN {
            return false;
        }
        if read_filter_matches(msg, name).is_err() {
            return true;
        }
        i += 1;
    }
    true
}

/// Reads from the replies to [`crate::tc::netlink_find_filter_with_name_request`] the priority and
/// the handle of each filter that is called `name`, which ends in a zero byte.
pub fn netlink_find_filter_with_name_reply(messages: &Vec<NetlinkMessage>, name: &[u8]) -> (r:
    Result<Vec<(u16, u32)>, NetlinkError>)
    requires
        filters_complete(message::messages_view(messages@), name@),
    ensures
        match r {
            Ok(filters) => filters_named(message::messages_view(messages@), name@) == Ok::<
                Seq<(u16, u32)>,
                NlAttrError,
            >(filters@),
            Err(e) => {
                &&& filters_named(message::messages_view(messages@), name@) is Err
                &&& e@ == NetlinkErrorView::NlAttrError(
                    filters_named(message::messages_view(messages@), name@)->Err_0,
                )
            },
        },
{
    let mut filter_info: Vec<(u16, u32)> = Vec::new();
    let ghost views = message::messages_view(messages@);
    assert(views.skip(0) == views);
    let mut i: usize = 0;
    while i < messages.len()
        invariant
            i <= messages@.len(),
            views == message::messages_view(messages@),
            filters_complete(views.skip(i as int), name@),
            filters_named(views, name@) == (match filters_named(views.skip(i as int), name@) {
                Ok(rest) => Ok::<Seq<(u16, u32)>, NlAttrError>(filter_info@ + rest),
                Err(e) => Err(e),
            }),
        decreases messages@.len() - i,
    {
        let msg = &messages[i];
        proof {
            assert(views.skip(i as int)[0] == msg@);
            assert(views.skip(i as int).drop_first() == views.skip(i + 1));
        }
        match read_filter_matches(msg, name) {
            Err(e) => return Err(NetlinkError(NetlinkErrorInternal::NlAttrError(e))),
            Ok(true) => {
                let tc_msg = TcMsg::read(msg.data.as_slice());
                let priority: u16 = (tc_msg.tcm_info >> 16) as u16;
                let ghost before = filter_info@;
                filter_info.push((priority, tc_msg.tcm_handle));
                proof {
                    lemma_priority_bits(tc_msg.tcm_info);
                    if let Ok(rest) = filters_named(views.skip(i + 1), name@) {
                        assert(before + (seq![filter_id(msg@)] + rest) == filter_info@ + rest);
                    }
                }
            },
            Ok(false) => {},
        }
        i += 1;
    }
    assert(filter_info@ + Seq::<(u16, u32)>::empty() == filter_info@);
    Ok(filter_info)
}

} // verus!
