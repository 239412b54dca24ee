//! What is read from the messages that answer traffic control requests.
use vstd::prelude::*;

use crate::error::NlAttrError;
use crate::laws::attrs;
use crate::message::{NetlinkMessage, NetlinkMessageView};
use crate::parse::{NlAttr, NlAttrView};
use crate::uapi::{RTM_NEWQDISC, RTM_NEWTFILTER, TCA_BPF_NAME, TCA_KIND, TCA_OPTIONS};
use crate::{message, native, parse, tc_reply, text};

verus! {

/// Whether attribute `i` of a list is the last one of this type. The two highest bits of a type are
/// flags, and do not count.
pub open spec fn is_last_of_type(list: Seq<NlAttrView>, i: int, attr_type: u16) -> bool {
    &&& 0 <= i < list.len()
    &&& list[i].header.nla_type % 0x4000 == attr_type
    &&& forall|j: int| i < j < list.len() ==> (#[trigger] list[j]).header.nla_type % 0x4000
        != attr_type
}

/// Whether no attribute of a list has this type.
pub open spec fn lacks_type(list: Seq<NlAttrView>, attr_type: u16) -> bool {
    forall|i: int| 0 <= i < list.len() ==> (#[trigger] list[i]).header.nla_type % 0x4000
        != attr_type
}

/// An attribute counts under its type whatever its flags are.
pub proof fn law_flags_are_no_part_of_a_type(attr: NlAttrView, attr_type: u16, flags: u16)
    requires
        attr_type < 0x4000,
        flags < 4,
        attr.header.nla_type == attr_type + 0x4000 * flags,
    ensures
        parse::type_of(attr) == attr_type,
{
}

/// The entry of a table for the last attribute of a type.
pub(crate) proof fn lemma_table_has_the_last(list: Seq<NlAttrView>, i: int, attr_type: u16)
    requires
        is_last_of_type(list, i, attr_type),
    ensures
        parse::by_type(list).contains_key(attr_type),
        parse::by_type(list)[attr_type] == list[i],
{
    attrs::law_table_keeps_the_last(list, attr_type);
    assert(parse::type_of(list[i]) == attr_type);
    assert forall|j: int| i < j < list.len() implies parse::type_of(#[trigger] list[j])
        != attr_type by {
        assert(list[j].header.nla_type % 0x4000 != attr_type);
    }
}

/// A table has no entry for a type that the list lacks.
pub(crate) proof fn lemma_table_lacks(list: Seq<NlAttrView>, attr_type: u16)
    requires
        lacks_type(list, attr_type),
    ensures
        !parse::by_type(list).contains_key(attr_type),
{
    attrs::law_table_keeps_the_last(list, attr_type);
    assert forall|i: int| 0 <= i < list.len() implies parse::type_of(#[trigger] list[i])
        != attr_type by {
        assert(list[i].header.nla_type % 0x4000 != attr_type);
    }
}

/// A list that has a type has a last attribute of it.
proof fn lemma_last_of_type(list: Seq<NlAttrView>, attr_type: u16) -> (i: int)
    requires
        !lacks_type(list, attr_type),
    ensures
        is_last_of_type(list, i, attr_type),
    decreases list.len(),
{
    let last = list.len() - 1;
    if list[last].header.nla_type % 0x4000 == attr_type {
        last
    } else {
        let short = list.drop_last();
        let k = choose|k: int|
            0 <= k < list.len() && (#[trigger] list[k]).header.nla_type % 0x4000 == attr_type;
        assert(short[k] == list[k]);
        let i = lemma_last_of_type(short, attr_type);
        assert(list[i] == short[i]);
        assert forall|j: int| i < j < list.len() implies (#[trigger] list[j]).header.nla_type
            % 0x4000 != attr_type by {
            if j < last {
                assert(short[j] == list[j]);
            }
        }
        i
    }
}

/// A string in the convention of C is any bytes without a zero, and a zero byte after them.
pub proof fn law_c_strings_end_at_their_zero(s: Seq<u8>, name: Seq<u8>)
    ensures
        (forall|i: int| 0 <= i < name.len() ==> name[i] != 0) ==> text::is_c_string(
            name.push(0),
        ),
        text::is_c_string(s) ==> s == s.drop_last().push(0) && !s.drop_last().contains(0),
        s.len() == 0 || s.last() != 0 || s.drop_last().contains(0) ==> !text::is_c_string(s),
{
    if text::is_c_string(s) {
        assert(s =~= s.drop_last().push(0));
        if s.drop_last().contains(0) {
            let i = choose|i: int| 0 <= i < s.drop_last().len() && s.drop_last()[i] == 0;
            assert(s[i] == 0);
        }
    }
}

/// A message that describes a filter matches a name exactly where the last name among its last options
/// is a string in the convention of C, and is that name. What else the message holds does not count,
/// nor do the flags of options and name.
pub proof fn law_filter_matches_by_its_last_name(
    reply: NetlinkMessageView,
    list: Seq<NlAttrView>,
    i: int,
    options: Seq<NlAttrView>,
    j: int,
    name: Seq<u8>,
)
    requires
        reply.header.nlmsg_type == RTM_NEWTFILTER,
        parse::attrs_of(reply.data.skip(20)) == Ok::<Seq<NlAttrView>, NlAttrError>(list),
        is_last_of_type(list, i, TCA_OPTIONS),
        parse::attrs_of(list[i].data) == Ok::<Seq<NlAttrView>, NlAttrError>(options),
        is_last_of_type(options, j, TCA_BPF_NAME),
    ensures
        tc_reply::filter_matches(reply, name) == Ok::<bool, NlAttrError>(
            text::is_c_string(options[j].data) && options[j].data == name,
        ),
{
    lemma_table_has_the_last(list, i, TCA_OPTIONS);
    lemma_table_has_the_last(options, j, TCA_BPF_NAME);
}

/// A message that describes a filter without options, or without a name among them, matches no name.
pub proof fn law_nameless_filter_matches_nothing(
    reply: NetlinkMessageView,
    list: Seq<NlAttrView>,
    name: Seq<u8>,
)
    requires
        reply.header.nlmsg_type == RTM_NEWTFILTER,
        parse::attrs_of(reply.data.skip(20)) == Ok::<Seq<NlAttrView>, NlAttrError>(list),
    ensures
        lacks_type(list, TCA_OPTIONS) ==> tc_reply::filter_matches(reply, name) == Ok::<
            bool,
            NlAttrError,
        >(false),
        forall|i: int|
            #![trigger list[i]]
            is_last_of_type(list, i, TCA_OPTIONS) && parse::attrs_of(list[i].data) is Ok
                && lacks_type(parse::attrs_of(list[i].data)->Ok_0, TCA_BPF_NAME)
                ==> tc_reply::filter_matches(reply, name) == Ok::<bool, NlAttrError>(false),
{
    if lacks_type(list, TCA_OPTIONS) {
        lemma_table_lacks(list, TCA_OPTIONS);
    }
    assert forall|i: int|
        #![trigger list[i]]
        is_last_of_type(list, i, TCA_OPTIONS) && parse::attrs_of(list[i].data) is Ok && lacks_type(
            parse::attrs_of(list[i].data)->Ok_0,
            TCA_BPF_NAME,
        ) implies tc_reply::filter_matches(reply, name) == Ok::<bool, NlAttrError>(false) by {
        lemma_table_has_the_last(list, i, TCA_OPTIONS);
        lemma_table_lacks(parse::attrs_of(list[i].data)->Ok_0, TCA_BPF_NAME);
    }
}

/// A message that describes a filter is malformed exactly where its attributes are, or the last
/// options among them, and then the first thing that is wrong with them is reported.
pub proof fn law_malformed_filters_are_reported(
    reply: NetlinkMessageView,
    name: Seq<u8>,
    e: NlAttrError,
)
    requires
        reply.header.nlmsg_type == RTM_NEWTFILTER,
    ensures
        tc_reply::filter_matches(reply, name) == Err::<bool, NlAttrError>(e) <==> {
            let list = parse::attrs_of(reply.data.skip(20));
            ||| list == Err::<Seq<NlAttrView>, NlAttrError>(e)
            ||| list is Ok && exists|i: int|
                is_last_of_type(list->Ok_0, i, TCA_OPTIONS) && parse::attrs_of(
                    (#[trigger] list->Ok_0[i]).data,
                ) == Err::<Seq<NlAttrView>, NlAttrError>(e)
        },
{
    if let Ok(list) = parse::attrs_of(reply.data.skip(20)) {
        if lacks_type(list, TCA_OPTIONS) {
            lemma_table_lacks(list, TCA_OPTIONS);
            assert forall|i: int| !is_last_of_type(list, i, TCA_OPTIONS) by {
                if is_last_of_type(list, i, TCA_OPTIONS) {
                    assert(list[i].header.nla_type % 0x4000 == TCA_OPTIONS);
                }
            }
        } else {
            let i = lemma_last_of_type(list, TCA_OPTIONS);
            lemma_table_has_the_last(list, i, TCA_OPTIONS);
            assert forall|k: int| is_last_of_type(list, k, TCA_OPTIONS) implies k == i by {
                if k < i {
                    assert(list[i].header.nla_type % 0x4000 != TCA_OPTIONS);
                } else if i < k {
                    assert(list[k].header.nla_type % 0x4000 != TCA_OPTIONS);
                }
            }
            assert(list[i] == list[i]);
        }
    }
}

/// A message of any other type matches no name, whatever it holds.
pub proof fn law_only_filters_match(reply: NetlinkMessageView, name: Seq<u8>)
    requires
        reply.header.nlmsg_type != RTM_NEWTFILTER,
    ensures
        tc_reply::filter_matches(reply, name) == Ok::<bool, NlAttrError>(false),
{
}

/// A filter is told apart by the upper half of bytes 16 to 19, its priority, and by bytes 8 to 11, its
/// handle.
pub proof fn law_filter_id_is_read_from_its_places(reply: NetlinkMessageView)
    requires
        reply.data.len() >= 20,
    ensures
        tc_reply::filter_id(reply).0 == native::u32_at(reply.data, 16) / 0x1_0000,
        tc_reply::filter_id(reply).1 == native::u32_at(reply.data, 8),
{
}

/// A message that describes a queueing discipline of the link says that there is a `clsact` exactly
/// where its last kind has these seven bytes; with any other kind, or none, it says nothing.
pub proof fn law_only_clsact_is_clsact(
    reply: NetlinkMessageView,
    list: Seq<NlAttrView>,
    if_index: i32,
)
    requires
        reply.header.nlmsg_type == RTM_NEWQDISC,
        native::i32_at(reply.data, 4) == if_index,
        parse::attrs_of(reply.data.skip(20)) == Ok::<Seq<NlAttrView>, NlAttrError>(list),
    ensures
        tc_reply::clsact_verdict(reply, if_index) is None || tc_reply::clsact_verdict(
            reply,
            if_index,
        ) == Some(Ok::<bool, NlAttrError>(true)),
        tc_reply::clsact_verdict(reply, if_index) is Some <==> exists|i: int|
            is_last_of_type(list, i, TCA_KIND) && (#[trigger] list[i]).data == seq![
                0x63u8,
                0x6cu8,
                0x73u8,
                0x61u8,
                0x63u8,
                0x74u8,
                0u8,
            ],
{
    if lacks_type(list, TCA_KIND) {
        lemma_table_lacks(list, TCA_KIND);
        assert forall|i: int| !is_last_of_type(list, i, TCA_KIND) by {
            if is_last_of_type(list, i, TCA_KIND) {
                assert(list[i].header.nla_type % 0x4000 == TCA_KIND);
            }
        }
    } else {
        let i = lemma_last_of_type(list, TCA_KIND);
        lemma_table_has_the_last(list, i, TCA_KIND);
        assert forall|k: int| is_last_of_type(list, k, TCA_KIND) implies k == i by {
            if k < i {
                assert(list[i].header.nla_type % 0x4000 != TCA_KIND);
            } else if i < k {
                assert(list[k].header.nla_type % 0x4000 != TCA_KIND);
            }
        }
        assert(list[i] == list[i]);
    }
}

/// A message of another type, or of another link, says nothing; one of the link whose attributes are
/// malformed says what is wrong with them.
pub proof fn law_other_messages_say_nothing_of_clsact(
    reply: NetlinkMessageView,
    if_index: i32,
    e: NlAttrError,
)
    ensures
        reply.header.nlmsg_type != RTM_NEWQDISC ==> tc_reply::clsact_verdict(
            reply,
            if_index,
        ) is None,
        native::i32_at(reply.data, 4) != if_index ==> tc_reply::clsact_verdict(
            reply,
            if_index,
        ) is None,
        tc_reply::clsact_verdict(reply, if_index) == Some(Err::<bool, NlAttrError>(e)) <==> {
            &&& reply.header.nlmsg_type == RTM_NEWQDISC
            &&& native::i32_at(reply.data, 4) == if_index
            &&& parse::attrs_of(reply.data.skip(20)) == Err::<Seq<NlAttrView>, NlAttrError>(e)
        },
{
}

/// The messages in front decide on a `clsact` where one of them says something; else those behind
/// them decide.
pub proof fn law_first_word_on_clsact_counts(
    front: Seq<NetlinkMessageView>,
    back: Seq<NetlinkMessageView>,
    if_index: i32,
)
    ensures
        (forall|i: int|
            0 <= i < front.len() ==> #[trigger] tc_reply::clsact_verdict(
                front[i],
                if_index,
            ) is None) ==> tc_reply::clsact_exists(front + back, if_index)
            == tc_reply::clsact_exists(back, if_index),
        back.len() > 0 && tc_reply::clsact_verdict(back[0], if_index) is Some
            ==> tc_reply::clsact_exists(back, if_index) == tc_reply::clsact_verdict(
            back[0],
            if_index,
        )->0,
    decreases front.len(),
{
    if front.len() == 0 {
        assert(front + back =~= back);
    } else {
        assert((front + back).drop_first() =~= front.drop_first() + back);
        law_first_word_on_clsact_counts(front.drop_first(), back, if_index);
        if forall|i: int|
            0 <= i < front.len() ==> #[trigger] tc_reply::clsact_verdict(
                front[i],
                if_index,
            ) is None {
            assert(tc_reply::clsact_verdict(front[0], if_index) is None);
            assert forall|i: int| 0 <= i < front.drop_first().len() implies
                #[trigger] tc_reply::clsact_verdict(front.drop_first()[i], if_index) is None by {
                assert(front.drop_first()[i] == front[i + 1]);
            }
        }
    }
}

/// The messages can be asked for a `clsact` exactly where each one that describes a queueing
/// discipline, up to the first that says something, holds at least its twenty bytes of information.
pub proof fn law_qdiscs_complete_up_to_the_first_word(
    messages: Seq<NetlinkMessageView>,
    if_index: i32,
)
    ensures
        tc_reply::qdiscs_complete(messages, if_index) <==> forall|k: int|
            #![trigger messages[k]]
            0 <= k < messages.len() && messages[k].header.nlmsg_type == RTM_NEWQDISC && (forall|
                j: int,
            |
                0 <= j < k ==> #[trigger] tc_reply::clsact_verdict(messages[j], if_index) is None)
                ==> messages[k].data.len() >= 20,
    decreases messages.len(),
{
    if messages.len() > 0 {
        let later = messages.drop_first();
        law_qdiscs_complete_up_to_the_first_word(later, if_index);
        let first = tc_reply::clsact_verdict(messages[0], if_index);
        if tc_reply::qdiscs_complete(messages, if_index) {
            assert forall|k: int|
                #![trigger messages[k]]
                0 <= k < messages.len() && messages[k].header.nlmsg_type == RTM_NEWQDISC && (
                forall|j: int|
                    0 <= j < k ==> #[trigger] tc_reply::clsact_verdict(
                        messages[j],
                        if_index,
                    ) is None) implies messages[k].data.len() >= 20 by {
                if k > 0 {
                    assert(tc_reply::clsact_verdict(messages[0], if_index) is None);
                    assert(later[k - 1] == messages[k]);
                    assert forall|j: int| 0 <= j < k - 1 implies
                        #[trigger] tc_reply::clsact_verdict(later[j], if_index) is None by {
                        assert(later[j] == messages[j + 1]);
                    }
                }
            }
        } else if tc_reply::complete(messages[0], RTM_NEWQDISC) {
            let k = choose|k: int|
                #![trigger later[k]]
                0 <= k < later.len() && later[k].header.nlmsg_type == RTM_NEWQDISC && (forall|
                    j: int,
                |
                    0 <= j < k ==> #[trigger] tc_reply::clsact_verdict(later[j], if_index) is None)
                    && later[k].data.len() < 20;
            assert(messages[k + 1] == later[k]);
            assert forall|j: int| 0 <= j < k + 1 implies #[trigger] tc_reply::clsact_verdict(
                messages[j],
                if_index,
            ) is None by {
                if j > 0 {
                    assert(later[j - 1] == messages[j]);
                }
            }
        } else {
            assert(messages[0].data.len() < 20);
        }
    }
}

/// A message that matches yields its filter, one that does not yields none, and a malformed one yields
/// what is wrong with it.
pub proof fn law_each_message_yields_its_filter(message: NetlinkMessageView, name: Seq<u8>)
    ensures
        match tc_reply::filter_matches(message, name) {
            Ok(true) => tc_reply::filters_named(seq![message], name) == Ok::<
                Seq<(u16, u32)>,
                NlAttrError,
            >(seq![tc_reply::filter_id(message)]),
            Ok(false) => tc_reply::filters_named(seq![message], name) == Ok::<
                Seq<(u16, u32)>,
                NlAttrError,
            >(Seq::empty()),
            Err(e) => tc_reply::filters_named(seq![message], name) == Err::<
                Seq<(u16, u32)>,
                NlAttrError,
            >(e),
        },
{
    let none = Seq::<(u16, u32)>::empty();
    reveal_with_fuel(tc_reply::filters_named, 2);
    assert(seq![message].drop_first() =~= Seq::<NetlinkMessageView>::empty());
    assert(seq![tc_reply::filter_id(message)] + none =~= seq![tc_reply::filter_id(message)]);
}

/// The filters of several messages are those of the first ones, then those of the others, in order
/// and each as often as it is described; the first malformed message decides.
pub proof fn law_filters_are_found_in_order(
    front: Seq<NetlinkMessageView>,
    back: Seq<NetlinkMessageView>,
    name: Seq<u8>,
)
    ensures
        tc_reply::filters_named(front + back, name) == (match tc_reply::filters_named(front, name) {
            Err(e) => Err(e),
            Ok(first) => match tc_reply::filters_named(back, name) {
                Err(e) => Err(e),
                Ok(rest) => Ok::<Seq<(u16, u32)>, NlAttrError>(first + rest),
            },
        }),
        tc_reply::filters_named(Seq::empty(), name) == Ok::<Seq<(u16, u32)>, NlAttrError>(
            Seq::empty(),
        ),
    decreases front.len(),
{
    if front.len() == 0 {
        assert(front + back =~= back);
        if let Ok(rest) = tc_reply::filters_named(back, name) {
            assert(Seq::<(u16, u32)>::empty() + rest =~= rest);
        }
    } else {
        assert((front + back).drop_first() =~= front.drop_first() + back);
        law_filters_are_found_in_order(front.drop_first(), back, name);
        if let Ok(first) = tc_reply::filters_named(front.drop_first(), name) {
            if let Ok(rest) = tc_reply::filters_named(back, name) {
                let id = seq![tc_reply::filter_id(front[0])];
                assert(id + (first + rest) =~= (id + first) + rest);
            }
        }
    }
}

/// The messages can be asked for filters exactly where each one that describes a filter, up to the
/// first malformed one, holds at least its twenty bytes of information.
pub proof fn law_filters_complete_up_to_the_first_malformed(
    messages: Seq<NetlinkMessageView>,
    name: Seq<u8>,
)
    ensures
        tc_reply::filters_complete(messages, name) <==> forall|k: int|
            #![trigger messages[k]]
            0 <= k < messages.len() && messages[k].header.nlmsg_type == RTM_NEWTFILTER && (forall|
                j: int,
            |
                0 <= j < k ==> #[trigger] tc_reply::filter_matches(messages[j], name) is Ok)
                ==> messages[k].data.len() >= 20,
    decreases messages.len(),
{
    if messages.len() > 0 {
        let later = messages.drop_first();
        law_filters_complete_up_to_the_first_malformed(later, name);
        if tc_reply::filters_complete(messages, name) {
            assert forall|k: int|
                #![trigger messages[k]]
                0 <= k < messages.len() && messages[k].header.nlmsg_type == RTM_NEWTFILTER && (
                forall|j: int|
                    0 <= j < k ==> #[trigger] tc_reply::filter_matches(
                        messages[j],
                        name,
                    ) is Ok) implies messages[k].data.len() >= 20 by {
                if k > 0 {
                    assert(tc_reply::filter_matches(messages[0], name) is Ok);
                    assert(later[k - 1] == messages[k]);
                    assert forall|j: int| 0 <= j < k - 1 implies
                        #[trigger] tc_reply::filter_matches(later[j], name) is Ok by {
                        assert(later[j] == messages[j + 1]);
                    }
                }
            }
        } else if tc_reply::complete(messages[0], RTM_NEWTFILTER) {
            let k = choose|k: int|
                #![trigger later[k]]
                0 <= k < later.len() && later[k].header.nlmsg_type == RTM_NEWTFILTER && (forall|
                    j: int,
                |
                    0 <= j < k ==> #[trigger] tc_reply::filter_matches(later[j], name) is Ok)
                    && later[k].data.len() < 20;
            assert(messages[k + 1] == later[k]);
            assert forall|j: int| 0 <= j < k + 1 implies #[trigger] tc_reply::filter_matches(
                messages[j],
                name,
            ) is Ok by {
                if j > 0 {
                    assert(later[j - 1] == messages[j]);
                }
            }
        } else {
            assert(messages[0].data.len() < 20);
        }
    }
}

/// The first of the messages that describe a filter is taken, whatever stands before and behind it;
/// where no message describes one, none is taken.
pub proof fn law_first_filter_is_taken(
    front: Seq<NetlinkMessageView>,
    back: Seq<NetlinkMessageView>,
)
    requires
        forall|i: int|
            0 <= i < front.len() ==> (#[trigger] front[i]).header.nlmsg_type != RTM_NEWTFILTER,
    ensures
        back.len() == 0 ==> tc_reply::first_filter(front + back) is None
            && tc_reply::first_filter_complete(front + back),
        back.len() > 0 && back[0].header.nlmsg_type == RTM_NEWTFILTER ==> {
            &&& tc_reply::first_filter(front + back) == Some(back[0])
            &&& tc_reply::first_filter_complete(front + back) <==> back[0].data.len() >= 20
        },
    decreases front.len(),
{
    if front.len() == 0 {
        assert(front + back =~= back);
    } else {
        assert(front[0].header.nlmsg_type != RTM_NEWTFILTER);
        assert((front + back)[0] == front[0]);
        assert((front + back).drop_first() =~= front.drop_first() + back);
        law_first_filter_is_taken(front.drop_first(), back);
    }
}

/// What is said of messages and attributes is said of all that they hold.
pub proof fn law_views_leave_nothing_out<'a>(
    attr: NlAttr<'a>,
    table: Map<u16, NlAttr<'a>>,
    message: NetlinkMessage,
    messages: Seq<NetlinkMessage>,
)
    ensures
        attr@.header == attr.header,
        attr@.data == attr.data@,
        parse::table_view(table).dom() == table.dom(),
        forall|k: u16|
            table.contains_key(k) ==> (#[trigger] parse::table_view(table)[k]).header
                == table[k].header && parse::table_view(table)[k].data == table[k].data@,
        message@.header == message.header,
        message@.data == message.data@,
        message@.error == message.error,
        message::messages_view(messages).len() == messages.len(),
        forall|i: int|
            0 <= i < messages.len() ==> (#[trigger] message::messages_view(messages)[i]).header
                == messages[i].header && message::messages_view(messages)[i].data
                == messages[i].data@ && message::messages_view(messages)[i].error
                == messages[i].error,
{
    assert(parse::table_view(table).dom() =~= table.dom());
}

} // verus!
