//! Messages: what is sent is what is read, and what an answer amounts to.
use vstd::prelude::*;

use crate::error::{IoError, NetlinkErrorView};
use crate::laws::attrs;
use crate::message::{NetlinkMessageView, NlMsgError, NlMsgHeader};
use crate::reception::{Outcome, Reception};
use crate::uapi::{NLMSGERR_ATTR_MSG, NLMSGERR_LEN, NLMSGHDR_LEN, NLMSG_DONE, NLMSG_ERROR};
use crate::{align, encode, message, native, parse, reception, request, text};

verus! {

/// A header reads back from its own bytes, wherever they stand.
pub proof fn law_header_reads_back(s: Seq<u8>, at: int, header: NlMsgHeader)
    requires
        0 <= at,
        at + NLMSGHDR_LEN <= s.len(),
        s.subrange(at, at + NLMSGHDR_LEN) == header.bytes(),
    ensures
        message::header_at(s, at) == header,
{
    let bytes = header.bytes();
    assert(s.subrange(at, at + 4) =~= s.subrange(at, at + NLMSGHDR_LEN).subrange(0, 4));
    assert(bytes.subrange(0, 4) =~= native::u32_bytes(header.nlmsg_len));
    native::lemma_u32_reads_back(s, at, header.nlmsg_len);
    assert(s.subrange(at + 4, at + 6) =~= s.subrange(at, at + NLMSGHDR_LEN).subrange(4, 6));
    assert(bytes.subrange(4, 6) =~= native::u16_bytes(header.nlmsg_type));
    native::lemma_u16_reads_back(s, at + 4, header.nlmsg_type);
    assert(s.subrange(at + 6, at + 8) =~= s.subrange(at, at + NLMSGHDR_LEN).subrange(6, 8));
    assert(bytes.subrange(6, 8) =~= native::u16_bytes(header.nlmsg_flags));
    native::lemma_u16_reads_back(s, at + 6, header.nlmsg_flags);
    assert(s.subrange(at + 8, at + 12) =~= s.subrange(at, at + NLMSGHDR_LEN).subrange(8, 12));
    assert(bytes.subrange(8, 12) =~= native::u32_bytes(header.nlmsg_seq));
    native::lemma_u32_reads_back(s, at + 8, header.nlmsg_seq);
    assert(s.subrange(at + 12, at + 16) =~= s.subrange(at, at + NLMSGHDR_LEN).subrange(12, 16));
    assert(bytes.subrange(12, 16) =~= native::u32_bytes(header.nlmsg_pid));
    native::lemma_u32_reads_back(s, at + 12, header.nlmsg_pid);
}

/// The length of a header.
proof fn lemma_header_len(header: NlMsgHeader)
    ensures
        header.bytes().len() == NLMSGHDR_LEN,
{
}

/// Where the parts of a concatenation stand.
proof fn lemma_parts(a: Seq<u8>, b: Seq<u8>, c: Seq<u8>)
    ensures
        (a + b + c).subrange(0, a.len() as int) == a,
        (a + b + c).subrange(a.len() as int, a.len() + b.len() as int) == b,
        (a + b + c).skip(a.len() as int) == b + c,
{
    assert((a + b + c).subrange(0, a.len() as int) =~= a);
    assert((a + b + c).subrange(a.len() as int, a.len() + b.len() as int) =~= b);
    assert((a + b + c).skip(a.len() as int) =~= b + c);
}

/// Concatenation does not depend on where it starts.
proof fn lemma_regroup(a: Seq<u8>, b: Seq<u8>, c: Seq<u8>)
    ensures
        a + b + c == a + (b + c),
{
    assert(a + b + c =~= a + (b + c));
}

/// A message that is no error message.
pub open spec fn plain(header: NlMsgHeader, data: Seq<u8>) -> NetlinkMessageView {
    NetlinkMessageView { header, data, error: None }
}

/// A message that is no error message reads back from its header and its payload, whatever follows
/// them. Something has to follow a message without payload.
pub proof fn law_message_reads_back(header: NlMsgHeader, data: Seq<u8>, rest: Seq<u8>)
    requires
        header.nlmsg_len == NLMSGHDR_LEN + data.len(),
        header.nlmsg_type != NLMSG_ERROR,
        data.len() + rest.len() > 0,
    ensures
        message::message_of(header.bytes() + data + rest) == Ok::<NetlinkMessageView, IoError>(
            plain(header, data),
        ),
        !message::cut_short(header.bytes() + data + rest),
{
    let s = header.bytes() + data + rest;
    lemma_header_len(header);
    lemma_parts(header.bytes(), data, rest);
    law_header_reads_back(s, 0, header);
}

/// Every request is one message: it says how long it is, and reads back.
pub proof fn law_request_is_a_message(
    nlmsg_type: u16,
    nlmsg_flags: u16,
    info: Seq<u8>,
    attrs: Seq<u8>,
)
    requires
        nlmsg_type != NLMSG_ERROR,
        info.len() + attrs.len() > 0,
        NLMSGHDR_LEN + info.len() + attrs.len() <= u32::MAX,
    ensures
        ({
            let sent = request::request_message(nlmsg_type, nlmsg_flags, info, attrs);
            let header = NlMsgHeader {
                nlmsg_len: sent.len() as u32,
                nlmsg_type,
                nlmsg_flags,
                nlmsg_seq: 1,
                nlmsg_pid: 0,
            };
            message::message_of(sent) == Ok::<NetlinkMessageView, IoError>(
                plain(header, info + attrs),
            )
        }),
{
    let sent = request::request_message(nlmsg_type, nlmsg_flags, info, attrs);
    let header = NlMsgHeader {
        nlmsg_len: (NLMSGHDR_LEN + info.len() + attrs.len()) as u32,
        nlmsg_type,
        nlmsg_flags,
        nlmsg_seq: 1,
        nlmsg_pid: 0,
    };
    law_message_reads_back(header, info + attrs, Seq::empty());
    lemma_header_len(header);
    lemma_regroup(header.bytes(), info, attrs);
    assert(sent + Seq::<u8>::empty() == sent);
}

/// The bytes of an error message.
pub open spec fn error_message(header: NlMsgHeader, report: NlMsgError, attrs: Seq<u8>) -> Seq<u8> {
    header.bytes() + report.bytes() + attrs
}

/// Whether a header fits an error message with these attributes.
pub open spec fn heads_error(header: NlMsgHeader, attrs: Seq<u8>) -> bool {
    &&& header.nlmsg_type == NLMSG_ERROR
    &&& header.nlmsg_len == NLMSGHDR_LEN + NLMSGERR_LEN + attrs.len()
}

/// An error message reads back from its bytes, whatever follows them.
pub proof fn law_error_message_reads_back(
    header: NlMsgHeader,
    report: NlMsgError,
    attrs: Seq<u8>,
    rest: Seq<u8>,
)
    requires
        heads_error(header, attrs),
    ensures
        message::message_of(error_message(header, report, attrs) + rest) == Ok::<
            NetlinkMessageView,
            IoError,
        >(NetlinkMessageView { header, data: attrs, error: Some(report) }),
        !message::cut_short(error_message(header, report, attrs) + rest),
{
    let s = error_message(header, report, attrs) + rest;
    let number = native::i32_bytes(report.error);
    lemma_header_len(header);
    lemma_header_len(report.msg);
    lemma_error_parts(header.bytes(), number, report.msg.bytes(), attrs, rest);
    law_header_reads_back(s, 0, header);
    native::lemma_i32_reads_back(s, 16, report.error);
    law_header_reads_back(s, 20, report.msg);
}

/// Where the parts of an error message stand.
proof fn lemma_error_parts(
    header: Seq<u8>,
    number: Seq<u8>,
    msg: Seq<u8>,
    attrs: Seq<u8>,
    rest: Seq<u8>,
)
    requires
        header.len() == 16,
        number.len() == 4,
        msg.len() == 16,
    ensures
        ({
            let s = header + (number + msg) + attrs + rest;
            &&& s.subrange(0, 16) == header
            &&& s.subrange(16, 20) == number
            &&& s.subrange(20, 36) == msg
            &&& s.subrange(36, 36 + attrs.len() as int) == attrs
        }),
{
    let s = header + (number + msg) + attrs + rest;
    assert(s.subrange(0, 16) =~= header);
    assert(s.subrange(16, 20) =~= number);
    assert(s.subrange(20, 36) =~= msg);
    assert(s.subrange(36, 36 + attrs.len() as int) =~= attrs);
}

/// A refused request is answered by the failure that the kernel reports, whatever else the datagram
/// or the buffer holds.
pub proof fn law_refusal_fails(
    header: NlMsgHeader,
    report: NlMsgError,
    attrs: Seq<u8>,
    rest: Seq<u8>,
    len: int,
    multipart: bool,
)
    requires
        heads_error(header, attrs),
        report.error != 0,
        0 < len,
    ensures
        reception::outcome_of(error_message(header, report, attrs) + rest, len, 0, multipart)
            == Outcome::Failed(reception::failure_of(report.error, attrs)),
        reception::legible(error_message(header, report, attrs) + rest, len, 0)
            == reception::reports_failure(report.error, attrs),
{
    let s = error_message(header, report, attrs) + rest;
    law_error_message_reads_back(header, report, attrs, rest);
    assert(s.skip(0) =~= s);
}

/// A refusal without attributes is the bare error number.
pub proof fn law_wordless_refusal(error: i32)
    ensures
        reception::failure_of(error, Seq::empty()) == NetlinkErrorView::IoError(
            IoError::Os((-error) as i32),
        ),
{
}

/// A refusal that the kernel explains carries the error number and the kernel's words.
pub proof fn law_refusal_in_words(error: i32, words: Seq<u8>)
    requires
        text::is_c_string(words),
        attrs::length_fits(words),
    ensures
        reception::failure_of(error, encode::encode_attr(NLMSGERR_ATTR_MSG, words))
            == (NetlinkErrorView::Error {
            message: text::text_of(words.drop_last()),
            source: IoError::Os((-error) as i32),
        }),
{
    attrs::law_attr_reads_back(NLMSGERR_ATTR_MSG, words);
    let list = seq![attrs::attr_view(NLMSGERR_ATTR_MSG, words)];
    reveal_with_fuel(parse::by_type, 2);
    assert(list.drop_last() =~= Seq::<parse::NlAttrView>::empty());
    assert(parse::type_of(list.last()) == NLMSGERR_ATTR_MSG);
}

/// An acknowledgement that fills a datagram brings no message, and ends the answer unless it is
/// flagged as one of several.
pub proof fn law_acknowledgement_is_empty(
    header: NlMsgHeader,
    report: NlMsgError,
    attrs: Seq<u8>,
    rest: Seq<u8>,
    len: int,
    multipart: bool,
)
    requires
        heads_error(header, attrs),
        report.error == 0,
        0 < len <= align::align_up(header.nlmsg_len as int, 4),
    ensures
        reception::outcome_of(error_message(header, report, attrs) + rest, len, 0, multipart)
            == Outcome::Open(Seq::empty(), header.nlmsg_flags / 2 % 2 == 1),
        reception::legible(error_message(header, report, attrs) + rest, len, 0),
{
    let s = error_message(header, report, attrs) + rest;
    law_error_message_reads_back(header, report, attrs, rest);
    assert(s.skip(0) =~= s);
    reveal_with_fuel(reception::outcome_of, 2);
    reveal_with_fuel(reception::legible, 2);
}

/// An empty datagram ends the answer and brings nothing.
pub proof fn law_empty_datagram_ends(buf: Seq<u8>)
    ensures
        reception::outcome_of(buf, 0, 0, false) == Outcome::Open(Seq::empty(), false),
{
}

/// Taking in an answer datagram by datagram, until one fails or no more is to follow, gives what the
/// answer amounts to as a whole: a new reception stands for all of it, and each datagram leaves the
/// rest to those that follow.
pub proof fn law_answer_comes_in_datagrams(
    before: Reception,
    after: Reception,
    buf: Seq<u8>,
    len: int,
    later: Seq<(Seq<u8>, int)>,
)
    requires
        before.multipart,
    ensures
        before.contents() == Seq::<NetlinkMessageView>::empty() ==> before.completed_by(later)
            == reception::answer_of(later),
        match reception::outcome_of(buf, len, 0, false) {
            Outcome::Failed(e) => before.completed_by(seq![(buf, len)] + later) == Outcome::Failed(
                e,
            ),
            Outcome::Finished(messages) => after.contents() == before.contents() + messages
                && !after.multipart ==> before.completed_by(seq![(buf, len)] + later)
                == after.completed_by(later),
            Outcome::Open(messages, multipart) => after.contents() == before.contents() + messages
                && after.multipart == multipart ==> before.completed_by(seq![(buf, len)] + later)
                == after.completed_by(later),
        },
{
    let datagrams = seq![(buf, len)] + later;
    assert(datagrams.drop_first() =~= later);
    lemma_preceded_by_nothing(reception::answer_of(later));
    if let Outcome::Open(messages, true) = reception::outcome_of(buf, len, 0, false) {
        reception::lemma_preceded_twice(
            before.contents(),
            messages,
            reception::answer_of(later),
        );
    }
}

/// A message with its padding.
pub open spec fn encode_message(message: (NlMsgHeader, Seq<u8>)) -> Seq<u8> {
    message.0.bytes() + message.1 + encode::zeros(
        align::align_up(message.1.len() as int, 4) - message.1.len(),
    )
}

/// Messages one after the other.
pub open spec fn encode_messages(list: Seq<(NlMsgHeader, Seq<u8>)>) -> Seq<u8>
    decreases list.len(),
{
    if list.len() == 0 {
        Seq::empty()
    } else {
        encode_message(list[0]) + encode_messages(list.drop_first())
    }
}

/// What messages read back as.
pub open spec fn plain_list(list: Seq<(NlMsgHeader, Seq<u8>)>) -> Seq<NetlinkMessageView> {
    list.map_values(|m: (NlMsgHeader, Seq<u8>)| plain(m.0, m.1))
}

/// Whether a message carries something to keep, and says how long it is.
pub open spec fn is_content(message: (NlMsgHeader, Seq<u8>)) -> bool {
    &&& message.0.nlmsg_type != NLMSG_ERROR
    &&& message.0.nlmsg_type != NLMSG_DONE
    &&& message.0.nlmsg_len == NLMSGHDR_LEN + message.1.len()
}

/// Whether the last of the messages, or what came before them, says that more datagrams follow.
pub open spec fn last_is_multipart(list: Seq<(NlMsgHeader, Seq<u8>)>, multipart: bool) -> bool {
    if list.len() == 0 {
        multipart
    } else {
        list.last().0.nlmsg_flags / 2 % 2 == 1
    }
}

/// Where the first message of several stands.
proof fn lemma_stream_parts(
    front: Seq<u8>,
    header: Seq<u8>,
    data: Seq<u8>,
    pad: Seq<u8>,
    later: Seq<u8>,
    rest: Seq<u8>,
)
    ensures
        ({
            let buf = front + (header + data + pad + later) + rest;
            &&& buf.skip(front.len() as int) == header + data + (pad + later + rest)
            &&& buf == (front + (header + data + pad)) + later + rest
        }),
{
    let buf = front + (header + data + pad + later) + rest;
    assert(buf.skip(front.len() as int) =~= header + data + (pad + later + rest));
    assert(buf =~= (front + (header + data + pad)) + later + rest);
}

/// Whether something follows the header of the last message: its payload, or the rest of the buffer.
pub open spec fn ends_readably(list: Seq<(NlMsgHeader, Seq<u8>)>, rest: Seq<u8>) -> bool {
    rest.len() > 0 || list.len() == 0 || list.last().1.len() > 0
}

/// What follows the header of the first message, and that as much can be said of the others.
proof fn lemma_header_is_followed(list: Seq<(NlMsgHeader, Seq<u8>)>, pad: Seq<u8>, rest: Seq<u8>)
    requires
        list.len() > 0,
        ends_readably(list, rest),
    ensures
        ends_readably(list.drop_first(), rest),
        list[0].1.len() + (pad + encode_messages(list.drop_first()) + rest).len() > 0,
{
    let later = list.drop_first();
    if later.len() > 0 {
        assert(later.last() == list.last());
        lemma_header_len(later[0].0);
    }
}

/// The messages of a datagram are kept, all of them and in order, and what follows them decides what
/// becomes of the answer.
pub proof fn law_messages_are_kept_in_order(
    front: Seq<u8>,
    list: Seq<(NlMsgHeader, Seq<u8>)>,
    rest: Seq<u8>,
    len: int,
    multipart: bool,
)
    requires
        forall|i: int| 0 <= i < list.len() ==> is_content(#[trigger] list[i]),
        front.len() + encode_messages(list).len() <= len,
        ends_readably(list, rest),
    ensures
        ({
            let buf = front + encode_messages(list) + rest;
            let end = front.len() + encode_messages(list).len();
            reception::outcome_of(buf, len, front.len() as int, multipart) == reception::preceded(
                plain_list(list),
                reception::outcome_of(buf, len, end as int, last_is_multipart(list, multipart)),
            )
        }),
{
    reveal(outcome_at);
    lemma_messages_are_kept(front, list, rest, len, multipart);
}

/// What the messages from `offset` on amount to.
#[verifier::opaque]
spec fn outcome_at(buf: Seq<u8>, len: int, offset: int, multipart: bool) -> Outcome {
    reception::outcome_of(buf, len, offset, multipart)
}

/// The messages of a datagram are kept, all of them and in order.
proof fn lemma_messages_are_kept(
    front: Seq<u8>,
    list: Seq<(NlMsgHeader, Seq<u8>)>,
    rest: Seq<u8>,
    len: int,
    multipart: bool,
)
    requires
        forall|i: int| 0 <= i < list.len() ==> is_content(#[trigger] list[i]),
        front.len() + encode_messages(list).len() <= len,
        ends_readably(list, rest),
    ensures
        ({
            let buf = front + encode_messages(list) + rest;
            let end = front.len() + encode_messages(list).len();
            outcome_at(buf, len, front.len() as int, multipart) == reception::preceded(
                plain_list(list),
                outcome_at(buf, len, end as int, last_is_multipart(list, multipart)),
            )
        }),
    decreases list.len(),
{
    let buf = front + encode_messages(list) + rest;
    let end = front.len() + encode_messages(list).len();
    if list.len() == 0 {
        assert(plain_list(list) =~= Seq::<NetlinkMessageView>::empty());
        lemma_preceded_by_nothing(outcome_at(buf, len, end as int, multipart));
    } else {
        let (header, data) = list[0];
        let later = list.drop_first();
        let pad = encode::zeros(align::align_up(data.len() as int, 4) - data.len());
        let first = header.bytes() + data + pad;
        assert(is_content(list[0]));
        assert forall|i: int| 0 <= i < later.len() implies is_content(#[trigger] later[i]) by {
            assert(later[i] == list[i + 1]);
        }
        lemma_message_room(header, data);
        lemma_header_is_followed(list, pad, rest);
        lemma_stream_parts(front, header.bytes(), data, pad, encode_messages(later), rest);
        lemma_one_message(
            buf,
            front.len() as int,
            header,
            data,
            pad + encode_messages(later) + rest,
            len,
            multipart,
        );
        let flagged = header.nlmsg_flags / 2 % 2 == 1;
        lemma_messages_are_kept(front + first, later, rest, len, flagged);
        assert(last_is_multipart(later, flagged) == last_is_multipart(list, multipart)) by {
            if later.len() > 0 {
                assert(later.last() == list.last());
            }
        }
        assert(seq![plain(header, data)] + plain_list(later) =~= plain_list(list));
        reception::lemma_preceded_twice(
            seq![plain(header, data)],
            plain_list(later),
            outcome_at(buf, len, end as int, last_is_multipart(list, multipart)),
        );
    }
}

/// The room that a message takes.
proof fn lemma_message_room(header: NlMsgHeader, data: Seq<u8>)
    requires
        header.nlmsg_len == NLMSGHDR_LEN + data.len(),
    ensures
        encode_message((header, data)).len() == align::align_up(header.nlmsg_len as int, 4),
{
    lemma_header_len(header);
    lemma_padded_len(header.bytes(), data);
}

/// The length of a header and a payload with its padding.
proof fn lemma_padded_len(header: Seq<u8>, data: Seq<u8>)
    requires
        header.len() == 16,
    ensures
        (header + data + encode::zeros(
            align::align_up(data.len() as int, 4) - data.len(),
        )).len() == align::align_up(16 + data.len() as int, 4),
{
    align::lemma_align_up_4(data.len() as int);
    align::lemma_align_up_4(16 + data.len() as int);
}

/// A message is kept, and what follows it decides.
proof fn lemma_one_message(
    buf: Seq<u8>,
    offset: int,
    header: NlMsgHeader,
    data: Seq<u8>,
    after: Seq<u8>,
    len: int,
    multipart: bool,
)
    requires
        is_content((header, data)),
        0 <= offset < len,
        data.len() + after.len() > 0,
        buf.skip(offset) == header.bytes() + data + after,
    ensures
        outcome_at(buf, len, offset, multipart) == reception::preceded(
            seq![plain(header, data)],
            outcome_at(
                buf,
                len,
                offset + align::align_up(header.nlmsg_len as int, 4),
                header.nlmsg_flags / 2 % 2 == 1,
            ),
        ),
{
    reveal(outcome_at);
    law_message_reads_back(header, data, after);
}

/// What the messages from `offset` on are.
#[verifier::opaque]
spec fn legible_at(buf: Seq<u8>, len: int, offset: int) -> bool {
    reception::legible(buf, len, offset)
}

/// A message has a meaning, and what follows it decides.
proof fn lemma_one_legible(
    buf: Seq<u8>,
    offset: int,
    header: NlMsgHeader,
    data: Seq<u8>,
    after: Seq<u8>,
    len: int,
)
    requires
        is_content((header, data)),
        0 <= offset < len,
        data.len() + after.len() > 0,
        buf.skip(offset) == header.bytes() + data + after,
    ensures
        legible_at(buf, len, offset) == legible_at(
            buf,
            len,
            offset + align::align_up(header.nlmsg_len as int, 4),
        ),
{
    reveal(legible_at);
    law_message_reads_back(header, data, after);
}

/// Messages that carry something have a meaning, and what follows them decides.
proof fn lemma_messages_are_legible(
    front: Seq<u8>,
    list: Seq<(NlMsgHeader, Seq<u8>)>,
    rest: Seq<u8>,
    len: int,
)
    requires
        forall|i: int| 0 <= i < list.len() ==> is_content(#[trigger] list[i]),
        front.len() + encode_messages(list).len() <= len,
        ends_readably(list, rest),
    ensures
        ({
            let buf = front + encode_messages(list) + rest;
            let end = front.len() + encode_messages(list).len();
            legible_at(buf, len, front.len() as int) == legible_at(buf, len, end as int)
        }),
    decreases list.len(),
{
    let buf = front + encode_messages(list) + rest;
    if list.len() > 0 {
        let (header, data) = list[0];
        let later = list.drop_first();
        let pad = encode::zeros(align::align_up(data.len() as int, 4) - data.len());
        assert(is_content(list[0]));
        assert forall|i: int| 0 <= i < later.len() implies is_content(#[trigger] later[i]) by {
            assert(later[i] == list[i + 1]);
        }
        lemma_message_room(header, data);
        lemma_header_is_followed(list, pad, rest);
        lemma_stream_parts(front, header.bytes(), data, pad, encode_messages(later), rest);
        lemma_one_legible(
            buf,
            front.len() as int,
            header,
            data,
            pad + encode_messages(later) + rest,
            len,
        );
        lemma_messages_are_legible(front + (header.bytes() + data + pad), later, rest, len);
    }
}

/// Messages that carry something can be taken in exactly where what follows them can.
pub proof fn law_messages_are_legible(
    front: Seq<u8>,
    list: Seq<(NlMsgHeader, Seq<u8>)>,
    rest: Seq<u8>,
    len: int,
)
    requires
        forall|i: int| 0 <= i < list.len() ==> is_content(#[trigger] list[i]),
        front.len() + encode_messages(list).len() <= len,
        ends_readably(list, rest),
    ensures
        ({
            let buf = front + encode_messages(list) + rest;
            let end = front.len() + encode_messages(list).len();
            reception::legible(buf, len, front.len() as int) == reception::legible(
                buf,
                len,
                end as int,
            )
        }),
{
    reveal(legible_at);
    lemma_messages_are_legible(front, list, rest, len);
}

/// The messages up to the one that ends a list of several are the answer, whatever follows.
pub proof fn law_list_ends_with_done(
    list: Seq<(NlMsgHeader, Seq<u8>)>,
    done: NlMsgHeader,
    data: Seq<u8>,
    rest: Seq<u8>,
    len: int,
)
    requires
        forall|i: int| 0 <= i < list.len() ==> is_content(#[trigger] list[i]),
        done.nlmsg_type == NLMSG_DONE,
        done.nlmsg_len == NLMSGHDR_LEN + data.len(),
        data.len() + rest.len() > 0,
        encode_messages(list).len() < len,
    ensures
        reception::outcome_of(
            encode_messages(list) + (done.bytes() + data + rest),
            len,
            0,
            false,
        ) == Outcome::Finished(plain_list(list)),
        reception::legible(encode_messages(list) + (done.bytes() + data + rest), len, 0),
{
    let tail = done.bytes() + data + rest;
    let buf = encode_messages(list) + tail;
    let end = encode_messages(list).len() as int;
    assert(Seq::<u8>::empty() + encode_messages(list) + tail =~= buf);
    law_messages_are_kept_in_order(Seq::empty(), list, tail, len, false);
    law_messages_are_legible(Seq::empty(), list, tail, len);
    assert(buf.skip(end) =~= tail);
    law_message_reads_back(done, data, rest);
    assert(plain_list(list) + Seq::<NetlinkMessageView>::empty() =~= plain_list(list));
}

/// Nothing before an outcome leaves it as it is.
proof fn lemma_preceded_by_nothing(outcome: Outcome)
    ensures
        reception::preceded(Seq::empty(), outcome) == outcome,
{
    match outcome {
        Outcome::Failed(_) => {},
        Outcome::Finished(messages) => {
            assert(Seq::<NetlinkMessageView>::empty() + messages =~= messages);
        },
        Outcome::Open(messages, _) => {
            assert(Seq::<NetlinkMessageView>::empty() + messages =~= messages);
        },
    }
}

} // verus!
