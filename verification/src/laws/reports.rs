//! What is read from the datagrams that answer a request.
use vstd::prelude::*;
use vstd::std_specs::convert::FromSpec;
use vstd::utf8;

use crate::error::{
    IoError, NetlinkError, NetlinkErrorInternal, NetlinkErrorView, NlAttrError, OtherError,
};
use crate::laws::replies;
use crate::message::NetlinkMessageView;
use crate::reception::{Outcome, Reception};
use crate::uapi::{NLMSGERR_ATTR_MSG, NLMSG_DONE};
use crate::{align, message, native, parse, reception, text};

verus! {

/// What is wrong with a message that cannot be read: it is shorter than a header; or the length in its
/// first four bytes does not cover the header or runs over the buffer; or nothing follows the header;
/// or it is an error message without room for a report.
pub proof fn law_unreadable_messages(buf: Seq<u8>)
    ensures
        ({
            let len = native::u32_at(buf, 0);
            let nlmsg_type = native::u16_at(buf, 4);
            let short_header = buf.len() < 16;
            let invalid = !short_header && (len < 16 || len > buf.len());
            let bare = !short_header && !invalid && buf.len() == 16;
            let short_report = !short_header && !invalid && !bare && nlmsg_type == 2 && buf.len()
                < 36;
            &&& short_header <==> message::message_of(buf) == Err::<NetlinkMessageView, IoError>(
                IoError::Other(OtherError::ShortHeader),
            )
            &&& invalid <==> message::message_of(buf) == Err::<NetlinkMessageView, IoError>(
                IoError::Other(OtherError::InvalidLength),
            )
            &&& bare <==> message::message_of(buf) == Err::<NetlinkMessageView, IoError>(
                IoError::Other(OtherError::NeedMoreData),
            )
            &&& short_report <==> message::message_of(buf) == Err::<NetlinkMessageView, IoError>(
                IoError::Other(OtherError::ShortErrorPayload),
            )
            &&& short_header || invalid || bare || short_report <==> message::message_of(
                buf,
            ) is Err
        }),
{
}

/// A message that can be read has the payload that its length gives it, behind the header, or behind
/// the report of an error message.
pub proof fn law_message_is_read_from_its_places(buf: Seq<u8>)
    requires
        message::message_of(buf) is Ok,
    ensures
        ({
            let read = message::message_of(buf)->Ok_0;
            let len = native::u32_at(buf, 0) as int;
            &&& read.header == message::header_at(buf, 0)
            &&& native::u16_at(buf, 4) != 2 ==> read.error is None && read.data == buf.subrange(
                16,
                len,
            )
            &&& native::u16_at(buf, 4) == 2 ==> {
                &&& read.error is Some
                &&& read.error->0.error == native::i32_at(buf, 16)
                &&& read.error->0.msg == message::header_at(buf, 20)
                &&& read.data == buf.subrange(36, len)
            }
        }),
{
}

/// The messages without a meaning are the error messages that have room for a report and claim to end
/// within it.
pub proof fn law_cut_short_messages(buf: Seq<u8>)
    ensures
        message::cut_short(buf) <==> {
            &&& buf.len() >= 36
            &&& native::u16_at(buf, 4) == 2
            &&& 16 <= native::u32_at(buf, 0) < 36
        },
{
}

/// A text is what its bytes spell where they are UTF-8.
pub proof fn law_text_is_what_is_spelled(bytes: Seq<u8>)
    ensures
        utf8::valid_utf8(bytes) ==> text::text_of(bytes) == utf8::decode_utf8(bytes),
        !utf8::valid_utf8(bytes) ==> text::text_of(bytes) == text::lossy_utf8(bytes),
        text::c_text(bytes) is Some <==> text::is_c_string(bytes),
        text::is_c_string(bytes) ==> text::c_text(bytes) == Some(
            text::text_of(bytes.drop_last()),
        ),
{
}

/// A refusal is the error number without its sign, with any words that come with it.
pub proof fn law_refusal_is_number_and_words(error: i32, words: Seq<char>, number: i32)
    requires
        number == -error,
    ensures
        reception::refusal(error, Some(words)) == (NetlinkErrorView::Error {
            message: words,
            source: IoError::Os(number),
        }),
        reception::refusal(error, None) == NetlinkErrorView::IoError(IoError::Os(number)),
{
}

/// A refusal carries the error number without its sign, and the last of the kernel's words where they
/// are a string in the convention of C, whatever other attributes there are and whatever flags they
/// have. Malformed attributes are reported in its place.
pub proof fn law_refusal_carries_number_and_last_words(error: i32, data: Seq<u8>, number: i32)
    requires
        number == -error,
    ensures
        match parse::attrs_of(data) {
            Err(e) => reception::failure_of(error, data) == NetlinkErrorView::NlAttrError(e),
            Ok(list) => {
                &&& replies::lacks_type(list, NLMSGERR_ATTR_MSG) ==> reception::failure_of(
                    error,
                    data,
                ) == NetlinkErrorView::IoError(IoError::Os(number))
                &&& forall|i: int|
                    #![trigger list[i]]
                    replies::is_last_of_type(list, i, NLMSGERR_ATTR_MSG) && text::is_c_string(
                        list[i].data,
                    ) ==> reception::failure_of(error, data) == (NetlinkErrorView::Error {
                        message: text::text_of(list[i].data.drop_last()),
                        source: IoError::Os(number),
                    })
                &&& forall|i: int|
                    #![trigger list[i]]
                    replies::is_last_of_type(list, i, NLMSGERR_ATTR_MSG) && !text::is_c_string(
                        list[i].data,
                    ) ==> reception::failure_of(error, data) == NetlinkErrorView::IoError(
                        IoError::Os(number),
                    )
            },
        },
{
    if let Ok(list) = parse::attrs_of(data) {
        if replies::lacks_type(list, NLMSGERR_ATTR_MSG) {
            replies::lemma_table_lacks(list, NLMSGERR_ATTR_MSG);
        }
        assert forall|i: int|
            #![trigger list[i]]
            replies::is_last_of_type(
                list,
                i,
                NLMSGERR_ATTR_MSG,
            ) implies parse::by_type(list).contains_key(NLMSGERR_ATTR_MSG) && parse::by_type(
            list,
        )[NLMSGERR_ATTR_MSG] == list[i] by {
            replies::lemma_table_has_the_last(list, i, NLMSGERR_ATTR_MSG);
        }
    }
}

/// An error message reports a failure unless its number has no negation and its attributes do not stand
/// in for it.
pub proof fn law_every_number_with_a_negation_is_reported(error: i32, data: Seq<u8>)
    ensures
        reception::reports_failure(error, data) <==> error > i32::MIN || parse::attrs_of(
            data,
        ) is Err,
{
}

/// Behind the end of a datagram nothing is read, and what the last message said stands.
pub proof fn law_reading_ends_with_the_datagram(
    buf: Seq<u8>,
    len: int,
    offset: int,
    multipart: bool,
)
    requires
        0 <= offset,
        len <= offset,
    ensures
        reception::outcome_of(buf, len, offset, multipart) == Outcome::Open(
            Seq::empty(),
            multipart,
        ),
        reception::legible(buf, len, offset),
{
}

/// A message that cannot be read fails the answer, wherever in a datagram it starts.
pub proof fn law_unreadable_message_fails(
    buf: Seq<u8>,
    len: int,
    offset: int,
    multipart: bool,
    e: IoError,
)
    requires
        0 <= offset < len,
        message::message_of(buf.skip(offset)) == Err::<NetlinkMessageView, IoError>(e),
    ensures
        reception::outcome_of(buf, len, offset, multipart) == Outcome::Failed(
            NetlinkErrorView::IoError(e),
        ),
        reception::legible(buf, len, offset),
{
    law_unreadable_messages(buf.skip(offset));
    law_cut_short_messages(buf.skip(offset));
}

/// A message that is cut short makes a datagram illegible, wherever it starts.
pub proof fn law_cut_short_message_is_illegible(buf: Seq<u8>, len: int, offset: int)
    requires
        0 <= offset < len,
        message::cut_short(buf.skip(offset)),
    ensures
        !reception::legible(buf, len, offset),
{
}

/// A refusal fails the answer with what the kernel reports, wherever in a datagram it stands.
pub proof fn law_refusal_fails_anywhere(
    buf: Seq<u8>,
    len: int,
    offset: int,
    multipart: bool,
    read: NetlinkMessageView,
)
    requires
        0 <= offset < len,
        message::message_of(buf.skip(offset)) == Ok::<NetlinkMessageView, IoError>(read),
        read.error is Some,
        read.error->0.error != 0,
    ensures
        reception::outcome_of(buf, len, offset, multipart) == Outcome::Failed(
            reception::failure_of(read.error->0.error, read.data),
        ),
        reception::legible(buf, len, offset) <==> !message::cut_short(buf.skip(offset))
            && reception::reports_failure(read.error->0.error, read.data),
{
}

/// An acknowledgement is passed over, wherever in a datagram it stands: what follows its padding
/// decides, and whether it is flagged as one of several.
pub proof fn law_acknowledgement_is_passed_over(
    buf: Seq<u8>,
    len: int,
    offset: int,
    multipart: bool,
    read: NetlinkMessageView,
    padded: int,
)
    requires
        0 <= offset < len,
        message::message_of(buf.skip(offset)) == Ok::<NetlinkMessageView, IoError>(read),
        read.error is Some,
        read.error->0.error == 0,
        padded % 4 == 0,
        read.header.nlmsg_len <= padded < read.header.nlmsg_len + 4,
    ensures
        reception::outcome_of(buf, len, offset, multipart) == reception::outcome_of(
            buf,
            len,
            offset + padded,
            read.header.nlmsg_flags & 2 != 0,
        ),
        reception::legible(buf, len, offset) <==> !message::cut_short(buf.skip(offset))
            && reception::legible(buf, len, offset + padded),
{
    lemma_multipart(read);
    align::lemma_align_up_4(read.header.nlmsg_len as int);
    assert(reception::next_offset(offset, read) == offset + padded);
}

/// Any other message but the one that ends a list is kept as it is, wherever in a datagram it stands,
/// in front of what follows its padding.
pub proof fn law_message_is_kept(
    buf: Seq<u8>,
    len: int,
    offset: int,
    multipart: bool,
    read: NetlinkMessageView,
    padded: int,
)
    requires
        0 <= offset < len,
        message::message_of(buf.skip(offset)) == Ok::<NetlinkMessageView, IoError>(read),
        read.error is None,
        read.header.nlmsg_type != NLMSG_DONE,
        padded % 4 == 0,
        read.header.nlmsg_len <= padded < read.header.nlmsg_len + 4,
    ensures
        reception::outcome_of(buf, len, offset, multipart) == reception::preceded(
            seq![read],
            reception::outcome_of(buf, len, offset + padded, read.header.nlmsg_flags & 2 != 0),
        ),
        reception::legible(buf, len, offset) <==> reception::legible(buf, len, offset + padded),
{
    lemma_multipart(read);
    align::lemma_align_up_4(read.header.nlmsg_len as int);
    assert(reception::next_offset(offset, read) == offset + padded);
}

/// The flag that says that more datagrams follow is the second bit.
proof fn lemma_multipart(read: NetlinkMessageView)
    ensures
        reception::is_multipart(read) <==> read.header.nlmsg_flags & 2 != 0,
{
    let flags = read.header.nlmsg_flags;
    assert(flags & 2 != 0 <==> flags / 2 % 2 == 1) by (bit_vector);
}

/// The message that ends a list ends the answer, wherever in a datagram it stands and whatever it or
/// the messages before it are flagged as.
pub proof fn law_done_ends_the_answer(
    buf: Seq<u8>,
    len: int,
    offset: int,
    multipart: bool,
    read: NetlinkMessageView,
)
    requires
        0 <= offset < len,
        message::message_of(buf.skip(offset)) == Ok::<NetlinkMessageView, IoError>(read),
        read.error is None,
        read.header.nlmsg_type == NLMSG_DONE,
    ensures
        reception::outcome_of(buf, len, offset, multipart) == Outcome::Finished(Seq::empty()),
        reception::legible(buf, len, offset),
{
}

/// Earlier messages come first, and do not change whether an answer failed, ended or goes on.
pub proof fn law_earlier_messages_come_first(
    earlier: Seq<NetlinkMessageView>,
    messages: Seq<NetlinkMessageView>,
    multipart: bool,
    e: NetlinkErrorView,
)
    ensures
        reception::preceded(earlier, Outcome::Failed(e)) == Outcome::Failed(e),
        reception::preceded(earlier, Outcome::Finished(messages)) == Outcome::Finished(
            earlier + messages,
        ),
        reception::preceded(earlier, Outcome::Open(messages, multipart)) == Outcome::Open(
            earlier + messages,
            multipart,
        ),
{
}

/// An answer goes on to another datagram exactly where the last message of a datagram said so; before
/// the first datagram, one is still to come.
pub proof fn law_answer_goes_on_where_it_says_so(
    buf: Seq<u8>,
    len: int,
    later: Seq<(Seq<u8>, int)>,
)
    ensures
        reception::answer_of(Seq::empty()) == Outcome::Open(Seq::empty(), true),
        match reception::outcome_of(buf, len, 0, false) {
            Outcome::Failed(e) => reception::answer_of(seq![(buf, len)] + later)
                == Outcome::Failed(e),
            Outcome::Finished(messages) => reception::answer_of(seq![(buf, len)] + later)
                == Outcome::Finished(messages),
            Outcome::Open(messages, multipart) => if multipart {
                reception::answer_of(seq![(buf, len)] + later) == reception::preceded(
                    messages,
                    reception::answer_of(later),
                )
            } else {
                reception::answer_of(seq![(buf, len)] + later) == Outcome::Finished(messages)
            },
        },
{
    assert((seq![(buf, len)] + later).drop_first() =~= later);
}

/// What has come in is what the messages hold, and without another datagram to come it is all.
pub proof fn law_reception_holds_what_came(
    reception: Reception,
    datagrams: Seq<(Seq<u8>, int)>,
    i: int,
)
    requires
        0 <= i < reception.messages@.len(),
    ensures
        reception.contents().len() == reception.messages@.len(),
        reception.contents()[i] == reception.messages@[i]@,
        !reception.multipart ==> reception.completed_by(datagrams) == Outcome::Finished(
            reception.contents(),
        ),
{
}

/// An error says what caused it, through every conversion.
pub proof fn law_errors_keep_their_cause(
    io: IoError,
    attr: NlAttrError,
    internal: NetlinkErrorInternal,
)
    ensures
        <NetlinkErrorInternal as FromSpec<IoError>>::from_spec(io)@ == NetlinkErrorView::IoError(
            io,
        ),
        <NetlinkErrorInternal as FromSpec<NlAttrError>>::from_spec(attr)@
            == NetlinkErrorView::NlAttrError(attr),
        <NetlinkError as FromSpec<NetlinkErrorInternal>>::from_spec(internal)@ == internal@,
        internal matches NetlinkErrorInternal::Error { message, source } ==> internal@ == (
        NetlinkErrorView::Error { message: message@, source }),
        internal matches NetlinkErrorInternal::IoError(e) ==> internal@
            == NetlinkErrorView::IoError(e),
        internal matches NetlinkErrorInternal::NlAttrError(e) ==> internal@
            == NetlinkErrorView::NlAttrError(e),
{
}

} // verus!
