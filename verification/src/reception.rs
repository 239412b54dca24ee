//! Taking in the datagrams that answer a request.
use vstd::prelude::*;
use vstd::slice::slice_subrange;

use crate::align::align_to_4;
use crate::error::{IoError, NetlinkErrorInternal, NetlinkErrorView};
use crate::message::{NetlinkMessage, NetlinkMessageView};
use crate::parse::parse_attrs;
use crate::text::c_string_text;
use crate::uapi::{NLMSGERR_ATTR_MSG, NLMSG_DONE, NLM_F_MULTI};
use crate::{align, message, parse, text};

verus! {

/// The failure that an error number stands for, with the kernel's words where there are any.
pub open spec fn refusal(error: i32, text: Option<Seq<char>>) -> NetlinkErrorView {
    let source = IoError::Os((-error) as i32);
    match text {
        Some(message) => NetlinkErrorView::Error { message, source },
        None => NetlinkErrorView::IoError(source),
    }
}

/// The failure for the negated error number `error` and the kernel's words, if there are any.
pub fn refused(error: i32, text: Option<String>) -> (r: NetlinkErrorInternal)
    requires
        error != i32::MIN,
    ensures
        r@ == refusal(
            error,
            match text {
                Some(message) => Some(message@),
                None => None,
            },
        ),
{
    match text {
        Some(message) => NetlinkErrorInternal::Error { message, source: IoError::Os(-error) },
        None => NetlinkErrorInternal::IoError(IoError::Os(-error)),
    }
}

/// The kernel's words among the attributes of an error message, by their types.
pub open spec fn words(attrs: Map<u16, parse::NlAttrView>) -> Option<Seq<char>> {
    if attrs.contains_key(NLMSGERR_ATTR_MSG) {
        text::c_text(attrs[NLMSGERR_ATTR_MSG].data)
    } else {
        None
    }
}

/// The failure that an error message reports: the refusal of the request, unless the attributes of
/// the message are malformed.
pub open spec fn failure_of(error: i32, data: Seq<u8>) -> NetlinkErrorView {
    match parse::attrs_of(data) {
        Err(e) => NetlinkErrorView::NlAttrError(e),
        Ok(list) => refusal(error, words(parse::by_type(list))),
    }
}

/// Whether an error message with the number `error` and the attributes `data` reports a failure: the
/// number has a negation, unless the attributes are malformed and the number is not looked at.
pub open spec fn reports_failure(error: i32, data: Seq<u8>) -> bool {
    error == i32::MIN ==> parse::attrs_of(data) is Err
}

/// The failure that an error message with the number `error` and the attributes `data` reports.
pub fn read_failure(error: i32, data: &[u8]) -> (r: NetlinkErrorInternal)
    requires
        reports_failure(error, data@),
    ensures
        r@ == failure_of(error, data@),
{
    match parse_attrs(data) {
        Err(e) => NetlinkErrorInternal::NlAttrError(e),
        Ok(attrs) => {
            let ghost table = parse::table_view(attrs@);
            assert(table.contains_key(NLMSGERR_ATTR_MSG) <==> attrs@.contains_key(
                NLMSGERR_ATTR_MSG,
            ));
            match attrs.get(&NLMSGERR_ATTR_MSG) {
                Some(msg) => {
                    assert(table[NLMSGERR_ATTR_MSG] == msg@);
                    refused(error, c_string_text(msg.data))
                },
                None => refused(error, None),
            }
        },
    }
}

/// What a datagram, or the rest of one, amounts to.
pub enum Outcome {
    /// The answer is a failure.
    Failed(NetlinkErrorView),
    /// The answer ends with these messages.
    Finished(Seq<NetlinkMessageView>),
    /// These messages came, and the last message of all said whether more datagrams follow.
    Open(Seq<NetlinkMessageView>, bool),
}

/// `outcome` after the messages `earlier`.
pub open spec fn preceded(earlier: Seq<NetlinkMessageView>, outcome: Outcome) -> Outcome {
    match outcome {
        Outcome::Failed(e) => Outcome::Failed(e),
        Outcome::Finished(messages) => Outcome::Finished(earlier + messages),
        Outcome::Open(messages, multipart) => Outcome::Open(earlier + messages, multipart),
    }
}

/// Whether a message is flagged as one of several datagrams' worth.
pub open spec fn is_multipart(message: NetlinkMessageView) -> bool {
    message.header.nlmsg_flags / 2 % 2 == 1
}

/// Where the message that follows one at `offset` starts.
pub open spec fn next_offset(offset: int, message: NetlinkMessageView) -> int {
    offset + align::align_up(message.header.nlmsg_len as int, 4)
}

/// What the messages from `offset` on amount to, in a datagram of `len` bytes at the start of
/// `buf`. `multipart` is what the message before them said.
///
/// A message may reach beyond the datagram, as long as it stays in `buf`.
pub open spec fn outcome_of(buf: Seq<u8>, len: int, offset: int, multipart: bool) -> Outcome
    decreases
        (if offset < len {
            len - offset
        } else {
            0
        }),
{
    if offset < 0 || offset >= len {
        Outcome::Open(Seq::empty(), multipart)
    } else {
        match message::message_of(buf.skip(offset)) {
            Err(e) => Outcome::Failed(NetlinkErrorView::IoError(e)),
            Ok(message) => {
                let rest = outcome_of(
                    buf,
                    len,
                    next_offset(offset, message),
                    is_multipart(message),
                );
                match message.error {
                    Some(report) => if report.error == 0 {
                        rest
                    } else {
                        Outcome::Failed(failure_of(report.error, message.data))
                    },
                    None => if message.header.nlmsg_type == NLMSG_DONE {
                        Outcome::Finished(Seq::empty())
                    } else {
                        preceded(seq![message], rest)
                    },
                }
            },
        }
    }
}

/// Whether the messages from `offset` on have a meaning, as far as they are looked at: no error
/// message is cut short, and each one that is no acknowledgement reports a failure.
pub open spec fn legible(buf: Seq<u8>, len: int, offset: int) -> bool
    decreases
        (if offset < len {
            len - offset
        } else {
            0
        }),
{
    if offset < 0 || offset >= len {
        true
    } else {
        &&& !message::cut_short(buf.skip(offset))
        &&& match message::message_of(buf.skip(offset)) {
            Err(_) => true,
            Ok(message) => {
                let rest = legible(buf, len, next_offset(offset, message));
                match message.error {
                    Some(report) => if report.error == 0 {
                        rest
                    } else {
                        reports_failure(report.error, message.data)
                    },
                    None => message.header.nlmsg_type != NLMSG_DONE ==> rest,
                }
            },
        }
    }
}

/// What a whole answer amounts to that comes in these datagrams, each given by the buffer that it was
/// received into and its length. It is open as long as another datagram has to follow; what follows
/// its end does not belong to it.
pub open spec fn answer_of(datagrams: Seq<(Seq<u8>, int)>) -> Outcome
    decreases datagrams.len(),
{
    if datagrams.len() == 0 {
        Outcome::Open(Seq::empty(), true)
    } else {
        match outcome_of(datagrams[0].0, datagrams[0].1, 0, false) {
            Outcome::Failed(e) => Outcome::Failed(e),
            Outcome::Finished(messages) => Outcome::Finished(messages),
            Outcome::Open(messages, false) => Outcome::Finished(messages),
            Outcome::Open(messages, true) => preceded(
                messages,
                answer_of(datagrams.drop_first()),
            ),
        }
    }
}

/// The answer to a request, as far as it has come in.
pub struct Reception {
    /// The messages that came so far, without acknowledgements.
    pub messages: Vec<NetlinkMessage>,
    /// Whether another datagram is to be received.
    pub multipart: bool,
}

impl Reception {
    /// What the messages so far hold.
    pub open spec fn contents(self) -> Seq<NetlinkMessageView> {
        message::messages_view(self.messages@)
    }

    /// What the answer amounts to once these datagrams have come in as well.
    pub open spec fn completed_by(self, datagrams: Seq<(Seq<u8>, int)>) -> Outcome {
        if self.multipart {
            preceded(self.contents(), answer_of(datagrams))
        } else {
            Outcome::Finished(self.contents())
        }
    }

    /// No message has come yet, and one datagram at least is to be received.
    pub fn new() -> (r: Self)
        ensures
            r.contents() == Seq::<NetlinkMessageView>::empty(),
            r.multipart,
    {
        let r = Reception { messages: Vec::new(), multipart: true };
        assert(r.contents() == Seq::<NetlinkMessageView>::empty());
        r
    }

    /// Whether the datagram of `len` bytes at the start of `buf` has a meaning.
    pub fn is_legible(buf: &[u8], len: usize) -> (r: bool)
        requires
            len <= buf@.len() <= isize::MAX,
        ensures
            r == legible(buf@, len as int, 0),
    {
        let mut offset: usize = 0;
        while offset < len
            invariant
                len <= buf@.len() <= isize::MAX,
                legible(buf@, len as int, 0) == legible(buf@, len as int, offset as int),
            decreases
                (if offset < len {
                    len - offset
                } else {
                    0
                }),
        {
            let rest: &[u8] = slice_subrange(buf, offset, buf.len());
            assert(rest@ == buf@.skip(offset as int));
            if NetlinkMessage::is_cut_short(rest) {
                return false;
            }
            match NetlinkMessage::read(rest) {
                Err(_) => {
                    return true;
                },
                Ok(message) => {
                    match message.error {
                        Some(report) => {
                            if report.error == i32::MIN {
                                return parse_attrs(message.data.as_slice()).is_err();
                            }
                            if report.error != 0 {
                                return true;
                            }
                        },
                        None => {
                            if message.header.nlmsg_type == NLMSG_DONE {
                                return true;
                            }
                        },
                    }
                    offset += align_to_4(message.header.nlmsg_len as usize);
                },
            }
        }
        true
    }

    /// Takes in the datagram of `len` bytes at the start of `buf`. An empty one ends the answer.
    pub fn datagram(&mut self, buf: &[u8], len: usize) -> (r: Result<(), NetlinkErrorInternal>)
        requires
            len <= buf@.len() <= isize::MAX,
            legible(buf@, len as int, 0),
        ensures
            match outcome_of(buf@, len as int, 0, false) {
                Outcome::Failed(e) => {
                    &&& r matches Err(error) && error@ == e
                    &&& *final(self) == *old(self)
                },
                Outcome::Finished(messages) => {
                    &&& r is Ok
                    &&& final(self).contents() == old(self).contents() + messages
                    &&& !final(self).multipart
                },
                Outcome::Open(messages, multipart) => {
                    &&& r is Ok
                    &&& final(self).contents() == old(self).contents() + messages
                    &&& final(self).multipart == multipart
                },
            },
    {
        let mut received: Vec<NetlinkMessage> = Vec::new();
        let mut multipart: bool = false;
        let mut offset: usize = 0;
        let ghost whole = outcome_of(buf@, len as int, 0, false);
        while offset < len
            invariant_except_break
                legible(buf@, len as int, offset as int),
                whole == preceded(
                    message::messages_view(received@),
                    outcome_of(buf@, len as int, offset as int, multipart),
                ),
            invariant
                len <= buf@.len() <= isize::MAX,
                *self == *old(self),
                whole == outcome_of(buf@, len as int, 0, false),
            ensures
                whole == preceded(
                    message::messages_view(received@),
                    Outcome::Open(Seq::empty(), multipart),
                ) || (!multipart && whole == preceded(
                    message::messages_view(received@),
                    Outcome::Finished(Seq::empty()),
                )),
            decreases
                (if offset < len {
                    len - offset
                } else {
                    0
                }),
        {
            let rest: &[u8] = slice_subrange(buf, offset, buf.len());
            assert(rest@ == buf@.skip(offset as int));
            let message = match NetlinkMessage::read(rest) {
                Ok(message) => message,
                Err(e) => {
                    return Err(NetlinkErrorInternal::IoError(e));
                },
            };
            offset += align_to_4(message.header.nlmsg_len as usize);
            let flags: u16 = message.header.nlmsg_flags;
            assert(flags & 2 != 0 <==> flags / 2 % 2 == 1) by (bit_vector);
            multipart = flags & NLM_F_MULTI != 0;
            if let Some(report) = message.error {
                if report.error != 0 {
                    return Err(read_failure(report.error, message.data.as_slice()));
                }
            } else if message.header.nlmsg_type == NLMSG_DONE {
                multipart = false;
                break ;
            } else {
                let ghost earlier = received@;
                received.push(message);
                proof {
                    let later = outcome_of(buf@, len as int, offset as int, multipart);
                    assert(message::messages_view(received@)
                        == message::messages_view(earlier) + seq![message@]);
                    lemma_preceded_twice(
                        message::messages_view(earlier),
                        seq![message@],
                        later,
                    );
                }
            }
        }
        proof {
            let views = message::messages_view(received@);
            assert(views + Seq::<NetlinkMessageView>::empty() == views);
        }
        let ghost before = self.messages@;
        let ghost more = received@;
        self.messages.append(&mut received);
        self.multipart = multipart;
        assert(self.contents() == message::messages_view(before)
            + message::messages_view(more));
        Ok(())
    }
}

/// Messages that come in two lots come in one.
pub proof fn lemma_preceded_twice(
    a: Seq<NetlinkMessageView>,
    b: Seq<NetlinkMessageView>,
    outcome: Outcome,
)
    ensures
        preceded(a, preceded(b, outcome)) == preceded(a + b, outcome),
{
    match outcome {
        Outcome::Failed(_) => {},
        Outcome::Finished(messages) => {
            assert(a + (b + messages) == (a + b) + messages);
        },
        Outcome::Open(messages, _) => {
            assert(a + (b + messages) == (a + b) + messages);
        },
    }
}

} // verus!
