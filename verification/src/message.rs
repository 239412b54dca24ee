//! Netlink messages.
use vstd::prelude::*;
use vstd::slice::{slice_subrange, slice_to_vec};

use crate::error::{IoError, OtherError};
use crate::native::{push_u16, push_u32, read_i32, read_u16, read_u32};
use crate::uapi::{NLMSGERR_LEN, NLMSGHDR_LEN, NLMSG_ERROR};
use crate::native;

verus! {

/// The header of a message.
#[derive(Clone, Copy, Debug, PartialEq, Eq, Structural)]
pub struct NlMsgHeader {
    /// Length of header and payload, without padding.
    pub nlmsg_len: u32,
    pub nlmsg_type: u16,
    pub nlmsg_flags: u16,
    pub nlmsg_seq: u32,
    pub nlmsg_pid: u32,
}

impl NlMsgHeader {
    /// The bytes of the header.
    pub open spec fn bytes(self) -> Seq<u8> {
        native::u32_bytes(self.nlmsg_len) + native::u16_bytes(self.nlmsg_type)
            + native::u16_bytes(self.nlmsg_flags) + native::u32_bytes(self.nlmsg_seq)
            + native::u32_bytes(self.nlmsg_pid)
    }

    /// Appends the bytes of the header to `out`.
    pub fn push(&self, out: &mut Vec<u8>)
        ensures
            final(out)@ == old(out)@ + self.bytes(),
    {
        push_u32(out, self.nlmsg_len);
        push_u16(out, self.nlmsg_type);
        push_u16(out, self.nlmsg_flags);
        push_u32(out, self.nlmsg_seq);
        push_u32(out, self.nlmsg_pid);
        assert(out@ == old(out)@ + self.bytes());
    }

    /// Reads the header that stands at `at`.
    pub fn read(buf: &[u8], at: usize) -> (r: Self)
        requires
            at + NLMSGHDR_LEN <= buf@.len(),
        ensures
            r == header_at(buf@, at as int),
    {
        assert(at + NLMSGHDR_LEN <= buf.len());
        NlMsgHeader {
            nlmsg_len: read_u32(buf, at),
            nlmsg_type: read_u16(buf, at + 4),
            nlmsg_flags: read_u16(buf, at + 6),
            nlmsg_seq: read_u32(buf, at + 8),
            nlmsg_pid: read_u32(buf, at + 12),
        }
    }
}

/// The header that stands at `at`.
pub open spec fn header_at(s: Seq<u8>, at: int) -> NlMsgHeader {
    NlMsgHeader {
        nlmsg_len: native::u32_at(s, at),
        nlmsg_type: native::u16_at(s, at + 4),
        nlmsg_flags: native::u16_at(s, at + 6),
        nlmsg_seq: native::u32_at(s, at + 8),
        nlmsg_pid: native::u32_at(s, at + 12),
    }
}

/// What opens the payload of an error message.
#[derive(Clone, Copy, Debug, PartialEq, Eq, Structural)]
pub struct NlMsgError {
    /// The negated error number, or 0 for an acknowledgement.
    pub error: i32,
    /// The header of the request that this answers.
    pub msg: NlMsgHeader,
}

impl NlMsgError {
    /// The bytes of the payload.
    pub open spec fn bytes(self) -> Seq<u8> {
        native::i32_bytes(self.error) + self.msg.bytes()
    }
}

/// The payload of an error message that stands at `at`.
pub open spec fn error_at(s: Seq<u8>, at: int) -> NlMsgError {
    NlMsgError { error: native::i32_at(s, at), msg: header_at(s, at + 4) }
}

/// A message that was received.
#[derive(Debug)]
pub struct NetlinkMessage {
    pub header: NlMsgHeader,
    /// The payload; of an error message, what follows `error`.
    pub data: Vec<u8>,
    /// What an error message reports.
    pub error: Option<NlMsgError>,
}

/// What a [`NetlinkMessage`] holds.
pub struct NetlinkMessageView {
    pub header: NlMsgHeader,
    pub data: Seq<u8>,
    pub error: Option<NlMsgError>,
}

impl View for NetlinkMessage {
    type V = NetlinkMessageView;

    open spec fn view(&self) -> NetlinkMessageView {
        NetlinkMessageView { header: self.header, data: self.data@, error: self.error }
    }
}

/// What the messages of a list hold.
pub open spec fn messages_view(messages: Seq<NetlinkMessage>) -> Seq<NetlinkMessageView> {
    messages.map_values(|m: NetlinkMessage| m@)
}

/// The message that `buf` starts with, or what is wrong with it.
pub open spec fn message_of(buf: Seq<u8>) -> Result<NetlinkMessageView, IoError> {
    let header = header_at(buf, 0);
    let len = header.nlmsg_len as int;
    let error_end = NLMSGHDR_LEN + NLMSGERR_LEN;
    if buf.len() < NLMSGHDR_LEN {
        Err(IoError::Other(OtherError::ShortHeader))
    } else if len < NLMSGHDR_LEN || len > buf.len() {
        Err(IoError::Other(OtherError::InvalidLength))
    } else if buf.len() == NLMSGHDR_LEN {
        Err(IoError::Other(OtherError::NeedMoreData))
    } else if header.nlmsg_type != NLMSG_ERROR {
        Ok(
            NetlinkMessageView {
                header,
                data: buf.subrange(NLMSGHDR_LEN as int, len),
                error: None,
            },
        )
    } else if buf.len() < error_end {
        Err(IoError::Other(OtherError::ShortErrorPayload))
    } else {
        Ok(
            NetlinkMessageView {
                header,
                data: buf.subrange(error_end, len),
                error: Some(error_at(buf, NLMSGHDR_LEN as int)),
            },
        )
    }
}

/// Whether what `buf` starts with is an error message that claims to end within the report that it
/// has room for. Such a message has no meaning.
pub open spec fn cut_short(buf: Seq<u8>) -> bool {
    let header = header_at(buf, 0);
    &&& buf.len() >= NLMSGHDR_LEN + NLMSGERR_LEN
    &&& header.nlmsg_type == NLMSG_ERROR
    &&& NLMSGHDR_LEN <= header.nlmsg_len < NLMSGHDR_LEN + NLMSGERR_LEN
}

impl NetlinkMessage {
    /// Whether `buf` starts with an error message that claims to end within its report.
    pub fn is_cut_short(buf: &[u8]) -> (r: bool)
        ensures
            r == cut_short(buf@),
    {
        if buf.len() < NLMSGHDR_LEN + NLMSGERR_LEN {
            return false;
        }
        let header = NlMsgHeader::read(buf, 0);
        let len: usize = header.nlmsg_len as usize;
        header.nlmsg_type == NLMSG_ERROR && NLMSGHDR_LEN <= len && len < NLMSGHDR_LEN
            + NLMSGERR_LEN
    }

    /// Reads the message that `buf` starts with.
    pub fn read(buf: &[u8]) -> (r: Result<Self, IoError>)
        requires
            !cut_short(buf@),
        ensures
            match r {
                Ok(message) => message_of(buf@) == Ok::<NetlinkMessageView, IoError>(message@),
                Err(e) => message_of(buf@) == Err::<NetlinkMessageView, IoError>(e),
            },
    {
        if NLMSGHDR_LEN > buf.len() {
            return Err(IoError::Other(OtherError::ShortHeader));
        }
        let header = NlMsgHeader::read(buf, 0);
        let msg_len: usize = header.nlmsg_len as usize;
        if msg_len < NLMSGHDR_LEN || msg_len > buf.len() {
            return Err(IoError::Other(OtherError::InvalidLength));
        }
        let data_offset: usize = NLMSGHDR_LEN;
        if data_offset >= buf.len() {
            return Err(IoError::Other(OtherError::NeedMoreData));
        }
        if header.nlmsg_type == NLMSG_ERROR {
            if data_offset + NLMSGERR_LEN > buf.len() {
                return Err(IoError::Other(OtherError::ShortErrorPayload));
            }
            let rest: &[u8] = slice_subrange(buf, data_offset + NLMSGERR_LEN, msg_len);
            let error = NlMsgError {
                error: read_i32(buf, data_offset),
                msg: NlMsgHeader::read(buf, data_offset + 4),
            };
            Ok(NetlinkMessage { header, data: slice_to_vec(rest), error: Some(error) })
        } else {
            let rest: &[u8] = slice_subrange(buf, data_offset, msg_len);
            Ok(NetlinkMessage { header, data: slice_to_vec(rest), error: None })
        }
    }
}

} // verus!
