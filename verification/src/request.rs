//! The fixed parts of requests.
use vstd::prelude::*;

use crate::message::NlMsgHeader;
use crate::native::{push_bytes, push_i32, push_u16, push_u32, read_i32, read_u32};
use crate::uapi::{NLMSGHDR_LEN, TCMSG_LEN};
use crate::native;

verus! {

/// What a link request says of the link.
#[derive(Clone, Copy, Debug, PartialEq, Eq, Structural)]
pub struct IfInfoMsg {
    pub ifi_family: u8,
    pub ifi_type: u16,
    pub ifi_index: i32,
    pub ifi_flags: u32,
    /// Which of the flags to change.
    pub ifi_change: u32,
}

impl IfInfoMsg {
    /// The bytes of the link information.
    pub open spec fn bytes(self) -> Seq<u8> {
        seq![self.ifi_family, 0u8] + native::u16_bytes(self.ifi_type)
            + native::i32_bytes(self.ifi_index) + native::u32_bytes(self.ifi_flags)
            + native::u32_bytes(self.ifi_change)
    }

    /// Appends the bytes of the link information to `out`.
    pub fn push(&self, out: &mut Vec<u8>)
        ensures
            final(out)@ == old(out)@ + self.bytes(),
    {
        out.push(self.ifi_family);
        out.push(0);
        push_u16(out, self.ifi_type);
        push_i32(out, self.ifi_index);
        push_u32(out, self.ifi_flags);
        push_u32(out, self.ifi_change);
        assert(out@ == old(out)@ + self.bytes());
    }
}

/// What opens a traffic control message.
#[derive(Clone, Copy, Debug, PartialEq, Eq, Structural)]
pub struct TcMsg {
    pub tcm_family: u8,
    pub tcm_ifindex: i32,
    pub tcm_handle: u32,
    pub tcm_parent: u32,
    pub tcm_info: u32,
}

impl TcMsg {
    /// The bytes of the traffic control information.
    pub open spec fn bytes(self) -> Seq<u8> {
        seq![self.tcm_family, 0u8, 0u8, 0u8] + native::i32_bytes(self.tcm_ifindex)
            + native::u32_bytes(self.tcm_handle) + native::u32_bytes(self.tcm_parent)
            + native::u32_bytes(self.tcm_info)
    }

    /// Appends the bytes of the traffic control information to `out`.
    pub fn push(&self, out: &mut Vec<u8>)
        ensures
            final(out)@ == old(out)@ + self.bytes(),
    {
        out.push(self.tcm_family);
        out.push(0);
        out.push(0);
        out.push(0);
        push_i32(out, self.tcm_ifindex);
        push_u32(out, self.tcm_handle);
        push_u32(out, self.tcm_parent);
        push_u32(out, self.tcm_info);
        assert(out@ == old(out)@ + self.bytes());
    }

    /// Reads the traffic control information that `buf` starts with.
    pub fn read(buf: &[u8]) -> (r: Self)
        requires
            TCMSG_LEN <= buf@.len(),
        ensures
            r == tc_msg_of(buf@),
    {
        TcMsg {
            tcm_family: buf[0],
            tcm_ifindex: read_i32(buf, 4),
            tcm_handle: read_u32(buf, 8),
            tcm_parent: read_u32(buf, 12),
            tcm_info: read_u32(buf, 16),
        }
    }
}

/// The traffic control information that `s` starts with.
pub open spec fn tc_msg_of(s: Seq<u8>) -> TcMsg {
    TcMsg {
        tcm_family: s[0],
        tcm_ifindex: native::i32_at(s, 4),
        tcm_handle: native::u32_at(s, 8),
        tcm_parent: native::u32_at(s, 12),
        tcm_info: native::u32_at(s, 16),
    }
}

/// A message to the kernel: its header, then `info`, then `attrs`.
pub open spec fn request_message(
    nlmsg_type: u16,
    nlmsg_flags: u16,
    info: Seq<u8>,
    attrs: Seq<u8>,
) -> Seq<u8> {
    let header = NlMsgHeader {
        nlmsg_len: (NLMSGHDR_LEN + info.len() + attrs.len()) as u32,
        nlmsg_type,
        nlmsg_flags,
        nlmsg_seq: 1,
        nlmsg_pid: 0,
    };
    header.bytes() + info + attrs
}

/// A link request that is being put together.
pub struct Request {
    pub header: NlMsgHeader,
    pub if_info: IfInfoMsg,
    /// Room for attributes.
    pub attrs: [u8; 64],
}

impl Request {
    /// The bytes of the whole request, with all the room for attributes.
    pub open spec fn bytes(self) -> Seq<u8> {
        self.header.bytes() + self.if_info.bytes() + self.attrs@
    }

    /// The bytes of the whole request, with all the room for attributes.
    pub fn bytes_of(&self) -> (r: Vec<u8>)
        ensures
            r@ == self.bytes(),
    {
        let mut out: Vec<u8> = Vec::new();
        self.header.push(&mut out);
        self.if_info.push(&mut out);
        push_bytes(&mut out, self.attrs.as_slice());
        assert(out@ == self.bytes());
        out
    }

    /// The bytes to send: as many as the header says.
    pub fn message(&self) -> (r: Vec<u8>)
        requires
            self.header.nlmsg_len <= self.bytes().len(),
        ensures
            r@ == self.bytes().take(self.header.nlmsg_len as int),
    {
        let mut out: Vec<u8> = self.bytes_of();
        out.truncate(self.header.nlmsg_len as usize);
        out
    }
}

/// A traffic control request that is being put together.
pub struct TcRequest {
    pub header: NlMsgHeader,
    pub tc_info: TcMsg,
    /// Room for attributes: the next power of two that holds a classifier's name, of which the kernel
    /// keeps up to 256 bytes, and the attributes around it.
    pub attrs: [u8; 512],
}

impl TcRequest {
    /// The bytes of the whole request, with all the room for attributes.
    pub open spec fn bytes(self) -> Seq<u8> {
        self.header.bytes() + self.tc_info.bytes() + self.attrs@
    }

    /// The bytes of the whole request, with all the room for attributes.
    pub fn bytes_of(&self) -> (r: Vec<u8>)
        ensures
            r@ == self.bytes(),
    {
        let mut out: Vec<u8> = Vec::new();
        self.header.push(&mut out);
        self.tc_info.push(&mut out);
        push_bytes(&mut out, self.attrs.as_slice());
        assert(out@ == self.bytes());
        out
    }

    /// The bytes to send: as many as the header says.
    pub fn message(&self) -> (r: Vec<u8>)
        requires
            self.header.nlmsg_len <= self.bytes().len(),
        ensures
            r@ == self.bytes().take(self.header.nlmsg_len as int),
    {
        let mut out: Vec<u8> = self.bytes_of();
        out.truncate(self.header.nlmsg_len as usize);
        out
    }
}

/// A request whose attributes take up the front of their room is sent without the rest of it.
pub proof fn lemma_message_ends_with_attrs(
    header: NlMsgHeader,
    info: Seq<u8>,
    attrs: Seq<u8>,
    blank: Seq<u8>,
)
    requires
        header.nlmsg_len == NLMSGHDR_LEN + info.len() + attrs.len(),
        header.nlmsg_seq == 1,
        header.nlmsg_pid == 0,
    ensures
        (header.bytes() + info + (attrs + blank)).take(header.nlmsg_len as int) == request_message(
            header.nlmsg_type,
            header.nlmsg_flags,
            info,
            attrs,
        ),
{
    assert(header.bytes().len() == NLMSGHDR_LEN);
    assert((header.bytes() + info + (attrs + blank)).take(header.nlmsg_len as int) =~=
        header.bytes() + info + attrs);
}

} // verus!
