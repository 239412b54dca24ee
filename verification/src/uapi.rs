//! Numbers of the kernel's netlink, rtnetlink, traffic control and XDP interfaces.
use vstd::prelude::*;

verus! {

/// Alignment of attributes within a message, and of messages within a datagram.
pub const NLA_ALIGNTO: usize = 4;

/// Size of an attribute header, rounded up to [`NLA_ALIGNTO`].
pub const NLA_HDR_LEN: usize = 4;

/// Size of a message header.
pub const NLMSGHDR_LEN: usize = 16;

/// Size of the payload that opens an error message.
pub const NLMSGERR_LEN: usize = 20;

/// Size of the link information of a link request.
pub const IFINFOMSG_LEN: usize = 16;

/// Size of the traffic control information of a traffic control message.
pub const TCMSG_LEN: usize = 20;

pub const NLMSG_ERROR: u16 = 2;

pub const NLMSG_DONE: u16 = 3;

pub const NLM_F_REQUEST: u16 = 0x1;

pub const NLM_F_MULTI: u16 = 0x2;

pub const NLM_F_ACK: u16 = 0x4;

pub const NLM_F_ECHO: u16 = 0x8;

pub const NLM_F_EXCL: u16 = 0x200;

pub const NLM_F_DUMP: u16 = 0x300;

pub const NLM_F_CREATE: u16 = 0x400;

/// Marks an attribute whose payload is a list of attributes.
pub const NLA_F_NESTED: u16 = 0x8000;

/// Selects the type of an attribute, without the two flag bits above it.
pub const NLA_TYPE_MASK: u16 = 0x3fff;

/// The text of an error, among the attributes of an error message.
pub const NLMSGERR_ATTR_MSG: u16 = 1;

pub const RTM_SETLINK: u16 = 19;

pub const RTM_NEWQDISC: u16 = 36;

pub const RTM_GETQDISC: u16 = 38;

pub const RTM_NEWTFILTER: u16 = 44;

pub const RTM_DELTFILTER: u16 = 45;

pub const RTM_GETTFILTER: u16 = 46;

pub const AF_UNSPEC: u8 = 0;

pub const IFF_UP: u32 = 1;

/// Ethernet protocol number that stands for every protocol.
pub const ETH_P_ALL: u16 = 3;

pub const IFLA_XDP: u16 = 43;

pub const IFLA_XDP_FD: u16 = 1;

pub const IFLA_XDP_FLAGS: u16 = 3;

pub const IFLA_XDP_EXPECTED_FD: u16 = 8;

pub const XDP_FLAGS_REPLACE: u32 = 16;

pub const TCA_KIND: u16 = 1;

pub const TCA_OPTIONS: u16 = 2;

pub const TCA_BPF_FD: u16 = 6;

pub const TCA_BPF_NAME: u16 = 7;

pub const TCA_BPF_FLAGS: u16 = 8;

pub const TCA_BPF_FLAG_ACT_DIRECT: u32 = 1;

pub const TC_H_MAJ_MASK: u32 = 0xffff_0000;

pub const TC_H_MIN_MASK: u32 = 0x0000_ffff;

pub const TC_H_UNSPEC: u32 = 0;

pub const TC_H_INGRESS: u32 = 0xffff_fff1;

pub const TC_H_CLSACT: u32 = 0xffff_fff1;

pub const TC_H_MIN_INGRESS: u32 = 0xfff2;

pub const TC_H_MIN_EGRESS: u32 = 0xfff3;

} // verus!
