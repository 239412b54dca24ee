//! Requests that change a network link.
use vstd::prelude::*;

use crate::align::align_to_4;
use crate::attr::NestedAttrs;
use crate::error::{NetlinkError, NetlinkErrorInternal};
use crate::laws::links;
use crate::message::NlMsgHeader;
use crate::request::{IfInfoMsg, Request};
use crate::uapi::{
    AF_UNSPEC, IFF_UP, IFINFOMSG_LEN, IFLA_XDP, IFLA_XDP_EXPECTED_FD, IFLA_XDP_FD, IFLA_XDP_FLAGS,
    NLMSGHDR_LEN, NLM_F_ACK, NLM_F_REQUEST, RTM_SETLINK, XDP_FLAGS_REPLACE,
};
use crate::{encode, native, request};

verus! {

/// The link information that names the link `if_index` and changes none of its flags.
pub open spec fn link_named(if_index: i32) -> IfInfoMsg {
    IfInfoMsg {
        ifi_family: AF_UNSPEC,
        ifi_type: 0,
        ifi_index: if_index,
        ifi_flags: 0,
        ifi_change: 0,
    }
}

/// Whether the flags ask to replace a program: their fifth bit is set.
pub open spec fn replaces(flags: u32) -> bool {
    flags / XDP_FLAGS_REPLACE % 2 == 1
}

/// What is asked of the XDP program of a link: the program to attach, or -1 for none; the flags, if
/// any is set; and the program to replace, if the flags ask for that.
pub open spec fn xdp_attrs(fd: Option<i32>, old_fd: Option<i32>, flags: u32) -> Seq<
    (u16, Seq<u8>),
> {
    let fd = match fd {
        Some(fd) => fd,
        None => -1i32,
    };
    let attach = seq![(IFLA_XDP_FD, native::i32_bytes(fd))];
    let attach = if flags > 0 {
        attach.push((IFLA_XDP_FLAGS, native::u32_bytes(flags)))
    } else {
        attach
    };
    if replaces(flags) {
        attach.push((IFLA_XDP_EXPECTED_FD, native::i32_bytes(old_fd->0)))
    } else {
        attach
    }
}

/// The bytes of the request to attach an XDP program to a link, or to detach its program.
pub open spec fn xdp_message(
    if_index: i32,
    fd: Option<i32>,
    old_fd: Option<i32>,
    flags: u32,
) -> Seq<u8> {
    request::request_message(
        RTM_SETLINK,
        NLM_F_REQUEST | NLM_F_ACK,
        link_named(if_index).bytes(),
        encode::encode_nested(IFLA_XDP, xdp_attrs(fd, old_fd, flags)),
    )
}

/// The request to attach the XDP program `fd` to the link `if_index`, or to detach its program
/// where there is no `fd`. To replace a program, `flags` say so and `old_fd` is that program.
#[verifier::rlimit(40)]
pub fn netlink_set_xdp_fd_request(
    if_index: i32,
    fd: Option<i32>,
    old_fd: Option<i32>,
    flags: u32,
) -> (r: Result<Vec<u8>, NetlinkError>)
    requires
        replaces(flags) ==> old_fd is Some,
    ensures
        r matches Ok(message) && message@ == xdp_message(if_index, fd, old_fd, flags),
        r matches Ok(message) && native::i32_at(message@, 20) == if_index && native::u32_at(
            message@,
            24,
        ) == 0 && native::u32_at(message@, 28) == 0,
{
    let nlmsg_len: usize = NLMSGHDR_LEN + IFINFOMSG_LEN;
    let mut req = Request {
        header: NlMsgHeader {
            nlmsg_len: nlmsg_len as u32,
            nlmsg_type: RTM_SETLINK,
            nlmsg_flags: NLM_F_REQUEST | NLM_F_ACK,
            nlmsg_seq: 1,
            nlmsg_pid: 0,
        },
        if_info: IfInfoMsg {
            ifi_family: AF_UNSPEC,
            ifi_type: 0,
            ifi_index: if_index,
            ifi_flags: 0,
            ifi_change: 0,
        },
        attrs: [0; 64],
    };
    let ghost mut list: Seq<(u16, Seq<u8>)> = Seq::empty();
    assert(req.attrs@ == encode::zeros(64));
    proof {
        encode::lemma_list_starts(req.attrs@);
    }
    let mut attrs = NestedAttrs::new(&mut req.attrs, IFLA_XDP);

    let new_fd: i32 = match fd {
        Some(fd) => fd,
        None => -1,
    };
    proof {
        encode::lemma_list_grows(
            attrs.buf@,
            attrs.offset as int,
            list,
            IFLA_XDP_FD,
            native::i32_bytes(new_fd),
        );
        list = list.push((IFLA_XDP_FD, native::i32_bytes(new_fd)));
    }
    match attrs.write_attr(IFLA_XDP_FD, new_fd) {
        Ok(_) => {},
        Err(e) => return Err(NetlinkError(NetlinkErrorInternal::IoError(e))),
    }

    if flags > 0 {
        proof {
            encode::lemma_list_grows(
                attrs.buf@,
                attrs.offset as int,
                list,
                IFLA_XDP_FLAGS,
                native::u32_bytes(flags),
            );
            list = list.push((IFLA_XDP_FLAGS, native::u32_bytes(flags)));
        }
        match attrs.write_attr(IFLA_XDP_FLAGS, flags) {
            Ok(_) => {},
            Err(e) => return Err(NetlinkError(NetlinkErrorInternal::IoError(e))),
        }
    }
    assert(flags & 16 != 0 <==> flags / 16 % 2 == 1) by (bit_vector);
    if flags & XDP_FLAGS_REPLACE != 0 {
        let expected: i32 = old_fd.unwrap();
        proof {
            encode::lemma_list_grows(
                attrs.buf@,
                attrs.offset as int,
                list,
                IFLA_XDP_EXPECTED_FD,
                native::i32_bytes(expected),
            );
            list = list.push((IFLA_XDP_EXPECTED_FD, native::i32_bytes(expected)));
        }
        match attrs.write_attr(IFLA_XDP_EXPECTED_FD, expected) {
            Ok(_) => {},
            Err(e) => return Err(NetlinkError(NetlinkErrorInternal::IoError(e))),
        }
    }
    proof {
        assert(list =~= xdp_attrs(fd, old_fd, flags));
        encode::lemma_list_closes(attrs.buf@, attrs.offset as int, list, IFLA_XDP);
    }
    let nla_len: usize = match attrs.finish() {
        Ok(nla_len) => nla_len,
        Err(e) => return Err(NetlinkError(NetlinkErrorInternal::IoError(e))),
    };
    req.header.nlmsg_len = req.header.nlmsg_len + align_to_4(nla_len) as u32;
    proof {
        request::lemma_message_ends_with_attrs(
            req.header,
            req.if_info.bytes(),
            encode::encode_nested(IFLA_XDP, list),
            encode::zeros(64 - nla_len),
        );
        let sent = xdp_message(if_index, fd, old_fd, flags);
        assert(native::i32_at(sent, 20) == if_index && native::u32_at(sent, 24) == 0
            && native::u32_at(sent, 28) == 0) by {
            links::law_xdp_request(if_index, fd, old_fd, flags);
        }
    }
    Ok(req.message())
}

/// The bytes of the request to bring a link up.
pub open spec fn link_up_message(if_index: i32) -> Seq<u8> {
    request::request_message(
        RTM_SETLINK,
        NLM_F_REQUEST | NLM_F_ACK,
        (IfInfoMsg { ifi_flags: IFF_UP, ifi_change: IFF_UP, ..link_named(if_index) }).bytes(),
        Seq::empty(),
    )
}

/// The request to bring the link `if_index` up.
pub fn netlink_set_link_up_request(if_index: i32) -> (r: Vec<u8>)
    ensures
        r@ == link_up_message(if_index),
        r@.len() == 32,
        native::i32_at(r@, 20) == if_index,
        native::u32_at(r@, 24) == IFF_UP,
        native::u32_at(r@, 28) == IFF_UP,
{
    let nlmsg_len: usize = NLMSGHDR_LEN + IFINFOMSG_LEN;
    let req = Request {
        header: NlMsgHeader {
            nlmsg_len: nlmsg_len as u32,
            nlmsg_type: RTM_SETLINK,
            nlmsg_flags: NLM_F_REQUEST | NLM_F_ACK,
            nlmsg_seq: 1,
            nlmsg_pid: 0,
        },
        if_info: IfInfoMsg {
            ifi_family: AF_UNSPEC,
            ifi_type: 0,
            ifi_index: if_index,
            ifi_flags: IFF_UP,
            ifi_change: IFF_UP,
        },
        attrs: [0; 64],
    };
    proof {
        request::lemma_message_ends_with_attrs(
            req.header,
            req.if_info.bytes(),
            Seq::empty(),
            req.attrs@,
        );
        assert(Seq::<u8>::empty() + req.attrs@ == req.attrs@);
        links::law_link_up_request(if_index);
    }
    req.message()
}

} // verus!
