//! Requests for traffic control: the `clsact` queueing discipline and the BPF filters under it.
use vstd::prelude::*;

use crate::align::align_to_4;
use crate::attr::{write_attr_bytes, NestedAttrs};
use crate::error::{IoError, NetlinkError, NetlinkErrorInternal, NetlinkErrorView, OtherError};
use crate::laws::requests;
use crate::message::NlMsgHeader;
use crate::native::htons;
use crate::request::{TcMsg, TcRequest};
use crate::uapi::{
    AF_UNSPEC, ETH_P_ALL, NLMSGHDR_LEN, NLM_F_ACK, NLM_F_CREATE, NLM_F_DUMP, NLM_F_ECHO,
    NLM_F_EXCL, NLM_F_REQUEST, RTM_DELTFILTER, RTM_GETQDISC, RTM_GETTFILTER, RTM_NEWQDISC,
    RTM_NEWTFILTER, TCA_BPF_FD, TCA_BPF_FLAGS, TCA_BPF_FLAG_ACT_DIRECT, TCA_BPF_NAME, TCA_KIND,
    TCA_OPTIONS, TCMSG_LEN, TC_H_CLSACT, TC_H_INGRESS, TC_H_MAJ_MASK, TC_H_MIN_EGRESS,
    TC_H_MIN_INGRESS, TC_H_MIN_MASK, TC_H_UNSPEC,
};
use crate::{align, encode, native, request};

verus! {

/// The handle with the major number of `major`, its upper half, and the minor number of `minor`, its
/// lower half.
pub open spec fn handle_of(major: u32, minor: u32) -> u32 {
    (major / 0x1_0000 * 0x1_0000 + minor % 0x1_0000) as u32
}

/// The handle with the major number of `major` and the minor number of `minor`.
pub fn tc_handler_make(major: u32, minor: u32) -> (r: u32)
    ensures
        r == handle_of(major, minor),
{
    assert((major & 0xffff_0000u32) | (minor & 0xffffu32) == major / 0x1_0000 * 0x1_0000 + minor
        % 0x1_0000) by (bit_vector);
    (major & TC_H_MAJ_MASK) | (minor & TC_H_MIN_MASK)
}

/// Where a filter is attached.
#[derive(Clone, Copy, Debug, PartialEq, Eq, Structural)]
pub enum TcAttachType {
    /// To what comes in.
    Ingress,
    /// To what goes out.
    Egress,
    /// To this parent.
    Custom(u32),
}

impl TcAttachType {
    /// The parent of a filter that is attached here.
    pub open spec fn parent(self) -> u32 {
        match self {
            TcAttachType::Custom(parent) => parent,
            TcAttachType::Ingress => handle_of(TC_H_CLSACT, TC_H_MIN_INGRESS),
            TcAttachType::Egress => handle_of(TC_H_CLSACT, TC_H_MIN_EGRESS),
        }
    }

    /// The parent of a filter that is attached here.
    pub fn tc_parent(&self) -> (r: u32)
        ensures
            r == self.parent(),
    {
        match self {
            TcAttachType::Custom(parent) => *parent,
            TcAttachType::Ingress => tc_handler_make(TC_H_CLSACT, TC_H_MIN_INGRESS),
            TcAttachType::Egress => tc_handler_make(TC_H_CLSACT, TC_H_MIN_EGRESS),
        }
    }
}

/// `clsact` in ASCII and a zero byte: the name of the queueing discipline.
pub open spec fn clsact() -> Seq<u8> {
    seq![0x63u8, 0x6cu8, 0x73u8, 0x61u8, 0x63u8, 0x74u8, 0u8]
}

/// `bpf` in ASCII and a zero byte: the name of the classifier.
pub open spec fn bpf() -> Seq<u8> {
    seq![0x62u8, 0x70u8, 0x66u8, 0u8]
}

/// What a filter of this priority, for every protocol, has for its information: the priority in the
/// upper half, and the protocol in network order in the lower.
pub open spec fn filter_info(priority: u16) -> u32 {
    (priority * 0x1_0000 + native::network_order(ETH_P_ALL)) as u32
}

/// What a filter of this priority, for every protocol, has for its information.
fn make_filter_info(priority: u16) -> (r: u32)
    ensures
        r == filter_info(priority),
{
    let major: u32 = (priority as u32) << 16;
    assert((priority as u32) << 16 == priority * 0x1_0000) by (bit_vector);
    tc_handler_make(major, htons(ETH_P_ALL) as u32)
}

/// The information that names a filter.
pub open spec fn filter_named(if_index: i32, parent: u32, priority: u16, handle: u32) -> TcMsg {
    TcMsg {
        tcm_family: AF_UNSPEC,
        tcm_ifindex: if_index,
        tcm_handle: handle,
        tcm_parent: parent,
        tcm_info: filter_info(priority),
    }
}

/// The options of a BPF filter: its program, its name, and that the program's verdict is final.
pub open spec fn bpf_options(prog_fd: i32, prog_name: Seq<u8>) -> Seq<(u16, Seq<u8>)> {
    seq![
        (TCA_BPF_FD, native::i32_bytes(prog_fd)),
        (TCA_BPF_NAME, prog_name),
        (TCA_BPF_FLAGS, native::u32_bytes(TCA_BPF_FLAG_ACT_DIRECT)),
    ]
}

/// The attributes of the request to attach a BPF filter.
pub open spec fn attach_attrs(prog_fd: i32, prog_name: Seq<u8>) -> Seq<u8> {
    encode::encode_attr(TCA_KIND, bpf()) + encode::encode_nested(
        TCA_OPTIONS,
        bpf_options(prog_fd, prog_name),
    )
}

/// Whether a request has room for a filter of this name.
pub open spec fn name_fits(prog_name: Seq<u8>) -> bool {
    align::align_up(prog_name.len() as int, 4) <= 480
}

/// The flags of the request to attach a filter. A new filter must not be there yet; to replace one,
/// neither flag is set.
pub open spec fn attach_flags(create: bool) -> u16 {
    NLM_F_REQUEST | NLM_F_ACK | NLM_F_ECHO | (if create {
        NLM_F_CREATE | NLM_F_EXCL
    } else {
        0
    })
}

/// An empty request of this kind.
fn blank_request(nlmsg_type: u16, nlmsg_flags: u16, tc_info: TcMsg) -> (r: TcRequest)
    ensures
        r.header == (NlMsgHeader {
            nlmsg_len: 36,
            nlmsg_type,
            nlmsg_flags,
            nlmsg_seq: 1,
            nlmsg_pid: 0,
        }),
        r.tc_info == tc_info,
        r.attrs@ == encode::zeros(512),
{
    let nlmsg_len: usize = NLMSGHDR_LEN + TCMSG_LEN;
    let r = TcRequest {
        header: NlMsgHeader {
            nlmsg_len: nlmsg_len as u32,
            nlmsg_type,
            nlmsg_flags,
            nlmsg_seq: 1,
            nlmsg_pid: 0,
        },
        tc_info,
        attrs: [0; 512],
    };
    assert(r.attrs@ == encode::zeros(512));
    r
}

/// The bytes of a request that has no attributes.
fn bare_message(req: &TcRequest) -> (r: Vec<u8>)
    requires
        req.header.nlmsg_len == 36,
        req.header.nlmsg_seq == 1,
        req.header.nlmsg_pid == 0,
    ensures
        r@ == request::request_message(
            req.header.nlmsg_type,
            req.header.nlmsg_flags,
            req.tc_info.bytes(),
            Seq::empty(),
        ),
{
    proof {
        request::lemma_message_ends_with_attrs(
            req.header,
            req.tc_info.bytes(),
            Seq::empty(),
            req.attrs@,
        );
        assert(Seq::<u8>::empty() + req.attrs@ == req.attrs@);
    }
    req.message()
}

/// The bytes of the request for a list of all queueing disciplines.
pub open spec fn list_qdiscs_message() -> Seq<u8> {
    request::request_message(
        RTM_GETQDISC,
        NLM_F_REQUEST | NLM_F_ACK | NLM_F_DUMP,
        (TcMsg {
            tcm_family: AF_UNSPEC,
            tcm_ifindex: 0,
            tcm_handle: 0,
            tcm_parent: 0,
            tcm_info: 0,
        }).bytes(),
        Seq::empty(),
    )
}

/// The request for a list of all queueing disciplines.
pub fn netlink_clsact_qdisc_exists_request() -> (r: Vec<u8>)
    ensures
        r@ == list_qdiscs_message(),
{
    let req = blank_request(
        RTM_GETQDISC,
        NLM_F_REQUEST | NLM_F_ACK | NLM_F_DUMP,
        TcMsg {
            tcm_family: AF_UNSPEC,
            tcm_ifindex: 0,
            tcm_handle: 0,
            tcm_parent: 0,
            tcm_info: 0,
        },
    );
    bare_message(&req)
}

/// The bytes of the request to add the `clsact` queueing discipline to a link.
pub open spec fn add_clsact_message(if_index: i32) -> Seq<u8> {
    request::request_message(
        RTM_NEWQDISC,
        NLM_F_REQUEST | NLM_F_ACK | NLM_F_EXCL | NLM_F_CREATE,
        (TcMsg {
            tcm_family: AF_UNSPEC,
            tcm_ifindex: if_index,
            tcm_handle: handle_of(TC_H_CLSACT, TC_H_UNSPEC),
            tcm_parent: handle_of(TC_H_CLSACT, TC_H_INGRESS),
            tcm_info: 0,
        }).bytes(),
        encode::encode_attr(TCA_KIND, clsact()),
    )
}

/// The request to add the `clsact` queueing discipline to the link `if_index`.
pub fn netlink_qdisc_add_clsact_request(if_index: i32) -> (r: Result<Vec<u8>, NetlinkError>)
    ensures
        r matches Ok(message) && message@ == add_clsact_message(if_index),
        r matches Ok(message) && native::i32_at(message@, 20) == if_index,
{
    let mut req = blank_request(
        RTM_NEWQDISC,
        NLM_F_REQUEST | NLM_F_ACK | NLM_F_EXCL | NLM_F_CREATE,
        TcMsg {
            tcm_family: AF_UNSPEC,
            tcm_ifindex: if_index,
            tcm_handle: tc_handler_make(TC_H_CLSACT, TC_H_UNSPEC),
            tcm_parent: tc_handler_make(TC_H_CLSACT, TC_H_INGRESS),
            tcm_info: 0,
        },
    );
    let kind: [u8; 7] = [0x63u8, 0x6cu8, 0x73u8, 0x61u8, 0x63u8, 0x74u8, 0u8];
    assert(kind@ == clsact());
    proof {
        assert(req.attrs@ == Seq::<u8>::empty() + encode::zeros(512));
        encode::lemma_write_on_blank(req.attrs@, Seq::empty(), TCA_KIND, clsact());
        encode::lemma_encode_attr_len(TCA_KIND, clsact());
        assert(Seq::<u8>::empty() + encode::encode_attr(TCA_KIND, clsact()) == encode::encode_attr(
            TCA_KIND,
            clsact(),
        ));
    }
    let attr_len: usize = match write_attr_bytes(&mut req.attrs, 0, TCA_KIND, kind.as_slice()) {
        Ok(attr_len) => attr_len,
        Err(e) => return Err(NetlinkError(NetlinkErrorInternal::IoError(e))),
    };
    req.header.nlmsg_len = req.header.nlmsg_len + align_to_4(attr_len) as u32;
    proof {
        request::lemma_message_ends_with_attrs(
            req.header,
            req.tc_info.bytes(),
            encode::encode_attr(TCA_KIND, clsact()),
            encode::zeros(512 - attr_len),
        );
        requests::law_add_clsact_request(if_index);
    }
    Ok(req.message())
}

/// The bytes of the request to attach a BPF program to a link as a filter.
pub open spec fn attach_message(
    if_index: i32,
    attach_type: TcAttachType,
    prog_fd: i32,
    prog_name: Seq<u8>,
    priority: u16,
    handle: u32,
    create: bool,
) -> Seq<u8> {
    request::request_message(
        RTM_NEWTFILTER,
        attach_flags(create),
        filter_named(if_index, attach_type.parent(), priority, handle).bytes(),
        attach_attrs(prog_fd, prog_name),
    )
}

/// The request to attach the BPF program `prog_fd` to the link `if_index` as a filter. `prog_name`
/// is its name, with the zero byte that ends it. A `handle` of 0 leaves the choice to the kernel.
pub fn netlink_qdisc_attach_request(
    if_index: i32,
    attach_type: &TcAttachType,
    prog_fd: i32,
    prog_name: &[u8],
    priority: u16,
    handle: u32,
    create: bool,
) -> (r: Result<Vec<u8>, NetlinkError>)
    requires
        prog_name@.len() <= isize::MAX,
    ensures
        r is Ok <==> name_fits(prog_name@),
        r is Ok <==> prog_name@.len() <= 480,
        match r {
            Ok(message) => message@ == attach_message(
                if_index,
                *attach_type,
                prog_fd,
                prog_name@,
                priority,
                handle,
                create,
            ),
            Err(e) => e@ == NetlinkErrorView::IoError(IoError::Other(OtherError::NoSpaceLeft)),
        },
{
    let request_flags: u16 = if create {
        NLM_F_CREATE | NLM_F_EXCL
    } else {
        0
    };
    let mut req = blank_request(
        RTM_NEWTFILTER,
        NLM_F_REQUEST | NLM_F_ACK | NLM_F_ECHO | request_flags,
        TcMsg {
            tcm_family: AF_UNSPEC,
            tcm_ifindex: if_index,
            tcm_handle: handle,
            tcm_parent: attach_type.tc_parent(),
            tcm_info: make_filter_info(priority),
        },
    );

    let kind: [u8; 4] = [0x62u8, 0x70u8, 0x66u8, 0u8];
    assert(kind@ == bpf());
    proof {
        assert(req.attrs@ == Seq::<u8>::empty() + encode::zeros(512));
        encode::lemma_write_on_blank(req.attrs@, Seq::empty(), TCA_KIND, bpf());
        encode::lemma_encode_attr_len(TCA_KIND, bpf());
        assert(Seq::<u8>::empty() + encode::encode_attr(TCA_KIND, bpf()) == encode::encode_attr(
            TCA_KIND,
            bpf(),
        ));
    }
    let kind_len: usize = match write_attr_bytes(&mut req.attrs, 0, TCA_KIND, kind.as_slice()) {
        Ok(kind_len) => kind_len,
        Err(e) => return Err(NetlinkError(NetlinkErrorInternal::IoError(e))),
    };
    let ghost kind_bytes = encode::encode_attr(TCA_KIND, bpf());
    let ghost name = prog_name@;
    proof {
        requests::law_names_fit_up_to_480_bytes(name);
    }

    let attrs: &mut [u8] = &mut req.attrs;
    let (front, rest) = attrs.split_at_mut(kind_len);
    proof {
        assert(front@ == kind_bytes);
        assert(rest@ == encode::zeros(504));
    }
    let options_len: usize = match write_options(rest, prog_fd, prog_name) {
        Ok(options_len) => options_len,
        Err(e) => return Err(NetlinkError(NetlinkErrorInternal::IoError(e))),
    };
    req.header.nlmsg_len = req.header.nlmsg_len + align_to_4(kind_len + options_len) as u32;
    proof {
        let nested = encode::encode_nested(TCA_OPTIONS, bpf_options(prog_fd, name));
        let blank = encode::zeros(504 - options_len);
        assert(req.attrs@ == (kind_bytes + nested) + blank);
        request::lemma_message_ends_with_attrs(
            req.header,
            req.tc_info.bytes(),
            attach_attrs(prog_fd, name),
            blank,
        );
    }
    Ok(req.message())
}

/// Writes the options of a BPF filter into `buf`, which is blank, and returns their length.
fn write_options(buf: &mut [u8], prog_fd: i32, prog_name: &[u8]) -> (r: Result<usize, IoError>)
    requires
        old(buf)@ == encode::zeros(504),
        prog_name@.len() <= isize::MAX,
    ensures
        final(buf)@.len() == 504,
        r is Ok <==> name_fits(prog_name@),
        match r {
            Ok(len) => {
                let nested = encode::encode_nested(TCA_OPTIONS, bpf_options(prog_fd, prog_name@));
                &&& len == nested.len() == 24 + align::align_up(prog_name@.len() as int, 4)
                &&& final(buf)@ == nested + encode::zeros(504 - len)
            },
            Err(e) => e == IoError::Other(OtherError::NoSpaceLeft),
        },
{
    let ghost mut list: Seq<(u16, Seq<u8>)> = Seq::empty();
    proof {
        encode::lemma_list_starts(buf@);
        align::lemma_align_up_4(prog_name@.len() as int);
    }
    let mut options = NestedAttrs::new(buf, TCA_OPTIONS);
    proof {
        encode::lemma_list_grows(
            options.buf@,
            options.offset as int,
            list,
            TCA_BPF_FD,
            native::i32_bytes(prog_fd),
        );
        list = list.push((TCA_BPF_FD, native::i32_bytes(prog_fd)));
    }
    match options.write_attr(TCA_BPF_FD, prog_fd) {
        Ok(_) => {},
        Err(e) => return Err(e),
    }
    proof {
        if options.offset + 4 + align::align_up(prog_name@.len() as int, 4) <= 504 {
            encode::lemma_list_grows(
                options.buf@,
                options.offset as int,
                list,
                TCA_BPF_NAME,
                prog_name@,
            );
        }
        list = list.push((TCA_BPF_NAME, prog_name@));
    }
    match options.write_attr_bytes(TCA_BPF_NAME, prog_name) {
        Ok(_) => {},
        Err(e) => return Err(e),
    }
    let flags: u32 = TCA_BPF_FLAG_ACT_DIRECT;
    proof {
        if options.offset + 8 <= 504 {
            encode::lemma_list_grows(
                options.buf@,
                options.offset as int,
                list,
                TCA_BPF_FLAGS,
                native::u32_bytes(flags),
            );
        }
        list = list.push((TCA_BPF_FLAGS, native::u32_bytes(flags)));
    }
    match options.write_attr(TCA_BPF_FLAGS, flags) {
        Ok(_) => {},
        Err(e) => return Err(e),
    }
    proof {
        assert(list =~= bpf_options(prog_fd, prog_name@));
        encode::lemma_list_closes(options.buf@, options.offset as int, list, TCA_OPTIONS);
    }
    options.finish()
}

/// The bytes of the request to detach a filter.
pub open spec fn detach_message(
    if_index: i32,
    attach_type: TcAttachType,
    priority: u16,
    handle: u32,
) -> Seq<u8> {
    request::request_message(
        RTM_DELTFILTER,
        NLM_F_REQUEST | NLM_F_ACK,
        filter_named(if_index, attach_type.parent(), priority, handle).bytes(),
        Seq::empty(),
    )
}

/// The request to detach a filter.
pub fn netlink_qdisc_detach_request(
    if_index: i32,
    attach_type: &TcAttachType,
    priority: u16,
    handle: u32,
) -> (r: Vec<u8>)
    ensures
        r@ == detach_message(if_index, *attach_type, priority, handle),
        native::i32_at(r@, 20) == if_index,
        native::u32_at(r@, 24) == handle,
        native::u32_at(r@, 28) == attach_type.parent(),
        native::u32_at(r@, 32) / 0x1_0000 == priority,
{
    proof {
        requests::law_detach_request(if_index, *attach_type, priority, handle);
    }
    let req = blank_request(
        RTM_DELTFILTER,
        NLM_F_REQUEST | NLM_F_ACK,
        TcMsg {
            tcm_family: AF_UNSPEC,
            tcm_ifindex: if_index,
            tcm_handle: handle,
            tcm_parent: attach_type.tc_parent(),
            tcm_info: make_filter_info(priority),
        },
    );
    bare_message(&req)
}

/// The bytes of the request for a list of the filters that are attached to a link at one place.
pub open spec fn list_filters_message(if_index: i32, attach_type: TcAttachType) -> Seq<u8> {
    request::request_message(
        RTM_GETTFILTER,
        NLM_F_REQUEST | NLM_F_DUMP,
        (TcMsg {
            tcm_family: AF_UNSPEC,
            tcm_ifindex: if_index,
            tcm_handle: 0,
            tcm_parent: attach_type.parent(),
            tcm_info: 0,
        }).bytes(),
        Seq::empty(),
    )
}

/// The request for a list of the filters that are attached to the link `if_index` here.
pub fn netlink_find_filter_with_name_request(if_index: i32, attach_type: &TcAttachType) -> (r: Vec<
    u8,
>)
    ensures
        r@ == list_filters_message(if_index, *attach_type),
        native::i32_at(r@, 20) == if_index,
        native::u32_at(r@, 28) == attach_type.parent(),
{
    proof {
        requests::law_list_filters_request(if_index, *attach_type);
    }
    let req = blank_request(
        RTM_GETTFILTER,
        NLM_F_REQUEST | NLM_F_DUMP,
        TcMsg {
            tcm_family: AF_UNSPEC,
            tcm_ifindex: if_index,
            tcm_handle: 0,
            tcm_parent: attach_type.tc_parent(),
            tcm_info: 0,
        },
    );
    bare_message(&req)
}

} // verus!
