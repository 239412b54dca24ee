use netlink::error::{IoError, NetlinkErrorInternal, OtherError};
use netlink::link::{netlink_set_link_up_request, netlink_set_xdp_fd_request};
use netlink::message::NetlinkMessage;
use netlink::parse::parse_attrs;
use netlink::tc::{
    netlink_clsact_qdisc_exists_request, netlink_find_filter_with_name_request,
    netlink_qdisc_add_clsact_request, netlink_qdisc_attach_request, netlink_qdisc_detach_request,
    tc_handler_make, TcAttachType,
};
use netlink::tc_reply::netlink_qdisc_attach_reply;

struct Bytes(Vec<u8>);

impl Bytes {
    fn header(len: u32, nlmsg_type: u16, flags: u16) -> Self {
        Bytes(vec![]).n32(len).n16(nlmsg_type).n16(flags).n32(1).n32(0)
    }

    fn n16(mut self, v: u16) -> Self {
        self.0.extend(v.to_ne_bytes());
        self
    }

    fn n32(mut self, v: u32) -> Self {
        self.0.extend(v.to_ne_bytes());
        self
    }

    fn s32(mut self, v: i32) -> Self {
        self.0.extend(v.to_ne_bytes());
        self
    }

    fn raw(mut self, v: &[u8]) -> Self {
        self.0.extend(v);
        self
    }
}

/// Priority 7, and the number of all protocols in network order.
fn info_of_priority_7() -> u32 {
    0x0007_0000 | u32::from(3u16.to_be())
}

#[test]
fn link_up_request() {
    let expected = Bytes::header(32, 19, 0x5).n32(0).s32(4).n32(1).n32(1);
    assert_eq!(netlink_set_link_up_request(4), expected.0);
}

#[test]
fn xdp_request_to_detach() {
    let expected = Bytes::header(44, 19, 0x5)
        .n32(0)
        .s32(4)
        .n32(0)
        .n32(0)
        .n16(12)
        .n16(0x8000 | 43)
        .n16(8)
        .n16(1)
        .s32(-1);
    assert_eq!(netlink_set_xdp_fd_request(4, None, None, 0).unwrap(), expected.0);
}

#[test]
fn xdp_request_with_flags() {
    let expected = Bytes::header(52, 19, 0x5)
        .n32(0)
        .s32(4)
        .n32(0)
        .n32(0)
        .n16(20)
        .n16(0x8000 | 43)
        .n16(8)
        .n16(1)
        .s32(9)
        .n16(8)
        .n16(3)
        .n32(2);
    assert_eq!(netlink_set_xdp_fd_request(4, Some(9), Some(8), 2).unwrap(), expected.0);
}

#[test]
fn xdp_request_to_replace() {
    let expected = Bytes::header(60, 19, 0x5)
        .n32(0)
        .s32(4)
        .n32(0)
        .n32(0)
        .n16(28)
        .n16(0x8000 | 43)
        .n16(8)
        .n16(1)
        .s32(9)
        .n16(8)
        .n16(3)
        .n32(16)
        .n16(8)
        .n16(8)
        .s32(8);
    let message = netlink_set_xdp_fd_request(4, Some(9), Some(8), 16).unwrap();
    assert_eq!(message, expected.0);

    // the attributes read back
    let outer = parse_attrs(&message[32..]).unwrap();
    let inner = parse_attrs(outer[&43].data).unwrap();
    assert_eq!(inner.len(), 3);
    assert_eq!(inner[&8].data, &8i32.to_ne_bytes());
}

#[test]
fn qdisc_list_request() {
    let expected = Bytes::header(36, 38, 0x305).raw(&[0; 20]);
    assert_eq!(netlink_clsact_qdisc_exists_request(), expected.0);
}

#[test]
fn clsact_request() {
    let expected = Bytes::header(48, 36, 0x605)
        .n32(0)
        .s32(4)
        .n32(0xffff_0000)
        .n32(0xffff_fff1)
        .n32(0)
        .n16(11)
        .n16(1)
        .raw(b"clsact\0\0");
    assert_eq!(netlink_qdisc_add_clsact_request(4).unwrap(), expected.0);
}

#[test]
fn attach_request() {
    let expected = Bytes::header(76, 44, 0x60d)
        .n32(0)
        .s32(4)
        .n32(5)
        .n32(0xffff_fff2)
        .n32(info_of_priority_7())
        .n16(8)
        .n16(1)
        .raw(b"bpf\0")
        .n16(32)
        .n16(0x8002)
        .n16(8)
        .n16(6)
        .s32(11)
        .n16(12)
        .n16(7)
        .raw(b"my_prog\0")
        .n16(8)
        .n16(8)
        .n32(1);
    let message = netlink_qdisc_attach_request(
        4,
        &TcAttachType::Ingress,
        11,
        b"my_prog\0",
        7,
        5,
        true,
    );
    assert_eq!(message.unwrap(), expected.0);
}

#[test]
fn attach_request_pads_the_name_with_zeros() {
    let message =
        netlink_qdisc_attach_request(4, &TcAttachType::Egress, 11, b"five\0", 7, 5, true).unwrap();
    assert_eq!(message.len(), 76);
    assert_eq!(&message[60..68], b"five\0\0\0\0");
    assert_eq!(message[56..58], 9u16.to_ne_bytes());
}

#[test]
fn attach_request_to_replace_creates_nothing() {
    let message =
        netlink_qdisc_attach_request(4, &TcAttachType::Custom(99), 11, b"p\0", 7, 5, false);
    let message = message.unwrap();
    assert_eq!(message[6..8], 0xdu16.to_ne_bytes());
    assert_eq!(message[28..32], 99u32.to_ne_bytes());
}

#[test]
fn attach_request_has_room_for_480_bytes_of_name() {
    let name = vec![b'n'; 480];
    let message =
        netlink_qdisc_attach_request(4, &TcAttachType::Ingress, 11, &name, 7, 5, true).unwrap();
    assert_eq!(message.len(), 16 + 20 + 512);
    // up to 488 bytes the name fits and the flags do not; from 489 on, neither does the name
    for len in [481, 484, 485, 488, 489, 600, 70_000] {
        let name = vec![b'n'; len];
        let error =
            netlink_qdisc_attach_request(4, &TcAttachType::Ingress, 11, &name, 7, 5, true)
                .unwrap_err();
        assert!(matches!(
            error.0,
            NetlinkErrorInternal::IoError(IoError::Other(OtherError::NoSpaceLeft))
        ));
    }
}

#[test]
fn attach_request_has_room_for_names_of_the_kernel() {
    let name = vec![b'n'; 256];
    assert!(
        netlink_qdisc_attach_request(4, &TcAttachType::Ingress, 11, &name, 7, 5, true).is_ok()
    );
}

#[test]
fn detach_names_what_attach_made() {
    let made = netlink_qdisc_attach_request(4, &TcAttachType::Egress, 11, b"p\0", 7, 5, true);
    let echo = vec![NetlinkMessage::read(&made.unwrap()).unwrap()];
    let (priority, handle) = netlink_qdisc_attach_reply(&echo).unwrap();
    let detach = netlink_qdisc_detach_request(4, &TcAttachType::Egress, priority, handle);
    assert_eq!(detach[16..], echo[0].data[..20]);
}

#[test]
fn detach_request() {
    let expected = Bytes::header(36, 45, 0x5)
        .n32(0)
        .s32(4)
        .n32(5)
        .n32(0xffff_fff3)
        .n32(info_of_priority_7());
    assert_eq!(netlink_qdisc_detach_request(4, &TcAttachType::Egress, 7, 5), expected.0);
}

#[test]
fn filter_list_request() {
    let expected = Bytes::header(36, 46, 0x301).n32(0).s32(-4).n32(0).n32(17).n32(0);
    assert_eq!(
        netlink_find_filter_with_name_request(-4, &TcAttachType::Custom(17)),
        expected.0
    );
}

#[test]
fn handles_take_the_upper_half_of_one_and_the_lower_of_the_other() {
    assert_eq!(tc_handler_make(0x1234_5678, 0x9abc_def0), 0x1234_def0);
    assert_eq!(TcAttachType::Ingress.tc_parent(), 0xffff_fff2);
    assert_eq!(TcAttachType::Egress.tc_parent(), 0xffff_fff3);
    assert_eq!(TcAttachType::Custom(3).tc_parent(), 3);
}

#[test]
fn requests_read_back_as_messages() {
    let sent = netlink_qdisc_add_clsact_request(4).unwrap();
    let message = NetlinkMessage::read(&sent).unwrap();
    assert_eq!(message.header.nlmsg_len as usize, sent.len());
    assert_eq!(message.header.nlmsg_type, 36);
    assert_eq!(message.header.nlmsg_seq, 1);
    assert_eq!(message.header.nlmsg_pid, 0);
    assert_eq!(message.data, &sent[16..]);
    assert!(message.error.is_none());
}
