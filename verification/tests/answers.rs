use netlink::attr::{write_attr_bytes, NestedAttrs};
use netlink::error::{IoError, NetlinkError, NetlinkErrorInternal, NlAttrError, OtherError};
use netlink::message::{NetlinkMessage, NlMsgError, NlMsgHeader};
use netlink::reception::{read_failure, refused, Reception};
use netlink::tc::{netlink_qdisc_add_clsact_request, netlink_qdisc_attach_request, TcAttachType};
use netlink::tc_reply::{
    attach_reply_is_complete, filter_replies_are_complete, netlink_clsact_qdisc_exists_reply,
    netlink_find_filter_with_name_reply, netlink_qdisc_attach_reply, qdisc_replies_are_complete,
};
use netlink::text::c_string_text;

const NLMSG_ERROR: u16 = 2;
const NLMSG_DONE: u16 = 3;
const RTM_NEWQDISC: u16 = 36;
const RTM_NEWTFILTER: u16 = 44;
const MULTI: u16 = 2;

fn header(len: u32, nlmsg_type: u16, flags: u16) -> NlMsgHeader {
    NlMsgHeader {
        nlmsg_len: len,
        nlmsg_type,
        nlmsg_flags: flags,
        nlmsg_seq: 0x0102_0304,
        nlmsg_pid: 0x0506_0708,
    }
}

fn header_bytes(header: NlMsgHeader) -> Vec<u8> {
    let mut out = Vec::new();
    out.extend(header.nlmsg_len.to_ne_bytes());
    out.extend(header.nlmsg_type.to_ne_bytes());
    out.extend(header.nlmsg_flags.to_ne_bytes());
    out.extend(header.nlmsg_seq.to_ne_bytes());
    out.extend(header.nlmsg_pid.to_ne_bytes());
    out
}

/// A message with its padding.
fn message_bytes(nlmsg_type: u16, flags: u16, data: &[u8]) -> Vec<u8> {
    let mut out = header_bytes(header(16 + data.len() as u32, nlmsg_type, flags));
    out.extend(data);
    while out.len() % 4 != 0 {
        out.push(0);
    }
    out
}

fn error_bytes(error: i32, flags: u16, attrs: &[u8]) -> Vec<u8> {
    let mut data = error.to_ne_bytes().to_vec();
    data.extend(header_bytes(header(32, 19, 5)));
    data.extend(attrs);
    message_bytes(NLMSG_ERROR, flags, &data)
}

fn attr_bytes(attr_type: u16, value: &[u8]) -> Vec<u8> {
    let mut buf = vec![0u8; 4096];
    let len = write_attr_bytes(&mut buf, 0, attr_type, value).unwrap();
    buf.truncate(len);
    buf
}

/// The buffer of a receiver that these bytes were received into, and their number.
fn received(bytes: &[u8]) -> (Vec<u8>, usize) {
    let mut buf = bytes.to_vec();
    buf.resize(4096, 0);
    (buf, bytes.len())
}

fn take_in(reception: &mut Reception, bytes: &[u8]) -> Result<(), NetlinkErrorInternal> {
    let (buf, len) = received(bytes);
    assert!(Reception::is_legible(&buf, len));
    reception.datagram(&buf, len)
}

fn read_error(buf: &[u8]) -> OtherError {
    assert!(!NetlinkMessage::is_cut_short(buf));
    match NetlinkMessage::read(buf) {
        Err(IoError::Other(error)) => error,
        _ => panic!("no error"),
    }
}

fn tc_message(nlmsg_type: u16, if_index: i32, handle: u32, info: u32, attrs: &[u8]) -> NetlinkMessage {
    let mut data = vec![0u8; 4];
    data.extend(if_index.to_ne_bytes());
    data.extend(handle.to_ne_bytes());
    data.extend(0u32.to_ne_bytes());
    data.extend(info.to_ne_bytes());
    data.extend(attrs);
    NetlinkMessage { header: header(16 + data.len() as u32, nlmsg_type, 0), data, error: None }
}

fn options(name: &[u8]) -> Vec<u8> {
    let mut buf = vec![0u8; 256];
    let mut attrs = NestedAttrs::new(&mut buf, 2);
    attrs.write_attr(6, 42i32).unwrap();
    attrs.write_attr_bytes(7, name).unwrap();
    let len = attrs.finish().unwrap();
    buf.truncate(len);
    buf
}

fn attr_error(error: NetlinkError) -> NlAttrError {
    match error.0 {
        NetlinkErrorInternal::NlAttrError(e) => e,
        _ => panic!("another error"),
    }
}

#[test]
fn message_reads_back() {
    let mut bytes = message_bytes(19, 7, b"payload");
    bytes.extend([1, 2, 3]);
    let message = NetlinkMessage::read(&bytes).unwrap();
    assert_eq!(message.header, header(23, 19, 7));
    assert_eq!(message.data, b"payload");
    assert_eq!(message.error, None);
}

#[test]
fn error_message_reads_back() {
    let bytes = error_bytes(-17, 0, &[9, 9, 9, 9]);
    let message = NetlinkMessage::read(&bytes).unwrap();
    assert_eq!(message.header.nlmsg_len, 40);
    assert_eq!(message.data, &[9, 9, 9, 9]);
    assert_eq!(message.error, Some(NlMsgError { error: -17, msg: header(32, 19, 5) }));
}

#[test]
fn read_rejects_malformed_messages() {
    assert_eq!(read_error(&[0; 15]), OtherError::ShortHeader);
    assert_eq!(read_error(&header_bytes(header(15, 19, 0))), OtherError::InvalidLength);
    assert_eq!(read_error(&header_bytes(header(17, 19, 0))), OtherError::InvalidLength);
    assert_eq!(read_error(&header_bytes(header(16, 19, 0))), OtherError::NeedMoreData);
    let mut short = header_bytes(header(20, NLMSG_ERROR, 0));
    short.extend([0; 19]);
    assert_eq!(read_error(&short), OtherError::ShortErrorPayload);
}

#[test]
fn read_takes_a_message_without_payload_if_something_follows() {
    let mut bytes = header_bytes(header(16, 19, 0));
    bytes.push(0);
    assert!(NetlinkMessage::read(&bytes).unwrap().data.is_empty());
}

#[test]
fn error_messages_can_be_cut_short() {
    let mut bytes = header_bytes(header(35, NLMSG_ERROR, 0));
    bytes.extend([0; 20]);
    assert!(NetlinkMessage::is_cut_short(&bytes));
    assert!(!Reception::is_legible(&bytes, bytes.len()));
    bytes[..4].copy_from_slice(&36u32.to_ne_bytes());
    assert!(!NetlinkMessage::is_cut_short(&bytes));
    assert!(NetlinkMessage::read(&bytes).unwrap().data.is_empty());
    assert!(Reception::is_legible(&bytes, bytes.len()));
}

#[test]
fn failures_have_messages() {
    assert_eq!(OtherError::NoSpaceLeft.message(), "no space left");
    assert_eq!(OtherError::ShortHeader.message(), "buffer smaller than nlmsghdr");
    assert_eq!(OtherError::InvalidLength.message(), "invalid nlmsg_len");
    assert_eq!(OtherError::NeedMoreData.message(), "need more data");
    assert_eq!(
        OtherError::ShortErrorPayload.message(),
        "NLMSG_ERROR but not enough space for nlmsgerr"
    );
    assert_eq!(
        OtherError::MissingFilterReply.message(),
        "no RTM_NEWTFILTER reply received, this is a bug."
    );
}

#[test]
fn errors_convert_to_their_variants() {
    let error = NetlinkErrorInternal::from(IoError::Os(5));
    assert!(matches!(NetlinkError::from(error).0, NetlinkErrorInternal::IoError(IoError::Os(5))));
    let error = NetlinkErrorInternal::from(NlAttrError::InvalidHeaderLength(2));
    assert!(matches!(
        error,
        NetlinkErrorInternal::NlAttrError(NlAttrError::InvalidHeaderLength(2))
    ));
}

#[test]
fn c_strings_end_at_their_only_zero() {
    assert_eq!(c_string_text(b"text\0"), Some("text".to_string()));
    assert_eq!(c_string_text(b"\0"), Some(String::new()));
    assert_eq!(c_string_text(b""), None);
    assert_eq!(c_string_text(b"text"), None);
    assert_eq!(c_string_text(b"te\0xt\0"), None);
    assert_eq!(c_string_text(b"a\xffb\0"), Some("a\u{fffd}b".to_string()));
    assert_eq!(c_string_text("caf\u{e9}\0".as_bytes()), Some("caf\u{e9}".to_string()));
}

#[test]
fn acknowledgement_ends_the_answer() {
    let mut reception = Reception::new();
    assert!(reception.multipart);
    take_in(&mut reception, &error_bytes(0, 0, &[])).unwrap();
    assert!(reception.messages.is_empty());
    assert!(!reception.multipart);
}

#[test]
fn refusal_without_words() {
    let mut reception = Reception::new();
    let error = take_in(&mut reception, &error_bytes(-17, 0, &[])).unwrap_err();
    assert!(matches!(error, NetlinkErrorInternal::IoError(IoError::Os(17))));
    assert!(reception.messages.is_empty());
    assert!(reception.multipart);
}

#[test]
fn refusal_in_words() {
    let attrs = attr_bytes(1, b"Exclusivity flag on\0");
    let error = take_in(&mut Reception::new(), &error_bytes(-17, 0, &attrs)).unwrap_err();
    match error {
        NetlinkErrorInternal::Error { message, source } => {
            assert_eq!(message, "Exclusivity flag on");
            assert_eq!(source, IoError::Os(17));
        }
        _ => panic!("no words"),
    }
}

#[test]
fn refusal_in_words_that_are_no_string() {
    let attrs = attr_bytes(1, b"no zero");
    let error = read_failure(-2, &attrs);
    assert!(matches!(error, NetlinkErrorInternal::IoError(IoError::Os(2))));
    let error = refused(-3, Some("words".to_string()));
    assert!(matches!(error, NetlinkErrorInternal::Error { source: IoError::Os(3), .. }));
}

#[test]
fn refusal_with_malformed_attributes() {
    let error = take_in(&mut Reception::new(), &error_bytes(-17, 0, &[0, 0, 0, 0])).unwrap_err();
    assert!(matches!(
        error,
        NetlinkErrorInternal::NlAttrError(NlAttrError::InvalidHeaderLength(0))
    ));
}

#[test]
fn refusal_after_messages_keeps_none_of_them() {
    let mut bytes = message_bytes(44, MULTI, b"abcd");
    bytes.extend(error_bytes(-1, 0, &[]));
    let mut reception = Reception::new();
    assert!(take_in(&mut reception, &bytes).is_err());
    assert!(reception.messages.is_empty());
}

#[test]
fn number_without_a_negation_is_illegible() {
    let (buf, len) = received(&error_bytes(i32::MIN, 0, &[]));
    assert!(!Reception::is_legible(&buf, len));
}

#[test]
fn malformed_attributes_come_before_the_number() {
    let bytes = error_bytes(i32::MIN, 0, &[0, 0, 0, 0]);
    let error = take_in(&mut Reception::new(), &bytes).unwrap_err();
    assert!(matches!(
        error,
        NetlinkErrorInternal::NlAttrError(NlAttrError::InvalidHeaderLength(0))
    ));
    let error = read_failure(i32::MIN, &[0, 0, 0, 0]);
    assert!(matches!(
        error,
        NetlinkErrorInternal::NlAttrError(NlAttrError::InvalidHeaderLength(0))
    ));
}

#[test]
fn datagram_may_fill_the_buffer() {
    let mut bytes = message_bytes(36, MULTI, b"");
    bytes.extend(message_bytes(36, MULTI, b"last"));
    let mut reception = Reception::new();
    assert!(Reception::is_legible(&bytes, bytes.len()));
    reception.datagram(&bytes, bytes.len()).unwrap();
    assert_eq!(reception.messages.len(), 2);
    assert!(reception.multipart);

    // a bare header at the very end of the buffer is not a message
    bytes.extend(message_bytes(36, MULTI, b""));
    let error = Reception::new().datagram(&bytes, bytes.len()).unwrap_err();
    assert!(matches!(
        error,
        NetlinkErrorInternal::IoError(IoError::Other(OtherError::NeedMoreData))
    ));
}

#[test]
fn several_datagrams_make_one_answer() {
    let mut first = message_bytes(36, MULTI, b"one");
    first.extend(message_bytes(36, MULTI, b"two"));
    let mut second = message_bytes(36, MULTI, b"three");
    second.extend(message_bytes(NLMSG_DONE, MULTI, &[0; 4]));
    second.extend(message_bytes(36, MULTI, b"after the end"));

    let mut reception = Reception::new();
    take_in(&mut reception, &first).unwrap();
    assert!(reception.multipart);
    take_in(&mut reception, &second).unwrap();
    assert!(!reception.multipart);
    let data: Vec<&[u8]> = reception.messages.iter().map(|m| m.data.as_slice()).collect();
    let expected: [&[u8]; 3] = [b"one", b"two", b"three"];
    assert_eq!(data, expected);
}

#[test]
fn the_last_message_says_whether_more_follow() {
    let mut bytes = message_bytes(44, MULTI, b"abcd");
    bytes.extend(error_bytes(0, 0, &[]));
    let mut reception = Reception::new();
    take_in(&mut reception, &bytes).unwrap();
    assert_eq!(reception.messages.len(), 1);
    assert!(!reception.multipart);

    let mut bytes = message_bytes(44, 0, b"abcd");
    bytes.extend(error_bytes(0, MULTI, &[]));
    let mut reception = Reception::new();
    take_in(&mut reception, &bytes).unwrap();
    assert!(reception.multipart);
}

#[test]
fn empty_datagram_ends_the_answer() {
    let mut reception = Reception::new();
    take_in(&mut reception, &[]).unwrap();
    assert!(reception.messages.is_empty());
    assert!(!reception.multipart);
}

#[test]
fn message_may_reach_beyond_the_datagram() {
    let mut buf = message_bytes(44, 0, b"abcdefgh");
    buf.resize(64, 0);
    let mut reception = Reception::new();
    reception.datagram(&buf, 17).unwrap();
    assert_eq!(reception.messages[0].data, b"abcdefgh");
}

#[test]
fn malformed_message_fails_the_answer() {
    let mut bytes = message_bytes(44, 0, b"abcd");
    bytes.extend(header_bytes(header(3, 44, 0)));
    let error = take_in(&mut Reception::new(), &bytes).unwrap_err();
    assert!(matches!(
        error,
        NetlinkErrorInternal::IoError(IoError::Other(OtherError::InvalidLength))
    ));
}

#[test]
fn clsact_is_found_on_its_link() {
    let kind = attr_bytes(1, b"clsact\0");
    let other = attr_bytes(1, b"fq_codel\0");
    let messages = vec![
        tc_message(20, 4, 0, 0, &kind),
        tc_message(RTM_NEWQDISC, 3, 0, 0, &kind),
        tc_message(RTM_NEWQDISC, 4, 0, 0, &other),
        tc_message(RTM_NEWQDISC, 4, 0, 0, &[]),
    ];
    assert!(qdisc_replies_are_complete(&messages, 4));
    assert_eq!(netlink_clsact_qdisc_exists_reply(&messages, 4).unwrap(), false);
    assert_eq!(netlink_clsact_qdisc_exists_reply(&messages, 3).unwrap(), true);
    assert_eq!(netlink_clsact_qdisc_exists_reply(&vec![], 3).unwrap(), false);
}

#[test]
fn clsact_needs_its_zero_byte() {
    let messages = vec![tc_message(RTM_NEWQDISC, 4, 0, 0, &attr_bytes(1, b"clsact"))];
    assert_eq!(netlink_clsact_qdisc_exists_reply(&messages, 4).unwrap(), false);
}

#[test]
fn first_telling_message_decides_on_clsact() {
    let kind = attr_bytes(1, b"clsact\0");
    let bad = [0u8; 4];
    let messages = vec![
        tc_message(RTM_NEWQDISC, 4, 0, 0, &bad),
        tc_message(RTM_NEWQDISC, 4, 0, 0, &kind),
        tc_message(RTM_NEWQDISC, 5, 0, 0, &kind),
        tc_message(RTM_NEWQDISC, 5, 0, 0, &bad),
    ];
    let error = netlink_clsact_qdisc_exists_reply(&messages, 4).unwrap_err();
    assert_eq!(attr_error(error), NlAttrError::InvalidHeaderLength(0));
    assert_eq!(netlink_clsact_qdisc_exists_reply(&messages, 5).unwrap(), true);
}

#[test]
fn short_replies_are_incomplete() {
    let short = |nlmsg_type: u16| NetlinkMessage {
        header: header(35, nlmsg_type, 0),
        data: vec![0; 19],
        error: None,
    };
    let kind = attr_bytes(1, b"clsact\0");
    assert!(!qdisc_replies_are_complete(&vec![short(RTM_NEWQDISC)], 4));
    assert!(qdisc_replies_are_complete(&vec![short(RTM_NEWTFILTER)], 4));
    // what comes after the message that decides does not matter
    let decided = vec![tc_message(RTM_NEWQDISC, 4, 0, 0, &kind), short(RTM_NEWQDISC)];
    assert!(qdisc_replies_are_complete(&decided, 4));
    assert!(!qdisc_replies_are_complete(&decided, 5));

    assert!(!attach_reply_is_complete(&vec![short(RTM_NEWTFILTER)]));
    assert!(attach_reply_is_complete(&vec![short(RTM_NEWQDISC)]));

    assert!(!filter_replies_are_complete(&vec![short(RTM_NEWTFILTER)], b"a\0"));
    let malformed = vec![tc_message(RTM_NEWTFILTER, 4, 0, 0, &[0; 4]), short(RTM_NEWTFILTER)];
    assert!(filter_replies_are_complete(&malformed, b"a\0"));
}

#[test]
fn added_clsact_is_found() {
    let sent = netlink_qdisc_add_clsact_request(4).unwrap();
    let echo = NetlinkMessage::read(&sent).unwrap();
    assert_eq!(netlink_clsact_qdisc_exists_reply(&vec![echo], 4).unwrap(), true);
}

#[test]
fn attach_reply_has_priority_and_handle() {
    let messages = vec![
        tc_message(RTM_NEWQDISC, 4, 1, 0x0001_0000, &[]),
        tc_message(RTM_NEWTFILTER, 4, 77, 0xc001_0300, &[]),
        tc_message(RTM_NEWTFILTER, 4, 78, 0x0002_0300, &[]),
    ];
    assert_eq!(netlink_qdisc_attach_reply(&messages).unwrap(), (0xc001, 77));
}

#[test]
fn attach_without_a_reply_is_an_error() {
    let messages = vec![tc_message(RTM_NEWQDISC, 4, 1, 0x0001_0000, &[])];
    let error = netlink_qdisc_attach_reply(&messages).unwrap_err();
    assert!(matches!(
        error.0,
        NetlinkErrorInternal::IoError(IoError::Other(OtherError::MissingFilterReply))
    ));
}

#[test]
fn filters_are_found_by_name_in_order() {
    let messages = vec![
        tc_message(RTM_NEWTFILTER, 4, 1, 0x0005_0300, &options(b"mine\0")),
        tc_message(RTM_NEWTFILTER, 4, 2, 0x0006_0300, &options(b"other\0")),
        tc_message(RTM_NEWTFILTER, 4, 3, 0x0007_0300, &[]),
        tc_message(RTM_NEWTFILTER, 4, 4, 0x0008_0300, &options(b"mine")),
        tc_message(RTM_NEWQDISC, 4, 5, 0x0009_0300, &options(b"mine\0")),
        tc_message(RTM_NEWTFILTER, 9, 6, 0xfff0_0300, &options(b"mine\0")),
    ];
    assert!(filter_replies_are_complete(&messages, b"mine\0"));
    let found = netlink_find_filter_with_name_reply(&messages, b"mine\0").unwrap();
    assert_eq!(found, vec![(5, 1), (0xfff0, 6)]);
    let found = netlink_find_filter_with_name_reply(&messages, b"none\0").unwrap();
    assert!(found.is_empty());
}

#[test]
fn malformed_filter_fails_the_search() {
    let mut nested = attr_bytes(0x8002, &[3, 3, 3, 3, 3]);
    let messages = vec![tc_message(RTM_NEWTFILTER, 4, 1, 0, &nested)];
    let error = netlink_find_filter_with_name_reply(&messages, b"mine\0").unwrap_err();
    assert_eq!(
        attr_error(error),
        NlAttrError::InvalidBufferLength { size: 5, expected: 772 }
    );
    nested.truncate(8);
    let messages = vec![tc_message(RTM_NEWTFILTER, 4, 1, 0, &nested)];
    let error = netlink_find_filter_with_name_reply(&messages, b"mine\0").unwrap_err();
    assert_eq!(
        attr_error(error),
        NlAttrError::InvalidBufferLength { size: 8, expected: 12 }
    );
}

#[test]
fn attached_filter_is_found_by_name() {
    let sent =
        netlink_qdisc_attach_request(4, &TcAttachType::Egress, 11, b"prog\0", 0xfedc, 99, true)
            .unwrap();
    let echo = vec![NetlinkMessage::read(&sent).unwrap()];
    assert_eq!(netlink_qdisc_attach_reply(&echo).unwrap(), (0xfedc, 99));
    let found = netlink_find_filter_with_name_reply(&echo, b"prog\0").unwrap();
    assert_eq!(found, vec![(0xfedc, 99)]);
    assert!(netlink_find_filter_with_name_reply(&echo, b"pro\0").unwrap().is_empty());
}
