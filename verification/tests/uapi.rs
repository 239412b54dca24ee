use netlink::uapi;

#[test]
fn numbers_agree_with_the_c_library() {
    assert_eq!(uapi::NLA_ALIGNTO, libc::NLA_ALIGNTO as usize);
    assert_eq!(uapi::NLMSG_ERROR, libc::NLMSG_ERROR as u16);
    assert_eq!(uapi::NLMSG_DONE, libc::NLMSG_DONE as u16);
    assert_eq!(uapi::NLM_F_REQUEST, libc::NLM_F_REQUEST as u16);
    assert_eq!(uapi::NLM_F_MULTI, libc::NLM_F_MULTI as u16);
    assert_eq!(uapi::NLM_F_ACK, libc::NLM_F_ACK as u16);
    assert_eq!(uapi::NLM_F_ECHO, libc::NLM_F_ECHO as u16);
    assert_eq!(uapi::NLM_F_EXCL, libc::NLM_F_EXCL as u16);
    assert_eq!(uapi::NLM_F_DUMP, libc::NLM_F_DUMP as u16);
    assert_eq!(uapi::NLM_F_CREATE, libc::NLM_F_CREATE as u16);
    assert_eq!(uapi::NLA_F_NESTED, libc::NLA_F_NESTED as u16);
    assert_eq!(uapi::NLA_TYPE_MASK, libc::NLA_TYPE_MASK as u16);
    assert_eq!(uapi::RTM_SETLINK, libc::RTM_SETLINK);
    assert_eq!(uapi::RTM_NEWQDISC, libc::RTM_NEWQDISC);
    assert_eq!(uapi::RTM_GETQDISC, libc::RTM_GETQDISC);
    assert_eq!(uapi::RTM_NEWTFILTER, libc::RTM_NEWTFILTER);
    assert_eq!(uapi::RTM_DELTFILTER, libc::RTM_DELTFILTER);
    assert_eq!(uapi::RTM_GETTFILTER, libc::RTM_GETTFILTER);
    assert_eq!(uapi::AF_UNSPEC, libc::AF_UNSPEC as u8);
    assert_eq!(uapi::IFF_UP, libc::IFF_UP as u32);
    assert_eq!(uapi::ETH_P_ALL, libc::ETH_P_ALL as u16);
    assert_eq!(uapi::IFLA_XDP, libc::IFLA_XDP);
    assert_eq!(uapi::TCA_KIND, libc::TCA_KIND);
    assert_eq!(uapi::TCA_OPTIONS, libc::TCA_OPTIONS);
}

#[test]
fn sizes_agree_with_the_c_library() {
    assert_eq!(uapi::NLMSGHDR_LEN, std::mem::size_of::<libc::nlmsghdr>());
    assert_eq!(uapi::NLMSGERR_LEN, std::mem::size_of::<libc::nlmsgerr>());
    assert_eq!(uapi::NLA_HDR_LEN, std::mem::size_of::<libc::nlattr>());
}
