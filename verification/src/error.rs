//! What can go wrong in a netlink operation.
use vstd::prelude::*;

verus! {

/// A failure that carries no error number: a fixed message says what happened.
#[derive(Clone, Copy, Debug, PartialEq, Eq, Structural)]
pub enum OtherError {
    /// An attribute does not fit in the room that is left for it.
    NoSpaceLeft,
    /// A message is shorter than its header.
    ShortHeader,
    /// A message claims a length that it cannot have.
    InvalidLength,
    /// A message ends where its payload should begin.
    NeedMoreData,
    /// An error message is too short to say which error it reports.
    ShortErrorPayload,
    /// A filter was accepted, but the reply does not describe it.
    MissingFilterReply,
}

impl OtherError {
    /// The message of the failure.
    pub open spec fn text(self) -> Seq<char> {
        match self {
            OtherError::NoSpaceLeft => "no space left"@,
            OtherError::ShortHeader => "buffer smaller than nlmsghdr"@,
            OtherError::InvalidLength => "invalid nlmsg_len"@,
            OtherError::NeedMoreData => "need more data"@,
            OtherError::ShortErrorPayload => "NLMSG_ERROR but not enough space for nlmsgerr"@,
            OtherError::MissingFilterReply =>
                "no RTM_NEWTFILTER reply received, this is a bug."@,
        }
    }

    /// The message of the failure.
    pub fn message(&self) -> (r: &'static str)
        ensures
            r@ == self.text(),
    {
        match self {
            OtherError::NoSpaceLeft => "no space left",
            OtherError::ShortHeader => "buffer smaller than nlmsghdr",
            OtherError::InvalidLength => "invalid nlmsg_len",
            OtherError::NeedMoreData => "need more data",
            OtherError::ShortErrorPayload => "NLMSG_ERROR but not enough space for nlmsgerr",
            OtherError::MissingFilterReply => "no RTM_NEWTFILTER reply received, this is a bug.",
        }
    }
}

/// A failure of input or output.
#[derive(Clone, Copy, Debug, PartialEq, Eq, Structural)]
pub enum IoError {
    /// An error number of the operating system.
    Os(i32),
    /// A failure without an error number.
    Other(OtherError),
}

/// A malformed attribute.
#[derive(Clone, Copy, Debug, PartialEq, Eq, Structural)]
pub enum NlAttrError {
    /// `size` bytes are left where the attribute needs `expected`.
    InvalidBufferLength { size: usize, expected: usize },
    /// The attribute claims a length that does not even cover its header.
    InvalidHeaderLength(usize),
}

/// A failed netlink operation, by its cause.
#[derive(Debug)]
pub enum NetlinkErrorInternal {
    /// The kernel refused the request and said why.
    Error { message: String, source: IoError },
    /// Input or output failed, or the kernel refused the request without a word.
    IoError(IoError),
    /// The kernel's reply holds a malformed attribute.
    NlAttrError(NlAttrError),
}

/// What a [`NetlinkErrorInternal`] says.
pub enum NetlinkErrorView {
    Error { message: Seq<char>, source: IoError },
    IoError(IoError),
    NlAttrError(NlAttrError),
}

impl View for NetlinkErrorInternal {
    type V = NetlinkErrorView;

    open spec fn view(&self) -> NetlinkErrorView {
        match *self {
            NetlinkErrorInternal::Error { message, source } => NetlinkErrorView::Error {
                message: message@,
                source,
            },
            NetlinkErrorInternal::IoError(e) => NetlinkErrorView::IoError(e),
            NetlinkErrorInternal::NlAttrError(e) => NetlinkErrorView::NlAttrError(e),
        }
    }
}

/// An error that occurred during a netlink operation.
#[derive(Debug)]
pub struct NetlinkError(pub NetlinkErrorInternal);

impl From<IoError> for NetlinkErrorInternal {
    fn from(e: IoError) -> (r: Self) {
        NetlinkErrorInternal::IoError(e)
    }
}

impl vstd::std_specs::convert::FromSpecImpl<IoError> for NetlinkErrorInternal {
    open spec fn obeys_from_spec() -> bool {
        true
    }

    open spec fn from_spec(e: IoError) -> Self {
        NetlinkErrorInternal::IoError(e)
    }
}

impl From<NlAttrError> for NetlinkErrorInternal {
    fn from(e: NlAttrError) -> (r: Self) {
        NetlinkErrorInternal::NlAttrError(e)
    }
}

impl vstd::std_specs::convert::FromSpecImpl<NlAttrError> for NetlinkErrorInternal {
    open spec fn obeys_from_spec() -> bool {
        true
    }

    open spec fn from_spec(e: NlAttrError) -> Self {
        NetlinkErrorInternal::NlAttrError(e)
    }
}

impl From<NetlinkErrorInternal> for NetlinkError {
    fn from(e: NetlinkErrorInternal) -> (r: Self) {
        NetlinkError(e)
    }
}

impl vstd::std_specs::convert::FromSpecImpl<NetlinkErrorInternal> for NetlinkError {
    open spec fn obeys_from_spec() -> bool {
        true
    }

    open spec fn from_spec(e: NetlinkErrorInternal) -> Self {
        NetlinkError(e)
    }
}

impl View for NetlinkError {
    type V = NetlinkErrorView;

    open spec fn view(&self) -> NetlinkErrorView {
        self.0@
    }
}

} // verus!
