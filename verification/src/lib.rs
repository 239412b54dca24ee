//! A netlink codec for attaching BPF programs to network links: the requests that bring links up,
//! attach XDP programs and manage traffic control filters, byte for byte, and the meaning of what the
//! kernel answers.
//!
//! Nothing here opens a socket. A caller sends the bytes of a request, hands every datagram that comes
//! back to a [`reception::Reception`], and reads the messages that it collects.
#![allow(unused_imports)]

pub mod align;
pub mod attr;
pub mod encode;
pub mod error;
pub mod laws;
pub mod link;
pub mod message;
pub mod native;
pub mod parse;
pub mod reception;
pub mod request;
pub mod tc;
pub mod tc_reply;
pub mod text;
pub mod uapi;
