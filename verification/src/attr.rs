//! Writing attributes into a buffer.
use vstd::prelude::*;

use crate::align::align_to_4;
use crate::error::{IoError, OtherError};
use crate::native::{push_i32, push_u16, push_u32};
use crate::uapi::{NLA_F_NESTED, NLA_HDR_LEN};
use crate::{align, native};

verus! {

/// The header of an attribute.
#[derive(Clone, Copy, Debug, PartialEq, Eq, Structural)]
pub struct NlAttrHeader {
    /// Length of header and payload, without padding.
    pub nla_len: u16,
    /// What the payload is, and how it is encoded.
    pub nla_type: u16,
}

impl NlAttrHeader {
    /// The bytes of the header.
    pub open spec fn bytes(self) -> Seq<u8> {
        native::u16_bytes(self.nla_len) + native::u16_bytes(self.nla_type)
    }
}

/// `s` with the bytes of `value` in place of those from `at` on.
pub open spec fn splice(s: Seq<u8>, at: int, value: Seq<u8>) -> Seq<u8> {
    s.take(at) + value + s.skip(at + value.len())
}

/// Whether `len` bytes and their padding fit in a buffer of `room` bytes, from `at` on.
pub open spec fn fits(room: int, at: int, len: int) -> bool {
    at + align::align_up(len, 4) <= room
}

/// The header of an attribute of this type whose payload has `len` bytes. The length field keeps
/// the low 16 bits of the length.
pub open spec fn header_for(attr_type: u16, len: int) -> NlAttrHeader {
    NlAttrHeader { nla_len: (NLA_HDR_LEN + len) as u16, nla_type: attr_type }
}

/// What stands in a buffer after an attribute with this payload was written to it at `at`, if
/// there was room for both header and payload, for the header alone, or for neither.
pub open spec fn after_write(s: Seq<u8>, at: int, attr_type: u16, payload: Seq<u8>) -> Seq<u8> {
    let header = header_for(attr_type, payload.len() as int).bytes();
    if !fits(s.len() as int, at, 4) {
        s
    } else if !fits(s.len() as int, at + 4, payload.len() as int) {
        splice(s, at, header)
    } else {
        splice(s, at, header + payload)
    }
}

/// What writing an attribute with a payload of `len` bytes returns: the room that it takes, or that
/// there is none.
pub open spec fn write_result(room: int, at: int, len: int) -> Result<usize, IoError> {
    if fits(room, at, 4) && fits(room, at + 4, len) {
        Ok((4 + align::align_up(len, 4)) as usize)
    } else {
        Err(IoError::Other(OtherError::NoSpaceLeft))
    }
}

/// The positions that writing an attribute looks at can be computed in `usize`.
pub open spec fn write_in_range(room: int, at: int, len: int) -> bool {
    &&& NLA_HDR_LEN + len <= usize::MAX
    &&& at + NLA_HDR_LEN <= usize::MAX
    &&& fits(room, at, 4) ==> at + 4 + align::align_up(len, 4) <= usize::MAX
}

/// Copies `value` into `buf` at `offset` and returns its length with padding. The padding is left
/// as it was.
pub fn write_bytes(buf: &mut [u8], offset: usize, value: &[u8]) -> (r: Result<usize, IoError>)
    requires
        offset + align::align_up(value@.len() as int, 4) <= usize::MAX,
    ensures
        fits(old(buf)@.len() as int, offset as int, value@.len() as int) ==> {
            &&& r == Ok::<usize, IoError>(align::align_up(value@.len() as int, 4) as usize)
            &&& final(buf)@ == splice(old(buf)@, offset as int, value@)
        },
        !fits(old(buf)@.len() as int, offset as int, value@.len() as int) ==> {
            &&& r == Err::<usize, IoError>(IoError::Other(OtherError::NoSpaceLeft))
            &&& final(buf)@ == old(buf)@
        },
{
    let align_len: usize = align_to_4(value.len());
    if offset + align_len > buf.len() {
        return Err(IoError::Other(OtherError::NoSpaceLeft));
    }
    let ghost before = buf@;
    let mut i: usize = 0;
    while i < value.len()
        invariant
            i <= value@.len(),
            offset + value@.len() <= before.len(),
            before.len() <= usize::MAX,
            buf@ == splice(before, offset as int, value@.take(i as int)),
        decreases value@.len() - i,
    {
        buf[offset + i] = value[i];
        i += 1;
        assert(buf@ == splice(before, offset as int, value@.take(i as int)));
    }
    assert(value@.take(i as int) == value@);
    Ok(align_len)
}

/// Writes the header `attr` into `buf` at `offset` and returns its length.
pub fn write_attr_header(buf: &mut [u8], offset: usize, attr: NlAttrHeader) -> (r: Result<
    usize,
    IoError,
>)
    requires
        offset + NLA_HDR_LEN <= usize::MAX,
    ensures
        fits(old(buf)@.len() as int, offset as int, 4) ==> {
            &&& r == Ok::<usize, IoError>(NLA_HDR_LEN)
            &&& final(buf)@ == splice(old(buf)@, offset as int, attr.bytes())
        },
        !fits(old(buf)@.len() as int, offset as int, 4) ==> {
            &&& r == Err::<usize, IoError>(IoError::Other(OtherError::NoSpaceLeft))
            &&& final(buf)@ == old(buf)@
        },
{
    let mut bytes: Vec<u8> = Vec::new();
    push_u16(&mut bytes, attr.nla_len);
    push_u16(&mut bytes, attr.nla_type);
    assert(bytes@ == attr.bytes());
    match write_bytes(buf, offset, bytes.as_slice()) {
        Ok(_) => Ok(NLA_HDR_LEN),
        Err(e) => Err(e),
    }
}

/// Writes an attribute with the payload `value` into `buf` at `offset` and returns the room that it
/// takes. Where there is room for the header alone, the header has been written all the same.
pub fn write_attr_bytes(buf: &mut [u8], offset: usize, attr_type: u16, value: &[u8]) -> (r: Result<
    usize,
    IoError,
>)
    requires
        write_in_range(old(buf)@.len() as int, offset as int, value@.len() as int),
    ensures
        r == write_result(old(buf)@.len() as int, offset as int, value@.len() as int),
        final(buf)@ == after_write(old(buf)@, offset as int, attr_type, value@),
{
    let ghost before = buf@;
    let attr = NlAttrHeader {
        nla_len: #[verifier::truncate] ((NLA_HDR_LEN + value.len()) as u16),
        nla_type: attr_type,
    };
    match write_attr_header(buf, offset, attr) {
        Ok(_) => {},
        Err(e) => return Err(e),
    }
    match write_bytes(buf, offset + NLA_HDR_LEN, value) {
        Ok(value_len) => {
            assert(buf@ == splice(before, offset as int, attr.bytes() + value@));
            Ok(NLA_HDR_LEN + value_len)
        },
        Err(e) => Err(e),
    }
}

/// A value that an attribute can carry as it is stored in memory.
pub trait AttrValue {
    /// The bytes in which the machine stores the value.
    spec fn bytes(&self) -> Seq<u8>;

    /// The bytes in which the machine stores the value.
    fn to_bytes(&self) -> (r: Vec<u8>)
        ensures
            r@ == self.bytes(),
    ;
}

impl AttrValue for u32 {
    open spec fn bytes(&self) -> Seq<u8> {
        native::u32_bytes(*self)
    }

    fn to_bytes(&self) -> (r: Vec<u8>) {
        let mut out: Vec<u8> = Vec::new();
        push_u32(&mut out, *self);
        assert(out@ == self.bytes());
        out
    }
}

impl AttrValue for i32 {
    open spec fn bytes(&self) -> Seq<u8> {
        native::i32_bytes(*self)
    }

    fn to_bytes(&self) -> (r: Vec<u8>) {
        let mut out: Vec<u8> = Vec::new();
        push_i32(&mut out, *self);
        assert(out@ == self.bytes());
        out
    }
}

/// Writes an attribute that carries `value` into `buf` at `offset` and returns the room that it
/// takes.
pub fn write_attr<T: AttrValue>(buf: &mut [u8], offset: usize, attr_type: u16, value: T) -> (r:
    Result<usize, IoError>)
    requires
        write_in_range(old(buf)@.len() as int, offset as int, value.bytes().len() as int),
    ensures
        r == write_result(old(buf)@.len() as int, offset as int, value.bytes().len() as int),
        final(buf)@ == after_write(old(buf)@, offset as int, attr_type, value.bytes()),
{
    let bytes: Vec<u8> = value.to_bytes();
    write_attr_bytes(buf, offset, attr_type, bytes.as_slice())
}

/// The type of an attribute whose payload is a list of attributes: its top bit is set.
pub open spec fn nested_type(attr_type: u16) -> u16 {
    (0x8000 + attr_type % 0x8000) as u16
}

/// A list of attributes that is being written as the payload of one attribute. The header of that
/// attribute is written last.
pub struct NestedAttrs<'a> {
    /// Where the attributes go.
    pub buf: &'a mut [u8],
    /// Type of the attribute around the list.
    pub top_attr_type: u16,
    /// Where the next attribute goes.
    pub offset: usize,
}

impl<'a> NestedAttrs<'a> {
    /// The list starts behind the header, and does not run over the buffer.
    pub open spec fn wf(self) -> bool {
        &&& self.offset >= NLA_HDR_LEN
        &&& self.offset == NLA_HDR_LEN || self.offset <= self.buf@.len()
    }

    /// Starts an empty list in `buf`, whose attribute has the type `top_attr_type`.
    pub fn new(buf: &'a mut [u8], top_attr_type: u16) -> (r: Self)
        ensures
            r.wf(),
            r.offset == NLA_HDR_LEN,
            r.top_attr_type == top_attr_type,
            r.buf@ == old(buf)@,
            final(r.buf)@ == final(buf)@,
    {
        NestedAttrs { buf, top_attr_type, offset: NLA_HDR_LEN }
    }

    /// Adds an attribute that carries `value` and returns the room that it takes.
    pub fn write_attr<T: AttrValue>(&mut self, attr_type: u16, value: T) -> (r: Result<
        usize,
        IoError,
    >)
        requires
            old(self).wf(),
            write_in_range(
                old(self).buf@.len() as int,
                old(self).offset as int,
                value.bytes().len() as int,
            ),
        ensures
            final(self).wf(),
            r == write_result(
                old(self).buf@.len() as int,
                old(self).offset as int,
                value.bytes().len() as int,
            ),
            final(self).buf@ == after_write(
                old(self).buf@,
                old(self).offset as int,
                attr_type,
                value.bytes(),
            ),
            final(self).offset == old(self).offset + (match r {
                Ok(size) => size,
                Err(_) => 0,
            }),
            final(self).top_attr_type == old(self).top_attr_type,
            final(final(self).buf)@ == final(old(self).buf)@,
    {
        match write_attr(self.buf, self.offset, attr_type, value) {
            Ok(size) => {
                self.offset += size;
                Ok(size)
            },
            Err(e) => Err(e),
        }
    }

    /// Adds an attribute with the payload `value` and returns the room that it takes.
    pub fn write_attr_bytes(&mut self, attr_type: u16, value: &[u8]) -> (r: Result<usize, IoError>)
        requires
            old(self).wf(),
            write_in_range(
                old(self).buf@.len() as int,
                old(self).offset as int,
                value@.len() as int,
            ),
        ensures
            final(self).wf(),
            r == write_result(
                old(self).buf@.len() as int,
                old(self).offset as int,
                value@.len() as int,
            ),
            final(self).buf@ == after_write(
                old(self).buf@,
                old(self).offset as int,
                attr_type,
                value@,
            ),
            final(self).offset == old(self).offset + (match r {
                Ok(size) => size,
                Err(_) => 0,
            }),
            final(self).top_attr_type == old(self).top_attr_type,
            final(final(self).buf)@ == final(old(self).buf)@,
    {
        match write_attr_bytes(self.buf, self.offset, attr_type, value) {
            Ok(size) => {
                self.offset += size;
                Ok(size)
            },
            Err(e) => Err(e),
        }
    }

    /// Writes the header of the attribute around the list and returns the length of the attribute,
    /// of which the header keeps the low 16 bits.
    pub fn finish(self) -> (r: Result<usize, IoError>)
        ensures
            fits(old(self.buf)@.len() as int, 0, 4) ==> {
                &&& r == Ok::<usize, IoError>(self.offset)
                &&& final(self.buf)@ == splice(
                    old(self.buf)@,
                    0,
                    (NlAttrHeader {
                        nla_len: self.offset as u16,
                        nla_type: nested_type(self.top_attr_type),
                    }).bytes(),
                )
            },
            !fits(old(self.buf)@.len() as int, 0, 4) ==> {
                &&& r == Err::<usize, IoError>(IoError::Other(OtherError::NoSpaceLeft))
                &&& final(self.buf)@ == old(self.buf)@
            },
    {
        let nla_len: usize = self.offset;
        let top: u16 = self.top_attr_type;
        assert(0x8000u16 | top == 0x8000 + top % 0x8000) by (bit_vector);
        let attr = NlAttrHeader {
            nla_len: #[verifier::truncate] (nla_len as u16),
            nla_type: NLA_F_NESTED | top,
        };
        match write_attr_header(self.buf, 0, attr) {
            Ok(_) => Ok(nla_len),
            Err(e) => Err(e),
        }
    }
}

} // verus!
