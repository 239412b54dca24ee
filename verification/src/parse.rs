//! Reading the attributes of a message.
use std::collections::HashMap;

use vstd::prelude::*;
use vstd::slice::slice_subrange;

use crate::align::align_to_4;
use crate::attr::NlAttrHeader;
use crate::error::NlAttrError;
use crate::native::read_u16;
use crate::uapi::{NLA_HDR_LEN, NLA_TYPE_MASK};
use crate::{align, native};

verus! {

/// An attribute: its header, and its payload where it stands in the message.
#[derive(Clone, Copy, Debug)]
pub struct NlAttr<'a> {
    pub header: NlAttrHeader,
    pub data: &'a [u8],
}

/// What a [`NlAttr`] holds.
pub struct NlAttrView {
    pub header: NlAttrHeader,
    pub data: Seq<u8>,
}

impl<'a> View for NlAttr<'a> {
    type V = NlAttrView;

    open spec fn view(&self) -> NlAttrView {
        NlAttrView { header: self.header, data: self.data@ }
    }
}

/// The header that `s` starts with.
pub open spec fn attr_header_at(s: Seq<u8>) -> NlAttrHeader {
    NlAttrHeader { nla_len: native::u16_at(s, 0), nla_type: native::u16_at(s, 2) }
}

/// The attribute that `s` starts with, or what is wrong with it. `s` is not empty.
pub open spec fn first_attr(s: Seq<u8>) -> Result<NlAttrView, NlAttrError> {
    let header = attr_header_at(s);
    let len = header.nla_len as int;
    let padded = align::align_up(len, 4);
    if s.len() < NLA_HDR_LEN {
        Err(NlAttrError::InvalidBufferLength { size: s.len() as usize, expected: NLA_HDR_LEN })
    } else if len < NLA_HDR_LEN {
        Err(NlAttrError::InvalidHeaderLength(len as usize))
    } else if padded > s.len() {
        Err(NlAttrError::InvalidBufferLength { size: s.len() as usize, expected: padded as usize })
    } else {
        Ok(NlAttrView { header, data: s.subrange(NLA_HDR_LEN as int, len) })
    }
}

/// The room that an attribute takes, with padding.
pub open spec fn room_of(attr: NlAttrView) -> int {
    align::align_up(attr.header.nla_len as int, 4)
}

/// The attributes that `s` consists of, or the first thing that is wrong.
pub open spec fn attrs_of(s: Seq<u8>) -> Result<Seq<NlAttrView>, NlAttrError>
    decreases s.len(),
{
    if s.len() == 0 {
        Ok(Seq::empty())
    } else {
        match first_attr(s) {
            Err(e) => Err(e),
            Ok(attr) => match attrs_of(s.skip(room_of(attr))) {
                Err(e) => Err(e),
                Ok(rest) => Ok(seq![attr] + rest),
            },
        }
    }
}

/// The type of an attribute, without the two flag bits that its header keeps above it.
pub open spec fn type_of(attr: NlAttrView) -> u16 {
    attr.header.nla_type % 0x4000
}

/// The attributes of a list by their types. Of several with one type, the last one counts.
pub open spec fn by_type(list: Seq<NlAttrView>) -> Map<u16, NlAttrView>
    decreases list.len(),
{
    if list.len() == 0 {
        Map::empty()
    } else {
        by_type(list.drop_last()).insert(type_of(list.last()), list.last())
    }
}

/// What a table of attributes holds.
pub open spec fn table_view<'a>(table: Map<u16, NlAttr<'a>>) -> Map<u16, NlAttrView> {
    table.map_values(|attr: NlAttr<'a>| attr@)
}

/// Walks over the attributes in a buffer.
pub struct NlAttrsIterator<'a> {
    /// The whole buffer.
    pub attrs: &'a [u8],
    /// Where the next attribute starts.
    pub offset: usize,
}

impl<'a> NlAttrsIterator<'a> {
    /// The walk has not left the buffer.
    pub open spec fn wf(self) -> bool {
        self.offset <= self.attrs@.len()
    }

    /// What the walk has not passed yet.
    pub open spec fn rest(self) -> Seq<u8> {
        self.attrs@.skip(self.offset as int)
    }

    /// Starts at the first attribute of `attrs`.
    pub fn new(attrs: &'a [u8]) -> (r: Self)
        ensures
            r.wf(),
            r.attrs@ == attrs@,
            r.offset == 0,
            r.rest() == attrs@,
    {
        let r = NlAttrsIterator { attrs, offset: 0 };
        assert(r.rest() == attrs@);
        r
    }

    /// The next attribute, or what is wrong with it; `None` at the end of the buffer.
    ///
    /// An attribute moves the walk past its padding. A length that cannot be right leaves the walk
    /// where it is. Fewer bytes than a header needs send it to the offset that equals their number.
    pub fn next(&mut self) -> (r: Option<Result<NlAttr<'a>, NlAttrError>>)
        requires
            old(self).wf(),
        ensures
            final(self).wf(),
            final(self).attrs@ == old(self).attrs@,
            r is None <==> old(self).rest().len() == 0,
            match r {
                None => final(self).offset == old(self).offset,
                Some(Ok(attr)) => {
                    &&& first_attr(old(self).rest()) == Ok::<NlAttrView, NlAttrError>(attr@)
                    &&& final(self).offset == old(self).offset + room_of(attr@)
                    &&& final(self).rest() == old(self).rest().skip(room_of(attr@))
                },
                Some(Err(e)) => {
                    &&& first_attr(old(self).rest()) == Err::<NlAttrView, NlAttrError>(e)
                    &&& final(self).offset == if old(self).rest().len() < NLA_HDR_LEN {
                        old(self).rest().len()
                    } else {
                        old(self).offset as nat
                    }
                },
            },
    {
        let buf: &'a [u8] = slice_subrange(self.attrs, self.offset, self.attrs.len());
        assert(buf@ == self.rest());
        if buf.len() == 0 {
            return None;
        }
        if NLA_HDR_LEN > buf.len() {
            self.offset = buf.len();
            return Some(
                Err(
                    NlAttrError::InvalidBufferLength { size: buf.len(), expected: NLA_HDR_LEN },
                ),
            );
        }
        let attr = NlAttrHeader { nla_len: read_u16(buf, 0), nla_type: read_u16(buf, 2) };
        let len: usize = attr.nla_len as usize;
        let align_len: usize = align_to_4(len);
        if len < NLA_HDR_LEN {
            return Some(Err(NlAttrError::InvalidHeaderLength(len)));
        }
        if align_len > buf.len() {
            return Some(
                Err(NlAttrError::InvalidBufferLength { size: buf.len(), expected: align_len }),
            );
        }
        let data: &'a [u8] = slice_subrange(buf, NLA_HDR_LEN, len);
        self.offset += align_len;
        assert(self.rest() == old(self).rest().skip(align_len as int));
        Some(Ok(NlAttr { header: attr, data }))
    }
}

/// A table of the attributes in `buf` by their types, or the first thing that is wrong with them.
pub fn parse_attrs<'a>(buf: &'a [u8]) -> (r: Result<HashMap<u16, NlAttr<'a>>, NlAttrError>)
    ensures
        match r {
            Ok(table) => {
                &&& attrs_of(buf@) is Ok
                &&& table_view(table@) == by_type(attrs_of(buf@)->Ok_0)
            },
            Err(e) => attrs_of(buf@) == Err::<Seq<NlAttrView>, NlAttrError>(e),
        },
{
    let mut attrs: HashMap<u16, NlAttr<'a>> = HashMap::new();
    let mut iter = NlAttrsIterator::new(buf);
    let ghost mut seen: Seq<NlAttrView> = Seq::empty();
    assert(table_view(attrs@) == by_type(seen));
    loop
        invariant
            iter.wf(),
            table_view(attrs@) == by_type(seen),
            attrs_of(buf@) == (match attrs_of(iter.rest()) {
                Ok(rest) => Ok::<Seq<NlAttrView>, NlAttrError>(seen + rest),
                Err(e) => Err(e),
            }),
        ensures
            attrs_of(buf@) == Ok::<Seq<NlAttrView>, NlAttrError>(seen),
            table_view(attrs@) == by_type(seen),
        decreases iter.rest().len(),
    {
        let ghost rest = iter.rest();
        match iter.next() {
            None => {
                assert(seen + Seq::<NlAttrView>::empty() == seen);
                break ;
            },
            Some(Err(e)) => {
                return Err(e);
            },
            Some(Ok(attr)) => {
                let ghost before = attrs@;
                let ghost view = attr@;
                let nla_type: u16 = attr.header.nla_type;
                assert(nla_type & 0x3fff == nla_type % 0x4000) by (bit_vector);
                attrs.insert(nla_type & NLA_TYPE_MASK, attr);
                proof {
                    let later = attrs_of(rest.skip(room_of(view)));
                    if later is Ok {
                        assert(seen + (seq![view] + later->Ok_0) == seen.push(view) + later->Ok_0);
                    }
                    assert(seen.push(view).drop_last() == seen);
                    seen = seen.push(view);
                    assert(table_view(attrs@) == by_type(seen));
                }
            },
        }
    }
    Ok(attrs)
}

} // verus!
