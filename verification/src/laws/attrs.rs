//! Attributes: what is written is what is read.
use vstd::prelude::*;

use crate::attr::{AttrValue, NlAttrHeader};
use crate::error::{IoError, NlAttrError, OtherError};
use crate::laws::layout;
use crate::parse::{NlAttrView, NlAttrsIterator};
use crate::{align, attr, encode, native, parse};

verus! {

/// An attribute as it reads back.
pub open spec fn attr_view(attr_type: u16, payload: Seq<u8>) -> NlAttrView {
    NlAttrView { header: attr::header_for(attr_type, payload.len() as int), data: payload }
}

/// The attributes of a list as they read back.
pub open spec fn list_view(list: Seq<(u16, Seq<u8>)>) -> Seq<NlAttrView> {
    list.map_values(|a: (u16, Seq<u8>)| attr_view(a.0, a.1))
}

/// Whether the length of an attribute with this payload can be told in its header.
pub open spec fn length_fits(payload: Seq<u8>) -> bool {
    4 + payload.len() <= u16::MAX
}

/// An attribute that stands at the front of `s`, whatever pads it.
proof fn lemma_attr_in_front(s: Seq<u8>, attr_type: u16, payload: Seq<u8>)
    requires
        length_fits(payload),
        4 + align::align_up(payload.len() as int, 4) <= s.len(),
        s.take(4 + payload.len() as int) == attr::header_for(attr_type, payload.len() as int).bytes()
            + payload,
    ensures
        parse::first_attr(s) == Ok::<NlAttrView, NlAttrError>(attr_view(attr_type, payload)),
        parse::room_of(attr_view(attr_type, payload)) == 4 + align::align_up(
            payload.len() as int,
            4,
        ),
{
    let header = attr::header_for(attr_type, payload.len() as int);
    let front = s.take(4 + payload.len() as int);
    assert(s.subrange(0, 2) =~= front.subrange(0, 2));
    assert(front.subrange(0, 2) =~= native::u16_bytes(header.nla_len));
    native::lemma_u16_reads_back(s, 0, header.nla_len);
    assert(s.subrange(2, 4) =~= front.subrange(2, 4));
    assert(front.subrange(2, 4) =~= native::u16_bytes(header.nla_type));
    native::lemma_u16_reads_back(s, 2, header.nla_type);
    assert(s.subrange(4, 4 + payload.len() as int) =~= front.subrange(
        4,
        4 + payload.len() as int,
    ));
    assert(front.subrange(4, 4 + payload.len() as int) =~= payload);
}

/// An attribute that was written into a buffer reads back from where it was written, whatever the
/// buffer held before.
pub proof fn law_written_attr_reads_back(s: Seq<u8>, at: int, attr_type: u16, payload: Seq<u8>)
    requires
        0 <= at,
        length_fits(payload),
        attr::write_result(s.len() as int, at, payload.len() as int) is Ok,
    ensures
        parse::first_attr(attr::after_write(s, at, attr_type, payload).skip(at)) == Ok::<
            NlAttrView,
            NlAttrError,
        >(attr_view(attr_type, payload)),
{
    let written = attr::after_write(s, at, attr_type, payload);
    let header = attr::header_for(attr_type, payload.len() as int).bytes();
    assert(written.skip(at).take(4 + payload.len() as int) =~= header + payload);
    lemma_attr_in_front(written.skip(at), attr_type, payload);
}

/// Writing an attribute keeps the size of the buffer and every byte outside header and payload.
pub proof fn law_write_touches_nothing_else(
    s: Seq<u8>,
    at: int,
    attr_type: u16,
    payload: Seq<u8>,
    i: int,
)
    requires
        0 <= at,
        0 <= i < s.len(),
    ensures
        attr::after_write(s, at, attr_type, payload).len() == s.len(),
        i < at || i >= at + 4 + payload.len() ==> attr::after_write(s, at, attr_type, payload)[i]
            == s[i],
        attr::write_result(s.len() as int, at, payload.len() as int) is Err && i >= at + 4
            ==> attr::after_write(s, at, attr_type, payload)[i] == s[i],
{
}

/// The attributes at the front of `s` come first, if they are well formed.
pub proof fn lemma_attrs_of_concat(front: Seq<u8>, back: Seq<u8>)
    requires
        parse::attrs_of(front) is Ok,
    ensures
        parse::attrs_of(front + back) == (match parse::attrs_of(back) {
            Ok(rest) => Ok::<Seq<NlAttrView>, NlAttrError>(parse::attrs_of(front)->Ok_0 + rest),
            Err(e) => Err(e),
        }),
    decreases front.len(),
{
    if front.len() == 0 {
        assert(front + back =~= back);
        if let Ok(rest) = parse::attrs_of(back) {
            assert(Seq::<NlAttrView>::empty() + rest =~= rest);
        }
    } else {
        let first = parse::first_attr(front)->Ok_0;
        let room = parse::room_of(first);
        assert((front + back).subrange(4, first.header.nla_len as int) =~= front.subrange(
            4,
            first.header.nla_len as int,
        ));
        assert((front + back).skip(room) =~= front.skip(room) + back);
        lemma_attrs_of_concat(front.skip(room), back);
        if let Ok(rest) = parse::attrs_of(back) {
            assert(seq![first] + (parse::attrs_of(front.skip(room))->Ok_0 + rest) =~= (seq![first]
                + parse::attrs_of(front.skip(room))->Ok_0) + rest);
        }
    }
}

/// An attribute that makes up all of `s`, whatever pads it.
proof fn lemma_attr_alone(s: Seq<u8>, attr_type: u16, payload: Seq<u8>)
    requires
        length_fits(payload),
        s.len() == 4 + align::align_up(payload.len() as int, 4),
        s.take(4 + payload.len() as int) == attr::header_for(attr_type, payload.len() as int).bytes()
            + payload,
    ensures
        parse::attrs_of(s) == Ok::<Seq<NlAttrView>, NlAttrError>(
            seq![attr_view(attr_type, payload)],
        ),
{
    lemma_attr_in_front(s, attr_type, payload);
    assert(s.skip(s.len() as int) =~= Seq::<u8>::empty());
    assert(seq![attr_view(attr_type, payload)] + Seq::<NlAttrView>::empty() =~= seq![
        attr_view(attr_type, payload),
    ]);
    reveal_with_fuel(parse::attrs_of, 2);
}

/// One encoded attribute reads back as a list of one.
pub proof fn law_attr_reads_back(attr_type: u16, payload: Seq<u8>)
    requires
        length_fits(payload),
    ensures
        parse::attrs_of(encode::encode_attr(attr_type, payload)) == Ok::<
            Seq<NlAttrView>,
            NlAttrError,
        >(seq![attr_view(attr_type, payload)]),
{
    let s = encode::encode_attr(attr_type, payload);
    align::lemma_align_up_4(payload.len() as int);
    encode::lemma_encode_attr_len(attr_type, payload);
    assert(s.take(4 + payload.len() as int) =~= attr::header_for(
        attr_type,
        payload.len() as int,
    ).bytes() + payload);
    lemma_attr_alone(s, attr_type, payload);
}

/// A list of attributes reads back as it was, in order.
pub proof fn law_list_reads_back(list: Seq<(u16, Seq<u8>)>)
    requires
        forall|i: int| 0 <= i < list.len() ==> length_fits((#[trigger] list[i]).1),
    ensures
        parse::attrs_of(encode::encode_list(list)) == Ok::<Seq<NlAttrView>, NlAttrError>(
            list_view(list),
        ),
    decreases list.len(),
{
    if list.len() == 0 {
        assert(list_view(list) =~= Seq::<NlAttrView>::empty());
    } else {
        let last = list.last();
        assert(length_fits(list[list.len() - 1].1));
        assert forall|i: int| 0 <= i < list.drop_last().len() implies length_fits(
            (#[trigger] list.drop_last()[i]).1,
        ) by {
            assert(list.drop_last()[i] == list[i]);
        }
        law_list_reads_back(list.drop_last());
        law_attr_reads_back(last.0, last.1);
        lemma_attrs_of_concat(
            encode::encode_list(list.drop_last()),
            encode::encode_attr(last.0, last.1),
        );
        assert(list_view(list.drop_last()) + seq![attr_view(last.0, last.1)] =~= list_view(list));
    }
}

/// A list within an attribute reads back: first the attribute, under the type that the list was
/// started with, then the list from its payload.
pub proof fn law_nested_reads_back(attr_type: u16, list: Seq<(u16, Seq<u8>)>)
    requires
        length_fits(encode::encode_list(list)),
    ensures
        ({
            let outer = attr_view(attr::nested_type(attr_type), encode::encode_list(list));
            &&& parse::attrs_of(encode::encode_nested(attr_type, list)) == Ok::<
                Seq<NlAttrView>,
                NlAttrError,
            >(seq![outer])
            &&& parse::type_of(outer) == attr_type % 0x4000
            &&& parse::attrs_of(outer.data) == Ok::<Seq<NlAttrView>, NlAttrError>(list_view(list))
        }),
{
    let payload = encode::encode_list(list);
    lemma_nested_type(attr_type, payload);
    law_attr_reads_back(attr::nested_type(attr_type), payload);
    assert forall|i: int| 0 <= i < list.len() implies length_fits((#[trigger] list[i]).1) by {
        lemma_part_is_no_longer(list, i);
    }
    law_list_reads_back(list);
}

/// The type of an attribute around a list is the type that the list was started with.
proof fn lemma_nested_type(attr_type: u16, payload: Seq<u8>)
    ensures
        parse::type_of(attr_view(attr::nested_type(attr_type), payload)) == attr_type % 0x4000,
{
}

/// An attribute of a list is no longer than the list.
proof fn lemma_part_is_no_longer(list: Seq<(u16, Seq<u8>)>, i: int)
    requires
        0 <= i < list.len(),
    ensures
        list[i].1.len() <= encode::encode_list(list).len(),
    decreases list.len(),
{
    encode::lemma_encode_attr_len(list.last().0, list.last().1);
    align::lemma_align_up_4(list.last().1.len() as int);
    if i < list.len() - 1 {
        lemma_part_is_no_longer(list.drop_last(), i);
    }
}

/// Whether the attributes that were written behind the header of a nested list, up to `offset`, read
/// back as `list`.
pub open spec fn nested_holds(s: Seq<u8>, offset: int, list: Seq<NlAttrView>) -> bool {
    &&& 4 <= offset <= s.len()
    &&& offset % 4 == 0
    &&& parse::attrs_of(s.subrange(4, offset)) == Ok::<Seq<NlAttrView>, NlAttrError>(list)
}

/// A nested list starts empty, whatever the buffer holds.
pub proof fn law_nested_list_starts(s: Seq<u8>)
    requires
        4 <= s.len(),
    ensures
        nested_holds(s, 4, Seq::empty()),
{
    assert(s.subrange(4, 4) =~= Seq::<u8>::empty());
}

/// An attribute that is added to a nested list reads back behind those before it, whatever the buffer
/// held.
pub proof fn law_nested_list_grows(
    s: Seq<u8>,
    offset: int,
    list: Seq<NlAttrView>,
    attr_type: u16,
    payload: Seq<u8>,
)
    requires
        nested_holds(s, offset, list),
        length_fits(payload),
        attr::write_result(s.len() as int, offset, payload.len() as int) is Ok,
    ensures
        nested_holds(
            attr::after_write(s, offset, attr_type, payload),
            offset + 4 + align::align_up(payload.len() as int, 4),
            list.push(attr_view(attr_type, payload)),
        ),
{
    let written = attr::after_write(s, offset, attr_type, payload);
    let room = 4 + align::align_up(payload.len() as int, 4);
    align::lemma_align_up_4(payload.len() as int);
    let front = s.subrange(4, offset);
    let back = written.subrange(offset, offset + room);
    assert(written.subrange(4, offset + room) =~= front + back);
    assert(back.take(4 + payload.len() as int) =~= attr::header_for(
        attr_type,
        payload.len() as int,
    ).bytes() + payload);
    lemma_attr_alone(back, attr_type, payload);
    lemma_attrs_of_concat(front, back);
    assert(list + seq![attr_view(attr_type, payload)] =~= list.push(
        attr_view(attr_type, payload),
    ));
}

/// The header that closes a nested list makes one attribute of it, under the type that the list was
/// started with, and the list reads back from its payload, whatever the buffer held.
pub proof fn law_nested_list_closes(
    s: Seq<u8>,
    offset: int,
    list: Seq<NlAttrView>,
    top_attr_type: u16,
)
    requires
        nested_holds(s, offset, list),
        offset <= u16::MAX,
    ensures
        ({
            let header = NlAttrHeader {
                nla_len: offset as u16,
                nla_type: attr::nested_type(top_attr_type),
            };
            let first = parse::first_attr(attr::splice(s, 0, header.bytes()));
            &&& first is Ok
            &&& first->Ok_0.header == header
            &&& parse::type_of(first->Ok_0) == top_attr_type % 0x4000
            &&& parse::attrs_of(first->Ok_0.data) == Ok::<Seq<NlAttrView>, NlAttrError>(list)
        }),
{
    let payload = s.subrange(4, offset);
    let header = attr::header_for(attr::nested_type(top_attr_type), payload.len() as int);
    let closed = attr::splice(s, 0, header.bytes());
    align::lemma_align_up_4(payload.len() as int);
    assert(closed.take(4 + payload.len() as int) =~= header.bytes() + payload);
    lemma_attr_in_front(closed, attr::nested_type(top_attr_type), payload);
    lemma_nested_type(top_attr_type, payload);
}

/// A table of attributes has an entry for a type exactly where the list has an attribute of it, and
/// the entry is the last such attribute.
pub proof fn law_table_keeps_the_last(list: Seq<NlAttrView>, attr_type: u16)
    ensures
        parse::by_type(list).contains_key(attr_type) <==> exists|i: int|
            0 <= i < list.len() && parse::type_of(#[trigger] list[i]) == attr_type,
        forall|i: int|
            0 <= i < list.len() && parse::type_of(#[trigger] list[i]) == attr_type && (forall|j: int|
                i < j < list.len() ==> parse::type_of(#[trigger] list[j]) != attr_type)
                ==> parse::by_type(list)[attr_type] == list[i],
    decreases list.len(),
{
    if list.len() > 0 {
        let short = list.drop_last();
        law_table_keeps_the_last(short, attr_type);
        assert(list[list.len() - 1] == list.last());
        assert(forall|i: int| 0 <= i < short.len() ==> short[i] == list[i]);
        if parse::by_type(short).contains_key(attr_type) {
            let i = choose|i: int|
                0 <= i < short.len() && parse::type_of(#[trigger] short[i]) == attr_type;
            assert(parse::type_of(list[i]) == attr_type);
        }
        assert forall|i: int|
            0 <= i < list.len() && parse::type_of(#[trigger] list[i]) == attr_type && (forall|j: int|
                i < j < list.len() ==> parse::type_of(#[trigger] list[j])
                    != attr_type) implies parse::by_type(list)[attr_type] == list[i] by {
            if i < list.len() - 1 {
                assert(parse::type_of(list[list.len() - 1]) != attr_type);
                assert(short[i] == list[i]);
                assert forall|j: int| i < j < short.len() implies parse::type_of(
                    #[trigger] short[j],
                ) != attr_type by {
                    assert(short[j] == list[j]);
                }
            }
        }
    }
}

/// Every attribute takes at least the room of a header, so a walk over attributes ends.
pub proof fn law_walk_advances(s: Seq<u8>)
    requires
        parse::first_attr(s) is Ok,
    ensures
        4 <= parse::room_of(parse::first_attr(s)->Ok_0) <= s.len(),
        parse::room_of(parse::first_attr(s)->Ok_0) % 4 == 0,
{
}

/// The attribute that `s` starts with has its length in bytes 0 and 1, its type in 2 and 3, and then
/// its payload, whatever its padding holds. It is read exactly where the length covers the header and
/// `s` covers the length rounded up to a multiple of 4, here `padded`; else what is wrong is told.
pub proof fn law_attr_is_read_from_its_places(s: Seq<u8>, padded: int)
    requires
        padded % 4 == 0,
        native::u16_at(s, 0) <= padded < native::u16_at(s, 0) + 4,
    ensures
        s.len() < 4 ==> parse::first_attr(s) == Err::<NlAttrView, NlAttrError>(
            NlAttrError::InvalidBufferLength { size: s.len() as usize, expected: 4 },
        ),
        s.len() >= 4 && native::u16_at(s, 0) < 4 ==> parse::first_attr(s) == Err::<
            NlAttrView,
            NlAttrError,
        >(NlAttrError::InvalidHeaderLength(native::u16_at(s, 0) as usize)),
        s.len() >= 4 && native::u16_at(s, 0) >= 4 && padded > s.len() ==> parse::first_attr(s)
            == Err::<NlAttrView, NlAttrError>(
            NlAttrError::InvalidBufferLength { size: s.len() as usize, expected: padded as usize },
        ),
        s.len() >= 4 && native::u16_at(s, 0) >= 4 && padded <= s.len() ==> parse::first_attr(s)
            == Ok::<NlAttrView, NlAttrError>(
            NlAttrView {
                header: NlAttrHeader {
                    nla_len: native::u16_at(s, 0),
                    nla_type: native::u16_at(s, 2),
                },
                data: s.subrange(4, native::u16_at(s, 0) as int),
            },
        ),
{
    align::lemma_align_up_4(native::u16_at(s, 0) as int);
}

/// Attributes are read one after the other, each from where the padding of the one before it ends, up
/// to the end of `s` or the first thing that is wrong.
pub proof fn law_attrs_are_read_one_by_one(s: Seq<u8>, padded: int)
    requires
        padded % 4 == 0,
        native::u16_at(s, 0) <= padded < native::u16_at(s, 0) + 4,
    ensures
        s.len() == 0 ==> parse::attrs_of(s) == Ok::<Seq<NlAttrView>, NlAttrError>(Seq::empty()),
        s.len() > 0 ==> match parse::first_attr(s) {
            Err(e) => parse::attrs_of(s) == Err::<Seq<NlAttrView>, NlAttrError>(e),
            Ok(attr) => match parse::attrs_of(s.skip(padded)) {
                Err(e) => parse::attrs_of(s) == Err::<Seq<NlAttrView>, NlAttrError>(e),
                Ok(rest) => {
                    &&& parse::attrs_of(s) is Ok
                    &&& parse::attrs_of(s)->Ok_0.len() == 1 + rest.len()
                    &&& parse::attrs_of(s)->Ok_0[0] == attr
                    &&& parse::attrs_of(s)->Ok_0.skip(1) == rest
                },
            },
        },
{
    align::lemma_align_up_4(native::u16_at(s, 0) as int);
    if s.len() > 0 {
        if let Ok(attr) = parse::first_attr(s) {
            assert(parse::room_of(attr) == padded);
            if let Ok(rest) = parse::attrs_of(s.skip(padded)) {
                assert((seq![attr] + rest).skip(1) =~= rest);
            }
        }
    }
}

/// What a walk over attributes has left is what stands from its offset on.
pub proof fn law_walk_leaves_the_rest<'a>(walk: NlAttrsIterator<'a>)
    requires
        walk.offset <= walk.attrs@.len(),
    ensures
        walk.wf(),
        walk.rest() == walk.attrs@.skip(walk.offset as int),
        walk.rest().len() == walk.attrs@.len() - walk.offset,
{
}

/// The room of an attribute is its length, rounded up to a multiple of 4 and no further.
pub proof fn law_room_is_the_padded_length(attr: NlAttrView)
    ensures
        parse::room_of(attr) % 4 == 0,
        attr.header.nla_len <= parse::room_of(attr) < attr.header.nla_len + 4,
{
    align::lemma_align_up_4(attr.header.nla_len as int);
}

/// Where there is room for header, payload and padding, here `padded` bytes after the header, an
/// attribute is written with its length in its first two bytes, its type in the next two and its
/// payload after them, and everything else is left as it was.
pub proof fn law_attr_is_written_to_its_places(
    s: Seq<u8>,
    at: int,
    attr_type: u16,
    payload: Seq<u8>,
    padded: int,
)
    requires
        0 <= at,
        padded % 4 == 0,
        payload.len() <= padded < payload.len() + 4,
        at + 4 + padded <= s.len() <= usize::MAX,
    ensures
        attr::write_result(s.len() as int, at, payload.len() as int) == Ok::<usize, IoError>(
            (4 + padded) as usize,
        ),
        ({
            let w = attr::after_write(s, at, attr_type, payload);
            &&& w.len() == s.len()
            &&& native::u16_at(w, at) == (4 + payload.len()) % 0x1_0000
            &&& native::u16_at(w, at + 2) == attr_type
            &&& w.subrange(at + 4, at + 4 + payload.len()) == payload
            &&& w.take(at) == s.take(at)
            &&& w.skip(at + 4 + payload.len()) == s.skip(at + 4 + payload.len())
        }),
{
    align::lemma_align_up_4(payload.len() as int);
    align::lemma_align_up_4(4);
    let w = attr::after_write(s, at, attr_type, payload);
    let header = attr::header_for(attr_type, payload.len() as int);
    layout::law_attr_header_layout(header);
    lemma_low_bits(4 + payload.len() as int);
    assert(w == s.take(at) + (header.bytes() + payload) + s.skip(at + 4 + payload.len()));
    lemma_spliced_parts(s.take(at), header.bytes(), payload, s.skip(at + 4 + payload.len()));
    lemma_reads_from(w, at, header.bytes());
}

/// An attribute can be written wherever the end of its padding, here `padded` bytes after the header,
/// is a position at all.
pub proof fn law_attr_can_be_written(room: int, at: int, len: int, padded: int)
    requires
        0 <= at,
        0 <= len,
        padded % 4 == 0,
        len <= padded < len + 4,
        at + 4 + padded <= usize::MAX,
    ensures
        attr::write_in_range(room, at, len),
{
    align::lemma_align_up_4(len);
}

/// A value is carried in the bytes in which the machine stores it.
pub proof fn law_values_are_carried_as_stored(unsigned: u32, signed: i32)
    ensures
        AttrValue::bytes(&unsigned) == native::u32_bytes(unsigned),
        AttrValue::bytes(&signed) == native::i32_bytes(signed),
{
}

/// Where there is no room for header, payload and padding, here `padded` bytes after the header, an
/// attempt to write an attribute fails. It leaves the header behind where there is room for that, and
/// else nothing.
pub proof fn law_attr_without_room(
    s: Seq<u8>,
    at: int,
    attr_type: u16,
    payload: Seq<u8>,
    padded: int,
)
    requires
        0 <= at,
        padded % 4 == 0,
        payload.len() <= padded < payload.len() + 4,
        4 + payload.len() <= usize::MAX,
        at + 4 + padded > s.len(),
    ensures
        attr::write_result(s.len() as int, at, payload.len() as int) == Err::<usize, IoError>(
            IoError::Other(OtherError::NoSpaceLeft),
        ),
        at + 4 > s.len() ==> attr::after_write(s, at, attr_type, payload) == s,
        at + 4 <= s.len() ==> {
            let w = attr::after_write(s, at, attr_type, payload);
            &&& w.len() == s.len()
            &&& native::u16_at(w, at) == (4 + payload.len()) % 0x1_0000
            &&& native::u16_at(w, at + 2) == attr_type
            &&& w.take(at) == s.take(at)
            &&& w.skip(at + 4) == s.skip(at + 4)
        },
{
    align::lemma_align_up_4(payload.len() as int);
    align::lemma_align_up_4(4);
    if at + 4 <= s.len() {
        let w = attr::after_write(s, at, attr_type, payload);
        let header = attr::header_for(attr_type, payload.len() as int);
        layout::law_attr_header_layout(header);
        lemma_low_bits(4 + payload.len() as int);
        assert(w == s.take(at) + header.bytes() + s.skip(at + 4));
        assert(s.take(at) + header.bytes() + s.skip(at + 4) =~= s.take(at) + (header.bytes()
            + Seq::empty()) + s.skip(at + 4));
        lemma_spliced_parts(s.take(at), header.bytes(), Seq::empty(), s.skip(at + 4));
        lemma_reads_from(w, at, header.bytes());
    }
}

/// Bytes are copied exactly where they and their padding, here `padded` bytes in all, fit; they replace
/// as many others and no more.
pub proof fn law_bytes_are_copied_in_place(s: Seq<u8>, at: int, value: Seq<u8>, padded: int)
    requires
        0 <= at,
        padded % 4 == 0,
        value.len() <= padded < value.len() + 4,
    ensures
        attr::fits(s.len() as int, at, value.len() as int) <==> at + padded <= s.len(),
        at + padded <= s.len() ==> {
            let w = attr::splice(s, at, value);
            &&& w.len() == s.len()
            &&& w.subrange(at, at + value.len()) == value
            &&& w.take(at) == s.take(at)
            &&& w.skip(at + value.len()) == s.skip(at + value.len())
        },
{
    align::lemma_align_up_4(value.len() as int);
    if at + padded <= s.len() {
        let w = attr::splice(s, at, value);
        assert(w.subrange(at, at + value.len()) =~= value);
        assert(w.take(at) =~= s.take(at));
        assert(w.skip(at + value.len()) =~= s.skip(at + value.len()));
    }
}

/// A length of two bytes keeps the low 16 bits.
proof fn lemma_low_bits(len: int)
    requires
        0 <= len <= usize::MAX,
    ensures
        (len as u16) == len % 0x1_0000,
{
    let n = len as usize;
    assert(n as u16 == n % 0x1_0000) by (bit_vector);
}

/// Where the parts of a buffer stand after something was written into it.
proof fn lemma_spliced_parts(front: Seq<u8>, header: Seq<u8>, payload: Seq<u8>, back: Seq<u8>)
    ensures
        ({
            let w = front + (header + payload) + back;
            let start = (front.len() + header.len()) as int;
            &&& w.len() == front.len() + header.len() + payload.len() + back.len()
            &&& w.take(front.len() as int) == front
            &&& w.subrange(front.len() as int, start) == header
            &&& w.subrange(start, start + payload.len()) == payload
            &&& w.skip(start + payload.len()) == back
        }),
{
    let w = front + (header + payload) + back;
    let start = (front.len() + header.len()) as int;
    assert(w.take(front.len() as int) =~= front);
    assert(w.subrange(front.len() as int, start) =~= header);
    assert(w.subrange(start, start + payload.len()) =~= payload);
    assert(w.skip(start + payload.len()) =~= back);
}

/// What is read from where four bytes stand.
proof fn lemma_reads_from(w: Seq<u8>, at: int, four: Seq<u8>)
    requires
        0 <= at,
        at + 4 <= w.len(),
        w.subrange(at, at + 4) == four,
    ensures
        native::u16_at(w, at) == native::u16_at(four, 0),
        native::u16_at(w, at + 2) == native::u16_at(four, 2),
{
    assert(four[0] == w[at]);
    assert(four[1] == w[at + 1]);
    assert(four[2] == w[at + 2]);
    assert(four[3] == w[at + 3]);
}

} // verus!
