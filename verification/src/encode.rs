//! What attributes look like on the wire.
use vstd::prelude::*;

use crate::attr::NlAttrHeader;
use crate::error::IoError;
use crate::{align, attr};

verus! {

/// `n` zero bytes.
pub open spec fn zeros(n: int) -> Seq<u8> {
    Seq::new(n as nat, |i: int| 0u8)
}

/// An attribute with its padding.
pub open spec fn encode_attr(attr_type: u16, payload: Seq<u8>) -> Seq<u8> {
    attr::header_for(attr_type, payload.len() as int).bytes() + payload + zeros(
        align::align_up(payload.len() as int, 4) - payload.len(),
    )
}

/// A list of attributes, each given by its type and its payload.
pub open spec fn encode_list(list: Seq<(u16, Seq<u8>)>) -> Seq<u8>
    decreases list.len(),
{
    if list.len() == 0 {
        Seq::empty()
    } else {
        encode_list(list.drop_last()) + encode_attr(list.last().0, list.last().1)
    }
}

/// An attribute whose payload is a list of attributes.
pub open spec fn encode_nested(attr_type: u16, list: Seq<(u16, Seq<u8>)>) -> Seq<u8> {
    encode_attr(attr::nested_type(attr_type), encode_list(list))
}

/// The length of an attribute with its padding.
pub proof fn lemma_encode_attr_len(attr_type: u16, payload: Seq<u8>)
    ensures
        encode_attr(attr_type, payload).len() == 4 + align::align_up(payload.len() as int, 4),
        encode_attr(attr_type, payload).len() % 4 == 0,
{
    align::lemma_align_up_4(payload.len() as int);
}

/// A list of attributes needs no padding.
pub proof fn lemma_encode_list_len(list: Seq<(u16, Seq<u8>)>)
    ensures
        encode_list(list).len() % 4 == 0,
    decreases list.len(),
{
    if list.len() > 0 {
        lemma_encode_list_len(list.drop_last());
        lemma_encode_attr_len(list.last().0, list.last().1);
    }
}

/// A list grows by one attribute.
pub proof fn lemma_encode_list_push(list: Seq<(u16, Seq<u8>)>, attr_type: u16, payload: Seq<u8>)
    ensures
        encode_list(list.push((attr_type, payload))) == encode_list(list) + encode_attr(
            attr_type,
            payload,
        ),
{
    assert(list.push((attr_type, payload)).drop_last() == list);
}

/// An attribute that is written where a buffer is still blank takes its padding from there.
pub proof fn lemma_write_on_blank(s: Seq<u8>, front: Seq<u8>, attr_type: u16, payload: Seq<u8>)
    requires
        front.len() + 4 + align::align_up(payload.len() as int, 4) <= s.len(),
        s == front + zeros(s.len() - front.len()),
        s.len() <= usize::MAX,
    ensures
        attr::write_result(s.len() as int, front.len() as int, payload.len() as int) == Ok::<
            usize,
            IoError,
        >((4 + align::align_up(payload.len() as int, 4)) as usize),
        ({
            let written = front + encode_attr(attr_type, payload);
            attr::after_write(s, front.len() as int, attr_type, payload) == written + zeros(
                s.len() - written.len(),
            )
        }),
{
    align::lemma_align_up_4(payload.len() as int);
    lemma_encode_attr_len(attr_type, payload);
    let written = front + encode_attr(attr_type, payload);
    assert(attr::fits(s.len() as int, front.len() as int, 4));
    assert(attr::after_write(s, front.len() as int, attr_type, payload) =~= written + zeros(
        s.len() - written.len(),
    ));
}

/// A buffer that was blank holds a list of attributes, except for the header around it.
pub open spec fn holds_list(s: Seq<u8>, offset: int, list: Seq<(u16, Seq<u8>)>) -> bool {
    let front = zeros(4) + encode_list(list);
    &&& offset == front.len()
    &&& offset <= s.len()
    &&& s == front + zeros(s.len() - offset)
}

/// A blank buffer holds the empty list.
pub proof fn lemma_list_starts(s: Seq<u8>)
    requires
        4 <= s.len(),
        s == zeros(s.len() as int),
    ensures
        holds_list(s, 4, Seq::empty()),
{
    assert(s =~= zeros(4) + encode_list(Seq::empty()) + zeros(s.len() - 4));
}

/// Writing one more attribute behind a list makes the list longer by it.
pub proof fn lemma_list_grows(
    s: Seq<u8>,
    offset: int,
    list: Seq<(u16, Seq<u8>)>,
    attr_type: u16,
    payload: Seq<u8>,
)
    requires
        holds_list(s, offset, list),
        offset + 4 + align::align_up(payload.len() as int, 4) <= s.len(),
        s.len() <= usize::MAX,
    ensures
        attr::write_result(s.len() as int, offset, payload.len() as int) == Ok::<usize, IoError>(
            (4 + align::align_up(payload.len() as int, 4)) as usize,
        ),
        holds_list(
            attr::after_write(s, offset, attr_type, payload),
            offset + 4 + align::align_up(payload.len() as int, 4),
            list.push((attr_type, payload)),
        ),
{
    let front = zeros(4) + encode_list(list);
    lemma_write_on_blank(s, front, attr_type, payload);
    lemma_encode_list_push(list, attr_type, payload);
    lemma_encode_attr_len(attr_type, payload);
    assert(front + encode_attr(attr_type, payload) =~= zeros(4) + encode_list(
        list.push((attr_type, payload)),
    ));
}

/// Writing the header around a list completes the attribute.
pub proof fn lemma_list_closes(
    s: Seq<u8>,
    offset: int,
    list: Seq<(u16, Seq<u8>)>,
    top_attr_type: u16,
)
    requires
        holds_list(s, offset, list),
        offset <= u16::MAX,
    ensures
        ({
            let header = NlAttrHeader {
                nla_len: offset as u16,
                nla_type: attr::nested_type(top_attr_type),
            };
            attr::splice(s, 0, header.bytes()) == encode_nested(top_attr_type, list) + zeros(
                s.len() - offset,
            )
        }),
        encode_nested(top_attr_type, list).len() == offset,
{
    lemma_encode_list_len(list);
    align::lemma_align_up_4(encode_list(list).len() as int);
    lemma_encode_attr_len(attr::nested_type(top_attr_type), encode_list(list));
    let header = NlAttrHeader { nla_len: offset as u16, nla_type: attr::nested_type(top_attr_type) };
    assert(attr::splice(s, 0, header.bytes()) =~= encode_nested(top_attr_type, list) + zeros(
        s.len() - offset,
    ));
}

} // verus!
