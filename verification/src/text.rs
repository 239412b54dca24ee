//! Strings in messages.
use vstd::prelude::*;
use vstd::slice::slice_subrange;
use vstd::utf8;

verus! {

/// Whether `s` is a string in the convention of C: it ends in a zero byte and holds no other.
pub open spec fn is_c_string(s: Seq<u8>) -> bool {
    &&& s.len() > 0
    &&& s.last() == 0
    &&& forall|i: int| 0 <= i < s.len() - 1 ==> s[i] != 0
}

/// Whether `s` is a string in the convention of C.
pub(crate) fn ends_at_first_zero(s: &[u8]) -> (r: bool)
    ensures
        r == is_c_string(s@),
{
    if s.len() == 0 {
        return false;
    }
    let last: usize = s.len() - 1;
    let mut i: usize = 0;
    while i < last
        invariant
            i <= last,
            last + 1 == s@.len(),
            forall|j: int| 0 <= j < i ==> s@[j] != 0,
        decreases last - i,
    {
        if s[i] == 0 {
            return false;
        }
        i += 1;
    }
    s[last] == 0
}

/// Whether `a` and `b` hold the same bytes.
pub(crate) fn same_bytes(a: &[u8], b: &[u8]) -> (r: bool)
    ensures
        r == (a@ == b@),
{
    if a.len() != b.len() {
        return false;
    }
    let mut i: usize = 0;
    while i < a.len()
        invariant
            i <= a@.len(),
            a@.len() == b@.len(),
            forall|j: int| 0 <= j < i ==> a@[j] == b@[j],
        decreases a@.len() - i,
    {
        if a[i] != b[i] {
            return false;
        }
        i += 1;
    }
    assert(a@ == b@);
    true
}

/// The text that these bytes spell in UTF-8, with replacement characters where they spell none.
pub uninterp spec fn lossy_utf8(bytes: Seq<u8>) -> Seq<char>;

/// `String::from_utf8_lossy` of the standard library: the text that the bytes spell in UTF-8. What
/// it puts in place of bytes that are no UTF-8 is left to [`lossy_utf8`]; where there are none, it
/// is the text itself.
#[verifier::external_body]
fn from_utf8_lossy(bytes: &[u8]) -> (r: String)
    ensures
        r@ == lossy_utf8(bytes@),
        utf8::valid_utf8(bytes@) ==> r@ == utf8::decode_utf8(bytes@),
{
    String::from_utf8_lossy(bytes).into_owned()
}

/// The text that these bytes spell in UTF-8, as [`String::from_utf8_lossy`] gives it.
pub open spec fn text_of(bytes: Seq<u8>) -> Seq<char> {
    if utf8::valid_utf8(bytes) {
        utf8::decode_utf8(bytes)
    } else {
        lossy_utf8(bytes)
    }
}

/// The text of `s`, if it is a string in the convention of C.
pub open spec fn c_text(s: Seq<u8>) -> Option<Seq<char>> {
    if is_c_string(s) {
        Some(text_of(s.drop_last()))
    } else {
        None
    }
}

/// The text of `s`, if it is a string in the convention of C. Bytes that are no UTF-8 show as
/// replacement characters.
pub fn c_string_text(s: &[u8]) -> (r: Option<String>)
    ensures
        match r {
            Some(text) => c_text(s@) == Some(text@),
            None => c_text(s@) is None,
        },
{
    if ends_at_first_zero(s) {
        let bytes: &[u8] = slice_subrange(s, 0, s.len() - 1);
        assert(bytes@ == s@.drop_last());
        Some(from_utf8_lossy(bytes))
    } else {
        None
    }
}

} // verus!
