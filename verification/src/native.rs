//! Integers as the bytes in which the machine stores them.
use vstd::endian;
use vstd::prelude::*;

verus! {

/// The two bytes of `v`, in the machine's order.
pub open spec fn u16_bytes(v: u16) -> Seq<u8> {
    let low = (v % 256) as u8;
    let high = (v / 256) as u8;
    match endian::endianness() {
        endian::Endian::Little => seq![low, high],
        endian::Endian::Big => seq![high, low],
    }
}

/// The four bytes of `v`, in the machine's order.
pub open spec fn u32_bytes(v: u32) -> Seq<u8> {
    let b0 = (v % 256) as u8;
    let b1 = (v / 256 % 256) as u8;
    let b2 = (v / 0x1_0000 % 256) as u8;
    let b3 = (v / 0x100_0000) as u8;
    match endian::endianness() {
        endian::Endian::Little => seq![b0, b1, b2, b3],
        endian::Endian::Big => seq![b3, b2, b1, b0],
    }
}

/// The four bytes of `v` in two's complement, in the machine's order.
pub open spec fn i32_bytes(v: i32) -> Seq<u8> {
    u32_bytes(v as u32)
}

/// The integer that the two bytes at `at` hold, in the machine's order.
pub open spec fn u16_at(s: Seq<u8>, at: int) -> u16 {
    match endian::endianness() {
        endian::Endian::Little => (s[at] + 256 * s[at + 1]) as u16,
        endian::Endian::Big => (s[at + 1] + 256 * s[at]) as u16,
    }
}

/// The integer that the four bytes at `at` hold, in the machine's order.
pub open spec fn u32_at(s: Seq<u8>, at: int) -> u32 {
    match endian::endianness() {
        endian::Endian::Little => (s[at] + 256 * s[at + 1] + 0x1_0000 * s[at + 2] + 0x100_0000
            * s[at + 3]) as u32,
        endian::Endian::Big => (s[at + 3] + 256 * s[at + 2] + 0x1_0000 * s[at + 1]
            + 0x100_0000 * s[at]) as u32,
    }
}

/// The integer that the four bytes at `at` hold in two's complement, in the machine's order.
pub open spec fn i32_at(s: Seq<u8>, at: int) -> i32 {
    u32_at(s, at) as i32
}

/// `v` with its two bytes in network order: stored by the machine, its high byte comes first.
pub open spec fn network_order(v: u16) -> u16 {
    match endian::endianness() {
        endian::Endian::Little => ((v % 256) * 256 + v / 256) as u16,
        endian::Endian::Big => v,
    }
}

/// `u16::to_be` of the standard library: on a big endian machine the value itself, on a little
/// endian one the value with its two bytes swapped.
pub assume_specification[ u16::to_be ](x: u16) -> (r: u16)
    ensures
        r == network_order(x),
;

/// Converts `u` from the machine's byte order to network order.
pub fn htons(u: u16) -> (r: u16)
    ensures
        r == network_order(u),
{
    u.to_be()
}

/// Whether the machine stores the low byte of an integer first.
pub(crate) fn low_byte_first() -> (r: bool)
    ensures
        r <==> endian::endianness() is Little,
{
    htons(1) != 1
}

/// Appends the two bytes of `v` to `out`.
pub(crate) fn push_u16(out: &mut Vec<u8>, v: u16)
    ensures
        final(out)@ == old(out)@ + u16_bytes(v),
{
    let low: u8 = (v % 256) as u8;
    let high: u8 = (v / 256) as u8;
    if low_byte_first() {
        out.push(low);
        out.push(high);
    } else {
        out.push(high);
        out.push(low);
    }
}

/// Appends the four bytes of `v` to `out`.
pub(crate) fn push_u32(out: &mut Vec<u8>, v: u32)
    ensures
        final(out)@ == old(out)@ + u32_bytes(v),
{
    let b0: u8 = (v % 256) as u8;
    let b1: u8 = (v / 256 % 256) as u8;
    let b2: u8 = (v / 0x1_0000 % 256) as u8;
    let b3: u8 = (v / 0x100_0000) as u8;
    if low_byte_first() {
        out.push(b0);
        out.push(b1);
        out.push(b2);
        out.push(b3);
    } else {
        out.push(b3);
        out.push(b2);
        out.push(b1);
        out.push(b0);
    }
}

/// Appends the four bytes of `v` to `out`.
pub(crate) fn push_i32(out: &mut Vec<u8>, v: i32)
    ensures
        final(out)@ == old(out)@ + i32_bytes(v),
{
    push_u32(out, v as u32);
}

/// Appends the bytes of `more` to `out`.
pub(crate) fn push_bytes(out: &mut Vec<u8>, more: &[u8])
    ensures
        final(out)@ == old(out)@ + more@,
{
    let mut i: usize = 0;
    while i < more.len()
        invariant
            i <= more@.len(),
            out@ == old(out)@ + more@.take(i as int),
        decreases more@.len() - i,
    {
        out.push(more[i]);
        i += 1;
        assert(more@.take(i as int) == more@.take(i - 1).push(more@[i - 1]));
    }
    assert(more@.take(i as int) == more@);
}

/// Reads the two bytes at `at`.
pub(crate) fn read_u16(buf: &[u8], at: usize) -> (r: u16)
    requires
        at + 2 <= buf@.len(),
    ensures
        r == u16_at(buf@, at as int),
{
    let first: u16 = buf[at] as u16;
    let second: u16 = buf[at + 1] as u16;
    if low_byte_first() {
        first + 256 * second
    } else {
        second + 256 * first
    }
}

/// Reads the four bytes at `at`.
pub(crate) fn read_u32(buf: &[u8], at: usize) -> (r: u32)
    requires
        at + 4 <= buf@.len(),
    ensures
        r == u32_at(buf@, at as int),
{
    let b0: u32 = buf[at] as u32;
    let b1: u32 = buf[at + 1] as u32;
    let b2: u32 = buf[at + 2] as u32;
    let b3: u32 = buf[at + 3] as u32;
    if low_byte_first() {
        b0 + 256 * b1 + 0x1_0000 * b2 + 0x100_0000 * b3
    } else {
        b3 + 256 * b2 + 0x1_0000 * b1 + 0x100_0000 * b0
    }
}

/// Reads the four bytes at `at`.
pub(crate) fn read_i32(buf: &[u8], at: usize) -> (r: i32)
    requires
        at + 4 <= buf@.len(),
    ensures
        r == i32_at(buf@, at as int),
{
    read_u32(buf, at) as i32
}

/// An integer reads back from its own bytes, wherever they stand.
pub proof fn lemma_u16_reads_back(s: Seq<u8>, at: int, v: u16)
    requires
        0 <= at,
        at + 2 <= s.len(),
        s.subrange(at, at + 2) == u16_bytes(v),
    ensures
        u16_at(s, at) == v,
{
    assert(s[at] == s.subrange(at, at + 2)[0]);
    assert(s[at + 1] == s.subrange(at, at + 2)[1]);
}

/// An integer reads back from its own bytes, wherever they stand.
pub proof fn lemma_u32_reads_back(s: Seq<u8>, at: int, v: u32)
    requires
        0 <= at,
        at + 4 <= s.len(),
        s.subrange(at, at + 4) == u32_bytes(v),
    ensures
        u32_at(s, at) == v,
{
    assert(s[at] == s.subrange(at, at + 4)[0]);
    assert(s[at + 1] == s.subrange(at, at + 4)[1]);
    assert(s[at + 2] == s.subrange(at, at + 4)[2]);
    assert(s[at + 3] == s.subrange(at, at + 4)[3]);
}

/// A signed integer reads back from its own bytes, wherever they stand.
pub proof fn lemma_i32_reads_back(s: Seq<u8>, at: int, v: i32)
    requires
        0 <= at,
        at + 4 <= s.len(),
        s.subrange(at, at + 4) == i32_bytes(v),
    ensures
        i32_at(s, at) == v,
{
    lemma_u32_reads_back(s, at, v as u32);
    assert((v as u32) as i32 == v) by (bit_vector);
}

/// What [`htons`] returns is stored with its high byte first.
pub proof fn law_network_order_is_stored_high_byte_first(v: u16)
    ensures
        u16_bytes(network_order(v)) == seq![(v / 256) as u8, (v % 256) as u8],
{
}

} // verus!
