//! Rounding lengths up to an alignment.
use vstd::arithmetic::div_mod;
use vstd::arithmetic::mul;
use vstd::arithmetic::power2;
use vstd::arithmetic::power;
use vstd::bits;
use vstd::prelude::*;

use crate::uapi::NLA_ALIGNTO;

verus! {

/// The smallest multiple of `align` that is at least `v`.
pub open spec fn align_up(v: int, align: int) -> int {
    ((v + align - 1) / align) * align
}

/// Rounds `v` up to `align`, which is meant to be a power of two.
pub fn align_to(v: usize, align: usize) -> (r: usize)
    requires
        align > 0,
        v + (align - 1) <= usize::MAX,
    ensures
        r == ((v + (align - 1)) as usize) & !((align - 1) as usize),
        power2::is_pow2(align as int) ==> r == align_up(v as int, align as int),
{
    let r: usize = (v + (align - 1)) & !(align - 1);
    proof {
        if power2::is_pow2(align as int) {
            lemma_mask_rounds_down((v + (align - 1)) as usize, align);
        }
    }
    r
}

/// Clearing the bits below a power of two rounds down to a multiple of it.
proof fn lemma_mask_rounds_down(x: usize, align: usize)
    requires
        power2::is_pow2(align as int),
    ensures
        x & !((align - 1) as usize) == (x as int / align as int) * align as int,
{
    power2::is_pow2_equiv(align as int);
    let n: nat = choose|n: nat| power::pow(2, n) == align;
    assert(power2::pow2(n) == align);
    if n >= usize::BITS {
        lemma_top_power_bounds(n);
    }
    power2::lemma_pow2_pos(n);
    bits::lemma_usize_low_bits_mask_is_mod(x, n);
    let low: usize = (align - 1) as usize;
    assert(x & !low == x - (x & low)) by (bit_vector);
    div_mod::lemma_fundamental_div_mod(x as int, align as int);
    mul::lemma_mul_is_commutative(align as int, x as int / align as int);
}

/// No power of two from the width of `usize` on fits in it.
proof fn lemma_top_power_bounds(n: nat)
    requires
        n >= usize::BITS,
    ensures
        power2::pow2(n) > usize::MAX,
{
    power2::lemma2_to64();
    if n > usize::BITS {
        power2::lemma_pow2_strictly_increases(usize::BITS as nat, n);
    }
}

/// Rounds `v` up to a multiple of 4, the alignment of messages and of attributes.
pub(crate) fn align_to_4(v: usize) -> (r: usize)
    requires
        v + 3 <= usize::MAX,
    ensures
        r == align_up(v as int, 4),
{
    proof {
        reveal_with_fuel(power2::is_pow2, 3);
    }
    align_to(v, NLA_ALIGNTO)
}

/// Rounding up gives a multiple of the alignment, reaches the value and goes no further than needed,
/// and leaves alone what is aligned already.
pub proof fn law_align_up_is_least(v: int, align: int)
    requires
        align > 0,
    ensures
        align_up(v, align) % align == 0,
        v <= align_up(v, align) < v + align,
        align_up(align_up(v, align), align) == align_up(v, align),
{
    let q = (v + align - 1) / align;
    div_mod::lemma_fundamental_div_mod(v + align - 1, align);
    div_mod::lemma_mod_bound(v + align - 1, align);
    mul::lemma_mul_is_commutative(align, q);
    div_mod::lemma_mod_multiples_basic(q, align);
    assert((q * align + align - 1) / align == q) by (nonlinear_arith)
        requires
            align > 0,
    ;
}

/// What rounding up to 4 gives: a multiple of 4 that reaches `v` and no further than needed.
pub proof fn lemma_align_up_4(v: int)
    ensures
        align_up(v, 4) % 4 == 0,
        v <= align_up(v, 4) < v + 4,
        v % 4 == 0 ==> align_up(v, 4) == v,
{
}

} // verus!
