//! Single-bit reasoning over `u64` bitboards: a bit-test spec function
//! and the handful of lemmas that relate it to the bitwise operators.

use vstd::prelude::*;

verus! {

/// Whether bit `i` of `x` is set; meaningful only for `i < 64`.
pub open spec fn bit64(x: u64, i: u64) -> bool {
    x & (1u64 << i) != 0
}

/// The zero word has no bit set.
pub proof fn lemma_bit_zero(i: u64)
    requires
        i < 64,
    ensures
        !bit64(0u64, i),
{
    assert((0u64 & (1u64 << i)) == 0) by (bit_vector)
        requires
            i < 64,
    ;
}

/// A one-bit word has exactly that bit set.
pub proof fn lemma_bit_single(i: u64, j: u64)
    requires
        i < 64,
        j < 64,
    ensures
        bit64(1u64 << i, j) == (i == j),
{
    assert(((1u64 << i) & (1u64 << j) != 0) == (i == j)) by (bit_vector)
        requires
            i < 64 && j < 64,
    ;
}

/// Bitwise or is pointwise disjunction.
pub proof fn lemma_bit_or(x: u64, y: u64, i: u64)
    requires
        i < 64,
    ensures
        bit64(x | y, i) == (bit64(x, i) || bit64(y, i)),
{
    assert(((x | y) & (1u64 << i) != 0) == ((x & (1u64 << i) != 0) || (y & (1u64 << i) != 0)))
        by (bit_vector)
        requires
            i < 64,
    ;
}

/// Bitwise and is pointwise conjunction.
pub proof fn lemma_bit_and(x: u64, y: u64, i: u64)
    requires
        i < 64,
    ensures
        bit64(x & y, i) == (bit64(x, i) && bit64(y, i)),
{
    assert(((x & y) & (1u64 << i) != 0) == ((x & (1u64 << i) != 0) && (y & (1u64 << i) != 0)))
        by (bit_vector)
        requires
            i < 64,
    ;
}

/// Bitwise xor is pointwise inequality.
pub proof fn lemma_bit_xor(x: u64, y: u64, i: u64)
    requires
        i < 64,
    ensures
        bit64(x ^ y, i) == (bit64(x, i) != bit64(y, i)),
{
    assert(((x ^ y) & (1u64 << i) != 0) == ((x & (1u64 << i) != 0) != (y & (1u64 << i) != 0)))
        by (bit_vector)
        requires
            i < 64,
    ;
}

/// Bitwise not is pointwise negation.
pub proof fn lemma_bit_not(x: u64, i: u64)
    requires
        i < 64,
    ensures
        bit64(!x, i) == !bit64(x, i),
{
    assert(((!x) & (1u64 << i) != 0) == !(x & (1u64 << i) != 0)) by (bit_vector)
        requires
            i < 64,
    ;
}

/// A left shift moves every bit up by `k`.
pub proof fn lemma_bit_shl(x: u64, k: u64, i: u64)
    requires
        k < 64,
        i < 64,
    ensures
        bit64(x << k, i) == (i >= k && bit64(x, (i - k) as u64)),
{
    assert(((x << k) & (1u64 << i) != 0) == (i >= k && (x & (1u64 << (i - k) as u64) != 0)))
        by (bit_vector)
        requires
            k < 64 && i < 64,
    ;
}

/// A right shift moves every bit down by `k`.
pub proof fn lemma_bit_shr(x: u64, k: u64, i: u64)
    requires
        k < 64,
        i < 64,
    ensures
        bit64(x >> k, i) == (i + k < 64 && bit64(x, (i + k) as u64)),
{
    assert(((x >> k) & (1u64 << i) != 0) == (i + k < 64 && (x & (1u64 << (i + k) as u64) != 0)))
        by (bit_vector)
        requires
            k < 64 && i < 64,
    ;
}


/// A non-zero word has a set bit.
pub proof fn lemma_nonzero_bit(x: u64)
    requires
        x != 0,
    ensures
        exists|i: u64| i < 64 && #[trigger] bit64(x, i),
{
    vstd::std_specs::bits::axiom_u64_trailing_zeros(x);
    let tz = vstd::std_specs::bits::u64_trailing_zeros(x) as u64;
    assert((x >> tz) & 1u64 == 1u64);
    assert(x & (1u64 << tz) != 0) by (bit_vector)
        requires
            tz < 64 && (x >> tz) & 1u64 == 1u64,
    ;
    assert(bit64(x, tz));
}

} // verus!
