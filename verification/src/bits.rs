//! Bit-level helpers for the pin-permutation engine: spec-level bit tests
//! on 8- and 32-bit words and the lemmas the scatter/gather loops need.

use vstd::prelude::*;

verus! {

/// Bit `i` of a 32-bit word.
pub open spec fn bit32(x: u32, i: u32) -> bool
    recommends
        i < 32,
{
    (x >> i) & 1 == 1
}

/// Bit `i` of a byte.
pub open spec fn bit8(x: u8, i: u8) -> bool
    recommends
        i < 8,
{
    (x >> i) & 1 == 1
}

/// Setting one bit leaves every other bit as it was.
pub proof fn lemma_bit32_or_one(x: u32, p: u32, q: u32)
    by (bit_vector)
    requires
        p < 32,
        q < 32,
    ensures
        bit32(x | (1u32 << p), q) == (bit32(x, q) || p == q),
{
}

/// The zero word has no bit set.
pub proof fn lemma_bit32_zero(q: u32)
    by (bit_vector)
    requires
        q < 32,
    ensures
        !bit32(0u32, q),
{
}

/// Testing a bit with a mask agrees with the bit function.
pub proof fn lemma_bit32_test(x: u32, p: u32)
    by (bit_vector)
    requires
        p < 32,
    ensures
        (x & (1u32 << p) != 0) == bit32(x, p),
{
}

/// Setting a bit below sixteen keeps the word below 2^16.
pub proof fn lemma_bit32_or_keeps_u16(x: u32, p: u32)
    by (bit_vector)
    requires
        p < 16,
        x < 0x10000,
    ensures
        x | (1u32 << p) < 0x10000,
{
}

/// A bit of a masked word is the conjunction of the two bits.
pub proof fn lemma_bit32_and(x: u32, m: u32, q: u32)
    by (bit_vector)
    requires
        q < 32,
    ensures
        bit32(x & m, q) == (bit32(x, q) && bit32(m, q)),
{
}

/// A word with nothing outside the mask has bits only where the mask does.
pub proof fn lemma_bit32_in_mask(x: u32, m: u32, q: u32)
    by (bit_vector)
    requires
        q < 32,
        x & !m == 0,
    ensures
        bit32(x, q) ==> bit32(m, q),
{
}

/// The bits of a low mask `2^k - 1` are exactly the bits below `k`.
pub proof fn lemma_bit32_low_mask(k: u32, q: u32)
    by (bit_vector)
    requires
        k < 32,
        q < 32,
    ensures
        bit32(((1u32 << k) - 1) as u32, q) == (q < k),
{
}

/// A word with nothing outside a mask below 2^16 is itself below 2^16.
pub proof fn lemma_bit32_masked_lt(x: u32, m: u32)
    by (bit_vector)
    requires
        x & !m == 0,
        m < 0x10000,
    ensures
        x < 0x10000,
{
}

/// A word below 2^16 has no bit at position sixteen or above.
pub proof fn lemma_bit32_u16_high_zero(x: u32, q: u32)
    by (bit_vector)
    requires
        x < 0x10000,
        16 <= q < 32,
    ensures
        !bit32(x, q),
{
}

/// Two words below 2^16 that agree on their low sixteen bits are equal.
pub proof fn lemma_u32_eq_from_low16(a: u32, b: u32)
    requires
        a < 0x10000,
        b < 0x10000,
        forall|i: u32| i < 16 ==> bit32(a, i) == bit32(b, i),
    ensures
        a == b,
{
    assert(bit32(a, 0) == bit32(b, 0));
    assert(bit32(a, 1) == bit32(b, 1));
    assert(bit32(a, 2) == bit32(b, 2));
    assert(bit32(a, 3) == bit32(b, 3));
    assert(bit32(a, 4) == bit32(b, 4));
    assert(bit32(a, 5) == bit32(b, 5));
    assert(bit32(a, 6) == bit32(b, 6));
    assert(bit32(a, 7) == bit32(b, 7));
    assert(bit32(a, 8) == bit32(b, 8));
    assert(bit32(a, 9) == bit32(b, 9));
    assert(bit32(a, 10) == bit32(b, 10));
    assert(bit32(a, 11) == bit32(b, 11));
    assert(bit32(a, 12) == bit32(b, 12));
    assert(bit32(a, 13) == bit32(b, 13));
    assert(bit32(a, 14) == bit32(b, 14));
    assert(bit32(a, 15) == bit32(b, 15));
    assert(a == b) by (bit_vector)
        requires
            a < 0x10000,
            b < 0x10000,
            bit32(a, 0) == bit32(b, 0),
            bit32(a, 1) == bit32(b, 1),
            bit32(a, 2) == bit32(b, 2),
            bit32(a, 3) == bit32(b, 3),
            bit32(a, 4) == bit32(b, 4),
            bit32(a, 5) == bit32(b, 5),
            bit32(a, 6) == bit32(b, 6),
            bit32(a, 7) == bit32(b, 7),
            bit32(a, 8) == bit32(b, 8),
            bit32(a, 9) == bit32(b, 9),
            bit32(a, 10) == bit32(b, 10),
            bit32(a, 11) == bit32(b, 11),
            bit32(a, 12) == bit32(b, 12),
            bit32(a, 13) == bit32(b, 13),
            bit32(a, 14) == bit32(b, 14),
            bit32(a, 15) == bit32(b, 15),
    ;
}

/// Clearing one bit leaves every other bit as it was.
pub proof fn lemma_bit32_andnot_one(x: u32, p: u32, q: u32)
    by (bit_vector)
    requires
        p < 32,
        q < 32,
    ensures
        bit32(x & !(1u32 << p), q) == (bit32(x, q) && p != q),
{
}

/// Setting one bit of a byte leaves every other bit as it was.
pub proof fn lemma_bit8_or_one(x: u8, p: u8, q: u8)
    by (bit_vector)
    requires
        p < 8,
        q < 8,
    ensures
        bit8(x | (1u8 << p), q) == (bit8(x, q) || p == q),
{
}

/// The zero byte has no bit set.
pub proof fn lemma_bit8_zero(q: u8)
    by (bit_vector)
    requires
        q < 8,
    ensures
        !bit8(0u8, q),
{
}

/// Testing a bit of a byte with a mask agrees with the bit function.
pub proof fn lemma_bit8_test(x: u8, p: u8)
    by (bit_vector)
    requires
        p < 8,
    ensures
        (x & (1u8 << p) != 0) == bit8(x, p),
{
}

/// Two bytes that agree on all eight bits are equal.
pub proof fn lemma_u8_eq_from_bits(a: u8, b: u8)
    requires
        forall|i: u8| i < 8 ==> bit8(a, i) == bit8(b, i),
    ensures
        a == b,
{
    assert(bit8(a, 0) == bit8(b, 0));
    assert(bit8(a, 1) == bit8(b, 1));
    assert(bit8(a, 2) == bit8(b, 2));
    assert(bit8(a, 3) == bit8(b, 3));
    assert(bit8(a, 4) == bit8(b, 4));
    assert(bit8(a, 5) == bit8(b, 5));
    assert(bit8(a, 6) == bit8(b, 6));
    assert(bit8(a, 7) == bit8(b, 7));
    assert(a == b) by (bit_vector)
        requires
            bit8(a, 0) == bit8(b, 0),
            bit8(a, 1) == bit8(b, 1),
            bit8(a, 2) == bit8(b, 2),
            bit8(a, 3) == bit8(b, 3),
            bit8(a, 4) == bit8(b, 4),
            bit8(a, 5) == bit8(b, 5),
            bit8(a, 6) == bit8(b, 6),
            bit8(a, 7) == bit8(b, 7),
    ;
}

} // verus!
