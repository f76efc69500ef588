//! The mathematical model of population counting: the spec function [`pop`]
//! and, for each supported word width, the bit-sum function that the
//! word-level counting algorithms are proved against.

use vstd::prelude::*;

verus! {

/// Number of set bits in the binary representation of `n`.
pub open spec fn pop(n: nat) -> nat
    decreases n,
{
    if n == 0 {
        0
    } else {
        pop(n / 2) + n % 2
    }
}

/// A population count never exceeds the bit width of its argument:
/// `n < 2^w` implies `pop(n) <= w`.
pub proof fn lemma_pop_bound(n: nat, w: nat)
    requires
        n < vstd::arithmetic::power2::pow2(w),
    ensures
        pop(n) <= w,
    decreases w,
{
    if w == 0 {
        assert(vstd::arithmetic::power2::pow2(0) == 1) by {
            vstd::arithmetic::power2::lemma2_to64();
        }
    } else {
        vstd::arithmetic::power2::lemma_pow2_unfold(w);
        assert(n / 2 < vstd::arithmetic::power2::pow2((w - 1) as nat));
        lemma_pop_bound(n / 2, (w - 1) as nat);
    }
}


/// Sum of the low `n` bits of `x`, taken one bit at a time.
pub open spec fn bitpre_u16(x: u16, n: int) -> int
    decreases n,
{
    if n <= 0 {
        0
    } else {
        bitpre_u16(x, n - 1) + ((x >> ((n - 1) as u16)) & 1)
    }
}

proof fn lemma_pop_tail_u16(x: u16, k: u16)
    requires
        k < 16,
    ensures
        pop((x >> k) as nat) == bitpre_u16(x, 16) - bitpre_u16(x, k as int),
    decreases 16 - k,
{
    assert(pop(0) == 0);
    if k == 15 {
        assert((x >> k) / 2 == 0 && (x >> k) % 2 == ((x >> k) & 1)) by (bit_vector)
            requires
                k == 15,
        ;
        assert(bitpre_u16(x, 16) == bitpre_u16(x, 15) + ((x >> 15) & 1));
    } else {
        assert((x >> k) / 2 == (x >> (k + 1) as u16) && (x >> k) % 2 == ((x >> k) & 1))
            by (bit_vector)
            requires
                k < 15,
        ;
        lemma_pop_tail_u16(x, (k + 1) as u16);
        assert(bitpre_u16(x, k + 1 as int) == bitpre_u16(x, k as int) + ((x >> k) & 1));
    }
}

/// The population count of a 16-bit word is the sum of its 16 bits.
pub proof fn lemma_pop_is_bits_u16(x: u16)
    ensures
        pop(x as nat) == bitpre_u16(x, 16),
{
    lemma_pop_tail_u16(x, 0);
    assert(x >> 0u16 == x) by (bit_vector);
    assert(bitpre_u16(x, 0) == 0);
}


/// Sum of the low `n` bits of `x`, taken one bit at a time.
pub open spec fn bitpre_u32(x: u32, n: int) -> int
    decreases n,
{
    if n <= 0 {
        0
    } else {
        bitpre_u32(x, n - 1) + ((x >> ((n - 1) as u32)) & 1)
    }
}

proof fn lemma_pop_tail_u32(x: u32, k: u32)
    requires
        k < 32,
    ensures
        pop((x >> k) as nat) == bitpre_u32(x, 32) - bitpre_u32(x, k as int),
    decreases 32 - k,
{
    assert(pop(0) == 0);
    if k == 31 {
        assert((x >> k) / 2 == 0 && (x >> k) % 2 == ((x >> k) & 1)) by (bit_vector)
            requires
                k == 31,
        ;
        assert(bitpre_u32(x, 32) == bitpre_u32(x, 31) + ((x >> 31) & 1));
    } else {
        assert((x >> k) / 2 == (x >> (k + 1) as u32) && (x >> k) % 2 == ((x >> k) & 1))
            by (bit_vector)
            requires
                k < 31,
        ;
        lemma_pop_tail_u32(x, (k + 1) as u32);
        assert(bitpre_u32(x, k + 1 as int) == bitpre_u32(x, k as int) + ((x >> k) & 1));
    }
}

/// The population count of a 32-bit word is the sum of its 32 bits.
pub proof fn lemma_pop_is_bits_u32(x: u32)
    ensures
        pop(x as nat) == bitpre_u32(x, 32),
{
    lemma_pop_tail_u32(x, 0);
    assert(x >> 0u32 == x) by (bit_vector);
    assert(bitpre_u32(x, 0) == 0);
}


/// Sum of the low `n` bits of `x`, taken one bit at a time.
pub open spec fn bitpre_u64(x: u64, n: int) -> int
    decreases n,
{
    if n <= 0 {
        0
    } else {
        bitpre_u64(x, n - 1) + ((x >> ((n - 1) as u64)) & 1)
    }
}

proof fn lemma_pop_tail_u64(x: u64, k: u64)
    requires
        k < 64,
    ensures
        pop((x >> k) as nat) == bitpre_u64(x, 64) - bitpre_u64(x, k as int),
    decreases 64 - k,
{
    assert(pop(0) == 0);
    if k == 63 {
        assert((x >> k) / 2 == 0 && (x >> k) % 2 == ((x >> k) & 1)) by (bit_vector)
            requires
                k == 63,
        ;
        assert(bitpre_u64(x, 64) == bitpre_u64(x, 63) + ((x >> 63) & 1));
    } else {
        assert((x >> k) / 2 == (x >> (k + 1) as u64) && (x >> k) % 2 == ((x >> k) & 1))
            by (bit_vector)
            requires
                k < 63,
        ;
        lemma_pop_tail_u64(x, (k + 1) as u64);
        assert(bitpre_u64(x, k + 1 as int) == bitpre_u64(x, k as int) + ((x >> k) & 1));
    }
}

/// The population count of a 64-bit word is the sum of its 64 bits.
pub proof fn lemma_pop_is_bits_u64(x: u64)
    ensures
        pop(x as nat) == bitpre_u64(x, 64),
{
    lemma_pop_tail_u64(x, 0);
    assert(x >> 0u64 == x) by (bit_vector);
    assert(bitpre_u64(x, 0) == 0);
}


/// Sum of the low `n` bits of `x`, taken one bit at a time.
pub open spec fn bitpre_u128(x: u128, n: int) -> int
    decreases n,
{
    if n <= 0 {
        0
    } else {
        bitpre_u128(x, n - 1) + ((x >> ((n - 1) as u128)) & 1)
    }
}

proof fn lemma_pop_tail_u128(x: u128, k: u128)
    requires
        k < 128,
    ensures
        pop((x >> k) as nat) == bitpre_u128(x, 128) - bitpre_u128(x, k as int),
    decreases 128 - k,
{
    assert(pop(0) == 0);
    if k == 127 {
        assert((x >> k) / 2 == 0 && (x >> k) % 2 == ((x >> k) & 1)) by (bit_vector)
            requires
                k == 127,
        ;
        assert(bitpre_u128(x, 128) == bitpre_u128(x, 127) + ((x >> 127) & 1));
    } else {
        assert((x >> k) / 2 == (x >> (k + 1) as u128) && (x >> k) % 2 == ((x >> k) & 1))
            by (bit_vector)
            requires
                k < 127,
        ;
        lemma_pop_tail_u128(x, (k + 1) as u128);
        assert(bitpre_u128(x, k + 1 as int) == bitpre_u128(x, k as int) + ((x >> k) & 1));
    }
}

/// The population count of a 128-bit word is the sum of its 128 bits.
pub proof fn lemma_pop_is_bits_u128(x: u128)
    ensures
        pop(x as nat) == bitpre_u128(x, 128),
{
    lemma_pop_tail_u128(x, 0);
    assert(x >> 0u128 == x) by (bit_vector);
    assert(bitpre_u128(x, 0) == 0);
}


} // verus!
