//! The naive bit-by-bit counter: the correctness oracle. Each word is
//! replaced by its population count, computed by testing every bit position
//! in turn.

use vstd::prelude::*;
use crate::popcount::pop;
use crate::popcount::bitpre_u16;
use crate::popcount::bitpre_u32;
use crate::popcount::bitpre_u64;
use crate::popcount::bitpre_u128;
use crate::popcount::lemma_pop_is_bits_u16;
use crate::popcount::lemma_pop_is_bits_u32;
use crate::popcount::lemma_pop_is_bits_u64;
use crate::popcount::lemma_pop_is_bits_u128;

verus! {


/// A single extracted bit is zero or one.
proof fn lemma_bit_le_one_u16(x: u16, i: u16)
    by (bit_vector)
    requires
        i < 16,
    ensures
        ((x >> i) & 1) <= 1,
{
}

/// Replaces every element of `experiment` by its population count, summing
/// the 16 bits of each word one at a time, and hands the array back.
pub fn naive_count_bits_16(experiment: &mut Vec<u16>) -> (ret: &mut Vec<u16>)
    ensures
        ret@.len() == old(experiment)@.len(),
        forall|i: int|
            0 <= i < old(experiment)@.len() ==> #[trigger] ret@[i] as nat == pop(
                old(experiment)@[i] as nat,
            ),
        *final(experiment) == *final(ret),
{
    let ghost inp = experiment@;
    let mut j: usize = 0;
    while j < experiment.len()
        invariant
            j <= inp.len(),
            experiment@.len() == inp.len(),
            forall|k: int| 0 <= k < j ==> #[trigger] experiment@[k] as nat == pop(inp[k] as nat),
            forall|k: int| j <= k < inp.len() ==> #[trigger] experiment@[k] == inp[k],
        decreases inp.len() - j,
    {
        let word = experiment[j];
        let mut sum: u16 = 0;
        let mut i: usize = 0;
        while i < 16
            invariant
                i <= 16,
                word == inp[j as int],
                sum == bitpre_u16(word, i as int),
                sum <= i,
            decreases 16 - i,
        {
            proof {
                lemma_bit_le_one_u16(word, i as u16);
            }
            sum = sum + ((word >> (i as u16)) & 1);
            i = i + 1;
        }
        proof {
            lemma_pop_is_bits_u16(word);
        }
        experiment[j] = sum;
        j = j + 1;
    }
    experiment
}


/// A single extracted bit is zero or one.
proof fn lemma_bit_le_one_u32(x: u32, i: u32)
    by (bit_vector)
    requires
        i < 32,
    ensures
        ((x >> i) & 1) <= 1,
{
}

/// Replaces every element of `experiment` by its population count, summing
/// the 32 bits of each word one at a time, and hands the array back.
pub fn naive_count_bits_32(experiment: &mut Vec<u32>) -> (ret: &mut Vec<u32>)
    ensures
        ret@.len() == old(experiment)@.len(),
        forall|i: int|
            0 <= i < old(experiment)@.len() ==> #[trigger] ret@[i] as nat == pop(
                old(experiment)@[i] as nat,
            ),
        *final(experiment) == *final(ret),
{
    let ghost inp = experiment@;
    let mut j: usize = 0;
    while j < experiment.len()
        invariant
            j <= inp.len(),
            experiment@.len() == inp.len(),
            forall|k: int| 0 <= k < j ==> #[trigger] experiment@[k] as nat == pop(inp[k] as nat),
            forall|k: int| j <= k < inp.len() ==> #[trigger] experiment@[k] == inp[k],
        decreases inp.len() - j,
    {
        let word = experiment[j];
        let mut sum: u32 = 0;
        let mut i: usize = 0;
        while i < 32
            invariant
                i <= 32,
                word == inp[j as int],
                sum == bitpre_u32(word, i as int),
                sum <= i,
            decreases 32 - i,
        {
            proof {
                lemma_bit_le_one_u32(word, i as u32);
            }
            sum = sum + ((word >> (i as u32)) & 1);
            i = i + 1;
        }
        proof {
            lemma_pop_is_bits_u32(word);
        }
        experiment[j] = sum;
        j = j + 1;
    }
    experiment
}


/// A single extracted bit is zero or one.
proof fn lemma_bit_le_one_u64(x: u64, i: u64)
    by (bit_vector)
    requires
        i < 64,
    ensures
        ((x >> i) & 1) <= 1,
{
}

/// Replaces every element of `experiment` by its population count, summing
/// the 64 bits of each word one at a time, and hands the array back.
pub fn naive_count_bits_64(experiment: &mut Vec<u64>) -> (ret: &mut Vec<u64>)
    ensures
        ret@.len() == old(experiment)@.len(),
        forall|i: int|
            0 <= i < old(experiment)@.len() ==> #[trigger] ret@[i] as nat == pop(
                old(experiment)@[i] as nat,
            ),
        *final(experiment) == *final(ret),
{
    let ghost inp = experiment@;
    let mut j: usize = 0;
    while j < experiment.len()
        invariant
            j <= inp.len(),
            experiment@.len() == inp.len(),
            forall|k: int| 0 <= k < j ==> #[trigger] experiment@[k] as nat == pop(inp[k] as nat),
            forall|k: int| j <= k < inp.len() ==> #[trigger] experiment@[k] == inp[k],
        decreases inp.len() - j,
    {
        let word = experiment[j];
        let mut sum: u64 = 0;
        let mut i: usize = 0;
        while i < 64
            invariant
                i <= 64,
                word == inp[j as int],
                sum == bitpre_u64(word, i as int),
                sum <= i,
            decreases 64 - i,
        {
            proof {
                lemma_bit_le_one_u64(word, i as u64);
            }
            sum = sum + ((word >> (i as u64)) & 1);
            i = i + 1;
        }
        proof {
            lemma_pop_is_bits_u64(word);
        }
        experiment[j] = sum;
        j = j + 1;
    }
    experiment
}


/// A single extracted bit is zero or one.
proof fn lemma_bit_le_one_u128(x: u128, i: u128)
    by (bit_vector)
    requires
        i < 128,
    ensures
        ((x >> i) & 1) <= 1,
{
}

/// Replaces every element of `experiment` by its population count, summing
/// the 128 bits of each word one at a time, and hands the array back.
pub fn naive_count_bits_128(experiment: &mut Vec<u128>) -> (ret: &mut Vec<u128>)
    ensures
        ret@.len() == old(experiment)@.len(),
        forall|i: int|
            0 <= i < old(experiment)@.len() ==> #[trigger] ret@[i] as nat == pop(
                old(experiment)@[i] as nat,
            ),
        *final(experiment) == *final(ret),
{
    let ghost inp = experiment@;
    let mut j: usize = 0;
    while j < experiment.len()
        invariant
            j <= inp.len(),
            experiment@.len() == inp.len(),
            forall|k: int| 0 <= k < j ==> #[trigger] experiment@[k] as nat == pop(inp[k] as nat),
            forall|k: int| j <= k < inp.len() ==> #[trigger] experiment@[k] == inp[k],
        decreases inp.len() - j,
    {
        let word = experiment[j];
        let mut sum: u128 = 0;
        let mut i: usize = 0;
        while i < 128
            invariant
                i <= 128,
                word == inp[j as int],
                sum == bitpre_u128(word, i as int),
                sum <= i,
            decreases 128 - i,
        {
            proof {
                lemma_bit_le_one_u128(word, i as u128);
            }
            sum = sum + ((word >> (i as u128)) & 1);
            i = i + 1;
        }
        proof {
            lemma_pop_is_bits_u128(word);
        }
        experiment[j] = sum;
        j = j + 1;
    }
    experiment
}


} // verus!
