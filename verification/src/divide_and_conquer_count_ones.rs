//! The per-word SWAR baseline: the classic divide-and-conquer population
//! count that folds adjacent bit groups within each word, doubling the group
//! width each round, and never combines distinct array elements. It serves
//! as a performance baseline for the fold-and-pack engine.

use vstd::prelude::*;
use crate::popcount::pop;
use crate::popcount::bitpre_u16;
use crate::popcount::bitpre_u32;
use crate::popcount::bitpre_u64;
use crate::popcount::bitpre_u128;
use crate::popcount::lemma_pop_is_bits_u16;
use crate::popcount::lemma_pop_is_bits_u32;
use crate::popcount::lemma_pop_is_bits_u64;
use crate::popcount::lemma_pop_is_bits_u128;

verus! {


/// One doubling round: adds each bit group to the group `s` bits above it.
pub open spec fn fold_step_u16(w: u16, m: u16, s: u16) -> u16 {
    ((w & m) + ((w >> s) & m)) as u16
}

/// The fully folded word: after all 4 doubling rounds the whole word
/// holds its own population count.
pub open spec fn folded_u16(x: u16) -> u16 {
    fold_step_u16(fold_step_u16(fold_step_u16(fold_step_u16(x, 0x5555, 1), 0x3333, 2), 0x0F0F, 4), 0x00FF, 8)
}

/// The doubling rounds compute the bit sum of the word, and none of their
/// additions overflows.
#[verifier::rlimit(100)]
proof fn lemma_folded_u16(x: u16)
    by (bit_vector)
    ensures
        folded_u16(x) == bitpre_u16(x, 16),
        (x & 0x5555) + ((x >> 1) & 0x5555) <= 0xFFFF,
        (fold_step_u16(x, 0x5555, 1) & 0x3333) + ((fold_step_u16(x, 0x5555, 1) >> 2) & 0x3333) <= 0xFFFF,
        (fold_step_u16(fold_step_u16(x, 0x5555, 1), 0x3333, 2) & 0x0F0F) + ((fold_step_u16(fold_step_u16(x, 0x5555, 1), 0x3333, 2) >> 4) & 0x0F0F) <= 0xFFFF,
        (fold_step_u16(fold_step_u16(fold_step_u16(x, 0x5555, 1), 0x3333, 2), 0x0F0F, 4) & 0x00FF) + ((fold_step_u16(fold_step_u16(fold_step_u16(x, 0x5555, 1), 0x3333, 2), 0x0F0F, 4) >> 8) & 0x00FF) <= 0xFFFF,
{
}

/// Folds one 16-bit word down to its population count.
fn fold_word_u16(x: u16) -> (r: u16)
    ensures
        r as nat == pop(x as nat),
{
    proof {
        lemma_pop_is_bits_u16(x);
    }
    let m: [u16; 8] = [
        0b0101010101010101u16,
        0b0011001100110011u16,
        0b0000111100001111u16,
        0b0000000011111111u16,
        0b1111111111111111u16,
        0b1111111111111111u16,
        0b1111111111111111u16,
        0b1111111111111111u16,
    ];
    proof {
        lemma_folded_u16(x);
    }
    let w0 = (x & m[0]) + ((x >> 1u16) & m[0]);
    let w1 = (w0 & m[1]) + ((w0 >> 2u16) & m[1]);
    let w2 = (w1 & m[2]) + ((w1 >> 4u16) & m[2]);
    let w3 = (w2 & m[3]) + ((w2 >> 8u16) & m[3]);
    w3
}

/// The per-word SWAR baseline for 16-bit words: returns, per element, the
/// number of set bits of that element, never combining array positions.
pub fn naive_parallel_count_ones_16(experiment: &Vec<u16>) -> (set: Vec<u16>)
    ensures
        set@.len() == experiment@.len(),
        forall|i: int|
            0 <= i < experiment@.len() ==> #[trigger] set@[i] as nat == pop(experiment@[i] as nat),
{
    let mut set: Vec<u16> = Vec::new();
    let mut j: usize = 0;
    while j < experiment.len()
        invariant
            j <= experiment@.len(),
            set@.len() == j,
            forall|i: int|
                0 <= i < j ==> #[trigger] set@[i] as nat == pop(experiment@[i] as nat),
        decreases experiment@.len() - j,
    {
        let r = fold_word_u16(experiment[j]);
        set.push(r);
        j = j + 1;
    }
    set
}


/// One doubling round: adds each bit group to the group `s` bits above it.
pub open spec fn fold_step_u32(w: u32, m: u32, s: u32) -> u32 {
    ((w & m) + ((w >> s) & m)) as u32
}

/// The fully folded word: after all 5 doubling rounds the whole word
/// holds its own population count.
pub open spec fn folded_u32(x: u32) -> u32 {
    fold_step_u32(fold_step_u32(fold_step_u32(fold_step_u32(fold_step_u32(x, 0x55555555, 1), 0x33333333, 2), 0x0F0F0F0F, 4), 0x00FF00FF, 8), 0x0000FFFF, 16)
}

/// The doubling rounds compute the bit sum of the word, and none of their
/// additions overflows.
#[verifier::rlimit(100)]
proof fn lemma_folded_u32(x: u32)
    by (bit_vector)
    ensures
        folded_u32(x) == bitpre_u32(x, 32),
        (x & 0x55555555) + ((x >> 1) & 0x55555555) <= 0xFFFFFFFF,
        (fold_step_u32(x, 0x55555555, 1) & 0x33333333) + ((fold_step_u32(x, 0x55555555, 1) >> 2) & 0x33333333) <= 0xFFFFFFFF,
        (fold_step_u32(fold_step_u32(x, 0x55555555, 1), 0x33333333, 2) & 0x0F0F0F0F) + ((fold_step_u32(fold_step_u32(x, 0x55555555, 1), 0x33333333, 2) >> 4) & 0x0F0F0F0F) <= 0xFFFFFFFF,
        (fold_step_u32(fold_step_u32(fold_step_u32(x, 0x55555555, 1), 0x33333333, 2), 0x0F0F0F0F, 4) & 0x00FF00FF) + ((fold_step_u32(fold_step_u32(fold_step_u32(x, 0x55555555, 1), 0x33333333, 2), 0x0F0F0F0F, 4) >> 8) & 0x00FF00FF) <= 0xFFFFFFFF,
        (fold_step_u32(fold_step_u32(fold_step_u32(fold_step_u32(x, 0x55555555, 1), 0x33333333, 2), 0x0F0F0F0F, 4), 0x00FF00FF, 8) & 0x0000FFFF) + ((fold_step_u32(fold_step_u32(fold_step_u32(fold_step_u32(x, 0x55555555, 1), 0x33333333, 2), 0x0F0F0F0F, 4), 0x00FF00FF, 8) >> 16) & 0x0000FFFF) <= 0xFFFFFFFF,
{
}

/// Folds one 32-bit word down to its population count.
///
/// Five doubling rounds cover all 32 bits; the mask array keeps the unused
/// all-ones tail entries of its family.
fn fold_word_u32(x: u32) -> (r: u32)
    ensures
        r as nat == pop(x as nat),
{
    proof {
        lemma_pop_is_bits_u32(x);
    }
    let m: [u32; 8] = [
        0b01010101010101010101010101010101u32,
        0b00110011001100110011001100110011u32,
        0b00001111000011110000111100001111u32,
        0b00000000111111110000000011111111u32,
        0b00000000000000001111111111111111u32,
        0b11111111111111111111111111111111u32,
        0b11111111111111111111111111111111u32,
        0b11111111111111111111111111111111u32,
    ];
    proof {
        lemma_folded_u32(x);
    }
    let w0 = (x & m[0]) + ((x >> 1u32) & m[0]);
    let w1 = (w0 & m[1]) + ((w0 >> 2u32) & m[1]);
    let w2 = (w1 & m[2]) + ((w1 >> 4u32) & m[2]);
    let w3 = (w2 & m[3]) + ((w2 >> 8u32) & m[3]);
    let w4 = (w3 & m[4]) + ((w3 >> 16u32) & m[4]);
    w4
}

/// The per-word SWAR baseline for 32-bit words: returns, per element, the
/// number of set bits of that element, never combining array positions.
pub fn naive_parallel_count_ones_32(experiment: &Vec<u32>) -> (set: Vec<u32>)
    ensures
        set@.len() == experiment@.len(),
        forall|i: int|
            0 <= i < experiment@.len() ==> #[trigger] set@[i] as nat == pop(experiment@[i] as nat),
{
    let mut set: Vec<u32> = Vec::new();
    let mut j: usize = 0;
    while j < experiment.len()
        invariant
            j <= experiment@.len(),
            set@.len() == j,
            forall|i: int|
                0 <= i < j ==> #[trigger] set@[i] as nat == pop(experiment@[i] as nat),
        decreases experiment@.len() - j,
    {
        let r = fold_word_u32(experiment[j]);
        set.push(r);
        j = j + 1;
    }
    set
}


/// One doubling round: adds each bit group to the group `s` bits above it.
pub open spec fn fold_step_u64(w: u64, m: u64, s: u64) -> u64 {
    ((w & m) + ((w >> s) & m)) as u64
}

/// The fully folded word: after all 6 doubling rounds the whole word
/// holds its own population count.
pub open spec fn folded_u64(x: u64) -> u64 {
    fold_step_u64(fold_step_u64(fold_step_u64(fold_step_u64(fold_step_u64(fold_step_u64(x, 0x5555555555555555, 1), 0x3333333333333333, 2), 0x0F0F0F0F0F0F0F0F, 4), 0x00FF00FF00FF00FF, 8), 0x0000FFFF0000FFFF, 16), 0x00000000FFFFFFFF, 32)
}

/// The doubling rounds compute the bit sum of the word, and none of their
/// additions overflows.
#[verifier::rlimit(100)]
proof fn lemma_folded_u64(x: u64)
    by (bit_vector)
    ensures
        folded_u64(x) == bitpre_u64(x, 64),
        (x & 0x5555555555555555) + ((x >> 1) & 0x5555555555555555) <= 0xFFFFFFFFFFFFFFFF,
        (fold_step_u64(x, 0x5555555555555555, 1) & 0x3333333333333333) + ((fold_step_u64(x, 0x5555555555555555, 1) >> 2) & 0x3333333333333333) <= 0xFFFFFFFFFFFFFFFF,
        (fold_step_u64(fold_step_u64(x, 0x5555555555555555, 1), 0x3333333333333333, 2) & 0x0F0F0F0F0F0F0F0F) + ((fold_step_u64(fold_step_u64(x, 0x5555555555555555, 1), 0x3333333333333333, 2) >> 4) & 0x0F0F0F0F0F0F0F0F) <= 0xFFFFFFFFFFFFFFFF,
        (fold_step_u64(fold_step_u64(fold_step_u64(x, 0x5555555555555555, 1), 0x3333333333333333, 2), 0x0F0F0F0F0F0F0F0F, 4) & 0x00FF00FF00FF00FF) + ((fold_step_u64(fold_step_u64(fold_step_u64(x, 0x5555555555555555, 1), 0x3333333333333333, 2), 0x0F0F0F0F0F0F0F0F, 4) >> 8) & 0x00FF00FF00FF00FF) <= 0xFFFFFFFFFFFFFFFF,
        (fold_step_u64(fold_step_u64(fold_step_u64(fold_step_u64(x, 0x5555555555555555, 1), 0x3333333333333333, 2), 0x0F0F0F0F0F0F0F0F, 4), 0x00FF00FF00FF00FF, 8) & 0x0000FFFF0000FFFF) + ((fold_step_u64(fold_step_u64(fold_step_u64(fold_step_u64(x, 0x5555555555555555, 1), 0x3333333333333333, 2), 0x0F0F0F0F0F0F0F0F, 4), 0x00FF00FF00FF00FF, 8) >> 16) & 0x0000FFFF0000FFFF) <= 0xFFFFFFFFFFFFFFFF,
        (fold_step_u64(fold_step_u64(fold_step_u64(fold_step_u64(fold_step_u64(x, 0x5555555555555555, 1), 0x3333333333333333, 2), 0x0F0F0F0F0F0F0F0F, 4), 0x00FF00FF00FF00FF, 8), 0x0000FFFF0000FFFF, 16) & 0x00000000FFFFFFFF) + ((fold_step_u64(fold_step_u64(fold_step_u64(fold_step_u64(fold_step_u64(x, 0x5555555555555555, 1), 0x3333333333333333, 2), 0x0F0F0F0F0F0F0F0F, 4), 0x00FF00FF00FF00FF, 8), 0x0000FFFF0000FFFF, 16) >> 32) & 0x00000000FFFFFFFF) <= 0xFFFFFFFFFFFFFFFF,
{
}

/// Folds one 64-bit word down to its population count.
fn fold_word_u64(x: u64) -> (r: u64)
    ensures
        r as nat == pop(x as nat),
{
    proof {
        lemma_pop_is_bits_u64(x);
    }
    let m: [u64; 8] = [
        0b0101010101010101010101010101010101010101010101010101010101010101u64,
        0b0011001100110011001100110011001100110011001100110011001100110011u64,
        0b0000111100001111000011110000111100001111000011110000111100001111u64,
        0b0000000011111111000000001111111100000000111111110000000011111111u64,
        0b0000000000000000111111111111111100000000000000001111111111111111u64,
        0b0000000000000000000000000000000011111111111111111111111111111111u64,
        0b1111111111111111111111111111111111111111111111111111111111111111u64,
        0b1111111111111111111111111111111111111111111111111111111111111111u64,
    ];
    proof {
        lemma_folded_u64(x);
    }
    let w0 = (x & m[0]) + ((x >> 1u64) & m[0]);
    let w1 = (w0 & m[1]) + ((w0 >> 2u64) & m[1]);
    let w2 = (w1 & m[2]) + ((w1 >> 4u64) & m[2]);
    let w3 = (w2 & m[3]) + ((w2 >> 8u64) & m[3]);
    let w4 = (w3 & m[4]) + ((w3 >> 16u64) & m[4]);
    let w5 = (w4 & m[5]) + ((w4 >> 32u64) & m[5]);
    w5
}

/// The per-word SWAR baseline for 64-bit words: returns, per element, the
/// number of set bits of that element, never combining array positions.
pub fn naive_parallel_count_ones_64(experiment: &Vec<u64>) -> (set: Vec<u64>)
    ensures
        set@.len() == experiment@.len(),
        forall|i: int|
            0 <= i < experiment@.len() ==> #[trigger] set@[i] as nat == pop(experiment@[i] as nat),
{
    let mut set: Vec<u64> = Vec::new();
    let mut j: usize = 0;
    while j < experiment.len()
        invariant
            j <= experiment@.len(),
            set@.len() == j,
            forall|i: int|
                0 <= i < j ==> #[trigger] set@[i] as nat == pop(experiment@[i] as nat),
        decreases experiment@.len() - j,
    {
        let r = fold_word_u64(experiment[j]);
        set.push(r);
        j = j + 1;
    }
    set
}


/// One doubling round: adds each bit group to the group `s` bits above it.
pub open spec fn fold_step_u128(w: u128, m: u128, s: u128) -> u128 {
    ((w & m) + ((w >> s) & m)) as u128
}

/// The fully folded word: after all 7 doubling rounds the whole word
/// holds its own population count.
pub open spec fn folded_u128(x: u128) -> u128 {
    fold_step_u128(fold_step_u128(fold_step_u128(fold_step_u128(fold_step_u128(fold_step_u128(fold_step_u128(x, 0x55555555555555555555555555555555, 1), 0x33333333333333333333333333333333, 2), 0x0F0F0F0F0F0F0F0F0F0F0F0F0F0F0F0F, 4), 0x00FF00FF00FF00FF00FF00FF00FF00FF, 8), 0x0000FFFF0000FFFF0000FFFF0000FFFF, 16), 0x00000000FFFFFFFF00000000FFFFFFFF, 32), 0x0000000000000000FFFFFFFFFFFFFFFF, 64)
}

/// The word after the first four doubling rounds: each 16-bit group holds
/// the number of set bits of that group.
pub open spec fn folded4_u128(x: u128) -> u128 {
    fold_step_u128(fold_step_u128(fold_step_u128(fold_step_u128(x, 0x55555555555555555555555555555555, 1), 0x33333333333333333333333333333333, 2), 0x0F0F0F0F0F0F0F0F0F0F0F0F0F0F0F0F, 4), 0x00FF00FF00FF00FF00FF00FF00FF00FF, 8)
}

/// The first four doubling rounds compute the per-group bit sums, and none
/// of their additions overflows.
#[verifier::rlimit(100)]
proof fn lemma_folded4_u128(x: u128)
    by (bit_vector)
    ensures
        (folded4_u128(x) >> 0) & 0xFFFF == bitpre_u128(x, 16) - bitpre_u128(x, 0),
        (folded4_u128(x) >> 16) & 0xFFFF == bitpre_u128(x, 32) - bitpre_u128(x, 16),
        (folded4_u128(x) >> 32) & 0xFFFF == bitpre_u128(x, 48) - bitpre_u128(x, 32),
        (folded4_u128(x) >> 48) & 0xFFFF == bitpre_u128(x, 64) - bitpre_u128(x, 48),
        (folded4_u128(x) >> 64) & 0xFFFF == bitpre_u128(x, 80) - bitpre_u128(x, 64),
        (folded4_u128(x) >> 80) & 0xFFFF == bitpre_u128(x, 96) - bitpre_u128(x, 80),
        (folded4_u128(x) >> 96) & 0xFFFF == bitpre_u128(x, 112) - bitpre_u128(x, 96),
        (folded4_u128(x) >> 112) & 0xFFFF == bitpre_u128(x, 128) - bitpre_u128(x, 112),
        folded4_u128(x) & 0xFFE0FFE0FFE0FFE0FFE0FFE0FFE0FFE0 == 0,
        (x & 0x55555555555555555555555555555555) + ((x >> 1) & 0x55555555555555555555555555555555) <= 0xFFFFFFFFFFFFFFFFFFFFFFFFFFFFFFFF,
        (fold_step_u128(x, 0x55555555555555555555555555555555, 1) & 0x33333333333333333333333333333333) + ((fold_step_u128(x, 0x55555555555555555555555555555555, 1) >> 2) & 0x33333333333333333333333333333333) <= 0xFFFFFFFFFFFFFFFFFFFFFFFFFFFFFFFF,
        (fold_step_u128(fold_step_u128(x, 0x55555555555555555555555555555555, 1), 0x33333333333333333333333333333333, 2) & 0x0F0F0F0F0F0F0F0F0F0F0F0F0F0F0F0F) + ((fold_step_u128(fold_step_u128(x, 0x55555555555555555555555555555555, 1), 0x33333333333333333333333333333333, 2) >> 4) & 0x0F0F0F0F0F0F0F0F0F0F0F0F0F0F0F0F) <= 0xFFFFFFFFFFFFFFFFFFFFFFFFFFFFFFFF,
        (fold_step_u128(fold_step_u128(fold_step_u128(x, 0x55555555555555555555555555555555, 1), 0x33333333333333333333333333333333, 2), 0x0F0F0F0F0F0F0F0F0F0F0F0F0F0F0F0F, 4) & 0x00FF00FF00FF00FF00FF00FF00FF00FF) + ((fold_step_u128(fold_step_u128(fold_step_u128(x, 0x55555555555555555555555555555555, 1), 0x33333333333333333333333333333333, 2), 0x0F0F0F0F0F0F0F0F0F0F0F0F0F0F0F0F, 4) >> 8) & 0x00FF00FF00FF00FF00FF00FF00FF00FF) <= 0xFFFFFFFFFFFFFFFFFFFFFFFFFFFFFFFF,
{
}

/// The last three doubling rounds add the bounded group counts together.
#[verifier::rlimit(100)]
proof fn lemma_folded_tail_u128(u: u128)
    by (bit_vector)
    requires
        u & 0xFFE0FFE0FFE0FFE0FFE0FFE0FFE0FFE0 == 0,
    ensures
        fold_step_u128(fold_step_u128(fold_step_u128(u, 0x0000FFFF0000FFFF0000FFFF0000FFFF, 16), 0x00000000FFFFFFFF00000000FFFFFFFF, 32), 0x0000000000000000FFFFFFFFFFFFFFFF, 64) == ((u >> 0) & 0xFFFF) + ((u >> 16) & 0xFFFF) + ((u >> 32) & 0xFFFF) + ((u >> 48) & 0xFFFF) + ((u >> 64) & 0xFFFF) + ((u >> 80) & 0xFFFF) + ((u >> 96) & 0xFFFF) + ((u >> 112) & 0xFFFF),
        (u & 0x0000FFFF0000FFFF0000FFFF0000FFFF) + ((u >> 16) & 0x0000FFFF0000FFFF0000FFFF0000FFFF) <= 0xFFFFFFFFFFFFFFFFFFFFFFFFFFFFFFFF,
        (fold_step_u128(u, 0x0000FFFF0000FFFF0000FFFF0000FFFF, 16) & 0x00000000FFFFFFFF00000000FFFFFFFF) + ((fold_step_u128(u, 0x0000FFFF0000FFFF0000FFFF0000FFFF, 16) >> 32) & 0x00000000FFFFFFFF00000000FFFFFFFF) <= 0xFFFFFFFFFFFFFFFFFFFFFFFFFFFFFFFF,
        (fold_step_u128(fold_step_u128(u, 0x0000FFFF0000FFFF0000FFFF0000FFFF, 16), 0x00000000FFFFFFFF00000000FFFFFFFF, 32) & 0x0000000000000000FFFFFFFFFFFFFFFF) + ((fold_step_u128(fold_step_u128(u, 0x0000FFFF0000FFFF0000FFFF0000FFFF, 16), 0x00000000FFFFFFFF00000000FFFFFFFF, 32) >> 64) & 0x0000000000000000FFFFFFFFFFFFFFFF) <= 0xFFFFFFFFFFFFFFFFFFFFFFFFFFFFFFFF,
{
}

/// The doubling rounds compute the bit sum of the word, and none of their
/// additions overflows.
proof fn lemma_folded_u128(x: u128)
    ensures
        folded_u128(x) == bitpre_u128(x, 128),
        (x & 0x55555555555555555555555555555555) + ((x >> 1) & 0x55555555555555555555555555555555) <= 0xFFFFFFFFFFFFFFFFFFFFFFFFFFFFFFFF,
        (fold_step_u128(x, 0x55555555555555555555555555555555, 1) & 0x33333333333333333333333333333333) + ((fold_step_u128(x, 0x55555555555555555555555555555555, 1) >> 2) & 0x33333333333333333333333333333333) <= 0xFFFFFFFFFFFFFFFFFFFFFFFFFFFFFFFF,
        (fold_step_u128(fold_step_u128(x, 0x55555555555555555555555555555555, 1), 0x33333333333333333333333333333333, 2) & 0x0F0F0F0F0F0F0F0F0F0F0F0F0F0F0F0F) + ((fold_step_u128(fold_step_u128(x, 0x55555555555555555555555555555555, 1), 0x33333333333333333333333333333333, 2) >> 4) & 0x0F0F0F0F0F0F0F0F0F0F0F0F0F0F0F0F) <= 0xFFFFFFFFFFFFFFFFFFFFFFFFFFFFFFFF,
        (fold_step_u128(fold_step_u128(fold_step_u128(x, 0x55555555555555555555555555555555, 1), 0x33333333333333333333333333333333, 2), 0x0F0F0F0F0F0F0F0F0F0F0F0F0F0F0F0F, 4) & 0x00FF00FF00FF00FF00FF00FF00FF00FF) + ((fold_step_u128(fold_step_u128(fold_step_u128(x, 0x55555555555555555555555555555555, 1), 0x33333333333333333333333333333333, 2), 0x0F0F0F0F0F0F0F0F0F0F0F0F0F0F0F0F, 4) >> 8) & 0x00FF00FF00FF00FF00FF00FF00FF00FF) <= 0xFFFFFFFFFFFFFFFFFFFFFFFFFFFFFFFF,
        (folded4_u128(x) & 0x0000FFFF0000FFFF0000FFFF0000FFFF) + ((folded4_u128(x) >> 16) & 0x0000FFFF0000FFFF0000FFFF0000FFFF) <= 0xFFFFFFFFFFFFFFFFFFFFFFFFFFFFFFFF,
        (fold_step_u128(folded4_u128(x), 0x0000FFFF0000FFFF0000FFFF0000FFFF, 16) & 0x00000000FFFFFFFF00000000FFFFFFFF) + ((fold_step_u128(folded4_u128(x), 0x0000FFFF0000FFFF0000FFFF0000FFFF, 16) >> 32) & 0x00000000FFFFFFFF00000000FFFFFFFF) <= 0xFFFFFFFFFFFFFFFFFFFFFFFFFFFFFFFF,
        (fold_step_u128(fold_step_u128(folded4_u128(x), 0x0000FFFF0000FFFF0000FFFF0000FFFF, 16), 0x00000000FFFFFFFF00000000FFFFFFFF, 32) & 0x0000000000000000FFFFFFFFFFFFFFFF) + ((fold_step_u128(fold_step_u128(folded4_u128(x), 0x0000FFFF0000FFFF0000FFFF0000FFFF, 16), 0x00000000FFFFFFFF00000000FFFFFFFF, 32) >> 64) & 0x0000000000000000FFFFFFFFFFFFFFFF) <= 0xFFFFFFFFFFFFFFFFFFFFFFFFFFFFFFFF,
{
    lemma_folded4_u128(x);
    lemma_folded_tail_u128(folded4_u128(x));
}

/// Folds one 128-bit word down to its population count.
fn fold_word_u128(x: u128) -> (r: u128)
    ensures
        r as nat == pop(x as nat),
{
    proof {
        lemma_pop_is_bits_u128(x);
    }
    let m: [u128; 8] = [
        0b01010101010101010101010101010101010101010101010101010101010101010101010101010101010101010101010101010101010101010101010101010101u128,
        0b00110011001100110011001100110011001100110011001100110011001100110011001100110011001100110011001100110011001100110011001100110011u128,
        0b00001111000011110000111100001111000011110000111100001111000011110000111100001111000011110000111100001111000011110000111100001111u128,
        0b00000000111111110000000011111111000000001111111100000000111111110000000011111111000000001111111100000000111111110000000011111111u128,
        0b00000000000000001111111111111111000000000000000011111111111111110000000000000000111111111111111100000000000000001111111111111111u128,
        0b00000000000000000000000000000000111111111111111111111111111111110000000000000000000000000000000011111111111111111111111111111111u128,
        0b00000000000000000000000000000000000000000000000000000000000000001111111111111111111111111111111111111111111111111111111111111111u128,
        0b11111111111111111111111111111111111111111111111111111111111111111111111111111111111111111111111111111111111111111111111111111111u128,
    ];
    proof {
        lemma_folded_u128(x);
    }
    let w0 = (x & m[0]) + ((x >> 1u128) & m[0]);
    let w1 = (w0 & m[1]) + ((w0 >> 2u128) & m[1]);
    let w2 = (w1 & m[2]) + ((w1 >> 4u128) & m[2]);
    let w3 = (w2 & m[3]) + ((w2 >> 8u128) & m[3]);
    let w4 = (w3 & m[4]) + ((w3 >> 16u128) & m[4]);
    let w5 = (w4 & m[5]) + ((w4 >> 32u128) & m[5]);
    let w6 = (w5 & m[6]) + ((w5 >> 64u128) & m[6]);
    w6
}

/// The per-word SWAR baseline for 128-bit words: returns, per element, the
/// number of set bits of that element, never combining array positions.
pub fn naive_parallel_count_ones_128(experiment: &Vec<u128>) -> (set: Vec<u128>)
    ensures
        set@.len() == experiment@.len(),
        forall|i: int|
            0 <= i < experiment@.len() ==> #[trigger] set@[i] as nat == pop(experiment@[i] as nat),
{
    let mut set: Vec<u128> = Vec::new();
    let mut j: usize = 0;
    while j < experiment.len()
        invariant
            j <= experiment@.len(),
            set@.len() == j,
            forall|i: int|
                0 <= i < j ==> #[trigger] set@[i] as nat == pop(experiment@[i] as nat),
        decreases experiment@.len() - j,
    {
        let r = fold_word_u128(experiment[j]);
        set.push(r);
        j = j + 1;
    }
    set
}


} // verus!
