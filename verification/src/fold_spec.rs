//! Spec-level model of the fold-and-pack engine: one spec function for each
//! word-level operation the engine performs, the composed per-stage values,
//! and the bit-vector lemmas that tie the composed final words to the
//! population counts of the original elements.

use vstd::prelude::*;
use crate::popcount::bitpre_u64;
use crate::popcount::bitpre_u128;

verus! {


/// `(word >> shift) & mask`: the value of the masked blocks of `word`,
/// shifted down by `shift` bits.
pub open spec fn iso_u64(w: u64, m: u64, s: u64) -> u64 {
    (w >> s) & m
}

/// One fold step: the masked blocks of `word` plus the masked blocks
/// `shift` bits higher, truncated to the word width.
pub open spec fn kp_u64(w: u64, m: u64, s: u64) -> u64 {
    (iso_u64(w, m, 0) + iso_u64(w, m, s)) as u64
}

/// One repack step: the low fields stay, the fields `ls` bits up move to
/// the upper half `sh` bits away.
pub open spec fn pk_u64(w: u64, m: u64, ls: u64, sh: u64) -> u64 {
    (iso_u64(w, m, 0) + (iso_u64(w, m, ls) << sh)) as u64
}

/// One combine step: the fold state of two distinct elements packed into a
/// single word, the second shifted `s` bits up.
pub open spec fn cb_u64(a: u64, b: u64, s: u64) -> u64 {
    (a + (b << s)) as u64
}

/// The word after the bootstrap folds (levels 0 and 1), the level-2 fold
/// and the level-2 repack: every byte holds the population count of the
/// corresponding byte of `x`.
pub open spec fn byte_counts_u64(x: u64) -> u64 {
    pk_u64(kp_u64(kp_u64(kp_u64(x, 0x5555555555555555, 1), 0x3333333333333333, 2), 0x0F0F0F0F0F0F0F0F, 4), 0x0F0F0F0F0F0F0F0F, 4, 4)
}

/// The word after the level-3 fold: each 16-bit group holds, in its low
/// byte, the population count of that group of `x`.
pub open spec fn fold16_u64(x: u64) -> u64 {
    kp_u64(byte_counts_u64(x), 0x00FF00FF00FF00FF, 8)
}

/// Two elements combined after the level-3 fold.
pub open spec fn quad_u64(a: u64, b: u64) -> u64 {
    cb_u64(fold16_u64(a), fold16_u64(b), 8)
}

/// A combined pair after the level-4 fold.
pub open spec fn fold32_u64(a: u64, b: u64) -> u64 {
    kp_u64(quad_u64(a, b), 0x0000FFFF0000FFFF, 16)
}

/// Four elements combined after the level-4 fold.
pub open spec fn oct_u64(a: u64, b: u64, c: u64, d: u64) -> u64 {
    cb_u64(fold32_u64(a, b), fold32_u64(c, d), 16)
}

/// A combined quadruple after the level-5 fold.
pub open spec fn fold64_u64(a: u64, b: u64, c: u64, d: u64) -> u64 {
    kp_u64(oct_u64(a, b, c, d), 0x00000000FFFFFFFF, 32)
}

/// Eight elements combined after the level-5 fold.
pub open spec fn hexd_u64(x0: u64, x1: u64, x2: u64, x3: u64, x4: u64, x5: u64, x6: u64, x7: u64) -> u64 {
    cb_u64(fold64_u64(x0, x1, x2, x3), fold64_u64(x4, x5, x6, x7), 32)
}


/// `(word >> shift) & mask`: the value of the masked blocks of `word`,
/// shifted down by `shift` bits.
pub open spec fn iso_u128(w: u128, m: u128, s: u128) -> u128 {
    (w >> s) & m
}

/// One fold step: the masked blocks of `word` plus the masked blocks
/// `shift` bits higher, truncated to the word width.
pub open spec fn kp_u128(w: u128, m: u128, s: u128) -> u128 {
    (iso_u128(w, m, 0) + iso_u128(w, m, s)) as u128
}

/// One repack step: the low fields stay, the fields `ls` bits up move to
/// the upper half `sh` bits away.
pub open spec fn pk_u128(w: u128, m: u128, ls: u128, sh: u128) -> u128 {
    (iso_u128(w, m, 0) + (iso_u128(w, m, ls) << sh)) as u128
}

/// One combine step: the fold state of two distinct elements packed into a
/// single word, the second shifted `s` bits up.
pub open spec fn cb_u128(a: u128, b: u128, s: u128) -> u128 {
    (a + (b << s)) as u128
}

/// The word after the bootstrap folds (levels 0 and 1), the level-2 fold
/// and the level-2 repack: every byte holds the population count of the
/// corresponding byte of `x`.
pub open spec fn byte_counts_u128(x: u128) -> u128 {
    pk_u128(kp_u128(kp_u128(kp_u128(x, 0x55555555555555555555555555555555, 1), 0x33333333333333333333333333333333, 2), 0x0F0F0F0F0F0F0F0F0F0F0F0F0F0F0F0F, 4), 0x0F0F0F0F0F0F0F0F0F0F0F0F0F0F0F0F, 4, 4)
}

/// The word after the level-3 fold: each 16-bit group holds, in its low
/// byte, the population count of that group of `x`.
pub open spec fn fold16_u128(x: u128) -> u128 {
    kp_u128(byte_counts_u128(x), 0x00FF00FF00FF00FF00FF00FF00FF00FF, 8)
}

/// Two elements combined after the level-3 fold.
pub open spec fn quad_u128(a: u128, b: u128) -> u128 {
    cb_u128(fold16_u128(a), fold16_u128(b), 8)
}

/// A combined pair after the level-4 fold.
pub open spec fn fold32_u128(a: u128, b: u128) -> u128 {
    kp_u128(quad_u128(a, b), 0x0000FFFF0000FFFF0000FFFF0000FFFF, 16)
}

/// Four elements combined after the level-4 fold.
pub open spec fn oct_u128(a: u128, b: u128, c: u128, d: u128) -> u128 {
    cb_u128(fold32_u128(a, b), fold32_u128(c, d), 16)
}

/// A combined quadruple after the level-5 fold.
pub open spec fn fold64_u128(a: u128, b: u128, c: u128, d: u128) -> u128 {
    kp_u128(oct_u128(a, b, c, d), 0x00000000FFFFFFFF00000000FFFFFFFF, 32)
}

/// Eight elements combined after the level-5 fold.
pub open spec fn hexd_u128(x0: u128, x1: u128, x2: u128, x3: u128, x4: u128, x5: u128, x6: u128, x7: u128) -> u128 {
    cb_u128(fold64_u128(x0, x1, x2, x3), fold64_u128(x4, x5, x6, x7), 32)
}


/// The fold and repack shapes never overflow the word: for any word, the sum
/// that each per-word engine step computes fits in 64 bits.
pub proof fn lemma_shapes_u64(w: u64)
    by (bit_vector)
    ensures
        iso_u64(w, 0x5555555555555555, 0) + iso_u64(w, 0x5555555555555555, 1) <= 0xFFFFFFFFFFFFFFFF,
        iso_u64(w, 0x3333333333333333, 0) + iso_u64(w, 0x3333333333333333, 2) <= 0xFFFFFFFFFFFFFFFF,
        iso_u64(w, 0x0F0F0F0F0F0F0F0F, 0) + iso_u64(w, 0x0F0F0F0F0F0F0F0F, 4) <= 0xFFFFFFFFFFFFFFFF,
        iso_u64(w, 0x0F0F0F0F0F0F0F0F, 0) + (iso_u64(w, 0x0F0F0F0F0F0F0F0F, 4) << 4) <= 0xFFFFFFFFFFFFFFFF,
        iso_u64(w, 0x00FF00FF00FF00FF, 0) + iso_u64(w, 0x00FF00FF00FF00FF, 8) <= 0xFFFFFFFFFFFFFFFF,
        iso_u64(w, 0x0000FFFF0000FFFF, 0) + iso_u64(w, 0x0000FFFF0000FFFF, 16) <= 0xFFFFFFFFFFFFFFFF,
        iso_u64(w, 0x00000000FFFFFFFF, 0) + iso_u64(w, 0x00000000FFFFFFFF, 32) <= 0xFFFFFFFFFFFFFFFF,
{
}

/// Bound on the per-element fold state after the level-3 fold: each 16-bit
/// group holds a count of at most 16.
pub proof fn lemma_bound3_u64(x: u64)
    by (bit_vector)
    ensures
        fold16_u64(x) <= 0x0010001000100010,
{
}

/// The level-3 combine of two bounded fold states does not overflow.
pub proof fn lemma_comb3_u64(u: u64, v: u64)
    by (bit_vector)
    requires
        u <= 0x0010001000100010,
        v <= 0x0010001000100010,
    ensures
        u + (v << 8) <= 0xFFFFFFFFFFFFFFFF,
{
}

/// Bound on a combined pair after the level-4 fold: each 32-bit group holds
/// two byte counts of at most 32 each.
pub proof fn lemma_bound4_u64(a: u64, b: u64)
    by (bit_vector)
    ensures
        fold32_u64(a, b) <= 0x0000202000002020,
{
}

/// The level-4 combine of two bounded fold states does not overflow.
pub proof fn lemma_comb4_u64(u: u64, v: u64)
    by (bit_vector)
    requires
        u <= 0x0000202000002020,
        v <= 0x0000202000002020,
    ensures
        u + (v << 16) <= 0xFFFFFFFFFFFFFFFF,
{
}

/// Bound on a combined quadruple after the level-5 fold: four byte counts of
/// at most 64 each in the low half.
pub proof fn lemma_bound5_u64(a: u64, b: u64, c: u64, d: u64)
    by (bit_vector)
    ensures
        fold64_u64(a, b, c, d) <= 0x0000000040404040,
{
}

/// The level-5 combine of two bounded fold states does not overflow.
pub proof fn lemma_comb5_u64(u: u64, v: u64)
    by (bit_vector)
    requires
        u <= 0x0000000040404040,
        v <= 0x0000000040404040,
    ensures
        u + (v << 32) <= 0xFFFFFFFFFFFFFFFF,
{
}

/// The per-element half of the engine proof for 64-bit words: after the
/// level-3 fold, each 16-bit group of the fold state holds the number of set
/// bits in the corresponding 16-bit group of the element.
#[verifier::rlimit(100)]
pub proof fn lemma_group_fields_u64(x: u64)
    by (bit_vector)
    ensures
        (fold16_u64(x) >> 0) & 0xFFFF == bitpre_u64(x, 16) - bitpre_u64(x, 0),
        (fold16_u64(x) >> 16) & 0xFFFF == bitpre_u64(x, 32) - bitpre_u64(x, 16),
        (fold16_u64(x) >> 32) & 0xFFFF == bitpre_u64(x, 48) - bitpre_u64(x, 32),
        (fold16_u64(x) >> 48) & 0xFFFF == bitpre_u64(x, 64) - bitpre_u64(x, 48),
        fold16_u64(x) & 0xFFE0FFE0FFE0FFE0 == 0,
{
}

/// The combine-tree half of the engine proof for 64-bit words: combining
/// eight bounded level-3 fold states and folding on up adds the count fields
/// without interference, so each byte of the final word is the sum of the
/// four group counts of one input state.
#[verifier::rlimit(100)]
pub proof fn lemma_tree_fields_u64(u0: u64, u1: u64, u2: u64, u3: u64, u4: u64, u5: u64, u6: u64, u7: u64)
    by (bit_vector)
    requires
        u0 & 0xFFE0FFE0FFE0FFE0 == 0,
        u1 & 0xFFE0FFE0FFE0FFE0 == 0,
        u2 & 0xFFE0FFE0FFE0FFE0 == 0,
        u3 & 0xFFE0FFE0FFE0FFE0 == 0,
        u4 & 0xFFE0FFE0FFE0FFE0 == 0,
        u5 & 0xFFE0FFE0FFE0FFE0 == 0,
        u6 & 0xFFE0FFE0FFE0FFE0 == 0,
        u7 & 0xFFE0FFE0FFE0FFE0 == 0,
    ensures
        (cb_u64(kp_u64(cb_u64(kp_u64(cb_u64(u0, u1, 8), 0x0000FFFF0000FFFF, 16), kp_u64(cb_u64(u2, u3, 8), 0x0000FFFF0000FFFF, 16), 16), 0x00000000FFFFFFFF, 32), kp_u64(cb_u64(kp_u64(cb_u64(u4, u5, 8), 0x0000FFFF0000FFFF, 16), kp_u64(cb_u64(u6, u7, 8), 0x0000FFFF0000FFFF, 16), 16), 0x00000000FFFFFFFF, 32), 32) >> 0) & 0xFF == ((u0 >> 0) & 0xFFFF) + ((u0 >> 16) & 0xFFFF) + ((u0 >> 32) & 0xFFFF) + ((u0 >> 48) & 0xFFFF),
        (cb_u64(kp_u64(cb_u64(kp_u64(cb_u64(u0, u1, 8), 0x0000FFFF0000FFFF, 16), kp_u64(cb_u64(u2, u3, 8), 0x0000FFFF0000FFFF, 16), 16), 0x00000000FFFFFFFF, 32), kp_u64(cb_u64(kp_u64(cb_u64(u4, u5, 8), 0x0000FFFF0000FFFF, 16), kp_u64(cb_u64(u6, u7, 8), 0x0000FFFF0000FFFF, 16), 16), 0x00000000FFFFFFFF, 32), 32) >> 8) & 0xFF == ((u1 >> 0) & 0xFFFF) + ((u1 >> 16) & 0xFFFF) + ((u1 >> 32) & 0xFFFF) + ((u1 >> 48) & 0xFFFF),
        (cb_u64(kp_u64(cb_u64(kp_u64(cb_u64(u0, u1, 8), 0x0000FFFF0000FFFF, 16), kp_u64(cb_u64(u2, u3, 8), 0x0000FFFF0000FFFF, 16), 16), 0x00000000FFFFFFFF, 32), kp_u64(cb_u64(kp_u64(cb_u64(u4, u5, 8), 0x0000FFFF0000FFFF, 16), kp_u64(cb_u64(u6, u7, 8), 0x0000FFFF0000FFFF, 16), 16), 0x00000000FFFFFFFF, 32), 32) >> 16) & 0xFF == ((u2 >> 0) & 0xFFFF) + ((u2 >> 16) & 0xFFFF) + ((u2 >> 32) & 0xFFFF) + ((u2 >> 48) & 0xFFFF),
        (cb_u64(kp_u64(cb_u64(kp_u64(cb_u64(u0, u1, 8), 0x0000FFFF0000FFFF, 16), kp_u64(cb_u64(u2, u3, 8), 0x0000FFFF0000FFFF, 16), 16), 0x00000000FFFFFFFF, 32), kp_u64(cb_u64(kp_u64(cb_u64(u4, u5, 8), 0x0000FFFF0000FFFF, 16), kp_u64(cb_u64(u6, u7, 8), 0x0000FFFF0000FFFF, 16), 16), 0x00000000FFFFFFFF, 32), 32) >> 24) & 0xFF == ((u3 >> 0) & 0xFFFF) + ((u3 >> 16) & 0xFFFF) + ((u3 >> 32) & 0xFFFF) + ((u3 >> 48) & 0xFFFF),
        (cb_u64(kp_u64(cb_u64(kp_u64(cb_u64(u0, u1, 8), 0x0000FFFF0000FFFF, 16), kp_u64(cb_u64(u2, u3, 8), 0x0000FFFF0000FFFF, 16), 16), 0x00000000FFFFFFFF, 32), kp_u64(cb_u64(kp_u64(cb_u64(u4, u5, 8), 0x0000FFFF0000FFFF, 16), kp_u64(cb_u64(u6, u7, 8), 0x0000FFFF0000FFFF, 16), 16), 0x00000000FFFFFFFF, 32), 32) >> 32) & 0xFF == ((u4 >> 0) & 0xFFFF) + ((u4 >> 16) & 0xFFFF) + ((u4 >> 32) & 0xFFFF) + ((u4 >> 48) & 0xFFFF),
        (cb_u64(kp_u64(cb_u64(kp_u64(cb_u64(u0, u1, 8), 0x0000FFFF0000FFFF, 16), kp_u64(cb_u64(u2, u3, 8), 0x0000FFFF0000FFFF, 16), 16), 0x00000000FFFFFFFF, 32), kp_u64(cb_u64(kp_u64(cb_u64(u4, u5, 8), 0x0000FFFF0000FFFF, 16), kp_u64(cb_u64(u6, u7, 8), 0x0000FFFF0000FFFF, 16), 16), 0x00000000FFFFFFFF, 32), 32) >> 40) & 0xFF == ((u5 >> 0) & 0xFFFF) + ((u5 >> 16) & 0xFFFF) + ((u5 >> 32) & 0xFFFF) + ((u5 >> 48) & 0xFFFF),
        (cb_u64(kp_u64(cb_u64(kp_u64(cb_u64(u0, u1, 8), 0x0000FFFF0000FFFF, 16), kp_u64(cb_u64(u2, u3, 8), 0x0000FFFF0000FFFF, 16), 16), 0x00000000FFFFFFFF, 32), kp_u64(cb_u64(kp_u64(cb_u64(u4, u5, 8), 0x0000FFFF0000FFFF, 16), kp_u64(cb_u64(u6, u7, 8), 0x0000FFFF0000FFFF, 16), 16), 0x00000000FFFFFFFF, 32), 32) >> 48) & 0xFF == ((u6 >> 0) & 0xFFFF) + ((u6 >> 16) & 0xFFFF) + ((u6 >> 32) & 0xFFFF) + ((u6 >> 48) & 0xFFFF),
        (cb_u64(kp_u64(cb_u64(kp_u64(cb_u64(u0, u1, 8), 0x0000FFFF0000FFFF, 16), kp_u64(cb_u64(u2, u3, 8), 0x0000FFFF0000FFFF, 16), 16), 0x00000000FFFFFFFF, 32), kp_u64(cb_u64(kp_u64(cb_u64(u4, u5, 8), 0x0000FFFF0000FFFF, 16), kp_u64(cb_u64(u6, u7, 8), 0x0000FFFF0000FFFF, 16), 16), 0x00000000FFFFFFFF, 32), 32) >> 56) & 0xFF == ((u7 >> 0) & 0xFFFF) + ((u7 >> 16) & 0xFFFF) + ((u7 >> 32) & 0xFFFF) + ((u7 >> 48) & 0xFFFF),
{
}

/// The word after the level-6 fold of a combined eightfold state: eight byte
/// counts of at most 128 each in the byte slots.
pub open spec fn fold128_u128(x0: u128, x1: u128, x2: u128, x3: u128, x4: u128, x5: u128, x6: u128, x7: u128) -> u128 {
    kp_u128(hexd_u128(x0, x1, x2, x3, x4, x5, x6, x7), 0x0000000000000000FFFFFFFFFFFFFFFF, 64)
}

/// The final repacked word for 128-bit input: the level-6 repack widens the
/// count fields from 8 to 16 bits, moving the odd byte slots to the upper
/// half of the word.
pub open spec fn packed_u128(x0: u128, x1: u128, x2: u128, x3: u128, x4: u128, x5: u128, x6: u128, x7: u128) -> u128 {
    pk_u128(fold128_u128(x0, x1, x2, x3, x4, x5, x6, x7), 0x00FF00FF00FF00FF00FF00FF00FF00FF, 8, 64)
}

/// The fold and repack shapes never overflow the word (128-bit versions).
pub proof fn lemma_shapes_u128(w: u128)
    by (bit_vector)
    ensures
        iso_u128(w, 0x55555555555555555555555555555555, 0) + iso_u128(w, 0x55555555555555555555555555555555, 1) <= 0xFFFFFFFFFFFFFFFFFFFFFFFFFFFFFFFF,
        iso_u128(w, 0x33333333333333333333333333333333, 0) + iso_u128(w, 0x33333333333333333333333333333333, 2) <= 0xFFFFFFFFFFFFFFFFFFFFFFFFFFFFFFFF,
        iso_u128(w, 0x0F0F0F0F0F0F0F0F0F0F0F0F0F0F0F0F, 0) + iso_u128(w, 0x0F0F0F0F0F0F0F0F0F0F0F0F0F0F0F0F, 4) <= 0xFFFFFFFFFFFFFFFFFFFFFFFFFFFFFFFF,
        iso_u128(w, 0x0F0F0F0F0F0F0F0F0F0F0F0F0F0F0F0F, 0) + (iso_u128(w, 0x0F0F0F0F0F0F0F0F0F0F0F0F0F0F0F0F, 4) << 4) <= 0xFFFFFFFFFFFFFFFFFFFFFFFFFFFFFFFF,
        iso_u128(w, 0x00FF00FF00FF00FF00FF00FF00FF00FF, 0) + iso_u128(w, 0x00FF00FF00FF00FF00FF00FF00FF00FF, 8) <= 0xFFFFFFFFFFFFFFFFFFFFFFFFFFFFFFFF,
        iso_u128(w, 0x0000FFFF0000FFFF0000FFFF0000FFFF, 0) + iso_u128(w, 0x0000FFFF0000FFFF0000FFFF0000FFFF, 16) <= 0xFFFFFFFFFFFFFFFFFFFFFFFFFFFFFFFF,
        iso_u128(w, 0x00000000FFFFFFFF00000000FFFFFFFF, 0) + iso_u128(w, 0x00000000FFFFFFFF00000000FFFFFFFF, 32) <= 0xFFFFFFFFFFFFFFFFFFFFFFFFFFFFFFFF,
        iso_u128(w, 0x0000000000000000FFFFFFFFFFFFFFFF, 0) + iso_u128(w, 0x0000000000000000FFFFFFFFFFFFFFFF, 64) <= 0xFFFFFFFFFFFFFFFFFFFFFFFFFFFFFFFF,
        iso_u128(w, 0x00FF00FF00FF00FF00FF00FF00FF00FF, 0) + (iso_u128(w, 0x00FF00FF00FF00FF00FF00FF00FF00FF, 8) << 64) <= 0xFFFFFFFFFFFFFFFFFFFFFFFFFFFFFFFF,
{
}

/// Bound on the per-element fold state after the level-3 fold.
pub proof fn lemma_bound3_u128(x: u128)
    by (bit_vector)
    ensures
        fold16_u128(x) <= 0x00100010001000100010001000100010,
        fold16_u128(x) & 0xFFE0FFE0FFE0FFE0FFE0FFE0FFE0FFE0 == 0,
{
}

/// The level-3 combine of two bounded fold states does not overflow.
pub proof fn lemma_comb3_u128(u: u128, v: u128)
    by (bit_vector)
    requires
        u <= 0x00100010001000100010001000100010,
        v <= 0x00100010001000100010001000100010,
    ensures
        u + (v << 8) <= 0xFFFFFFFFFFFFFFFFFFFFFFFFFFFFFFFF,
{
}

/// Bound on a combined pair after the level-4 fold.
pub proof fn lemma_bound4_u128(a: u128, b: u128)
    by (bit_vector)
    ensures
        fold32_u128(a, b) <= 0x00002020000020200000202000002020,
{
}

/// The level-4 combine of two bounded fold states does not overflow.
pub proof fn lemma_comb4_u128(u: u128, v: u128)
    by (bit_vector)
    requires
        u <= 0x00002020000020200000202000002020,
        v <= 0x00002020000020200000202000002020,
    ensures
        u + (v << 16) <= 0xFFFFFFFFFFFFFFFFFFFFFFFFFFFFFFFF,
{
}

/// Bound on a combined quadruple after the level-5 fold.
pub proof fn lemma_bound5_u128(a: u128, b: u128, c: u128, d: u128)
    by (bit_vector)
    ensures
        fold64_u128(a, b, c, d) <= 0x00000000404040400000000040404040,
{
}

/// The level-5 combine of two bounded fold states does not overflow.
pub proof fn lemma_comb5_u128(u: u128, v: u128)
    by (bit_vector)
    requires
        u <= 0x00000000404040400000000040404040,
        v <= 0x00000000404040400000000040404040,
    ensures
        u + (v << 32) <= 0xFFFFFFFFFFFFFFFFFFFFFFFFFFFFFFFF,
{
}

/// The per-element half of the engine proof for 128-bit words: after the
/// level-3 fold, each 16-bit group of the fold state holds the number of set
/// bits in the corresponding 16-bit group of the element.
#[verifier::rlimit(100)]
pub proof fn lemma_group_fields_u128(x: u128)
    by (bit_vector)
    ensures
        (fold16_u128(x) >> 0) & 0xFFFF == bitpre_u128(x, 16) - bitpre_u128(x, 0),
        (fold16_u128(x) >> 16) & 0xFFFF == bitpre_u128(x, 32) - bitpre_u128(x, 16),
        (fold16_u128(x) >> 32) & 0xFFFF == bitpre_u128(x, 48) - bitpre_u128(x, 32),
        (fold16_u128(x) >> 48) & 0xFFFF == bitpre_u128(x, 64) - bitpre_u128(x, 48),
        (fold16_u128(x) >> 64) & 0xFFFF == bitpre_u128(x, 80) - bitpre_u128(x, 64),
        (fold16_u128(x) >> 80) & 0xFFFF == bitpre_u128(x, 96) - bitpre_u128(x, 80),
        (fold16_u128(x) >> 96) & 0xFFFF == bitpre_u128(x, 112) - bitpre_u128(x, 96),
        (fold16_u128(x) >> 112) & 0xFFFF == bitpre_u128(x, 128) - bitpre_u128(x, 112),
{
}

/// The combine-tree half of the engine proof for 128-bit words: combining
/// eight bounded level-3 fold states and folding on up to the final repack
/// adds the count fields without interference, so each 16-bit slot of the
/// final word is the sum of the eight group counts of one input state.
#[verifier::rlimit(100)]
pub proof fn lemma_tree_fields_u128(u0: u128, u1: u128, u2: u128, u3: u128, u4: u128, u5: u128, u6: u128, u7: u128)
    by (bit_vector)
    requires
        u0 & 0xFFE0FFE0FFE0FFE0FFE0FFE0FFE0FFE0 == 0,
        u1 & 0xFFE0FFE0FFE0FFE0FFE0FFE0FFE0FFE0 == 0,
        u2 & 0xFFE0FFE0FFE0FFE0FFE0FFE0FFE0FFE0 == 0,
        u3 & 0xFFE0FFE0FFE0FFE0FFE0FFE0FFE0FFE0 == 0,
        u4 & 0xFFE0FFE0FFE0FFE0FFE0FFE0FFE0FFE0 == 0,
        u5 & 0xFFE0FFE0FFE0FFE0FFE0FFE0FFE0FFE0 == 0,
        u6 & 0xFFE0FFE0FFE0FFE0FFE0FFE0FFE0FFE0 == 0,
        u7 & 0xFFE0FFE0FFE0FFE0FFE0FFE0FFE0FFE0 == 0,
    ensures
        (pk_u128(kp_u128(cb_u128(kp_u128(cb_u128(kp_u128(cb_u128(u0, u1, 8), 0x0000FFFF0000FFFF0000FFFF0000FFFF, 16), kp_u128(cb_u128(u2, u3, 8), 0x0000FFFF0000FFFF0000FFFF0000FFFF, 16), 16), 0x00000000FFFFFFFF00000000FFFFFFFF, 32), kp_u128(cb_u128(kp_u128(cb_u128(u4, u5, 8), 0x0000FFFF0000FFFF0000FFFF0000FFFF, 16), kp_u128(cb_u128(u6, u7, 8), 0x0000FFFF0000FFFF0000FFFF0000FFFF, 16), 16), 0x00000000FFFFFFFF00000000FFFFFFFF, 32), 32), 0x0000000000000000FFFFFFFFFFFFFFFF, 64), 0x00FF00FF00FF00FF00FF00FF00FF00FF, 8, 64) >> 0) & 0xFFFF == ((u0 >> 0) & 0xFFFF) + ((u0 >> 16) & 0xFFFF) + ((u0 >> 32) & 0xFFFF) + ((u0 >> 48) & 0xFFFF) + ((u0 >> 64) & 0xFFFF) + ((u0 >> 80) & 0xFFFF) + ((u0 >> 96) & 0xFFFF) + ((u0 >> 112) & 0xFFFF),
        (pk_u128(kp_u128(cb_u128(kp_u128(cb_u128(kp_u128(cb_u128(u0, u1, 8), 0x0000FFFF0000FFFF0000FFFF0000FFFF, 16), kp_u128(cb_u128(u2, u3, 8), 0x0000FFFF0000FFFF0000FFFF0000FFFF, 16), 16), 0x00000000FFFFFFFF00000000FFFFFFFF, 32), kp_u128(cb_u128(kp_u128(cb_u128(u4, u5, 8), 0x0000FFFF0000FFFF0000FFFF0000FFFF, 16), kp_u128(cb_u128(u6, u7, 8), 0x0000FFFF0000FFFF0000FFFF0000FFFF, 16), 16), 0x00000000FFFFFFFF00000000FFFFFFFF, 32), 32), 0x0000000000000000FFFFFFFFFFFFFFFF, 64), 0x00FF00FF00FF00FF00FF00FF00FF00FF, 8, 64) >> 16) & 0xFFFF == ((u2 >> 0) & 0xFFFF) + ((u2 >> 16) & 0xFFFF) + ((u2 >> 32) & 0xFFFF) + ((u2 >> 48) & 0xFFFF) + ((u2 >> 64) & 0xFFFF) + ((u2 >> 80) & 0xFFFF) + ((u2 >> 96) & 0xFFFF) + ((u2 >> 112) & 0xFFFF),
        (pk_u128(kp_u128(cb_u128(kp_u128(cb_u128(kp_u128(cb_u128(u0, u1, 8), 0x0000FFFF0000FFFF0000FFFF0000FFFF, 16), kp_u128(cb_u128(u2, u3, 8), 0x0000FFFF0000FFFF0000FFFF0000FFFF, 16), 16), 0x00000000FFFFFFFF00000000FFFFFFFF, 32), kp_u128(cb_u128(kp_u128(cb_u128(u4, u5, 8), 0x0000FFFF0000FFFF0000FFFF0000FFFF, 16), kp_u128(cb_u128(u6, u7, 8), 0x0000FFFF0000FFFF0000FFFF0000FFFF, 16), 16), 0x00000000FFFFFFFF00000000FFFFFFFF, 32), 32), 0x0000000000000000FFFFFFFFFFFFFFFF, 64), 0x00FF00FF00FF00FF00FF00FF00FF00FF, 8, 64) >> 32) & 0xFFFF == ((u4 >> 0) & 0xFFFF) + ((u4 >> 16) & 0xFFFF) + ((u4 >> 32) & 0xFFFF) + ((u4 >> 48) & 0xFFFF) + ((u4 >> 64) & 0xFFFF) + ((u4 >> 80) & 0xFFFF) + ((u4 >> 96) & 0xFFFF) + ((u4 >> 112) & 0xFFFF),
        (pk_u128(kp_u128(cb_u128(kp_u128(cb_u128(kp_u128(cb_u128(u0, u1, 8), 0x0000FFFF0000FFFF0000FFFF0000FFFF, 16), kp_u128(cb_u128(u2, u3, 8), 0x0000FFFF0000FFFF0000FFFF0000FFFF, 16), 16), 0x00000000FFFFFFFF00000000FFFFFFFF, 32), kp_u128(cb_u128(kp_u128(cb_u128(u4, u5, 8), 0x0000FFFF0000FFFF0000FFFF0000FFFF, 16), kp_u128(cb_u128(u6, u7, 8), 0x0000FFFF0000FFFF0000FFFF0000FFFF, 16), 16), 0x00000000FFFFFFFF00000000FFFFFFFF, 32), 32), 0x0000000000000000FFFFFFFFFFFFFFFF, 64), 0x00FF00FF00FF00FF00FF00FF00FF00FF, 8, 64) >> 48) & 0xFFFF == ((u6 >> 0) & 0xFFFF) + ((u6 >> 16) & 0xFFFF) + ((u6 >> 32) & 0xFFFF) + ((u6 >> 48) & 0xFFFF) + ((u6 >> 64) & 0xFFFF) + ((u6 >> 80) & 0xFFFF) + ((u6 >> 96) & 0xFFFF) + ((u6 >> 112) & 0xFFFF),
        (pk_u128(kp_u128(cb_u128(kp_u128(cb_u128(kp_u128(cb_u128(u0, u1, 8), 0x0000FFFF0000FFFF0000FFFF0000FFFF, 16), kp_u128(cb_u128(u2, u3, 8), 0x0000FFFF0000FFFF0000FFFF0000FFFF, 16), 16), 0x00000000FFFFFFFF00000000FFFFFFFF, 32), kp_u128(cb_u128(kp_u128(cb_u128(u4, u5, 8), 0x0000FFFF0000FFFF0000FFFF0000FFFF, 16), kp_u128(cb_u128(u6, u7, 8), 0x0000FFFF0000FFFF0000FFFF0000FFFF, 16), 16), 0x00000000FFFFFFFF00000000FFFFFFFF, 32), 32), 0x0000000000000000FFFFFFFFFFFFFFFF, 64), 0x00FF00FF00FF00FF00FF00FF00FF00FF, 8, 64) >> 64) & 0xFFFF == ((u1 >> 0) & 0xFFFF) + ((u1 >> 16) & 0xFFFF) + ((u1 >> 32) & 0xFFFF) + ((u1 >> 48) & 0xFFFF) + ((u1 >> 64) & 0xFFFF) + ((u1 >> 80) & 0xFFFF) + ((u1 >> 96) & 0xFFFF) + ((u1 >> 112) & 0xFFFF),
        (pk_u128(kp_u128(cb_u128(kp_u128(cb_u128(kp_u128(cb_u128(u0, u1, 8), 0x0000FFFF0000FFFF0000FFFF0000FFFF, 16), kp_u128(cb_u128(u2, u3, 8), 0x0000FFFF0000FFFF0000FFFF0000FFFF, 16), 16), 0x00000000FFFFFFFF00000000FFFFFFFF, 32), kp_u128(cb_u128(kp_u128(cb_u128(u4, u5, 8), 0x0000FFFF0000FFFF0000FFFF0000FFFF, 16), kp_u128(cb_u128(u6, u7, 8), 0x0000FFFF0000FFFF0000FFFF0000FFFF, 16), 16), 0x00000000FFFFFFFF00000000FFFFFFFF, 32), 32), 0x0000000000000000FFFFFFFFFFFFFFFF, 64), 0x00FF00FF00FF00FF00FF00FF00FF00FF, 8, 64) >> 80) & 0xFFFF == ((u3 >> 0) & 0xFFFF) + ((u3 >> 16) & 0xFFFF) + ((u3 >> 32) & 0xFFFF) + ((u3 >> 48) & 0xFFFF) + ((u3 >> 64) & 0xFFFF) + ((u3 >> 80) & 0xFFFF) + ((u3 >> 96) & 0xFFFF) + ((u3 >> 112) & 0xFFFF),
        (pk_u128(kp_u128(cb_u128(kp_u128(cb_u128(kp_u128(cb_u128(u0, u1, 8), 0x0000FFFF0000FFFF0000FFFF0000FFFF, 16), kp_u128(cb_u128(u2, u3, 8), 0x0000FFFF0000FFFF0000FFFF0000FFFF, 16), 16), 0x00000000FFFFFFFF00000000FFFFFFFF, 32), kp_u128(cb_u128(kp_u128(cb_u128(u4, u5, 8), 0x0000FFFF0000FFFF0000FFFF0000FFFF, 16), kp_u128(cb_u128(u6, u7, 8), 0x0000FFFF0000FFFF0000FFFF0000FFFF, 16), 16), 0x00000000FFFFFFFF00000000FFFFFFFF, 32), 32), 0x0000000000000000FFFFFFFFFFFFFFFF, 64), 0x00FF00FF00FF00FF00FF00FF00FF00FF, 8, 64) >> 96) & 0xFFFF == ((u5 >> 0) & 0xFFFF) + ((u5 >> 16) & 0xFFFF) + ((u5 >> 32) & 0xFFFF) + ((u5 >> 48) & 0xFFFF) + ((u5 >> 64) & 0xFFFF) + ((u5 >> 80) & 0xFFFF) + ((u5 >> 96) & 0xFFFF) + ((u5 >> 112) & 0xFFFF),
        (pk_u128(kp_u128(cb_u128(kp_u128(cb_u128(kp_u128(cb_u128(u0, u1, 8), 0x0000FFFF0000FFFF0000FFFF0000FFFF, 16), kp_u128(cb_u128(u2, u3, 8), 0x0000FFFF0000FFFF0000FFFF0000FFFF, 16), 16), 0x00000000FFFFFFFF00000000FFFFFFFF, 32), kp_u128(cb_u128(kp_u128(cb_u128(u4, u5, 8), 0x0000FFFF0000FFFF0000FFFF0000FFFF, 16), kp_u128(cb_u128(u6, u7, 8), 0x0000FFFF0000FFFF0000FFFF0000FFFF, 16), 16), 0x00000000FFFFFFFF00000000FFFFFFFF, 32), 32), 0x0000000000000000FFFFFFFFFFFFFFFF, 64), 0x00FF00FF00FF00FF00FF00FF00FF00FF, 8, 64) >> 112) & 0xFFFF == ((u7 >> 0) & 0xFFFF) + ((u7 >> 16) & 0xFFFF) + ((u7 >> 32) & 0xFFFF) + ((u7 >> 48) & 0xFFFF) + ((u7 >> 64) & 0xFFFF) + ((u7 >> 80) & 0xFFFF) + ((u7 >> 96) & 0xFFFF) + ((u7 >> 112) & 0xFFFF),
{
}


} // verus!
