//! The fold-and-pack engine.
//!
//! [`count_ones`] computes the population count of every element of an array
//! of same-width words. Unlike the classic per-word SWAR counter it
//! periodically *combines* the fold state of two distinct array elements into
//! one machine word (halving the working set), so later fold levels process
//! twice as much original data per word operation. At the end, the packed
//! per-element counts are extracted back out of the surviving words.
//!
//! The engine is driven by the mask table of [`crate::calculate_mask`] and by
//! [`calculate_l`], the field-width function: at fold level `i` a count field
//! needs `calculate_l(i) == ceil(log2(i + 2))` bits. When the field width for
//! the next level stays the same there is spare capacity and two elements are
//! combined; when it grows, each word is repacked instead.

use vstd::prelude::*;
use vstd::arithmetic::power2::pow2;
use vstd::arithmetic::power2::lemma2_to64;
use vstd::arithmetic::power2::lemma_pow2_unfold;
use vstd::arithmetic::power2::lemma_pow2_strictly_increases;
use vstd::arithmetic::div_mod::lemma_div_denominator;
use crate::popcount::pop;
use crate::popcount::lemma_pop_is_bits_u64;
use crate::fold_spec::iso_u64;
use crate::fold_spec::kp_u64;
use crate::fold_spec::pk_u64;
use crate::fold_spec::cb_u64;
use crate::fold_spec::byte_counts_u64;
use crate::fold_spec::fold16_u64;
use crate::fold_spec::quad_u64;
use crate::fold_spec::fold32_u64;
use crate::fold_spec::oct_u64;
use crate::fold_spec::fold64_u64;
use crate::fold_spec::hexd_u64;
use crate::fold_spec::lemma_shapes_u64;
use crate::fold_spec::lemma_bound3_u64;
use crate::fold_spec::lemma_comb3_u64;
use crate::fold_spec::lemma_bound4_u64;
use crate::fold_spec::lemma_comb4_u64;
use crate::fold_spec::lemma_bound5_u64;
use crate::fold_spec::lemma_comb5_u64;
use crate::fold_spec::lemma_group_fields_u64;
use crate::fold_spec::lemma_tree_fields_u64;
use crate::popcount::lemma_pop_is_bits_u128;
use crate::fold_spec::iso_u128;
use crate::fold_spec::kp_u128;
use crate::fold_spec::pk_u128;
use crate::fold_spec::cb_u128;
use crate::fold_spec::byte_counts_u128;
use crate::fold_spec::fold16_u128;
use crate::fold_spec::quad_u128;
use crate::fold_spec::fold32_u128;
use crate::fold_spec::oct_u128;
use crate::fold_spec::fold64_u128;
use crate::fold_spec::hexd_u128;
use crate::fold_spec::fold128_u128;
use crate::fold_spec::packed_u128;
use crate::fold_spec::lemma_shapes_u128;
use crate::fold_spec::lemma_bound3_u128;
use crate::fold_spec::lemma_comb3_u128;
use crate::fold_spec::lemma_bound4_u128;
use crate::fold_spec::lemma_comb4_u128;
use crate::fold_spec::lemma_bound5_u128;
use crate::fold_spec::lemma_comb5_u128;
use crate::fold_spec::lemma_group_fields_u128;
use crate::fold_spec::lemma_tree_fields_u128;

verus! {

/// The supported word widths of the engine.
pub enum WordLength {
    U64,
    U128,
}

/// `ceil(log2(n))`: the number of bits needed to count up to `n` distinct
/// values, i.e. the smallest `l` with `n <= 2^l`.
pub open spec fn log2_ceil(n: nat) -> nat
    decreases n,
{
    if n <= 1 {
        0
    } else {
        1 + log2_ceil((n + 1) / 2)
    }
}

/// `log2_ceil(n)` is the unique `l >= 1` with `2^(l-1) < n <= 2^l`.
pub proof fn lemma_log2_ceil_bounds(n: nat, l: nat)
    requires
        1 <= l,
        pow2((l - 1) as nat) < n,
        n <= pow2(l),
    ensures
        log2_ceil(n) == l,
    decreases l,
{
    lemma_pow2_unfold(l);
    if l == 1 {
        assert(pow2(0) == 1) by {
            lemma2_to64();
        }
        assert(n == 2);
        assert(log2_ceil(1) == 0);
        assert(log2_ceil(2) == 1 + log2_ceil(1));
    } else {
        vstd::arithmetic::power2::lemma_pow2_pos((l - 2) as nat);
        lemma_pow2_unfold((l - 1) as nat);
        assert(pow2((l - 1) as nat) == 2 * pow2((l - 2) as nat));
        assert(pow2((l - 2) as nat) < (n + 1) / 2);
        assert((n + 1) / 2 <= pow2((l - 1) as nat));
        lemma_log2_ceil_bounds((n + 1) / 2, (l - 1) as nat);
        assert(n >= 2);
        assert(log2_ceil(n) == 1 + log2_ceil((n + 1) / 2));
    }
}

/// The field width needed at fold level `i`: the number of bits that a count
/// of up to `i + 2` requires, `ceil(log2(i + 2))`.
///
/// The small cases are answered by direct range tests; larger arguments fall
/// back to a halving loop.
pub fn calculate_l(i: usize) -> (l: usize)
    requires
        i <= usize::MAX - 2,
    ensures
        l == log2_ceil((i + 2) as nat),
{
    proof {
        lemma2_to64();
    }
    let n = i + 2;
    if n == 2 {
        proof {
            lemma_log2_ceil_bounds(2, 1);
        }
        1
    } else if n <= 4 {
        proof {
            lemma_log2_ceil_bounds(n as nat, 2);
        }
        2
    } else if n <= 8 {
        proof {
            lemma_log2_ceil_bounds(n as nat, 3);
        }
        3
    } else if n <= 16 {
        proof {
            lemma_log2_ceil_bounds(n as nat, 4);
        }
        4
    } else if n <= 32 {
        proof {
            lemma_log2_ceil_bounds(n as nat, 5);
        }
        5
    } else {
        let mut l: usize = 5;
        let mut m = (n - 1) / 32;
        proof {
            assert(pow2(5) == 32);
            assert(m == (n - 1) as nat / pow2(5));
        }
        while m >= 1
            invariant
                32 < n <= usize::MAX,
                5 <= l <= 64,
                m == (n - 1) as nat / pow2(l as nat),
                pow2((l - 1) as nat) <= (n - 1) as nat,
            decreases m,
        {
            proof {
                vstd::arithmetic::power2::lemma_pow2_pos(l as nat);
                // the divisor doubles: (x / 2^l) / 2 == x / 2^(l+1)
                lemma_div_denominator((n - 1) as int, pow2(l as nat) as int, 2);
                lemma_pow2_unfold((l + 1) as nat);
                // the loop guard says the current power still fits below n
                assert(pow2(l as nat) <= (n - 1) as nat) by (nonlinear_arith)
                    requires
                        m >= 1,
                        m == (n - 1) as nat / pow2(l as nat),
                        pow2(l as nat) > 0,
                ;
                if l >= 64 {
                    lemma2_to64();
                    lemma_pow2_strictly_increases(64, l as nat);
                    assert(false);
                }
            }
            m = m / 2;
            l = l + 1;
        }
        proof {
            vstd::arithmetic::power2::lemma_pow2_pos(l as nat);
            assert(((n - 1) as nat) < pow2(l as nat)) by (nonlinear_arith)
                requires
                    0 == (n - 1) as nat / pow2(l as nat),
                    pow2(l as nat) > 0,
                    n >= 1,
            ;
            lemma_log2_ceil_bounds(n as nat, l as nat);
        }
        l
    }
}

/// The decision the engine takes after the fold at level `i`.
pub enum RoundAction {
    /// The count field width persists at the next level: two adjacent words
    /// can be merged into one, halving the working set.
    Combine,
    /// The count field is about to outgrow its allocation: every word is
    /// repacked to widen its fields, and the working set keeps its length.
    Repack,
}

/// The decision rule: combine exactly when the field width needed at the
/// next level equals the width needed at this one.
pub open spec fn round_action_spec(i: nat) -> RoundAction {
    if log2_ceil(i + 2) == log2_ceil(i + 3) {
        RoundAction::Combine
    } else {
        RoundAction::Repack
    }
}

/// Computes the fold-level decision from [`calculate_l`].
pub fn round_action(i: usize) -> (r: RoundAction)
    requires
        i <= usize::MAX - 3,
    ensures
        r == round_action_spec(i as nat),
{
    if calculate_l(i) == calculate_l(i + 1) {
        RoundAction::Combine
    } else {
        RoundAction::Repack
    }
}

/// The input sequence padded with zero filler words up to length `n`.
pub open spec fn padded_seq_u64(s: Seq<u64>, n: int) -> Seq<u64> {
    Seq::new(n as nat, |i: int| if i < s.len() { s[i] } else { 0u64 })
}


/// The input sequence padded with zero filler words up to length `n`.
pub open spec fn padded_seq_u128(s: Seq<u128>, n: int) -> Seq<u128> {
    Seq::new(n as nat, |i: int| if i < s.len() { s[i] } else { 0u128 })
}

/// The length of the working set after padding: the input length rounded up
/// to the next multiple of eight, so that every combine round finds an even
/// working set and no element is dropped.
pub open spec fn padded_len(m: int) -> int {
    if m % 8 == 0 {
        m
    } else {
        m + 8 - m % 8
    }
}

/// The mask-table entries the 64-bit engine reads, with their defined values.
pub open spec fn masks_ok_u64(masks: [[u64; 8]; 8]) -> bool {
    masks@[0]@[1] == 0x5555555555555555u64 && masks@[1]@[2] == 0x3333333333333333u64
        && masks@[2]@[3] == 0x0F0F0F0F0F0F0F0Fu64 && masks@[3]@[4] == 0x00FF00FF00FF00FFu64
        && masks@[4]@[5] == 0x0000FFFF0000FFFFu64 && masks@[5]@[6] == 0x00000000FFFFFFFFu64
        && masks@[3]@[6] == 0xFFu64
}

/// Values of the small left shifts the 64-bit engine computes.
proof fn lemma_shift_amounts_u64(i: usize)
    by (bit_vector)
    requires
        i < 7,
    ensures
        1u64 << i <= 64,
        i == 0 ==> 1u64 << i == 1,
        i == 1 ==> 1u64 << i == 2,
        i == 2 ==> 1u64 << i == 4,
        i == 3 ==> 1u64 << i == 8,
        i == 4 ==> 1u64 << i == 16,
        i == 5 ==> 1u64 << i == 32,
        i == 6 ==> 1u64 << i == 64,
{
}

/// Values of the shifts on indices that the engine computes.
proof fn lemma_usize_shifts(x: usize)
    by (bit_vector)
    ensures
        x >> 1 == x / 2,
        1usize << 3 == 8,
        x < 8 ==> x << 3 == 8 * x,
        x < 8 ==> x << 4 == 16 * x,
        x < 0x40000000 ==> x << 1 == 2 * x,
{
}

/// Shifts `word` down by `shift_by` bits and isolates the blocks that `mask`
/// selects.
#[inline(always)]
fn isolate_blocks_u64(word: u64, mask: u64, shift_by: u64) -> (r: u64)
    requires
        shift_by < 64,
    ensures
        r == iso_u64(word, mask, shift_by),
{
    (word >> shift_by) & mask
}

/// One fold step at level `i`: adds each block to the block `2^i` bits above
/// it.
#[inline(always)]
fn k_prime_u64(k: u64, i: usize, mask: u64) -> (r: u64)
    requires
        i < 6,
        iso_u64(k, mask, 0) + iso_u64(k, mask, 1u64 << i) <= u64::MAX,
    ensures
        r == kp_u64(k, mask, 1u64 << i),
{
    proof {
        lemma_shift_amounts_u64(i);
    }
    isolate_blocks_u64(k, mask, 0) + isolate_blocks_u64(k, mask, 1u64 << i)
}

/// The bootstrap fold step; identical in shape to [`k_prime_u64`] but kept
/// apart because it runs before any element has been packed.
#[inline(always)]
fn naive_pack_word_u64(word: u64, i: usize, mask: u64) -> (r: u64)
    requires
        i < 6,
        iso_u64(word, mask, 0) + iso_u64(word, mask, 1u64 << i) <= u64::MAX,
    ensures
        r == kp_u64(word, mask, 1u64 << i),
{
    proof {
        lemma_shift_amounts_u64(i);
    }
    isolate_blocks_u64(word, mask, 0) + isolate_blocks_u64(word, mask, 1u64 << i)
}

/// One repack step at level `i`: keeps the low count fields in place and
/// moves the fields `2^l` bits up (with `l = calculate_l(i)`) into the upper
/// half `2^i` bits away, widening every field allocation.
#[inline(always)]
fn pack_word_u64(word: u64, i: usize, mask: u64) -> (r: u64)
    requires
        i < 6,
        log2_ceil((i + 2) as nat) < 6,
        iso_u64(word, mask, 0) + (iso_u64(
            word,
            mask,
            1u64 << (log2_ceil((i + 2) as nat) as usize),
        ) << (1u64 << i)) <= u64::MAX,
    ensures
        r == pk_u64(word, mask, 1u64 << (log2_ceil((i + 2) as nat) as usize), 1u64 << i),
{
    let l = calculate_l(i);
    proof {
        lemma_shift_amounts_u64(i);
        lemma_shift_amounts_u64(l);
    }
    isolate_blocks_u64(word, mask, 0) + (isolate_blocks_u64(word, mask, 1u64 << l) << (1u64 << i))
}

/// One combine step at level `i`: packs the fold state of two distinct
/// elements into a single word, the second shifted `2^i` bits up.
#[inline(always)]
fn combine_words_u64(word1: u64, word2: u64, i: usize) -> (r: u64)
    requires
        i < 6,
        word1 + (word2 << (1u64 << i)) <= u64::MAX,
    ensures
        r == cb_u64(word1, word2, 1u64 << i),
{
    proof {
        lemma_shift_amounts_u64(i);
    }
    word1 + (word2 << (1u64 << i))
}

/// Basic facts about the padded working-set length.
pub proof fn lemma_padded_len(m: int)
    requires
        0 <= m,
    ensures
        m <= padded_len(m) < m + 8,
        padded_len(m) % 8 == 0,
{
}

/// Copies the input and pads it with zero filler words to a multiple of
/// eight, so that every combine round finds an even working set.
fn pad_input_u64(experiment: &Vec<u64>) -> (set: Vec<u64>)
    ensures
        set@ == padded_seq_u64(experiment@, padded_len(experiment@.len() as int)),
{
    let ghost inp = experiment@;
    let m = experiment.len();
    let mut set: Vec<u64> = Vec::new();
    let mut j: usize = 0;
    while j < m
        invariant
            j <= m,
            m == inp.len(),
            set@.len() == j,
            forall|k: int| 0 <= k < j ==> #[trigger] set@[k] == inp[k],
            inp == experiment@,
        decreases m - j,
    {
        set.push(experiment[j]);
        j = j + 1;
    }
    while set.len() % 8 != 0
        invariant
            m == inp.len(),
            m <= set@.len(),
            set@.len() <= padded_len(m as int),
            forall|k: int| 0 <= k < m ==> #[trigger] set@[k] == inp[k],
            forall|k: int| m <= k < set@.len() ==> #[trigger] set@[k] == 0u64,
        decreases padded_len(m as int) - set@.len(),
    {
        proof {
            assert(padded_len(m as int) % 8 == 0);
            assert(set@.len() < padded_len(m as int));
        }
        set.push(0);
    }
    proof {
        assert(set@ =~= padded_seq_u64(inp, padded_len(m as int)));
    }
    set
}

/// The bootstrap rounds and the level-2 round of the 64-bit engine: after
/// them, every byte of every word holds the population count of the
/// corresponding byte of the original element. Level 2 folds and then
/// repacks, since the count field width grows from 2 to 3 bits there
/// (`calculate_l(2) == 2` but `calculate_l(3) == 3`).
fn bootstrap_u64(set: &mut Vec<u64>, masks: [[u64; 8]; 8], Ghost(p): Ghost<Seq<u64>>)
    requires
        masks_ok_u64(masks),
        old(set)@ == p,
    ensures
        final(set)@.len() == p.len(),
        forall|k: int|
            0 <= k < p.len() ==> #[trigger] final(set)@[k] == byte_counts_u64(p[k]),
{
    let ghost pl = p.len() as int;
    let padded = set.len();
    let mut j: usize = 0;
    while j < padded
        invariant
            j <= pl,
            padded as int == pl,
            set@.len() == pl,
            masks_ok_u64(masks),
            forall|k: int|
                0 <= k < j ==> #[trigger] set@[k] == kp_u64(
                    kp_u64(p[k], 0x5555555555555555u64, 1),
                    0x3333333333333333u64,
                    2,
                ),
            forall|k: int| j <= k < pl ==> #[trigger] set@[k] == p[k],
        decreases pl - j,
    {
        proof {
            lemma_shapes_u64(set@[j as int]);
            lemma_shapes_u64(kp_u64(set@[j as int], 0x5555555555555555u64, 1));
            lemma_shift_amounts_u64(0);
            lemma_shift_amounts_u64(1);
        }
        let w = naive_pack_word_u64(set[j], 0, masks[0][1]);
        set[j] = naive_pack_word_u64(w, 1, masks[1][2]);
        j = j + 1;
    }

    // level 2: fold, then decide; the field width grows from 2 to 3 bits
    // (calculate_l(2) == 2 but calculate_l(3) == 3), so the round repacks
    j = 0;
    while j < padded
        invariant
            j <= pl,
            padded as int == pl,
            set@.len() == pl,
            masks_ok_u64(masks),
            forall|k: int| 0 <= k < j ==> #[trigger] set@[k] == byte_counts_u64(p[k]),
            forall|k: int|
                j <= k < pl ==> #[trigger] set@[k] == kp_u64(
                    kp_u64(p[k], 0x5555555555555555u64, 1),
                    0x3333333333333333u64,
                    2,
                ),
        decreases pl - j,
    {
        proof {
            lemma_shapes_u64(set@[j as int]);
            lemma_shapes_u64(kp_u64(set@[j as int], 0x0F0F0F0F0F0F0F0Fu64, 4));
            lemma_shift_amounts_u64(2);
            lemma2_to64();
            lemma_log2_ceil_bounds(4, 2);
        }
        let w = k_prime_u64(set[j], 2, masks[2][3]);
        set[j] = pack_word_u64(w, 2, masks[2][3]);
        j = j + 1;
    }

}

/// The level-3 round of the 64-bit engine: fold, then combine, since the
/// count field width stays at 3 bits. The working set halves; word `k` then
/// carries elements `2k` and `2k + 1`.
fn level3_u64(set: &mut Vec<u64>, masks: [[u64; 8]; 8], Ghost(p): Ghost<Seq<u64>>)
    requires
        masks_ok_u64(masks),
        old(set)@.len() == p.len(),
        p.len() % 2 == 0,
        forall|k: int| 0 <= k < p.len() ==> #[trigger] old(set)@[k] == byte_counts_u64(p[k]),
    ensures
        2 * final(set)@.len() == p.len(),
        forall|k: int|
            0 <= k < final(set)@.len() ==> #[trigger] final(set)@[k] == quad_u64(
                p[2 * k],
                p[2 * k + 1],
            ),
{
    let ghost pl = p.len() as int;
    let padded = set.len();
    let mut j: usize = 0;
    // level 3 fold
    j = 0;
    while j < set.len()
        invariant
            j <= pl,
            set@.len() == pl,
            masks_ok_u64(masks),
            forall|k: int| 0 <= k < j ==> #[trigger] set@[k] == fold16_u64(p[k]),
            forall|k: int| j <= k < pl ==> #[trigger] set@[k] == byte_counts_u64(p[k]),
        decreases pl - j,
    {
        proof {
            lemma_shapes_u64(set@[j as int]);
            lemma_shift_amounts_u64(3);
        }
        set[j] = k_prime_u64(set[j], 3, masks[3][4]);
        j = j + 1;
    }
    // level 3 combine
    let mut half = padded >> 1;
    proof {
        lemma_usize_shifts(padded);
    }
    j = 0;
    while j < half
        invariant
            j <= half,
            padded as int == pl,
            2 * half == pl,
            set@.len() == pl,
            forall|k: int|
                0 <= k < j ==> #[trigger] set@[k] == quad_u64(p[2 * k], p[2 * k + 1]),
            forall|k: int| j <= k < pl ==> #[trigger] set@[k] == fold16_u64(p[k]),
        decreases half - j,
    {
        proof {
            lemma_usize_shifts(j);
            lemma_bound3_u64(p[2 * j as int]);
            lemma_bound3_u64(p[2 * j as int + 1]);
            lemma_comb3_u64(fold16_u64(p[2 * j as int]), fold16_u64(p[2 * j as int + 1]));
            lemma_shift_amounts_u64(3);
        }
        let j2 = 2 * j;
        set[j] = combine_words_u64(set[j2], set[j2 + 1], 3);
        j = j + 1;
    }
    set.truncate(half);
}

/// The level-4 round: fold, then combine again. Word `k` then carries
/// elements `4k` through `4k + 3`.
fn level4_u64(set: &mut Vec<u64>, masks: [[u64; 8]; 8], Ghost(p): Ghost<Seq<u64>>)
    requires
        masks_ok_u64(masks),
        2 * old(set)@.len() == p.len(),
        p.len() % 4 == 0,
        forall|k: int|
            0 <= k < old(set)@.len() ==> #[trigger] old(set)@[k] == quad_u64(
                p[2 * k],
                p[2 * k + 1],
            ),
    ensures
        4 * final(set)@.len() == p.len(),
        forall|k: int|
            0 <= k < final(set)@.len() ==> #[trigger] final(set)@[k] == oct_u64(
                p[4 * k],
                p[4 * k + 1],
                p[4 * k + 2],
                p[4 * k + 3],
            ),
{
    let ghost pl = p.len() as int;
    let mut j: usize = 0;
    // level 4 fold
    j = 0;
    while j < set.len()
        invariant
            j <= set@.len(),
            8 * set@.len() == 4 * pl,
            forall|k: int|
                0 <= k < j ==> #[trigger] set@[k] == fold32_u64(p[2 * k], p[2 * k + 1]),
            forall|k: int|
                j <= k < set@.len() ==> #[trigger] set@[k] == quad_u64(p[2 * k], p[2 * k + 1]),
            masks_ok_u64(masks),
        decreases set@.len() - j,
    {
        proof {
            lemma_shapes_u64(set@[j as int]);
            lemma_shift_amounts_u64(4);
        }
        set[j] = k_prime_u64(set[j], 4, masks[4][5]);
        j = j + 1;
    }
    // level 4 combine
    let half = set.len() >> 1;
    proof {
        lemma_usize_shifts(set@.len() as usize);
    }
    j = 0;
    while j < half
        invariant
            j <= half,
            set@.len() <= usize::MAX,
            2 * half == set@.len(),
            8 * set@.len() == 4 * pl,
            forall|k: int|
                0 <= k < j ==> #[trigger] set@[k] == oct_u64(
                    p[4 * k],
                    p[4 * k + 1],
                    p[4 * k + 2],
                    p[4 * k + 3],
                ),
            forall|k: int|
                j <= k < set@.len() ==> #[trigger] set@[k] == fold32_u64(p[2 * k], p[2 * k + 1]),
        decreases half - j,
    {
        proof {
            lemma_bound4_u64(p[4 * j as int], p[4 * j as int + 1]);
            lemma_bound4_u64(p[4 * j as int + 2], p[4 * j as int + 3]);
            lemma_comb4_u64(
                fold32_u64(p[4 * j as int], p[4 * j as int + 1]),
                fold32_u64(p[4 * j as int + 2], p[4 * j as int + 3]),
            );
            lemma_shift_amounts_u64(4);
        }
        let j2 = 2 * j;
        set[j] = combine_words_u64(set[j2], set[j2 + 1], 4);
        j = j + 1;
    }
    set.truncate(half);
}

/// The level-5 round: the last fold and combine. Word `k` then carries
/// elements `8k` through `8k + 7`, each contributing one byte-wide count.
fn level5_u64(set: &mut Vec<u64>, masks: [[u64; 8]; 8], Ghost(p): Ghost<Seq<u64>>)
    requires
        masks_ok_u64(masks),
        4 * old(set)@.len() == p.len(),
        p.len() % 8 == 0,
        forall|k: int|
            0 <= k < old(set)@.len() ==> #[trigger] old(set)@[k] == oct_u64(
                p[4 * k],
                p[4 * k + 1],
                p[4 * k + 2],
                p[4 * k + 3],
            ),
    ensures
        8 * final(set)@.len() == p.len(),
        forall|k: int|
            0 <= k < final(set)@.len() ==> #[trigger] final(set)@[k] == hexd_u64(
                p[8 * k],
                p[8 * k + 1],
                p[8 * k + 2],
                p[8 * k + 3],
                p[8 * k + 4],
                p[8 * k + 5],
                p[8 * k + 6],
                p[8 * k + 7],
            ),
{
    let ghost pl = p.len() as int;
    let mut j: usize = 0;
    // level 5 fold
    j = 0;
    while j < set.len()
        invariant
            j <= set@.len(),
            8 * set@.len() == 2 * pl,
            forall|k: int|
                0 <= k < j ==> #[trigger] set@[k] == fold64_u64(
                    p[4 * k],
                    p[4 * k + 1],
                    p[4 * k + 2],
                    p[4 * k + 3],
                ),
            forall|k: int|
                j <= k < set@.len() ==> #[trigger] set@[k] == oct_u64(
                    p[4 * k],
                    p[4 * k + 1],
                    p[4 * k + 2],
                    p[4 * k + 3],
                ),
            masks_ok_u64(masks),
        decreases set@.len() - j,
    {
        proof {
            lemma_shapes_u64(set@[j as int]);
            lemma_shift_amounts_u64(5);
        }
        set[j] = k_prime_u64(set[j], 5, masks[5][6]);
        j = j + 1;
    }
    // level 5 combine
    let half = set.len() >> 1;
    proof {
        lemma_usize_shifts(set@.len() as usize);
    }
    j = 0;
    while j < half
        invariant
            j <= half,
            set@.len() <= usize::MAX,
            2 * half == set@.len(),
            8 * set@.len() == 2 * pl,
            forall|k: int|
                0 <= k < j ==> #[trigger] set@[k] == hexd_u64(
                    p[8 * k],
                    p[8 * k + 1],
                    p[8 * k + 2],
                    p[8 * k + 3],
                    p[8 * k + 4],
                    p[8 * k + 5],
                    p[8 * k + 6],
                    p[8 * k + 7],
                ),
            forall|k: int|
                j <= k < set@.len() ==> #[trigger] set@[k] == fold64_u64(
                    p[4 * k],
                    p[4 * k + 1],
                    p[4 * k + 2],
                    p[4 * k + 3],
                ),
        decreases half - j,
    {
        proof {
            lemma_bound5_u64(
                p[8 * j as int],
                p[8 * j as int + 1],
                p[8 * j as int + 2],
                p[8 * j as int + 3],
            );
            lemma_bound5_u64(
                p[8 * j as int + 4],
                p[8 * j as int + 5],
                p[8 * j as int + 6],
                p[8 * j as int + 7],
            );
            lemma_comb5_u64(
                fold64_u64(
                    p[8 * j as int],
                    p[8 * j as int + 1],
                    p[8 * j as int + 2],
                    p[8 * j as int + 3],
                ),
                fold64_u64(
                    p[8 * j as int + 4],
                    p[8 * j as int + 5],
                    p[8 * j as int + 6],
                    p[8 * j as int + 7],
                ),
            );
            lemma_shift_amounts_u64(5);
        }
        let j2 = 2 * j;
        set[j] = combine_words_u64(set[j2], set[j2 + 1], 5);
        j = j + 1;
    }
    set.truncate(half);
}

/// Runs the bootstrap, the fold levels and the combine/repack rounds of the
/// 64-bit engine over a padded working set, leaving one word per eight input
/// elements.
fn fold_pack_u64(working: Vec<u64>, masks: [[u64; 8]; 8]) -> (out: Vec<u64>)
    requires
        masks_ok_u64(masks),
        working@.len() % 8 == 0,
    ensures
        8 * out@.len() == working@.len(),
        forall|k: int|
            0 <= k < out@.len() ==> #[trigger] out@[k] == hexd_u64(
                working@[8 * k],
                working@[8 * k + 1],
                working@[8 * k + 2],
                working@[8 * k + 3],
                working@[8 * k + 4],
                working@[8 * k + 5],
                working@[8 * k + 6],
                working@[8 * k + 7],
            ),
{
    let ghost p = working@;
    let mut set = working;
    bootstrap_u64(&mut set, masks, Ghost(p));
    level3_u64(&mut set, masks, Ghost(p));
    level4_u64(&mut set, masks, Ghost(p));
    level5_u64(&mut set, masks, Ghost(p));
    set
}

/// Reads the eight byte-wide counts back out of every fully folded word, in
/// increasing shift order.
fn extract_words_u64(set: &Vec<u64>, masks: [[u64; 8]; 8], Ghost(p): Ghost<Seq<u64>>) -> (acc: Vec<u64>)
    requires
        masks_ok_u64(masks),
        8 * set@.len() == p.len(),
        forall|k: int|
            0 <= k < set@.len() ==> #[trigger] set@[k] == hexd_u64(
                p[8 * k],
                p[8 * k + 1],
                p[8 * k + 2],
                p[8 * k + 3],
                p[8 * k + 4],
                p[8 * k + 5],
                p[8 * k + 6],
                p[8 * k + 7],
            ),
    ensures
        acc@.len() == p.len(),
        forall|q: int| 0 <= q < p.len() ==> #[trigger] acc@[q] == pop(p[q] as nat),
{
    let ghost pl = p.len() as int;
    let mut acc: Vec<u64> = Vec::new();
    let l = calculate_l(6);
    proof {
        lemma2_to64();
        lemma_log2_ceil_bounds(8, 3);
    }
    let fields = 1usize << (6 - l);
    proof {
        lemma_usize_shifts(1);
    }
    let mut widx: usize = 0;
    while widx < set.len()
        invariant
            widx <= set@.len(),
            8 * set@.len() == pl,
            p.len() == pl,
            acc@.len() == 8 * widx,
            fields == 8,
            l == 3,
            masks_ok_u64(masks),
            forall|k: int|
                0 <= k < set@.len() ==> #[trigger] set@[k] == hexd_u64(
                    p[8 * k],
                    p[8 * k + 1],
                    p[8 * k + 2],
                    p[8 * k + 3],
                    p[8 * k + 4],
                    p[8 * k + 5],
                    p[8 * k + 6],
                    p[8 * k + 7],
                ),
            forall|q: int| 0 <= q < acc@.len() ==> #[trigger] acc@[q] == pop(p[q] as nat),
        decreases set@.len() - widx,
    {
        let word = set[widx];
        proof {
            lemma_word_fields_u64(p, widx as int);
            assert(8 * (widx as int) + 8 <= pl);
        }
        let mut k2: usize = 0;
        while k2 < fields
            invariant
                k2 <= 8,
                fields == 8,
                l == 3,
                widx < set@.len(),
                8 * set@.len() == pl,
                masks_ok_u64(masks),
                word == set@[widx as int],
                acc@.len() == 8 * widx + k2,
                8 * (widx as int) + 8 <= pl,
                iso_u64(set@[widx as int], 0xFFu64, 0) == pop(p[8 * (widx as int)] as nat),
                iso_u64(set@[widx as int], 0xFFu64, 8) == pop(p[8 * (widx as int) + 1] as nat),
                iso_u64(set@[widx as int], 0xFFu64, 16) == pop(p[8 * (widx as int) + 2] as nat),
                iso_u64(set@[widx as int], 0xFFu64, 24) == pop(p[8 * (widx as int) + 3] as nat),
                iso_u64(set@[widx as int], 0xFFu64, 32) == pop(p[8 * (widx as int) + 4] as nat),
                iso_u64(set@[widx as int], 0xFFu64, 40) == pop(p[8 * (widx as int) + 5] as nat),
                iso_u64(set@[widx as int], 0xFFu64, 48) == pop(p[8 * (widx as int) + 6] as nat),
                iso_u64(set@[widx as int], 0xFFu64, 56) == pop(p[8 * (widx as int) + 7] as nat),
                forall|q: int| 0 <= q < acc@.len() ==> #[trigger] acc@[q] == pop(p[q] as nat),
            decreases fields - k2,
        {
            proof {
                lemma_usize_shifts(k2);
                assert((k2 << 3) as u64 == (8 * k2) as u64);
            }
            let r = isolate_blocks_u64(word, masks[3][6], (k2 << l) as u64);
            proof {
                if k2 == 0 {
                    assert(r == pop(p[8 * (widx as int)] as nat));
                } else if k2 == 1 {
                    assert(r == pop(p[8 * (widx as int) + 1] as nat));
                } else if k2 == 2 {
                    assert(r == pop(p[8 * (widx as int) + 2] as nat));
                } else if k2 == 3 {
                    assert(r == pop(p[8 * (widx as int) + 3] as nat));
                } else if k2 == 4 {
                    assert(r == pop(p[8 * (widx as int) + 4] as nat));
                } else if k2 == 5 {
                    assert(r == pop(p[8 * (widx as int) + 5] as nat));
                } else if k2 == 6 {
                    assert(r == pop(p[8 * (widx as int) + 6] as nat));
                } else {
                    assert(r == pop(p[8 * (widx as int) + 7] as nat));
                }
            }
            acc.push(r);
            k2 = k2 + 1;
        }
        widx = widx + 1;
    }

    acc
}

/// The fold-and-pack engine for 64-bit words.
///
/// The input is padded with zero filler words to a multiple of eight so that
/// every combine round finds an even working set (an odd working set would
/// drop its unpaired tail element); the filler counts are trimmed from the
/// output again. For this width the extraction order equals the input order.
pub fn count_ones_u64(experiment: &Vec<u64>, masks: [[u64; 8]; 8]) -> (acc: Vec<u64>)
    requires
        masks_ok_u64(masks),
    ensures
        acc@.len() == experiment@.len(),
        forall|i: int|
            0 <= i < experiment@.len() ==> #[trigger] acc@[i] == pop(experiment@[i] as nat),
{
    let ghost inp = experiment@;
    let m = experiment.len();
    proof {
        lemma_padded_len(m as int);
    }
    let set = pad_input_u64(experiment);
    let ghost p = padded_seq_u64(inp, padded_len(m as int));
    let packed = fold_pack_u64(set, masks);
    let mut acc = extract_words_u64(&packed, masks, Ghost(p));
    acc.truncate(m);
    proof {
        assert(forall|i: int| 0 <= i < m ==> p[i] == inp[i]);
    }
    acc
}

/// For a fully folded word the eight extracted byte fields are the
/// population counts of the eight elements that were packed into it.
proof fn lemma_word_fields_u64(p: Seq<u64>, k: int)
    requires
        0 <= k,
        8 * k + 8 <= p.len(),
    ensures
        iso_u64(
            hexd_u64(
                p[8 * k],
                p[8 * k + 1],
                p[8 * k + 2],
                p[8 * k + 3],
                p[8 * k + 4],
                p[8 * k + 5],
                p[8 * k + 6],
                p[8 * k + 7],
            ),
            0xFFu64,
            0,
        ) == pop(p[8 * k] as nat),
        iso_u64(
            hexd_u64(
                p[8 * k],
                p[8 * k + 1],
                p[8 * k + 2],
                p[8 * k + 3],
                p[8 * k + 4],
                p[8 * k + 5],
                p[8 * k + 6],
                p[8 * k + 7],
            ),
            0xFFu64,
            8,
        ) == pop(p[8 * k + 1] as nat),
        iso_u64(
            hexd_u64(
                p[8 * k],
                p[8 * k + 1],
                p[8 * k + 2],
                p[8 * k + 3],
                p[8 * k + 4],
                p[8 * k + 5],
                p[8 * k + 6],
                p[8 * k + 7],
            ),
            0xFFu64,
            16,
        ) == pop(p[8 * k + 2] as nat),
        iso_u64(
            hexd_u64(
                p[8 * k],
                p[8 * k + 1],
                p[8 * k + 2],
                p[8 * k + 3],
                p[8 * k + 4],
                p[8 * k + 5],
                p[8 * k + 6],
                p[8 * k + 7],
            ),
            0xFFu64,
            24,
        ) == pop(p[8 * k + 3] as nat),
        iso_u64(
            hexd_u64(
                p[8 * k],
                p[8 * k + 1],
                p[8 * k + 2],
                p[8 * k + 3],
                p[8 * k + 4],
                p[8 * k + 5],
                p[8 * k + 6],
                p[8 * k + 7],
            ),
            0xFFu64,
            32,
        ) == pop(p[8 * k + 4] as nat),
        iso_u64(
            hexd_u64(
                p[8 * k],
                p[8 * k + 1],
                p[8 * k + 2],
                p[8 * k + 3],
                p[8 * k + 4],
                p[8 * k + 5],
                p[8 * k + 6],
                p[8 * k + 7],
            ),
            0xFFu64,
            40,
        ) == pop(p[8 * k + 5] as nat),
        iso_u64(
            hexd_u64(
                p[8 * k],
                p[8 * k + 1],
                p[8 * k + 2],
                p[8 * k + 3],
                p[8 * k + 4],
                p[8 * k + 5],
                p[8 * k + 6],
                p[8 * k + 7],
            ),
            0xFFu64,
            48,
        ) == pop(p[8 * k + 6] as nat),
        iso_u64(
            hexd_u64(
                p[8 * k],
                p[8 * k + 1],
                p[8 * k + 2],
                p[8 * k + 3],
                p[8 * k + 4],
                p[8 * k + 5],
                p[8 * k + 6],
                p[8 * k + 7],
            ),
            0xFFu64,
            56,
        ) == pop(p[8 * k + 7] as nat),
{
    let x0 = p[8 * k];
    let x1 = p[8 * k + 1];
    let x2 = p[8 * k + 2];
    let x3 = p[8 * k + 3];
    let x4 = p[8 * k + 4];
    let x5 = p[8 * k + 5];
    let x6 = p[8 * k + 6];
    let x7 = p[8 * k + 7];
    lemma_group_fields_u64(x0);
    lemma_group_fields_u64(x1);
    lemma_group_fields_u64(x2);
    lemma_group_fields_u64(x3);
    lemma_group_fields_u64(x4);
    lemma_group_fields_u64(x5);
    lemma_group_fields_u64(x6);
    lemma_group_fields_u64(x7);
    lemma_tree_fields_u64(
        fold16_u64(x0),
        fold16_u64(x1),
        fold16_u64(x2),
        fold16_u64(x3),
        fold16_u64(x4),
        fold16_u64(x5),
        fold16_u64(x6),
        fold16_u64(x7),
    );
    lemma_pop_is_bits_u64(x0);
    lemma_pop_is_bits_u64(x1);
    lemma_pop_is_bits_u64(x2);
    lemma_pop_is_bits_u64(x3);
    lemma_pop_is_bits_u64(x4);
    lemma_pop_is_bits_u64(x5);
    lemma_pop_is_bits_u64(x6);
    lemma_pop_is_bits_u64(x7);
    let w = hexd_u64(x0, x1, x2, x3, x4, x5, x6, x7);
    assert(iso_u64(w, 0xFFu64, 0) == (w >> 0) & 0xFF);
    assert(iso_u64(w, 0xFFu64, 8) == (w >> 8) & 0xFF);
    assert(iso_u64(w, 0xFFu64, 16) == (w >> 16) & 0xFF);
    assert(iso_u64(w, 0xFFu64, 24) == (w >> 24) & 0xFF);
    assert(iso_u64(w, 0xFFu64, 32) == (w >> 32) & 0xFF);
    assert(iso_u64(w, 0xFFu64, 40) == (w >> 40) & 0xFF);
    assert(iso_u64(w, 0xFFu64, 48) == (w >> 48) & 0xFF);
    assert(iso_u64(w, 0xFFu64, 56) == (w >> 56) & 0xFF);
}

/// The mask-table entries the 128-bit engine reads, with their defined values.
pub open spec fn masks_ok_u128(masks: [[u128; 8]; 8]) -> bool {
    masks@[0]@[1] == 0x55555555555555555555555555555555u128 && masks@[1]@[2] == 0x33333333333333333333333333333333u128
        && masks@[2]@[3] == 0x0F0F0F0F0F0F0F0F0F0F0F0F0F0F0F0Fu128 && masks@[3]@[4] == 0x00FF00FF00FF00FF00FF00FF00FF00FFu128
        && masks@[4]@[5] == 0x0000FFFF0000FFFF0000FFFF0000FFFFu128 && masks@[5]@[6] == 0x00000000FFFFFFFF00000000FFFFFFFFu128
        && masks@[6]@[7] == 0x0000000000000000FFFFFFFFFFFFFFFFu128 && masks@[4]@[7] == 0xFFFFu128
}

/// Values of the small left shifts the 128-bit engine computes.
proof fn lemma_shift_amounts_u128(i: usize)
    by (bit_vector)
    requires
        i < 8,
    ensures
        1u128 << i <= 128,
        i == 0 ==> 1u128 << i == 1,
        i == 1 ==> 1u128 << i == 2,
        i == 2 ==> 1u128 << i == 4,
        i == 3 ==> 1u128 << i == 8,
        i == 4 ==> 1u128 << i == 16,
        i == 5 ==> 1u128 << i == 32,
        i == 6 ==> 1u128 << i == 64,
        i == 7 ==> 1u128 << i == 128,
{
}

/// Shifts `word` down by `shift_by` bits and isolates the blocks that `mask`
/// selects.
#[inline(always)]
fn isolate_blocks_u128(word: u128, mask: u128, shift_by: u128) -> (r: u128)
    requires
        shift_by < 128,
    ensures
        r == iso_u128(word, mask, shift_by),
{
    (word >> shift_by) & mask
}

/// One fold step at level `i`: adds each block to the block `2^i` bits above
/// it.
#[inline(always)]
fn k_prime_u128(k: u128, i: usize, mask: u128) -> (r: u128)
    requires
        i < 7,
        iso_u128(k, mask, 0) + iso_u128(k, mask, 1u128 << i) <= u128::MAX,
    ensures
        r == kp_u128(k, mask, 1u128 << i),
{
    proof {
        lemma_shift_amounts_u128(i);
    }
    isolate_blocks_u128(k, mask, 0) + isolate_blocks_u128(k, mask, 1u128 << i)
}

/// The bootstrap fold step; identical in shape to [`k_prime_u128`] but kept
/// apart because it runs before any element has been packed.
#[inline(always)]
fn naive_pack_word_u128(word: u128, i: usize, mask: u128) -> (r: u128)
    requires
        i < 7,
        iso_u128(word, mask, 0) + iso_u128(word, mask, 1u128 << i) <= u128::MAX,
    ensures
        r == kp_u128(word, mask, 1u128 << i),
{
    proof {
        lemma_shift_amounts_u128(i);
    }
    isolate_blocks_u128(word, mask, 0) + isolate_blocks_u128(word, mask, 1u128 << i)
}

/// One repack step at level `i`: keeps the low count fields in place and
/// moves the fields `2^l` bits up (with `l = calculate_l(i)`) into the upper
/// half `2^i` bits away, widening every field allocation.
#[inline(always)]
fn pack_word_u128(word: u128, i: usize, mask: u128) -> (r: u128)
    requires
        i < 7,
        log2_ceil((i + 2) as nat) < 7,
        iso_u128(word, mask, 0) + (iso_u128(
            word,
            mask,
            1u128 << (log2_ceil((i + 2) as nat) as usize),
        ) << (1u128 << i)) <= u128::MAX,
    ensures
        r == pk_u128(word, mask, 1u128 << (log2_ceil((i + 2) as nat) as usize), 1u128 << i),
{
    let l = calculate_l(i);
    proof {
        lemma_shift_amounts_u128(i);
        lemma_shift_amounts_u128(l);
    }
    isolate_blocks_u128(word, mask, 0) + (isolate_blocks_u128(word, mask, 1u128 << l) << (1u128 << i))
}

/// One combine step at level `i`: packs the fold state of two distinct
/// elements into a single word, the second shifted `2^i` bits up.
#[inline(always)]
fn combine_words_u128(word1: u128, word2: u128, i: usize) -> (r: u128)
    requires
        i < 7,
        word1 + (word2 << (1u128 << i)) <= u128::MAX,
    ensures
        r == cb_u128(word1, word2, 1u128 << i),
{
    proof {
        lemma_shift_amounts_u128(i);
    }
    word1 + (word2 << (1u128 << i))
}

/// Copies the input and pads it with zero filler words to a multiple of
/// eight, so that every combine round finds an even working set.
fn pad_input_u128(experiment: &Vec<u128>) -> (set: Vec<u128>)
    ensures
        set@ == padded_seq_u128(experiment@, padded_len(experiment@.len() as int)),
{
    let ghost inp = experiment@;
    let m = experiment.len();
    let mut set: Vec<u128> = Vec::new();
    let mut j: usize = 0;
    while j < m
        invariant
            j <= m,
            m == inp.len(),
            set@.len() == j,
            forall|k: int| 0 <= k < j ==> #[trigger] set@[k] == inp[k],
            inp == experiment@,
        decreases m - j,
    {
        set.push(experiment[j]);
        j = j + 1;
    }
    while set.len() % 8 != 0
        invariant
            m == inp.len(),
            m <= set@.len(),
            set@.len() <= padded_len(m as int),
            forall|k: int| 0 <= k < m ==> #[trigger] set@[k] == inp[k],
            forall|k: int| m <= k < set@.len() ==> #[trigger] set@[k] == 0u128,
        decreases padded_len(m as int) - set@.len(),
    {
        proof {
            assert(padded_len(m as int) % 8 == 0);
            assert(set@.len() < padded_len(m as int));
        }
        set.push(0);
    }
    proof {
        assert(set@ =~= padded_seq_u128(inp, padded_len(m as int)));
    }
    set
}

/// The bootstrap rounds and the level-2 round of the 128-bit engine: after
/// them, every byte of every word holds the population count of the
/// corresponding byte of the original element. Level 2 folds and then
/// repacks, since the count field width grows from 2 to 3 bits there
/// (`calculate_l(2) == 2` but `calculate_l(3) == 3`).
fn bootstrap_u128(set: &mut Vec<u128>, masks: [[u128; 8]; 8], Ghost(p): Ghost<Seq<u128>>)
    requires
        masks_ok_u128(masks),
        old(set)@ == p,
    ensures
        final(set)@.len() == p.len(),
        forall|k: int|
            0 <= k < p.len() ==> #[trigger] final(set)@[k] == byte_counts_u128(p[k]),
{
    let ghost pl = p.len() as int;
    let padded = set.len();
    let mut j: usize = 0;
    while j < padded
        invariant
            j <= pl,
            padded as int == pl,
            set@.len() == pl,
            masks_ok_u128(masks),
            forall|k: int|
                0 <= k < j ==> #[trigger] set@[k] == kp_u128(
                    kp_u128(p[k], 0x55555555555555555555555555555555u128, 1),
                    0x33333333333333333333333333333333u128,
                    2,
                ),
            forall|k: int| j <= k < pl ==> #[trigger] set@[k] == p[k],
        decreases pl - j,
    {
        proof {
            lemma_shapes_u128(set@[j as int]);
            lemma_shapes_u128(kp_u128(set@[j as int], 0x55555555555555555555555555555555u128, 1));
            lemma_shift_amounts_u128(0);
            lemma_shift_amounts_u128(1);
        }
        let w = naive_pack_word_u128(set[j], 0, masks[0][1]);
        set[j] = naive_pack_word_u128(w, 1, masks[1][2]);
        j = j + 1;
    }

    // level 2: fold, then decide; the field width grows from 2 to 3 bits
    // (calculate_l(2) == 2 but calculate_l(3) == 3), so the round repacks
    j = 0;
    while j < padded
        invariant
            j <= pl,
            padded as int == pl,
            set@.len() == pl,
            masks_ok_u128(masks),
            forall|k: int| 0 <= k < j ==> #[trigger] set@[k] == byte_counts_u128(p[k]),
            forall|k: int|
                j <= k < pl ==> #[trigger] set@[k] == kp_u128(
                    kp_u128(p[k], 0x55555555555555555555555555555555u128, 1),
                    0x33333333333333333333333333333333u128,
                    2,
                ),
        decreases pl - j,
    {
        proof {
            lemma_shapes_u128(set@[j as int]);
            lemma_shapes_u128(kp_u128(set@[j as int], 0x0F0F0F0F0F0F0F0F0F0F0F0F0F0F0F0Fu128, 4));
            lemma_shift_amounts_u128(2);
            lemma2_to64();
            lemma_log2_ceil_bounds(4, 2);
        }
        let w = k_prime_u128(set[j], 2, masks[2][3]);
        set[j] = pack_word_u128(w, 2, masks[2][3]);
        j = j + 1;
    }

}

/// The level-3 round of the 128-bit engine: fold, then combine, since the
/// count field width stays at 3 bits. The working set halves; word `k` then
/// carries elements `2k` and `2k + 1`.
fn level3_u128(set: &mut Vec<u128>, masks: [[u128; 8]; 8], Ghost(p): Ghost<Seq<u128>>)
    requires
        masks_ok_u128(masks),
        old(set)@.len() == p.len(),
        p.len() % 2 == 0,
        forall|k: int| 0 <= k < p.len() ==> #[trigger] old(set)@[k] == byte_counts_u128(p[k]),
    ensures
        2 * final(set)@.len() == p.len(),
        forall|k: int|
            0 <= k < final(set)@.len() ==> #[trigger] final(set)@[k] == quad_u128(
                p[2 * k],
                p[2 * k + 1],
            ),
{
    let ghost pl = p.len() as int;
    let padded = set.len();
    let mut j: usize = 0;
    // level 3 fold
    j = 0;
    while j < set.len()
        invariant
            j <= pl,
            set@.len() == pl,
            masks_ok_u128(masks),
            forall|k: int| 0 <= k < j ==> #[trigger] set@[k] == fold16_u128(p[k]),
            forall|k: int| j <= k < pl ==> #[trigger] set@[k] == byte_counts_u128(p[k]),
        decreases pl - j,
    {
        proof {
            lemma_shapes_u128(set@[j as int]);
            lemma_shift_amounts_u128(3);
        }
        set[j] = k_prime_u128(set[j], 3, masks[3][4]);
        j = j + 1;
    }
    // level 3 combine
    let mut half = padded >> 1;
    proof {
        lemma_usize_shifts(padded);
    }
    j = 0;
    while j < half
        invariant
            j <= half,
            padded as int == pl,
            2 * half == pl,
            set@.len() == pl,
            forall|k: int|
                0 <= k < j ==> #[trigger] set@[k] == quad_u128(p[2 * k], p[2 * k + 1]),
            forall|k: int| j <= k < pl ==> #[trigger] set@[k] == fold16_u128(p[k]),
        decreases half - j,
    {
        proof {
            lemma_usize_shifts(j);
            lemma_bound3_u128(p[2 * j as int]);
            lemma_bound3_u128(p[2 * j as int + 1]);
            lemma_comb3_u128(fold16_u128(p[2 * j as int]), fold16_u128(p[2 * j as int + 1]));
            lemma_shift_amounts_u128(3);
        }
        let j2 = 2 * j;
        set[j] = combine_words_u128(set[j2], set[j2 + 1], 3);
        j = j + 1;
    }
    set.truncate(half);
}

/// The level-4 round: fold, then combine again. Word `k` then carries
/// elements `4k` through `4k + 3`.
fn level4_u128(set: &mut Vec<u128>, masks: [[u128; 8]; 8], Ghost(p): Ghost<Seq<u128>>)
    requires
        masks_ok_u128(masks),
        2 * old(set)@.len() == p.len(),
        p.len() % 4 == 0,
        forall|k: int|
            0 <= k < old(set)@.len() ==> #[trigger] old(set)@[k] == quad_u128(
                p[2 * k],
                p[2 * k + 1],
            ),
    ensures
        4 * final(set)@.len() == p.len(),
        forall|k: int|
            0 <= k < final(set)@.len() ==> #[trigger] final(set)@[k] == oct_u128(
                p[4 * k],
                p[4 * k + 1],
                p[4 * k + 2],
                p[4 * k + 3],
            ),
{
    let ghost pl = p.len() as int;
    let mut j: usize = 0;
    // level 4 fold
    j = 0;
    while j < set.len()
        invariant
            j <= set@.len(),
            8 * set@.len() == 4 * pl,
            forall|k: int|
                0 <= k < j ==> #[trigger] set@[k] == fold32_u128(p[2 * k], p[2 * k + 1]),
            forall|k: int|
                j <= k < set@.len() ==> #[trigger] set@[k] == quad_u128(p[2 * k], p[2 * k + 1]),
            masks_ok_u128(masks),
        decreases set@.len() - j,
    {
        proof {
            lemma_shapes_u128(set@[j as int]);
            lemma_shift_amounts_u128(4);
        }
        set[j] = k_prime_u128(set[j], 4, masks[4][5]);
        j = j + 1;
    }
    // level 4 combine
    let half = set.len() >> 1;
    proof {
        lemma_usize_shifts(set@.len() as usize);
    }
    j = 0;
    while j < half
        invariant
            j <= half,
            set@.len() <= usize::MAX,
            2 * half == set@.len(),
            8 * set@.len() == 4 * pl,
            forall|k: int|
                0 <= k < j ==> #[trigger] set@[k] == oct_u128(
                    p[4 * k],
                    p[4 * k + 1],
                    p[4 * k + 2],
                    p[4 * k + 3],
                ),
            forall|k: int|
                j <= k < set@.len() ==> #[trigger] set@[k] == fold32_u128(p[2 * k], p[2 * k + 1]),
        decreases half - j,
    {
        proof {
            lemma_bound4_u128(p[4 * j as int], p[4 * j as int + 1]);
            lemma_bound4_u128(p[4 * j as int + 2], p[4 * j as int + 3]);
            lemma_comb4_u128(
                fold32_u128(p[4 * j as int], p[4 * j as int + 1]),
                fold32_u128(p[4 * j as int + 2], p[4 * j as int + 3]),
            );
            lemma_shift_amounts_u128(4);
        }
        let j2 = 2 * j;
        set[j] = combine_words_u128(set[j2], set[j2 + 1], 4);
        j = j + 1;
    }
    set.truncate(half);
}

/// The level-5 round: the last fold and combine. Word `k` then carries
/// elements `8k` through `8k + 7`, each contributing one byte-wide count.
fn level5_u128(set: &mut Vec<u128>, masks: [[u128; 8]; 8], Ghost(p): Ghost<Seq<u128>>)
    requires
        masks_ok_u128(masks),
        4 * old(set)@.len() == p.len(),
        p.len() % 8 == 0,
        forall|k: int|
            0 <= k < old(set)@.len() ==> #[trigger] old(set)@[k] == oct_u128(
                p[4 * k],
                p[4 * k + 1],
                p[4 * k + 2],
                p[4 * k + 3],
            ),
    ensures
        8 * final(set)@.len() == p.len(),
        forall|k: int|
            0 <= k < final(set)@.len() ==> #[trigger] final(set)@[k] == hexd_u128(
                p[8 * k],
                p[8 * k + 1],
                p[8 * k + 2],
                p[8 * k + 3],
                p[8 * k + 4],
                p[8 * k + 5],
                p[8 * k + 6],
                p[8 * k + 7],
            ),
{
    let ghost pl = p.len() as int;
    let mut j: usize = 0;
    // level 5 fold
    j = 0;
    while j < set.len()
        invariant
            j <= set@.len(),
            8 * set@.len() == 2 * pl,
            forall|k: int|
                0 <= k < j ==> #[trigger] set@[k] == fold64_u128(
                    p[4 * k],
                    p[4 * k + 1],
                    p[4 * k + 2],
                    p[4 * k + 3],
                ),
            forall|k: int|
                j <= k < set@.len() ==> #[trigger] set@[k] == oct_u128(
                    p[4 * k],
                    p[4 * k + 1],
                    p[4 * k + 2],
                    p[4 * k + 3],
                ),
            masks_ok_u128(masks),
        decreases set@.len() - j,
    {
        proof {
            lemma_shapes_u128(set@[j as int]);
            lemma_shift_amounts_u128(5);
        }
        set[j] = k_prime_u128(set[j], 5, masks[5][6]);
        j = j + 1;
    }
    // level 5 combine
    let half = set.len() >> 1;
    proof {
        lemma_usize_shifts(set@.len() as usize);
    }
    j = 0;
    while j < half
        invariant
            j <= half,
            set@.len() <= usize::MAX,
            2 * half == set@.len(),
            8 * set@.len() == 2 * pl,
            forall|k: int|
                0 <= k < j ==> #[trigger] set@[k] == hexd_u128(
                    p[8 * k],
                    p[8 * k + 1],
                    p[8 * k + 2],
                    p[8 * k + 3],
                    p[8 * k + 4],
                    p[8 * k + 5],
                    p[8 * k + 6],
                    p[8 * k + 7],
                ),
            forall|k: int|
                j <= k < set@.len() ==> #[trigger] set@[k] == fold64_u128(
                    p[4 * k],
                    p[4 * k + 1],
                    p[4 * k + 2],
                    p[4 * k + 3],
                ),
        decreases half - j,
    {
        proof {
            lemma_bound5_u128(
                p[8 * j as int],
                p[8 * j as int + 1],
                p[8 * j as int + 2],
                p[8 * j as int + 3],
            );
            lemma_bound5_u128(
                p[8 * j as int + 4],
                p[8 * j as int + 5],
                p[8 * j as int + 6],
                p[8 * j as int + 7],
            );
            lemma_comb5_u128(
                fold64_u128(
                    p[8 * j as int],
                    p[8 * j as int + 1],
                    p[8 * j as int + 2],
                    p[8 * j as int + 3],
                ),
                fold64_u128(
                    p[8 * j as int + 4],
                    p[8 * j as int + 5],
                    p[8 * j as int + 6],
                    p[8 * j as int + 7],
                ),
            );
            lemma_shift_amounts_u128(5);
        }
        let j2 = 2 * j;
        set[j] = combine_words_u128(set[j2], set[j2 + 1], 5);
        j = j + 1;
    }
    set.truncate(half);
}

/// Runs the bootstrap, the fold levels and the combine/repack rounds of the
/// 128-bit engine over a padded working set, leaving one word per eight input
/// elements.
fn fold_pack_u128(working: Vec<u128>, masks: [[u128; 8]; 8]) -> (out: Vec<u128>)
    requires
        masks_ok_u128(masks),
        working@.len() % 8 == 0,
    ensures
        8 * out@.len() == working@.len(),
        forall|k: int|
            0 <= k < out@.len() ==> #[trigger] out@[k] == hexd_u128(
                working@[8 * k],
                working@[8 * k + 1],
                working@[8 * k + 2],
                working@[8 * k + 3],
                working@[8 * k + 4],
                working@[8 * k + 5],
                working@[8 * k + 6],
                working@[8 * k + 7],
            ),
{
    let ghost p = working@;
    let mut set = working;
    bootstrap_u128(&mut set, masks, Ghost(p));
    level3_u128(&mut set, masks, Ghost(p));
    level4_u128(&mut set, masks, Ghost(p));
    level5_u128(&mut set, masks, Ghost(p));
    set
}


/// The level-6 round of the 128-bit engine: one more fold, then a repack —
/// the count field width grows from 3 to 4 bits here (`calculate_l(6) == 3`
/// but `calculate_l(7) == 4`), so the fields widen from 8 to 16 bits and the
/// odd byte slots move to the upper half of each word.
fn level6_u128(set: &mut Vec<u128>, masks: [[u128; 8]; 8], Ghost(p): Ghost<Seq<u128>>)
    requires
        masks_ok_u128(masks),
        8 * old(set)@.len() == p.len(),
        forall|k: int|
            0 <= k < old(set)@.len() ==> #[trigger] old(set)@[k] == hexd_u128(
                p[8 * k],
                p[8 * k + 1],
                p[8 * k + 2],
                p[8 * k + 3],
                p[8 * k + 4],
                p[8 * k + 5],
                p[8 * k + 6],
                p[8 * k + 7],
            ),
    ensures
        final(set)@.len() == old(set)@.len(),
        forall|k: int|
            0 <= k < final(set)@.len() ==> #[trigger] final(set)@[k] == packed_u128(
                p[8 * k],
                p[8 * k + 1],
                p[8 * k + 2],
                p[8 * k + 3],
                p[8 * k + 4],
                p[8 * k + 5],
                p[8 * k + 6],
                p[8 * k + 7],
            ),
{
    let ghost pl = old(set)@.len() as int;
    let mut j: usize = 0;
    while j < set.len()
        invariant
            j <= set@.len(),
            set@.len() == pl,
            8 * pl == p.len(),
            masks_ok_u128(masks),
            forall|k: int|
                0 <= k < j ==> #[trigger] set@[k] == fold128_u128(
                    p[8 * k],
                    p[8 * k + 1],
                    p[8 * k + 2],
                    p[8 * k + 3],
                    p[8 * k + 4],
                    p[8 * k + 5],
                    p[8 * k + 6],
                    p[8 * k + 7],
                ),
            forall|k: int|
                j <= k < set@.len() ==> #[trigger] set@[k] == hexd_u128(
                    p[8 * k],
                    p[8 * k + 1],
                    p[8 * k + 2],
                    p[8 * k + 3],
                    p[8 * k + 4],
                    p[8 * k + 5],
                    p[8 * k + 6],
                    p[8 * k + 7],
                ),
        decreases set@.len() - j,
    {
        proof {
            lemma_shapes_u128(set@[j as int]);
            lemma_shift_amounts_u128(6);
        }
        set[j] = k_prime_u128(set[j], 6, masks[6][7]);
        j = j + 1;
    }
    j = 0;
    while j < set.len()
        invariant
            j <= set@.len(),
            set@.len() == pl,
            8 * pl == p.len(),
            masks_ok_u128(masks),
            forall|k: int|
                0 <= k < j ==> #[trigger] set@[k] == packed_u128(
                    p[8 * k],
                    p[8 * k + 1],
                    p[8 * k + 2],
                    p[8 * k + 3],
                    p[8 * k + 4],
                    p[8 * k + 5],
                    p[8 * k + 6],
                    p[8 * k + 7],
                ),
            forall|k: int|
                j <= k < set@.len() ==> #[trigger] set@[k] == fold128_u128(
                    p[8 * k],
                    p[8 * k + 1],
                    p[8 * k + 2],
                    p[8 * k + 3],
                    p[8 * k + 4],
                    p[8 * k + 5],
                    p[8 * k + 6],
                    p[8 * k + 7],
                ),
        decreases set@.len() - j,
    {
        proof {
            lemma_shapes_u128(set@[j as int]);
            lemma_shift_amounts_u128(6);
            lemma_shift_amounts_u128(3);
            lemma2_to64();
            lemma_log2_ceil_bounds(8, 3);
        }
        set[j] = pack_word_u128(set[j], 6, masks[3][4]);
        j = j + 1;
    }
}

/// Which element of its block of eight an extraction slot carries for
/// 128-bit words: the level-6 repack put the even elements into the low four
/// 16-bit slots and the odd elements into the high four.
pub open spec fn slot_source_u128(t: int) -> int {
    if t < 4 {
        2 * t
    } else {
        2 * (t - 4) + 1
    }
}

/// The element whose count stands at position `q` of the raw (unreordered)
/// extraction output of the 128-bit engine.
pub open spec fn src_of_u128(q: int) -> int {
    8 * (q / 8) + slot_source_u128(q % 8)
}

/// For a fully folded and repacked 128-bit word, the eight extracted 16-bit
/// fields are the population counts of the packed elements, even elements
/// first.
proof fn lemma_word_fields_u128(p: Seq<u128>, k: int)
    requires
        0 <= k,
        8 * k + 8 <= p.len(),
    ensures
        iso_u128(packed_u128(p[8 * k], p[8 * k + 1], p[8 * k + 2], p[8 * k + 3], p[8 * k + 4], p[8 * k + 5], p[8 * k + 6], p[8 * k + 7]), 0xFFFFu128, 0) == pop(p[8 * k] as nat),
        iso_u128(packed_u128(p[8 * k], p[8 * k + 1], p[8 * k + 2], p[8 * k + 3], p[8 * k + 4], p[8 * k + 5], p[8 * k + 6], p[8 * k + 7]), 0xFFFFu128, 16) == pop(p[8 * k + 2] as nat),
        iso_u128(packed_u128(p[8 * k], p[8 * k + 1], p[8 * k + 2], p[8 * k + 3], p[8 * k + 4], p[8 * k + 5], p[8 * k + 6], p[8 * k + 7]), 0xFFFFu128, 32) == pop(p[8 * k + 4] as nat),
        iso_u128(packed_u128(p[8 * k], p[8 * k + 1], p[8 * k + 2], p[8 * k + 3], p[8 * k + 4], p[8 * k + 5], p[8 * k + 6], p[8 * k + 7]), 0xFFFFu128, 48) == pop(p[8 * k + 6] as nat),
        iso_u128(packed_u128(p[8 * k], p[8 * k + 1], p[8 * k + 2], p[8 * k + 3], p[8 * k + 4], p[8 * k + 5], p[8 * k + 6], p[8 * k + 7]), 0xFFFFu128, 64) == pop(p[8 * k + 1] as nat),
        iso_u128(packed_u128(p[8 * k], p[8 * k + 1], p[8 * k + 2], p[8 * k + 3], p[8 * k + 4], p[8 * k + 5], p[8 * k + 6], p[8 * k + 7]), 0xFFFFu128, 80) == pop(p[8 * k + 3] as nat),
        iso_u128(packed_u128(p[8 * k], p[8 * k + 1], p[8 * k + 2], p[8 * k + 3], p[8 * k + 4], p[8 * k + 5], p[8 * k + 6], p[8 * k + 7]), 0xFFFFu128, 96) == pop(p[8 * k + 5] as nat),
        iso_u128(packed_u128(p[8 * k], p[8 * k + 1], p[8 * k + 2], p[8 * k + 3], p[8 * k + 4], p[8 * k + 5], p[8 * k + 6], p[8 * k + 7]), 0xFFFFu128, 112) == pop(p[8 * k + 7] as nat),
{
    let x0 = p[8 * k];
    let x1 = p[8 * k + 1];
    let x2 = p[8 * k + 2];
    let x3 = p[8 * k + 3];
    let x4 = p[8 * k + 4];
    let x5 = p[8 * k + 5];
    let x6 = p[8 * k + 6];
    let x7 = p[8 * k + 7];
    lemma_group_fields_u128(x0);
    lemma_group_fields_u128(x1);
    lemma_group_fields_u128(x2);
    lemma_group_fields_u128(x3);
    lemma_group_fields_u128(x4);
    lemma_group_fields_u128(x5);
    lemma_group_fields_u128(x6);
    lemma_group_fields_u128(x7);
    lemma_bound3_u128(x0);
    lemma_bound3_u128(x1);
    lemma_bound3_u128(x2);
    lemma_bound3_u128(x3);
    lemma_bound3_u128(x4);
    lemma_bound3_u128(x5);
    lemma_bound3_u128(x6);
    lemma_bound3_u128(x7);
    lemma_tree_fields_u128(
        fold16_u128(x0),
        fold16_u128(x1),
        fold16_u128(x2),
        fold16_u128(x3),
        fold16_u128(x4),
        fold16_u128(x5),
        fold16_u128(x6),
        fold16_u128(x7),
    );
    lemma_pop_is_bits_u128(x0);
    lemma_pop_is_bits_u128(x1);
    lemma_pop_is_bits_u128(x2);
    lemma_pop_is_bits_u128(x3);
    lemma_pop_is_bits_u128(x4);
    lemma_pop_is_bits_u128(x5);
    lemma_pop_is_bits_u128(x6);
    lemma_pop_is_bits_u128(x7);
    let w = packed_u128(x0, x1, x2, x3, x4, x5, x6, x7);
    assert(iso_u128(w, 0xFFFFu128, 0) == (w >> 0) & 0xFFFF);
    assert(iso_u128(w, 0xFFFFu128, 16) == (w >> 16) & 0xFFFF);
    assert(iso_u128(w, 0xFFFFu128, 32) == (w >> 32) & 0xFFFF);
    assert(iso_u128(w, 0xFFFFu128, 48) == (w >> 48) & 0xFFFF);
    assert(iso_u128(w, 0xFFFFu128, 64) == (w >> 64) & 0xFFFF);
    assert(iso_u128(w, 0xFFFFu128, 80) == (w >> 80) & 0xFFFF);
    assert(iso_u128(w, 0xFFFFu128, 96) == (w >> 96) & 0xFFFF);
    assert(iso_u128(w, 0xFFFFu128, 112) == (w >> 112) & 0xFFFF);
}

/// Reads the eight 16-bit counts back out of every fully repacked word, in
/// increasing shift order; position `q` of the result carries the count of
/// element `src_of_u128(q)`.
fn extract_words_u128(set: &Vec<u128>, masks: [[u128; 8]; 8], Ghost(p): Ghost<Seq<u128>>) -> (acc: Vec<u128>)
    requires
        masks_ok_u128(masks),
        8 * set@.len() == p.len(),
        forall|k: int|
            0 <= k < set@.len() ==> #[trigger] set@[k] == packed_u128(
                p[8 * k],
                p[8 * k + 1],
                p[8 * k + 2],
                p[8 * k + 3],
                p[8 * k + 4],
                p[8 * k + 5],
                p[8 * k + 6],
                p[8 * k + 7],
            ),
    ensures
        acc@.len() == p.len(),
        forall|q: int|
            0 <= q < p.len() ==> 0 <= src_of_u128(q) < p.len() && #[trigger] acc@[q] == pop(
                p[src_of_u128(q)] as nat,
            ),
{
    let ghost pl = p.len() as int;
    let mut acc: Vec<u128> = Vec::new();
    let l = calculate_l(7);
    proof {
        lemma2_to64();
        lemma_log2_ceil_bounds(9, 4);
    }
    let fields = 1usize << (7 - l);
    proof {
        lemma_usize_shifts(1);
    }
    let mut widx: usize = 0;
    while widx < set.len()
        invariant
            widx <= set@.len(),
            8 * set@.len() == pl,
            p.len() == pl,
            acc@.len() == 8 * widx,
            fields == 8,
            l == 4,
            masks_ok_u128(masks),
            forall|k: int|
                0 <= k < set@.len() ==> #[trigger] set@[k] == packed_u128(
                    p[8 * k],
                    p[8 * k + 1],
                    p[8 * k + 2],
                    p[8 * k + 3],
                    p[8 * k + 4],
                    p[8 * k + 5],
                    p[8 * k + 6],
                    p[8 * k + 7],
                ),
            forall|q: int|
                0 <= q < acc@.len() ==> 0 <= src_of_u128(q) < pl && #[trigger] acc@[q] == pop(
                    p[src_of_u128(q)] as nat,
                ),
        decreases set@.len() - widx,
    {
        let word = set[widx];
        proof {
            lemma_word_fields_u128(p, widx as int);
            assert(8 * (widx as int) + 8 <= pl);
        }
        let mut k2: usize = 0;
        while k2 < fields
            invariant
                k2 <= 8,
                fields == 8,
                l == 4,
                widx < set@.len(),
                8 * set@.len() == pl,
                p.len() == pl,
                masks_ok_u128(masks),
                word == set@[widx as int],
                acc@.len() == 8 * widx + k2,
                8 * (widx as int) + 8 <= pl,
                iso_u128(word, 0xFFFFu128, 0) == pop(p[8 * (widx as int)] as nat),
                iso_u128(word, 0xFFFFu128, 16) == pop(p[8 * (widx as int) + 2] as nat),
                iso_u128(word, 0xFFFFu128, 32) == pop(p[8 * (widx as int) + 4] as nat),
                iso_u128(word, 0xFFFFu128, 48) == pop(p[8 * (widx as int) + 6] as nat),
                iso_u128(word, 0xFFFFu128, 64) == pop(p[8 * (widx as int) + 1] as nat),
                iso_u128(word, 0xFFFFu128, 80) == pop(p[8 * (widx as int) + 3] as nat),
                iso_u128(word, 0xFFFFu128, 96) == pop(p[8 * (widx as int) + 5] as nat),
                iso_u128(word, 0xFFFFu128, 112) == pop(p[8 * (widx as int) + 7] as nat),
                forall|q: int|
                    0 <= q < acc@.len() ==> 0 <= src_of_u128(q) < pl && #[trigger] acc@[q] == pop(
                        p[src_of_u128(q)] as nat,
                    ),
            decreases fields - k2,
        {
            proof {
                lemma_usize_shifts(k2);
                assert((k2 << 4) as u128 == (16 * k2) as u128);
            }
            let r = isolate_blocks_u128(word, masks[4][7], (k2 << l) as u128);
            proof {
                let q = acc@.len() as int;
                assert(q == 8 * (widx as int) + k2);
                assert(q / 8 == widx as int && q % 8 == k2 as int) by (nonlinear_arith)
                    requires
                        q == 8 * (widx as int) + k2,
                        0 <= k2 < 8,
                ;
                if k2 == 0 {
                    assert(r == pop(p[src_of_u128(q)] as nat));
                } else if k2 == 1 {
                    assert(src_of_u128(q) == 8 * (widx as int) + 2);
                    assert(r == pop(p[src_of_u128(q)] as nat));
                } else if k2 == 2 {
                    assert(src_of_u128(q) == 8 * (widx as int) + 4);
                    assert(r == pop(p[src_of_u128(q)] as nat));
                } else if k2 == 3 {
                    assert(src_of_u128(q) == 8 * (widx as int) + 6);
                    assert(r == pop(p[src_of_u128(q)] as nat));
                } else if k2 == 4 {
                    assert(src_of_u128(q) == 8 * (widx as int) + 1);
                    assert(r == pop(p[src_of_u128(q)] as nat));
                } else if k2 == 5 {
                    assert(src_of_u128(q) == 8 * (widx as int) + 3);
                    assert(r == pop(p[src_of_u128(q)] as nat));
                } else if k2 == 6 {
                    assert(src_of_u128(q) == 8 * (widx as int) + 5);
                    assert(r == pop(p[src_of_u128(q)] as nat));
                } else {
                    assert(src_of_u128(q) == 8 * (widx as int) + 7);
                    assert(r == pop(p[src_of_u128(q)] as nat));
                }
            }
            acc.push(r);
            k2 = k2 + 1;
        }
        widx = widx + 1;
    }
    acc
}

/// Where the count of input element `i` stands in the output of the 128-bit
/// engine, for an input of length `m`.
///
/// The combine rounds interleave pairs of elements, and the level-6 repack
/// separates them again with all even-index elements of a block of eight
/// ahead of the odd-index ones. A partial tail block (which the engine pads
/// with filler words and trims again) keeps that relative order, compacted.
pub open spec fn out_index_u128(m: int, i: int) -> int {
    let b = i / 8;
    let j = i % 8;
    let r = if m - 8 * b >= 8 {
        8int
    } else {
        m - 8 * b
    };
    if j % 2 == 0 {
        8 * b + j / 2
    } else {
        8 * b + (r + 1) / 2 + (j - 1) / 2
    }
}

/// The output index stays inside the block of eight that the element came
/// from, and inside the output.
pub proof fn lemma_out_index_u128_range(m: int, i: int)
    requires
        0 <= i < m,
    ensures
        8 * (i / 8) <= out_index_u128(m, i) < 8 * (i / 8) + 8,
        out_index_u128(m, i) < m,
{
    let b = i / 8;
    let j = i % 8;
    assert(i == 8 * b + j && 0 <= j < 8) by (nonlinear_arith)
        requires
            b == i / 8,
            j == i % 8,
            0 <= i,
    ;
    if m - 8 * b >= 8 {
        assert(out_index_u128(m, i) < 8 * b + 8 <= m);
    } else {
        let r = m - 8 * b;
        assert(j < r);
        if j % 2 == 0 {
            assert(j / 2 < r);
        } else {
            assert((r + 1) / 2 + (j - 1) / 2 < r);
        }
    }
}

/// Distinct input elements land on distinct output positions.
pub proof fn lemma_out_index_u128_inj(m: int, i1: int, i2: int)
    requires
        0 <= i1 < m,
        0 <= i2 < m,
        i1 != i2,
    ensures
        out_index_u128(m, i1) != out_index_u128(m, i2),
{
    lemma_out_index_u128_range(m, i1);
    lemma_out_index_u128_range(m, i2);
    let b1 = i1 / 8;
    let b2 = i2 / 8;
    let j1 = i1 % 8;
    let j2 = i2 % 8;
    assert(i1 == 8 * b1 + j1 && 0 <= j1 < 8) by (nonlinear_arith)
        requires
            b1 == i1 / 8,
            j1 == i1 % 8,
            0 <= i1,
    ;
    assert(i2 == 8 * b2 + j2 && 0 <= j2 < 8) by (nonlinear_arith)
        requires
            b2 == i2 / 8,
            j2 == i2 % 8,
            0 <= i2,
    ;
    if b1 != b2 {
        // different blocks of eight never meet
    } else {
        let r = if m - 8 * b1 >= 8 {
            8int
        } else {
            m - 8 * b1
        };
        assert(j1 < r && j2 < r);
        if j1 % 2 == 0 && j2 % 2 == 0 {
            assert(j1 / 2 != j2 / 2);
        } else if j1 % 2 == 1 && j2 % 2 == 1 {
            assert((j1 - 1) / 2 != (j2 - 1) / 2);
        } else {
            // an even element stays below (r + 1) / 2, an odd one at or above
            assert(j1 % 2 == 0 ==> j1 / 2 < (r + 1) / 2);
            assert(j2 % 2 == 0 ==> j2 / 2 < (r + 1) / 2);
        }
    }
}

/// Computes [`out_index_u128`].
pub fn out_index_u128_at(m: usize, i: usize) -> (r: usize)
    requires
        i < m,
    ensures
        r as int == out_index_u128(m as int, i as int),
        r < m,
{
    proof {
        lemma_out_index_u128_range(m as int, i as int);
        assert(8 * ((i as int) / 8) + (i as int) % 8 == i as int) by (nonlinear_arith)
            requires
                0 <= i as int,
        ;
    }
    let b = i / 8;
    let j = i % 8;
    let r = if m - 8 * b >= 8 {
        8
    } else {
        m - 8 * b
    };
    if j % 2 == 0 {
        8 * b + j / 2
    } else {
        8 * b + (r + 1) / 2 + (j - 1) / 2
    }
}

/// The raw extraction position that carries input element `i`: within its
/// block of eight, even elements sit in the low half and odd elements in the
/// high half.
proof fn lemma_src_roundtrip_u128(i: int, pl: int)
    requires
        0 <= i < pl,
        pl % 8 == 0,
    ensures
        0 <= 8 * (i / 8) + (i % 8) / 2 + 4 * (i % 2) < pl,
        src_of_u128(8 * (i / 8) + (i % 8) / 2 + 4 * (i % 2)) == i,
{
    let b = i / 8;
    let j = i % 8;
    let q = j / 2 + 4 * (i % 2);
    assert(i == 8 * b + j && 0 <= j < 8 && j % 2 == i % 2) by (nonlinear_arith)
        requires
            b == i / 8,
            j == i % 8,
            0 <= i,
    ;
    assert(0 <= q < 8);
    let s = 8 * b + q;
    assert(s / 8 == b && s % 8 == q) by (nonlinear_arith)
        requires
            s == 8 * b + q,
            0 <= q < 8,
            0 <= b,
    ;
    assert(8 * b + 8 <= pl) by (nonlinear_arith)
        requires
            b == i / 8,
            0 <= i < pl,
            pl % 8 == 0,
    ;
    if j % 2 == 0 {
        assert(slot_source_u128(q) == j);
    } else {
        assert(q == (j - 1) / 2 + 4);
        assert(slot_source_u128(q) == j);
    }
}

/// The fold-and-pack engine for 128-bit words.
///
/// The input is padded with zero filler words to a multiple of eight so that
/// every combine round finds an even working set (an odd working set would
/// drop its unpaired tail element); the filler counts are trimmed from the
/// output again. For this width the output is a block-interleaved
/// permutation of the input order: the count of element `i` stands at
/// position [`out_index_u128`]`(m, i)`.
pub fn count_ones_u128(experiment: &Vec<u128>, masks: [[u128; 8]; 8]) -> (out: Vec<u128>)
    requires
        masks_ok_u128(masks),
    ensures
        out@.len() == experiment@.len(),
        forall|i: int|
            0 <= i < experiment@.len() ==> 0 <= #[trigger] out_index_u128(
                experiment@.len() as int,
                i,
            ) < experiment@.len() && out@[out_index_u128(experiment@.len() as int, i)] == pop(
                experiment@[i] as nat,
            ),
{
    let ghost inp = experiment@;
    let m = experiment.len();
    proof {
        lemma_padded_len(m as int);
    }
    let mut set = pad_input_u128(experiment);
    let ghost p = padded_seq_u128(inp, padded_len(m as int));
    let ghost pl = padded_len(m as int);
    bootstrap_u128(&mut set, masks, Ghost(p));
    level3_u128(&mut set, masks, Ghost(p));
    level4_u128(&mut set, masks, Ghost(p));
    level5_u128(&mut set, masks, Ghost(p));
    level6_u128(&mut set, masks, Ghost(p));
    let acc = extract_words_u128(&set, masks, Ghost(p));

    // reorder into the documented output permutation and trim the filler
    // counts away
    let mut out: Vec<u128> = Vec::new();
    let mut i: usize = 0;
    while i < m
        invariant
            i <= m,
            out@.len() == i,
        decreases m - i,
    {
        out.push(0);
        i = i + 1;
    }
    i = 0;
    while i < m
        invariant
            i <= m,
            m == inp.len(),
            out@.len() == m,
            acc@.len() == pl,
            pl == padded_len(m as int),
            m <= pl < m + 8,
            pl % 8 == 0,
            p == padded_seq_u128(inp, pl),
            forall|q: int|
                0 <= q < pl ==> 0 <= src_of_u128(q) < pl && #[trigger] acc@[q] == pop(
                    p[src_of_u128(q)] as nat,
                ),
            forall|i2: int|
                0 <= i2 < i ==> 0 <= #[trigger] out_index_u128(m as int, i2) < m
                    && out@[out_index_u128(m as int, i2)] == pop(inp[i2] as nat),
        decreases m - i,
    {
        proof {
            lemma_src_roundtrip_u128(i as int, pl);
            lemma_out_index_u128_range(m as int, i as int);
            assert(8 * ((i as int) / 8) + ((i as int) % 8) / 2 + 4 * ((i as int) % 2) < pl);
        }
        let src = 8 * (i / 8) + (i % 8) / 2 + 4 * (i % 2);
        let dst = out_index_u128_at(m, i);
        let ghost prev = out@;
        out[dst] = acc[src];
        proof {
            assert(p[i as int] == inp[i as int]);
            assert forall|i2: int| 0 <= i2 < i implies 0 <= #[trigger] out_index_u128(m as int, i2)
                < m && out@[out_index_u128(m as int, i2)] == pop(inp[i2] as nat) by {
                lemma_out_index_u128_inj(m as int, i2, i as int);
                assert(out@[out_index_u128(m as int, i2)] == prev[out_index_u128(m as int, i2)]);
            }
        }
        i = i + 1;
    }
    out
}


/// The capability a word width must provide to run the engine: the value of
/// a word as a mathematical integer, the width tag, the well-formedness of a
/// mask table, the output permutation, and the engine itself. The set of
/// supported widths is closed: exactly the types this crate implements the
/// trait for.
pub trait Word: Sized + Copy {
    /// The value of the word as a mathematical integer.
    spec fn to_nat(self) -> nat;

    /// The width tag that selects this type's engine.
    spec fn word_len() -> WordLength;

    /// The mask-table entries the engine of this width relies on, with their
    /// defined values.
    spec fn mask_table_ok(masks: [[Self; 8]; 8]) -> bool;

    /// Where the count of input element `i` stands in the engine's output,
    /// for an input of length `m`.
    spec fn out_index(m: int, i: int) -> int;

    /// The representable zero of this width.
    fn zero() -> (r: Self)
        ensures
            r.to_nat() == 0,
    ;

    /// The engine instantiation for this width; [`count_ones`] dispatches
    /// here.
    fn count_all(experiment: &Vec<Self>, masks: [[Self; 8]; 8]) -> (out: Vec<Self>)
        requires
            Self::mask_table_ok(masks),
        ensures
            out@.len() == experiment@.len(),
            forall|i: int|
                0 <= i < experiment@.len() ==> 0 <= #[trigger] Self::out_index(
                    experiment@.len() as int,
                    i,
                ) < experiment@.len() && out@[Self::out_index(experiment@.len() as int, i)].to_nat()
                    == pop(experiment@[i].to_nat()),
    ;
}

impl Word for u64 {
    open spec fn to_nat(self) -> nat {
        self as nat
    }

    open spec fn word_len() -> WordLength {
        WordLength::U64
    }

    open spec fn mask_table_ok(masks: [[u64; 8]; 8]) -> bool {
        masks_ok_u64(masks)
    }

    /// For 64-bit words the output keeps the input order.
    open spec fn out_index(m: int, i: int) -> int {
        i
    }

    fn zero() -> (r: u64) {
        0
    }

    fn count_all(experiment: &Vec<u64>, masks: [[u64; 8]; 8]) -> (out: Vec<u64>) {
        count_ones_u64(experiment, masks)
    }
}

impl Word for u128 {
    open spec fn to_nat(self) -> nat {
        self as nat
    }

    open spec fn word_len() -> WordLength {
        WordLength::U128
    }

    open spec fn mask_table_ok(masks: [[u128; 8]; 8]) -> bool {
        masks_ok_u128(masks)
    }

    /// For 128-bit words the output is the documented block-interleaved
    /// permutation of the input order.
    open spec fn out_index(m: int, i: int) -> int {
        out_index_u128(m, i)
    }

    fn zero() -> (r: u128) {
        0
    }

    fn count_all(experiment: &Vec<u128>, masks: [[u128; 8]; 8]) -> (out: Vec<u128>) {
        count_ones_u128(experiment, masks)
    }
}

/// Computes the population count of every element of `experiment` with the
/// fold-and-pack engine, driven by the mask table `masks`.
///
/// The output has the same length as the input, and the count of element `i`
/// stands at position `T::out_index(m, i)`: at `i` itself for 64-bit words,
/// and at the documented block-interleaved position for 128-bit words. The
/// width tag `word_length` selects the number of fold levels and must match
/// the element type, which the `requires` pins down.
pub fn count_ones<T: Word>(experiment: &Vec<T>, masks: [[T; 8]; 8], word_length: WordLength) -> (acc: Vec<T>)
    requires
        T::mask_table_ok(masks),
        word_length == T::word_len(),
    ensures
        acc@.len() == experiment@.len(),
        forall|i: int|
            0 <= i < experiment@.len() ==> 0 <= #[trigger] T::out_index(
                experiment@.len() as int,
                i,
            ) < experiment@.len() && acc@[T::out_index(experiment@.len() as int, i)].to_nat()
                == pop(experiment@[i].to_nat()),
{
    // the width tag carries no information beyond the element type, which
    // the precondition ties it to
    match word_length {
        WordLength::U64 => (),
        WordLength::U128 => (),
    }
    T::count_all(experiment, masks)
}



/// Order preservation for 64-bit words: the output permutation of the engine
/// is the identity, so the count of element `i` stands at position `i`.
pub proof fn lemma_order_preserved_u64(m: int, i: int)
    requires
        0 <= i < m,
    ensures
        <u64 as Word>::out_index(m, i) == i,
{
}

/// A single-element input yields its single count at position zero, for
/// either width.
pub proof fn lemma_singleton_index()
    ensures
        <u64 as Word>::out_index(1, 0) == 0,
        <u128 as Word>::out_index(1, 0) == 0,
{
}

/// The documented output permutation for 128-bit words and an input of
/// sixteen elements: an even-index element `i` lands at `i/2 + 4*(i/8)`, an
/// odd-index one four positions later.
pub proof fn lemma_permutation_128_len16(i: int)
    requires
        0 <= i < 16,
    ensures
        i % 2 == 0 ==> out_index_u128(16, i) == i / 2 + 4 * (i / 8),
        i % 2 == 1 ==> out_index_u128(16, i) == i / 2 + 4 + 4 * (i / 8),
{
    let b = i / 8;
    let j = i % 8;
    assert(i == 8 * b + j && 0 <= j < 8 && (0 <= b <= 1) && j % 2 == i % 2 && i / 2 == 4 * b + j
        / 2) by (nonlinear_arith)
        requires
            b == i / 8,
            j == i % 8,
            0 <= i < 16,
    ;
}

/// The multiset law for 64-bit words: an output that carries `pop` of every
/// input element in input order is, as a sequence of values, the elementwise
/// image of the input, so the two multisets of counts agree.
pub proof fn lemma_multiset_u64(inp: Seq<u64>, out: Seq<u64>)
    requires
        out.len() == inp.len(),
        forall|i: int| 0 <= i < inp.len() ==> #[trigger] out[i] as nat == pop(inp[i] as nat),
    ensures
        out.to_multiset() == inp.map_values(|x: u64| (pop(x as nat) as u64)).to_multiset(),
{
    assert forall|i: int| 0 <= i < inp.len() implies out[i] == inp.map_values(
        |x: u64| (pop(x as nat) as u64),
    )[i] by {
        lemma2_to64();
        crate::popcount::lemma_pop_bound(inp[i] as nat, 64);
    }
    assert(out =~= inp.map_values(|x: u64| (pop(x as nat) as u64)));
}



/// Filling a sequence through an injective index map rearranges it: the
/// target holds the same values as the source, as a multiset.
proof fn lemma_rearranged_multiset_u128(s: Seq<u128>, t: Seq<u128>, f: spec_fn(int) -> int)
    requires
        t.len() == s.len(),
        forall|i: int| 0 <= i < s.len() ==> 0 <= #[trigger] f(i) < s.len(),
        forall|i1: int, i2: int|
            0 <= i1 < s.len() && 0 <= i2 < s.len() && i1 != i2 ==> #[trigger] f(i1) != #[trigger] f(
                i2,
            ),
        forall|i: int| 0 <= i < s.len() ==> t[#[trigger] f(i)] == s[i],
    ensures
        t.to_multiset() == s.to_multiset(),
    decreases s.len(),
{
    broadcast use vstd::seq_lib::group_to_multiset_ensures;

    if s.len() == 0 {
        assert(t =~= s);
    } else {
        let n = s.len() - 1;
        let j = f(n);
        let s2 = s.remove(n);
        let t2 = t.remove(j);
        let f2 = |i: int|
            if f(i) < j {
                f(i)
            } else {
                f(i) - 1
            };
        assert forall|i: int| 0 <= i < s2.len() implies t2[#[trigger] f2(i)] == s2[i] by {
            assert(f(i) != j);
        }
        lemma_rearranged_multiset_u128(s2, t2, f2);
        assert(t2.to_multiset() =~= t.to_multiset().remove(t[j]));
        assert(s2.to_multiset() =~= s.to_multiset().remove(s[n]));
        assert(t[j] == s[n]);
        assert(t.to_multiset().count(t[j]) > 0);
        assert(s.to_multiset().count(s[n]) > 0);
        assert(t.to_multiset() =~= t2.to_multiset().insert(t[j]));
        assert(s.to_multiset() =~= s2.to_multiset().insert(s[n]));
    }
}

/// The multiset law for 128-bit words: an output that carries `pop` of every
/// input element at the engine's permuted positions holds, as a multiset,
/// exactly the population counts of the input.
pub proof fn lemma_multiset_u128(inp: Seq<u128>, out: Seq<u128>)
    requires
        out.len() == inp.len(),
        forall|i: int|
            0 <= i < inp.len() ==> 0 <= #[trigger] out_index_u128(inp.len() as int, i) < inp.len()
                && out[out_index_u128(inp.len() as int, i)] as nat == pop(inp[i] as nat),
    ensures
        out.to_multiset() == inp.map_values(|x: u128| (pop(x as nat) as u128)).to_multiset(),
{
    let m = inp.len() as int;
    let counts = inp.map_values(|x: u128| (pop(x as nat) as u128));
    let f = |i: int| out_index_u128(m, i);
    assert forall|i1: int, i2: int|
        0 <= i1 < counts.len() && 0 <= i2 < counts.len() && i1 != i2 implies #[trigger] f(i1)
        != #[trigger] f(i2) by {
        lemma_out_index_u128_inj(m, i1, i2);
    }
    assert forall|i: int| 0 <= i < counts.len() implies out[#[trigger] f(i)] == counts[i] by {
        vstd::arithmetic::power2::lemma2_to64_rest();
        vstd::arithmetic::power2::lemma_pow2_adds(64, 64);
        crate::popcount::lemma_pop_bound(inp[i] as nat, 128);
    }
    lemma_rearranged_multiset_u128(counts, out, f);
}


} // verus!
