//! The mask-table generator.
//!
//! The engine is driven by a square table `MT[a][b]` of periodic bitmasks:
//! bit `j` of `MT[a][b]` is set if and only if `j mod 2^b < 2^a`. With
//! `b == a + 1` this family reproduces the classic doubling-popcount masks;
//! with larger `b` it isolates or positions count sub-fields once several
//! elements have been packed into one word. The table depends only on the
//! word width, is pure and read-only, and is built once and reused for every
//! call.

use vstd::prelude::*;
use vstd::arithmetic::power2::pow2;
use vstd::arithmetic::power2::lemma2_to64;
use crate::count_ones::Word;

verus! {


/// The mask table for 64-bit words: `mask_table_u64(a, b)` has bit `j` set
/// if and only if `j mod 2^b < 2^a` (see [`lemma_mask_table_law_u64`]).
pub open spec fn mask_table_u64(a: int, b: int) -> u64 {
    if a == 0 && b == 0 {
        0xFFFFFFFFFFFFFFFF
    } else if a == 0 && b == 1 {
        0x5555555555555555
    } else if a == 0 && b == 2 {
        0x1111111111111111
    } else if a == 0 && b == 3 {
        0x0101010101010101
    } else if a == 0 && b == 4 {
        0x0001000100010001
    } else if a == 0 && b == 5 {
        0x0000000100000001
    } else if a == 0 && b == 6 {
        0x0000000000000001
    } else if a == 0 && b == 7 {
        0x0000000000000001
    } else if a == 1 && b == 0 {
        0xFFFFFFFFFFFFFFFF
    } else if a == 1 && b == 1 {
        0xFFFFFFFFFFFFFFFF
    } else if a == 1 && b == 2 {
        0x3333333333333333
    } else if a == 1 && b == 3 {
        0x0303030303030303
    } else if a == 1 && b == 4 {
        0x0003000300030003
    } else if a == 1 && b == 5 {
        0x0000000300000003
    } else if a == 1 && b == 6 {
        0x0000000000000003
    } else if a == 1 && b == 7 {
        0x0000000000000003
    } else if a == 2 && b == 0 {
        0xFFFFFFFFFFFFFFFF
    } else if a == 2 && b == 1 {
        0xFFFFFFFFFFFFFFFF
    } else if a == 2 && b == 2 {
        0xFFFFFFFFFFFFFFFF
    } else if a == 2 && b == 3 {
        0x0F0F0F0F0F0F0F0F
    } else if a == 2 && b == 4 {
        0x000F000F000F000F
    } else if a == 2 && b == 5 {
        0x0000000F0000000F
    } else if a == 2 && b == 6 {
        0x000000000000000F
    } else if a == 2 && b == 7 {
        0x000000000000000F
    } else if a == 3 && b == 0 {
        0xFFFFFFFFFFFFFFFF
    } else if a == 3 && b == 1 {
        0xFFFFFFFFFFFFFFFF
    } else if a == 3 && b == 2 {
        0xFFFFFFFFFFFFFFFF
    } else if a == 3 && b == 3 {
        0xFFFFFFFFFFFFFFFF
    } else if a == 3 && b == 4 {
        0x00FF00FF00FF00FF
    } else if a == 3 && b == 5 {
        0x000000FF000000FF
    } else if a == 3 && b == 6 {
        0x00000000000000FF
    } else if a == 3 && b == 7 {
        0x00000000000000FF
    } else if a == 4 && b == 0 {
        0xFFFFFFFFFFFFFFFF
    } else if a == 4 && b == 1 {
        0xFFFFFFFFFFFFFFFF
    } else if a == 4 && b == 2 {
        0xFFFFFFFFFFFFFFFF
    } else if a == 4 && b == 3 {
        0xFFFFFFFFFFFFFFFF
    } else if a == 4 && b == 4 {
        0xFFFFFFFFFFFFFFFF
    } else if a == 4 && b == 5 {
        0x0000FFFF0000FFFF
    } else if a == 4 && b == 6 {
        0x000000000000FFFF
    } else if a == 4 && b == 7 {
        0x000000000000FFFF
    } else if a == 5 && b == 0 {
        0xFFFFFFFFFFFFFFFF
    } else if a == 5 && b == 1 {
        0xFFFFFFFFFFFFFFFF
    } else if a == 5 && b == 2 {
        0xFFFFFFFFFFFFFFFF
    } else if a == 5 && b == 3 {
        0xFFFFFFFFFFFFFFFF
    } else if a == 5 && b == 4 {
        0xFFFFFFFFFFFFFFFF
    } else if a == 5 && b == 5 {
        0xFFFFFFFFFFFFFFFF
    } else if a == 5 && b == 6 {
        0x00000000FFFFFFFF
    } else if a == 5 && b == 7 {
        0x00000000FFFFFFFF
    } else if a == 6 && b == 0 {
        0xFFFFFFFFFFFFFFFF
    } else if a == 6 && b == 1 {
        0xFFFFFFFFFFFFFFFF
    } else if a == 6 && b == 2 {
        0xFFFFFFFFFFFFFFFF
    } else if a == 6 && b == 3 {
        0xFFFFFFFFFFFFFFFF
    } else if a == 6 && b == 4 {
        0xFFFFFFFFFFFFFFFF
    } else if a == 6 && b == 5 {
        0xFFFFFFFFFFFFFFFF
    } else if a == 6 && b == 6 {
        0xFFFFFFFFFFFFFFFF
    } else if a == 6 && b == 7 {
        0xFFFFFFFFFFFFFFFF
    } else if a == 7 && b == 0 {
        0xFFFFFFFFFFFFFFFF
    } else if a == 7 && b == 1 {
        0xFFFFFFFFFFFFFFFF
    } else if a == 7 && b == 2 {
        0xFFFFFFFFFFFFFFFF
    } else if a == 7 && b == 3 {
        0xFFFFFFFFFFFFFFFF
    } else if a == 7 && b == 4 {
        0xFFFFFFFFFFFFFFFF
    } else if a == 7 && b == 5 {
        0xFFFFFFFFFFFFFFFF
    } else if a == 7 && b == 6 {
        0xFFFFFFFFFFFFFFFF
    } else {
        0xFFFFFFFFFFFFFFFF
    }
}

proof fn mask_bits_u64(j: u64)
    by (bit_vector)
    requires
        j < 64,
    ensures
        (((0xFFFFFFFFFFFFFFFFu64 >> j) & 1) == 1) == (j % 1 < 1),
        (((0x5555555555555555u64 >> j) & 1) == 1) == (j % 2 < 1),
        (((0x1111111111111111u64 >> j) & 1) == 1) == (j % 4 < 1),
        (((0x0101010101010101u64 >> j) & 1) == 1) == (j % 8 < 1),
        (((0x0001000100010001u64 >> j) & 1) == 1) == (j % 16 < 1),
        (((0x0000000100000001u64 >> j) & 1) == 1) == (j % 32 < 1),
        (((0x0000000000000001u64 >> j) & 1) == 1) == (j % 64 < 1),
        (((0x0000000000000001u64 >> j) & 1) == 1) == (j % 128 < 1),
        (((0xFFFFFFFFFFFFFFFFu64 >> j) & 1) == 1) == (j % 1 < 2),
        (((0xFFFFFFFFFFFFFFFFu64 >> j) & 1) == 1) == (j % 2 < 2),
        (((0x3333333333333333u64 >> j) & 1) == 1) == (j % 4 < 2),
        (((0x0303030303030303u64 >> j) & 1) == 1) == (j % 8 < 2),
        (((0x0003000300030003u64 >> j) & 1) == 1) == (j % 16 < 2),
        (((0x0000000300000003u64 >> j) & 1) == 1) == (j % 32 < 2),
        (((0x0000000000000003u64 >> j) & 1) == 1) == (j % 64 < 2),
        (((0x0000000000000003u64 >> j) & 1) == 1) == (j % 128 < 2),
        (((0xFFFFFFFFFFFFFFFFu64 >> j) & 1) == 1) == (j % 1 < 4),
        (((0xFFFFFFFFFFFFFFFFu64 >> j) & 1) == 1) == (j % 2 < 4),
        (((0xFFFFFFFFFFFFFFFFu64 >> j) & 1) == 1) == (j % 4 < 4),
        (((0x0F0F0F0F0F0F0F0Fu64 >> j) & 1) == 1) == (j % 8 < 4),
        (((0x000F000F000F000Fu64 >> j) & 1) == 1) == (j % 16 < 4),
        (((0x0000000F0000000Fu64 >> j) & 1) == 1) == (j % 32 < 4),
        (((0x000000000000000Fu64 >> j) & 1) == 1) == (j % 64 < 4),
        (((0x000000000000000Fu64 >> j) & 1) == 1) == (j % 128 < 4),
        (((0xFFFFFFFFFFFFFFFFu64 >> j) & 1) == 1) == (j % 1 < 8),
        (((0xFFFFFFFFFFFFFFFFu64 >> j) & 1) == 1) == (j % 2 < 8),
        (((0xFFFFFFFFFFFFFFFFu64 >> j) & 1) == 1) == (j % 4 < 8),
        (((0xFFFFFFFFFFFFFFFFu64 >> j) & 1) == 1) == (j % 8 < 8),
        (((0x00FF00FF00FF00FFu64 >> j) & 1) == 1) == (j % 16 < 8),
        (((0x000000FF000000FFu64 >> j) & 1) == 1) == (j % 32 < 8),
        (((0x00000000000000FFu64 >> j) & 1) == 1) == (j % 64 < 8),
        (((0x00000000000000FFu64 >> j) & 1) == 1) == (j % 128 < 8),
        (((0xFFFFFFFFFFFFFFFFu64 >> j) & 1) == 1) == (j % 1 < 16),
        (((0xFFFFFFFFFFFFFFFFu64 >> j) & 1) == 1) == (j % 2 < 16),
        (((0xFFFFFFFFFFFFFFFFu64 >> j) & 1) == 1) == (j % 4 < 16),
        (((0xFFFFFFFFFFFFFFFFu64 >> j) & 1) == 1) == (j % 8 < 16),
        (((0xFFFFFFFFFFFFFFFFu64 >> j) & 1) == 1) == (j % 16 < 16),
        (((0x0000FFFF0000FFFFu64 >> j) & 1) == 1) == (j % 32 < 16),
        (((0x000000000000FFFFu64 >> j) & 1) == 1) == (j % 64 < 16),
        (((0x000000000000FFFFu64 >> j) & 1) == 1) == (j % 128 < 16),
        (((0xFFFFFFFFFFFFFFFFu64 >> j) & 1) == 1) == (j % 1 < 32),
        (((0xFFFFFFFFFFFFFFFFu64 >> j) & 1) == 1) == (j % 2 < 32),
        (((0xFFFFFFFFFFFFFFFFu64 >> j) & 1) == 1) == (j % 4 < 32),
        (((0xFFFFFFFFFFFFFFFFu64 >> j) & 1) == 1) == (j % 8 < 32),
        (((0xFFFFFFFFFFFFFFFFu64 >> j) & 1) == 1) == (j % 16 < 32),
        (((0xFFFFFFFFFFFFFFFFu64 >> j) & 1) == 1) == (j % 32 < 32),
        (((0x00000000FFFFFFFFu64 >> j) & 1) == 1) == (j % 64 < 32),
        (((0x00000000FFFFFFFFu64 >> j) & 1) == 1) == (j % 128 < 32),
        (((0xFFFFFFFFFFFFFFFFu64 >> j) & 1) == 1) == (j % 1 < 64),
        (((0xFFFFFFFFFFFFFFFFu64 >> j) & 1) == 1) == (j % 2 < 64),
        (((0xFFFFFFFFFFFFFFFFu64 >> j) & 1) == 1) == (j % 4 < 64),
        (((0xFFFFFFFFFFFFFFFFu64 >> j) & 1) == 1) == (j % 8 < 64),
        (((0xFFFFFFFFFFFFFFFFu64 >> j) & 1) == 1) == (j % 16 < 64),
        (((0xFFFFFFFFFFFFFFFFu64 >> j) & 1) == 1) == (j % 32 < 64),
        (((0xFFFFFFFFFFFFFFFFu64 >> j) & 1) == 1) == (j % 64 < 64),
        (((0xFFFFFFFFFFFFFFFFu64 >> j) & 1) == 1) == (j % 128 < 64),
        (((0xFFFFFFFFFFFFFFFFu64 >> j) & 1) == 1) == (j % 1 < 128),
        (((0xFFFFFFFFFFFFFFFFu64 >> j) & 1) == 1) == (j % 2 < 128),
        (((0xFFFFFFFFFFFFFFFFu64 >> j) & 1) == 1) == (j % 4 < 128),
        (((0xFFFFFFFFFFFFFFFFu64 >> j) & 1) == 1) == (j % 8 < 128),
        (((0xFFFFFFFFFFFFFFFFu64 >> j) & 1) == 1) == (j % 16 < 128),
        (((0xFFFFFFFFFFFFFFFFu64 >> j) & 1) == 1) == (j % 32 < 128),
        (((0xFFFFFFFFFFFFFFFFu64 >> j) & 1) == 1) == (j % 64 < 128),
        (((0xFFFFFFFFFFFFFFFFu64 >> j) & 1) == 1) == (j % 128 < 128),
{
}

/// The defining law of the mask table: bit `j` of `mask_table_u64(a, b)` is
/// set if and only if `j mod 2^b < 2^a`.
pub proof fn lemma_mask_table_law_u64(a: int, b: int, j: u64)
    requires
        0 <= a < 8,
        0 <= b < 8,
        j < 64,
    ensures
        (((mask_table_u64(a, b) >> j) & 1) == 1) <==> ((j as nat) % pow2(b as nat) < pow2(
            a as nat,
        )),
{
    lemma2_to64();
    mask_bits_u64(j);
}

/// Builds the full mask table for 64-bit words.
pub fn get_basic_masks_u64() -> (masks: [[u64; 8]; 8])
    ensures
        forall|a: int, b: int|
            0 <= a < 8 && 0 <= b < 8 ==> #[trigger] masks@[a]@[b] == mask_table_u64(a, b),
        crate::count_ones::masks_ok_u64(masks),
{
    let masks: [[u64; 8]; 8] = [

        [0xFFFFFFFFFFFFFFFF, 0x5555555555555555, 0x1111111111111111, 0x0101010101010101, 0x0001000100010001, 0x0000000100000001, 0x0000000000000001, 0x0000000000000001],
        [0xFFFFFFFFFFFFFFFF, 0xFFFFFFFFFFFFFFFF, 0x3333333333333333, 0x0303030303030303, 0x0003000300030003, 0x0000000300000003, 0x0000000000000003, 0x0000000000000003],
        [0xFFFFFFFFFFFFFFFF, 0xFFFFFFFFFFFFFFFF, 0xFFFFFFFFFFFFFFFF, 0x0F0F0F0F0F0F0F0F, 0x000F000F000F000F, 0x0000000F0000000F, 0x000000000000000F, 0x000000000000000F],
        [0xFFFFFFFFFFFFFFFF, 0xFFFFFFFFFFFFFFFF, 0xFFFFFFFFFFFFFFFF, 0xFFFFFFFFFFFFFFFF, 0x00FF00FF00FF00FF, 0x000000FF000000FF, 0x00000000000000FF, 0x00000000000000FF],
        [0xFFFFFFFFFFFFFFFF, 0xFFFFFFFFFFFFFFFF, 0xFFFFFFFFFFFFFFFF, 0xFFFFFFFFFFFFFFFF, 0xFFFFFFFFFFFFFFFF, 0x0000FFFF0000FFFF, 0x000000000000FFFF, 0x000000000000FFFF],
        [0xFFFFFFFFFFFFFFFF, 0xFFFFFFFFFFFFFFFF, 0xFFFFFFFFFFFFFFFF, 0xFFFFFFFFFFFFFFFF, 0xFFFFFFFFFFFFFFFF, 0xFFFFFFFFFFFFFFFF, 0x00000000FFFFFFFF, 0x00000000FFFFFFFF],
        [0xFFFFFFFFFFFFFFFF, 0xFFFFFFFFFFFFFFFF, 0xFFFFFFFFFFFFFFFF, 0xFFFFFFFFFFFFFFFF, 0xFFFFFFFFFFFFFFFF, 0xFFFFFFFFFFFFFFFF, 0xFFFFFFFFFFFFFFFF, 0xFFFFFFFFFFFFFFFF],
        [0xFFFFFFFFFFFFFFFF, 0xFFFFFFFFFFFFFFFF, 0xFFFFFFFFFFFFFFFF, 0xFFFFFFFFFFFFFFFF, 0xFFFFFFFFFFFFFFFF, 0xFFFFFFFFFFFFFFFF, 0xFFFFFFFFFFFFFFFF, 0xFFFFFFFFFFFFFFFF],
    ];
    masks
}


/// The mask table for 128-bit words: `mask_table_u128(a, b)` has bit `j` set
/// if and only if `j mod 2^b < 2^a` (see [`lemma_mask_table_law_u128`]).
pub open spec fn mask_table_u128(a: int, b: int) -> u128 {
    if a == 0 && b == 0 {
        0xFFFFFFFFFFFFFFFFFFFFFFFFFFFFFFFF
    } else if a == 0 && b == 1 {
        0x55555555555555555555555555555555
    } else if a == 0 && b == 2 {
        0x11111111111111111111111111111111
    } else if a == 0 && b == 3 {
        0x01010101010101010101010101010101
    } else if a == 0 && b == 4 {
        0x00010001000100010001000100010001
    } else if a == 0 && b == 5 {
        0x00000001000000010000000100000001
    } else if a == 0 && b == 6 {
        0x00000000000000010000000000000001
    } else if a == 0 && b == 7 {
        0x00000000000000000000000000000001
    } else if a == 1 && b == 0 {
        0xFFFFFFFFFFFFFFFFFFFFFFFFFFFFFFFF
    } else if a == 1 && b == 1 {
        0xFFFFFFFFFFFFFFFFFFFFFFFFFFFFFFFF
    } else if a == 1 && b == 2 {
        0x33333333333333333333333333333333
    } else if a == 1 && b == 3 {
        0x03030303030303030303030303030303
    } else if a == 1 && b == 4 {
        0x00030003000300030003000300030003
    } else if a == 1 && b == 5 {
        0x00000003000000030000000300000003
    } else if a == 1 && b == 6 {
        0x00000000000000030000000000000003
    } else if a == 1 && b == 7 {
        0x00000000000000000000000000000003
    } else if a == 2 && b == 0 {
        0xFFFFFFFFFFFFFFFFFFFFFFFFFFFFFFFF
    } else if a == 2 && b == 1 {
        0xFFFFFFFFFFFFFFFFFFFFFFFFFFFFFFFF
    } else if a == 2 && b == 2 {
        0xFFFFFFFFFFFFFFFFFFFFFFFFFFFFFFFF
    } else if a == 2 && b == 3 {
        0x0F0F0F0F0F0F0F0F0F0F0F0F0F0F0F0F
    } else if a == 2 && b == 4 {
        0x000F000F000F000F000F000F000F000F
    } else if a == 2 && b == 5 {
        0x0000000F0000000F0000000F0000000F
    } else if a == 2 && b == 6 {
        0x000000000000000F000000000000000F
    } else if a == 2 && b == 7 {
        0x0000000000000000000000000000000F
    } else if a == 3 && b == 0 {
        0xFFFFFFFFFFFFFFFFFFFFFFFFFFFFFFFF
    } else if a == 3 && b == 1 {
        0xFFFFFFFFFFFFFFFFFFFFFFFFFFFFFFFF
    } else if a == 3 && b == 2 {
        0xFFFFFFFFFFFFFFFFFFFFFFFFFFFFFFFF
    } else if a == 3 && b == 3 {
        0xFFFFFFFFFFFFFFFFFFFFFFFFFFFFFFFF
    } else if a == 3 && b == 4 {
        0x00FF00FF00FF00FF00FF00FF00FF00FF
    } else if a == 3 && b == 5 {
        0x000000FF000000FF000000FF000000FF
    } else if a == 3 && b == 6 {
        0x00000000000000FF00000000000000FF
    } else if a == 3 && b == 7 {
        0x000000000000000000000000000000FF
    } else if a == 4 && b == 0 {
        0xFFFFFFFFFFFFFFFFFFFFFFFFFFFFFFFF
    } else if a == 4 && b == 1 {
        0xFFFFFFFFFFFFFFFFFFFFFFFFFFFFFFFF
    } else if a == 4 && b == 2 {
        0xFFFFFFFFFFFFFFFFFFFFFFFFFFFFFFFF
    } else if a == 4 && b == 3 {
        0xFFFFFFFFFFFFFFFFFFFFFFFFFFFFFFFF
    } else if a == 4 && b == 4 {
        0xFFFFFFFFFFFFFFFFFFFFFFFFFFFFFFFF
    } else if a == 4 && b == 5 {
        0x0000FFFF0000FFFF0000FFFF0000FFFF
    } else if a == 4 && b == 6 {
        0x000000000000FFFF000000000000FFFF
    } else if a == 4 && b == 7 {
        0x0000000000000000000000000000FFFF
    } else if a == 5 && b == 0 {
        0xFFFFFFFFFFFFFFFFFFFFFFFFFFFFFFFF
    } else if a == 5 && b == 1 {
        0xFFFFFFFFFFFFFFFFFFFFFFFFFFFFFFFF
    } else if a == 5 && b == 2 {
        0xFFFFFFFFFFFFFFFFFFFFFFFFFFFFFFFF
    } else if a == 5 && b == 3 {
        0xFFFFFFFFFFFFFFFFFFFFFFFFFFFFFFFF
    } else if a == 5 && b == 4 {
        0xFFFFFFFFFFFFFFFFFFFFFFFFFFFFFFFF
    } else if a == 5 && b == 5 {
        0xFFFFFFFFFFFFFFFFFFFFFFFFFFFFFFFF
    } else if a == 5 && b == 6 {
        0x00000000FFFFFFFF00000000FFFFFFFF
    } else if a == 5 && b == 7 {
        0x000000000000000000000000FFFFFFFF
    } else if a == 6 && b == 0 {
        0xFFFFFFFFFFFFFFFFFFFFFFFFFFFFFFFF
    } else if a == 6 && b == 1 {
        0xFFFFFFFFFFFFFFFFFFFFFFFFFFFFFFFF
    } else if a == 6 && b == 2 {
        0xFFFFFFFFFFFFFFFFFFFFFFFFFFFFFFFF
    } else if a == 6 && b == 3 {
        0xFFFFFFFFFFFFFFFFFFFFFFFFFFFFFFFF
    } else if a == 6 && b == 4 {
        0xFFFFFFFFFFFFFFFFFFFFFFFFFFFFFFFF
    } else if a == 6 && b == 5 {
        0xFFFFFFFFFFFFFFFFFFFFFFFFFFFFFFFF
    } else if a == 6 && b == 6 {
        0xFFFFFFFFFFFFFFFFFFFFFFFFFFFFFFFF
    } else if a == 6 && b == 7 {
        0x0000000000000000FFFFFFFFFFFFFFFF
    } else if a == 7 && b == 0 {
        0xFFFFFFFFFFFFFFFFFFFFFFFFFFFFFFFF
    } else if a == 7 && b == 1 {
        0xFFFFFFFFFFFFFFFFFFFFFFFFFFFFFFFF
    } else if a == 7 && b == 2 {
        0xFFFFFFFFFFFFFFFFFFFFFFFFFFFFFFFF
    } else if a == 7 && b == 3 {
        0xFFFFFFFFFFFFFFFFFFFFFFFFFFFFFFFF
    } else if a == 7 && b == 4 {
        0xFFFFFFFFFFFFFFFFFFFFFFFFFFFFFFFF
    } else if a == 7 && b == 5 {
        0xFFFFFFFFFFFFFFFFFFFFFFFFFFFFFFFF
    } else if a == 7 && b == 6 {
        0xFFFFFFFFFFFFFFFFFFFFFFFFFFFFFFFF
    } else {
        0xFFFFFFFFFFFFFFFFFFFFFFFFFFFFFFFF
    }
}

proof fn mask_bits_u128(j: u128)
    by (bit_vector)
    requires
        j < 128,
    ensures
        (((0xFFFFFFFFFFFFFFFFFFFFFFFFFFFFFFFFu128 >> j) & 1) == 1) == (j % 1 < 1),
        (((0x55555555555555555555555555555555u128 >> j) & 1) == 1) == (j % 2 < 1),
        (((0x11111111111111111111111111111111u128 >> j) & 1) == 1) == (j % 4 < 1),
        (((0x01010101010101010101010101010101u128 >> j) & 1) == 1) == (j % 8 < 1),
        (((0x00010001000100010001000100010001u128 >> j) & 1) == 1) == (j % 16 < 1),
        (((0x00000001000000010000000100000001u128 >> j) & 1) == 1) == (j % 32 < 1),
        (((0x00000000000000010000000000000001u128 >> j) & 1) == 1) == (j % 64 < 1),
        (((0x00000000000000000000000000000001u128 >> j) & 1) == 1) == (j % 128 < 1),
        (((0xFFFFFFFFFFFFFFFFFFFFFFFFFFFFFFFFu128 >> j) & 1) == 1) == (j % 1 < 2),
        (((0xFFFFFFFFFFFFFFFFFFFFFFFFFFFFFFFFu128 >> j) & 1) == 1) == (j % 2 < 2),
        (((0x33333333333333333333333333333333u128 >> j) & 1) == 1) == (j % 4 < 2),
        (((0x03030303030303030303030303030303u128 >> j) & 1) == 1) == (j % 8 < 2),
        (((0x00030003000300030003000300030003u128 >> j) & 1) == 1) == (j % 16 < 2),
        (((0x00000003000000030000000300000003u128 >> j) & 1) == 1) == (j % 32 < 2),
        (((0x00000000000000030000000000000003u128 >> j) & 1) == 1) == (j % 64 < 2),
        (((0x00000000000000000000000000000003u128 >> j) & 1) == 1) == (j % 128 < 2),
        (((0xFFFFFFFFFFFFFFFFFFFFFFFFFFFFFFFFu128 >> j) & 1) == 1) == (j % 1 < 4),
        (((0xFFFFFFFFFFFFFFFFFFFFFFFFFFFFFFFFu128 >> j) & 1) == 1) == (j % 2 < 4),
        (((0xFFFFFFFFFFFFFFFFFFFFFFFFFFFFFFFFu128 >> j) & 1) == 1) == (j % 4 < 4),
        (((0x0F0F0F0F0F0F0F0F0F0F0F0F0F0F0F0Fu128 >> j) & 1) == 1) == (j % 8 < 4),
        (((0x000F000F000F000F000F000F000F000Fu128 >> j) & 1) == 1) == (j % 16 < 4),
        (((0x0000000F0000000F0000000F0000000Fu128 >> j) & 1) == 1) == (j % 32 < 4),
        (((0x000000000000000F000000000000000Fu128 >> j) & 1) == 1) == (j % 64 < 4),
        (((0x0000000000000000000000000000000Fu128 >> j) & 1) == 1) == (j % 128 < 4),
        (((0xFFFFFFFFFFFFFFFFFFFFFFFFFFFFFFFFu128 >> j) & 1) == 1) == (j % 1 < 8),
        (((0xFFFFFFFFFFFFFFFFFFFFFFFFFFFFFFFFu128 >> j) & 1) == 1) == (j % 2 < 8),
        (((0xFFFFFFFFFFFFFFFFFFFFFFFFFFFFFFFFu128 >> j) & 1) == 1) == (j % 4 < 8),
        (((0xFFFFFFFFFFFFFFFFFFFFFFFFFFFFFFFFu128 >> j) & 1) == 1) == (j % 8 < 8),
        (((0x00FF00FF00FF00FF00FF00FF00FF00FFu128 >> j) & 1) == 1) == (j % 16 < 8),
        (((0x000000FF000000FF000000FF000000FFu128 >> j) & 1) == 1) == (j % 32 < 8),
        (((0x00000000000000FF00000000000000FFu128 >> j) & 1) == 1) == (j % 64 < 8),
        (((0x000000000000000000000000000000FFu128 >> j) & 1) == 1) == (j % 128 < 8),
        (((0xFFFFFFFFFFFFFFFFFFFFFFFFFFFFFFFFu128 >> j) & 1) == 1) == (j % 1 < 16),
        (((0xFFFFFFFFFFFFFFFFFFFFFFFFFFFFFFFFu128 >> j) & 1) == 1) == (j % 2 < 16),
        (((0xFFFFFFFFFFFFFFFFFFFFFFFFFFFFFFFFu128 >> j) & 1) == 1) == (j % 4 < 16),
        (((0xFFFFFFFFFFFFFFFFFFFFFFFFFFFFFFFFu128 >> j) & 1) == 1) == (j % 8 < 16),
        (((0xFFFFFFFFFFFFFFFFFFFFFFFFFFFFFFFFu128 >> j) & 1) == 1) == (j % 16 < 16),
        (((0x0000FFFF0000FFFF0000FFFF0000FFFFu128 >> j) & 1) == 1) == (j % 32 < 16),
        (((0x000000000000FFFF000000000000FFFFu128 >> j) & 1) == 1) == (j % 64 < 16),
        (((0x0000000000000000000000000000FFFFu128 >> j) & 1) == 1) == (j % 128 < 16),
        (((0xFFFFFFFFFFFFFFFFFFFFFFFFFFFFFFFFu128 >> j) & 1) == 1) == (j % 1 < 32),
        (((0xFFFFFFFFFFFFFFFFFFFFFFFFFFFFFFFFu128 >> j) & 1) == 1) == (j % 2 < 32),
        (((0xFFFFFFFFFFFFFFFFFFFFFFFFFFFFFFFFu128 >> j) & 1) == 1) == (j % 4 < 32),
        (((0xFFFFFFFFFFFFFFFFFFFFFFFFFFFFFFFFu128 >> j) & 1) == 1) == (j % 8 < 32),
        (((0xFFFFFFFFFFFFFFFFFFFFFFFFFFFFFFFFu128 >> j) & 1) == 1) == (j % 16 < 32),
        (((0xFFFFFFFFFFFFFFFFFFFFFFFFFFFFFFFFu128 >> j) & 1) == 1) == (j % 32 < 32),
        (((0x00000000FFFFFFFF00000000FFFFFFFFu128 >> j) & 1) == 1) == (j % 64 < 32),
        (((0x000000000000000000000000FFFFFFFFu128 >> j) & 1) == 1) == (j % 128 < 32),
        (((0xFFFFFFFFFFFFFFFFFFFFFFFFFFFFFFFFu128 >> j) & 1) == 1) == (j % 1 < 64),
        (((0xFFFFFFFFFFFFFFFFFFFFFFFFFFFFFFFFu128 >> j) & 1) == 1) == (j % 2 < 64),
        (((0xFFFFFFFFFFFFFFFFFFFFFFFFFFFFFFFFu128 >> j) & 1) == 1) == (j % 4 < 64),
        (((0xFFFFFFFFFFFFFFFFFFFFFFFFFFFFFFFFu128 >> j) & 1) == 1) == (j % 8 < 64),
        (((0xFFFFFFFFFFFFFFFFFFFFFFFFFFFFFFFFu128 >> j) & 1) == 1) == (j % 16 < 64),
        (((0xFFFFFFFFFFFFFFFFFFFFFFFFFFFFFFFFu128 >> j) & 1) == 1) == (j % 32 < 64),
        (((0xFFFFFFFFFFFFFFFFFFFFFFFFFFFFFFFFu128 >> j) & 1) == 1) == (j % 64 < 64),
        (((0x0000000000000000FFFFFFFFFFFFFFFFu128 >> j) & 1) == 1) == (j % 128 < 64),
        (((0xFFFFFFFFFFFFFFFFFFFFFFFFFFFFFFFFu128 >> j) & 1) == 1) == (j % 1 < 128),
        (((0xFFFFFFFFFFFFFFFFFFFFFFFFFFFFFFFFu128 >> j) & 1) == 1) == (j % 2 < 128),
        (((0xFFFFFFFFFFFFFFFFFFFFFFFFFFFFFFFFu128 >> j) & 1) == 1) == (j % 4 < 128),
        (((0xFFFFFFFFFFFFFFFFFFFFFFFFFFFFFFFFu128 >> j) & 1) == 1) == (j % 8 < 128),
        (((0xFFFFFFFFFFFFFFFFFFFFFFFFFFFFFFFFu128 >> j) & 1) == 1) == (j % 16 < 128),
        (((0xFFFFFFFFFFFFFFFFFFFFFFFFFFFFFFFFu128 >> j) & 1) == 1) == (j % 32 < 128),
        (((0xFFFFFFFFFFFFFFFFFFFFFFFFFFFFFFFFu128 >> j) & 1) == 1) == (j % 64 < 128),
        (((0xFFFFFFFFFFFFFFFFFFFFFFFFFFFFFFFFu128 >> j) & 1) == 1) == (j % 128 < 128),
{
}

/// The defining law of the mask table: bit `j` of `mask_table_u128(a, b)` is
/// set if and only if `j mod 2^b < 2^a`.
pub proof fn lemma_mask_table_law_u128(a: int, b: int, j: u128)
    requires
        0 <= a < 8,
        0 <= b < 8,
        j < 128,
    ensures
        (((mask_table_u128(a, b) >> j) & 1) == 1) <==> ((j as nat) % pow2(b as nat) < pow2(
            a as nat,
        )),
{
    lemma2_to64();
    mask_bits_u128(j);
}

/// Builds the full mask table for 128-bit words.
pub fn get_basic_masks_u128() -> (masks: [[u128; 8]; 8])
    ensures
        forall|a: int, b: int|
            0 <= a < 8 && 0 <= b < 8 ==> #[trigger] masks@[a]@[b] == mask_table_u128(a, b),
        crate::count_ones::masks_ok_u128(masks),
{
    let masks: [[u128; 8]; 8] = [

        [0xFFFFFFFFFFFFFFFFFFFFFFFFFFFFFFFF, 0x55555555555555555555555555555555, 0x11111111111111111111111111111111, 0x01010101010101010101010101010101, 0x00010001000100010001000100010001, 0x00000001000000010000000100000001, 0x00000000000000010000000000000001, 0x00000000000000000000000000000001],
        [0xFFFFFFFFFFFFFFFFFFFFFFFFFFFFFFFF, 0xFFFFFFFFFFFFFFFFFFFFFFFFFFFFFFFF, 0x33333333333333333333333333333333, 0x03030303030303030303030303030303, 0x00030003000300030003000300030003, 0x00000003000000030000000300000003, 0x00000000000000030000000000000003, 0x00000000000000000000000000000003],
        [0xFFFFFFFFFFFFFFFFFFFFFFFFFFFFFFFF, 0xFFFFFFFFFFFFFFFFFFFFFFFFFFFFFFFF, 0xFFFFFFFFFFFFFFFFFFFFFFFFFFFFFFFF, 0x0F0F0F0F0F0F0F0F0F0F0F0F0F0F0F0F, 0x000F000F000F000F000F000F000F000F, 0x0000000F0000000F0000000F0000000F, 0x000000000000000F000000000000000F, 0x0000000000000000000000000000000F],
        [0xFFFFFFFFFFFFFFFFFFFFFFFFFFFFFFFF, 0xFFFFFFFFFFFFFFFFFFFFFFFFFFFFFFFF, 0xFFFFFFFFFFFFFFFFFFFFFFFFFFFFFFFF, 0xFFFFFFFFFFFFFFFFFFFFFFFFFFFFFFFF, 0x00FF00FF00FF00FF00FF00FF00FF00FF, 0x000000FF000000FF000000FF000000FF, 0x00000000000000FF00000000000000FF, 0x000000000000000000000000000000FF],
        [0xFFFFFFFFFFFFFFFFFFFFFFFFFFFFFFFF, 0xFFFFFFFFFFFFFFFFFFFFFFFFFFFFFFFF, 0xFFFFFFFFFFFFFFFFFFFFFFFFFFFFFFFF, 0xFFFFFFFFFFFFFFFFFFFFFFFFFFFFFFFF, 0xFFFFFFFFFFFFFFFFFFFFFFFFFFFFFFFF, 0x0000FFFF0000FFFF0000FFFF0000FFFF, 0x000000000000FFFF000000000000FFFF, 0x0000000000000000000000000000FFFF],
        [0xFFFFFFFFFFFFFFFFFFFFFFFFFFFFFFFF, 0xFFFFFFFFFFFFFFFFFFFFFFFFFFFFFFFF, 0xFFFFFFFFFFFFFFFFFFFFFFFFFFFFFFFF, 0xFFFFFFFFFFFFFFFFFFFFFFFFFFFFFFFF, 0xFFFFFFFFFFFFFFFFFFFFFFFFFFFFFFFF, 0xFFFFFFFFFFFFFFFFFFFFFFFFFFFFFFFF, 0x00000000FFFFFFFF00000000FFFFFFFF, 0x000000000000000000000000FFFFFFFF],
        [0xFFFFFFFFFFFFFFFFFFFFFFFFFFFFFFFF, 0xFFFFFFFFFFFFFFFFFFFFFFFFFFFFFFFF, 0xFFFFFFFFFFFFFFFFFFFFFFFFFFFFFFFF, 0xFFFFFFFFFFFFFFFFFFFFFFFFFFFFFFFF, 0xFFFFFFFFFFFFFFFFFFFFFFFFFFFFFFFF, 0xFFFFFFFFFFFFFFFFFFFFFFFFFFFFFFFF, 0xFFFFFFFFFFFFFFFFFFFFFFFFFFFFFFFF, 0x0000000000000000FFFFFFFFFFFFFFFF],
        [0xFFFFFFFFFFFFFFFFFFFFFFFFFFFFFFFF, 0xFFFFFFFFFFFFFFFFFFFFFFFFFFFFFFFF, 0xFFFFFFFFFFFFFFFFFFFFFFFFFFFFFFFF, 0xFFFFFFFFFFFFFFFFFFFFFFFFFFFFFFFF, 0xFFFFFFFFFFFFFFFFFFFFFFFFFFFFFFFF, 0xFFFFFFFFFFFFFFFFFFFFFFFFFFFFFFFF, 0xFFFFFFFFFFFFFFFFFFFFFFFFFFFFFFFF, 0xFFFFFFFFFFFFFFFFFFFFFFFFFFFFFFFF],
    ];
    masks
}


/// The mask table, offered on the word type itself.
pub trait GetMask: Word {
    /// The mask table for this width, ready to hand to the engine.
    fn get_mask() -> (masks: [[Self; 8]; 8])
        ensures
            Self::mask_table_ok(masks),
    ;
}

impl GetMask for u64 {
    fn get_mask() -> (masks: [[u64; 8]; 8]) {
        get_basic_masks_u64()
    }
}

impl GetMask for u128 {
    fn get_mask() -> (masks: [[u128; 8]; 8]) {
        get_basic_masks_u128()
    }
}

} // verus!
