//! Bit-parallel population counting.
//!
//! The heart of the crate is the fold-and-pack engine in [`count_ones`]: a
//! SWAR (SIMD-within-a-register) bit counter that, unlike the classic
//! per-word doubling scheme, periodically merges the partially folded state
//! of two distinct array elements into a single machine word, so that later
//! rounds process twice as much original data per word-level operation.
//!
//! Around the engine stand the mask-table generator ([`calculate_mask`]) and
//! two baseline counters used as oracles: a naive bit-by-bit counter
//! ([`naive_count_ones`]) and a per-word SWAR counter that never combines
//! array elements ([`divide_and_conquer_count_ones`]).

pub mod calculate_mask;
pub mod count_ones;
pub mod divide_and_conquer_count_ones;
pub mod fold_spec;
pub mod naive_count_ones;
pub mod popcount;
