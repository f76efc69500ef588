use parallel_bit_counting::calculate_mask::get_basic_masks_u128;
use parallel_bit_counting::calculate_mask::get_basic_masks_u64;
use parallel_bit_counting::calculate_mask::GetMask;
use parallel_bit_counting::count_ones::count_ones;
use parallel_bit_counting::count_ones::out_index_u128_at;
use parallel_bit_counting::count_ones::round_action;
use parallel_bit_counting::count_ones::RoundAction;
use parallel_bit_counting::count_ones::Word;
use parallel_bit_counting::count_ones::WordLength;
use parallel_bit_counting::divide_and_conquer_count_ones::naive_parallel_count_ones_16;
use parallel_bit_counting::divide_and_conquer_count_ones::naive_parallel_count_ones_32;
use parallel_bit_counting::naive_count_ones::naive_count_bits_16;
use parallel_bit_counting::naive_count_ones::naive_count_bits_32;

#[test]
fn empty_input_all_widths() {
    let empty64: Vec<u64> = Vec::new();
    let res64 = count_ones(&empty64, u64::get_mask(), WordLength::U64);
    assert_eq!(res64.len(), 0);
    let empty128: Vec<u128> = Vec::new();
    let res128 = count_ones(&empty128, u128::get_mask(), WordLength::U128);
    assert_eq!(res128.len(), 0);
    let res16 = naive_parallel_count_ones_16(&Vec::new());
    assert_eq!(res16.len(), 0);
    let res32 = naive_parallel_count_ones_32(&Vec::new());
    assert_eq!(res32.len(), 0);
    let mut e16: Vec<u16> = Vec::new();
    assert_eq!(naive_count_bits_16(&mut e16).len(), 0);
    let mut e32: Vec<u32> = Vec::new();
    assert_eq!(naive_count_bits_32(&mut e32).len(), 0);
}

#[test]
fn single_element_input() {
    let res64 = count_ones(&vec![0xDEADBEEFu64], u64::get_mask(), WordLength::U64);
    assert_eq!(res64, vec![0xDEADBEEFu64.count_ones() as u64]);
    let res128 = count_ones(
        &vec![0xDEADBEEF_DEADBEEF_DEADBEEFu128],
        u128::get_mask(),
        WordLength::U128,
    );
    assert_eq!(res128, vec![0xDEADBEEF_DEADBEEF_DEADBEEFu128.count_ones() as u128]);
}

#[test]
fn odd_length_keeps_every_count_64() {
    // an odd-length input loses no element: all counts come back in order
    let val: Vec<u64> = vec![u64::MAX, 0, 1, 0x8000000000000000, 7, 0xF0F0F0F0F0F0F0F0, 3];
    let res = count_ones(&val, u64::get_mask(), WordLength::U64);
    assert_eq!(res.len(), val.len());
    for i in 0..val.len() {
        assert_eq!(res[i], val[i].count_ones() as u64);
    }
}

#[test]
fn odd_length_keeps_every_count_128() {
    // an odd-length input loses no element: the multiset of counts survives
    let val: Vec<u128> = vec![u128::MAX, 0, 1, 0xFFFF, 5];
    let res = count_ones(&val, u128::get_mask(), WordLength::U128);
    assert_eq!(res.len(), val.len());
    let mut got: Vec<u128> = res.clone();
    let mut want: Vec<u128> = val.iter().map(|x| x.count_ones() as u128).collect();
    got.sort();
    want.sort();
    assert_eq!(got, want);
    // and each count stands at its documented position
    for i in 0..val.len() {
        assert_eq!(res[out_index_u128_at(val.len(), i)], val[i].count_ones() as u128);
    }
}

#[test]
fn mask_table_values() {
    let m64 = get_basic_masks_u64();
    assert_eq!(m64[0][1], 0x5555555555555555u64);
    assert_eq!(m64[1][2], 0x3333333333333333u64);
    assert_eq!(m64[2][3], 0x0F0F0F0F0F0F0F0Fu64);
    assert_eq!(m64[3][4], 0x00FF00FF00FF00FFu64);
    assert_eq!(m64[3][6], 0xFFu64);
    let m128 = get_basic_masks_u128();
    assert_eq!(m128[0][1], 0x55555555555555555555555555555555u128);
    assert_eq!(m128[4][7], 0xFFFFu128);
    // the defining law, spot-checked bit by bit
    for a in 0..8usize {
        for b in 0..8usize {
            for j in 0..64usize {
                let expected = (j % (1usize << b)) < (1usize << a);
                assert_eq!((m64[a][b] >> j) & 1 == 1, expected, "a:{} b:{} j:{}", a, b, j);
            }
        }
    }
}

#[test]
fn round_actions_follow_field_width() {
    // level 2 repacks (the field grows from 2 to 3 bits), levels 3 to 5
    // combine (the width persists), level 6 repacks again
    assert!(matches!(round_action(2), RoundAction::Repack));
    assert!(matches!(round_action(3), RoundAction::Combine));
    assert!(matches!(round_action(4), RoundAction::Combine));
    assert!(matches!(round_action(5), RoundAction::Combine));
    assert!(matches!(round_action(6), RoundAction::Repack));
}

#[test]
fn word_zero_is_zero() {
    assert_eq!(<u64 as Word>::zero(), 0u64);
    assert_eq!(<u128 as Word>::zero(), 0u128);
}

#[test]
fn single_bit_words_all_widths() {
    // every one-bit word counts to exactly one
    for t in 0..16u16 {
        let mut v = vec![1u16 << t];
        assert_eq!(naive_count_bits_16(&mut v)[0], 1);
    }
    for t in 0..64u32 {
        let v = vec![1u64 << t];
        let res = count_ones(&v, u64::get_mask(), WordLength::U64);
        assert_eq!(res[0], 1);
    }
    for t in 0..128u32 {
        let v = vec![1u128 << t];
        let res = count_ones(&v, u128::get_mask(), WordLength::U128);
        assert_eq!(res[0], 1);
    }
}
