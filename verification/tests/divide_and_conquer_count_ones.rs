use parallel_bit_counting::divide_and_conquer_count_ones::naive_parallel_count_ones_128;
use parallel_bit_counting::divide_and_conquer_count_ones::naive_parallel_count_ones_16;
use parallel_bit_counting::divide_and_conquer_count_ones::naive_parallel_count_ones_32;
use parallel_bit_counting::divide_and_conquer_count_ones::naive_parallel_count_ones_64;
use rand::Rng;

#[test]
fn divide_and_conquer_count_ones_test_random_64() {
    for _ in 0..10 {
        let mut rng = rand::thread_rng();
        let mut val: Vec<u64> = Vec::with_capacity(1 << 14);
        for _ in 0..(1 << 14) {
            val.push(rng.gen::<u64>());
        }
        let expected: Vec<u64> = val.iter().map(|x| x.count_ones() as u64).collect();
        let res = naive_parallel_count_ones_64(&val);
        assert_eq!(res.len(), expected.len());
        for i in 0..val.len() {
            assert_eq!(res[i], expected[i]);
        }
    }
}

#[test]
fn divide_and_conquer_count_ones_test_random_128() {
    for _ in 0..10 {
        let mut rng = rand::thread_rng();
        let mut val: Vec<u128> = Vec::with_capacity(1 << 14);
        for _ in 0..(1 << 14) {
            val.push(rng.gen::<u128>());
        }
        let expected: Vec<u128> = val.iter().map(|x| x.count_ones() as u128).collect();
        let res = naive_parallel_count_ones_128(&val);
        assert_eq!(res.len(), expected.len());
        for i in 0..val.len() {
            assert_eq!(res[i], expected[i]);
        }
    }
}

#[test]
fn divide_and_conquer_exact_values_16() {
    let val: Vec<u16> = vec![0, 1, 0b1010, 0xFFFF, 0x8001, 0x7FFF];
    let expected: Vec<u16> = vec![0, 1, 2, 16, 2, 15];
    let res = naive_parallel_count_ones_16(&val);
    assert_eq!(res, expected);
}

#[test]
fn divide_and_conquer_exact_values_32() {
    let val: Vec<u32> = vec![0, 1, 0xFFFFFFFF, 0x80000001, 0x55555555];
    let expected: Vec<u32> = vec![0, 1, 32, 2, 16];
    let res = naive_parallel_count_ones_32(&val);
    assert_eq!(res, expected);
}

#[test]
fn divide_and_conquer_random_16_32() {
    let mut rng = rand::thread_rng();
    let mut v16: Vec<u16> = Vec::new();
    let mut v32: Vec<u32> = Vec::new();
    for _ in 0..(1 << 12) {
        v16.push(rng.gen::<u16>());
        v32.push(rng.gen::<u32>());
    }
    let r16 = naive_parallel_count_ones_16(&v16);
    let r32 = naive_parallel_count_ones_32(&v32);
    for i in 0..v16.len() {
        assert_eq!(r16[i], v16[i].count_ones() as u16);
        assert_eq!(r32[i], v32[i].count_ones() as u32);
    }
}
