use parallel_bit_counting::naive_count_ones::naive_count_bits_128;
use parallel_bit_counting::naive_count_ones::naive_count_bits_16;
use parallel_bit_counting::naive_count_ones::naive_count_bits_32;
use parallel_bit_counting::naive_count_ones::naive_count_bits_64;
use rand::Rng;

#[test]
fn test_random_16() {
    for _ in 0..10 {
        let mut rng = rand::thread_rng();
        let mut val: Vec<u16> = Vec::with_capacity(1 << 14);
        for _ in 0..(1 << 14) {
            val.push(rng.gen::<u16>());
        }
        let expected: Vec<u16> = val.iter().map(|x| x.count_ones() as u16).collect();
        let res = naive_count_bits_16(&mut val);
        assert_eq!(res.len(), expected.len());
        for i in 0..res.len() {
            assert_eq!(res[i], expected[i]);
        }
    }
}

#[test]
fn test_random_32() {
    for _ in 0..10 {
        let mut rng = rand::thread_rng();
        let mut val: Vec<u32> = Vec::with_capacity(1 << 14);
        for _ in 0..(1 << 14) {
            val.push(rng.gen::<u32>());
        }
        let expected: Vec<u32> = val.iter().map(|x| x.count_ones() as u32).collect();
        let res = naive_count_bits_32(&mut val);
        assert_eq!(res.len(), expected.len());
        for i in 0..res.len() {
            assert_eq!(res[i], expected[i]);
        }
    }
}

#[test]
fn naive_count_ones_test_random_64() {
    for _ in 0..10 {
        let mut rng = rand::thread_rng();
        let mut val: Vec<u64> = Vec::with_capacity(1 << 14);
        for _ in 0..(1 << 14) {
            val.push(rng.gen::<u64>());
        }
        let expected: Vec<u64> = val.iter().map(|x| x.count_ones() as u64).collect();
        let res = naive_count_bits_64(&mut val);
        assert_eq!(res.len(), expected.len());
        for i in 0..res.len() {
            assert_eq!(res[i], expected[i]);
        }
    }
}

#[test]
fn naive_count_ones_test_random_128() {
    for _ in 0..10 {
        let mut rng = rand::thread_rng();
        let mut val: Vec<u128> = Vec::with_capacity(1 << 14);
        for _ in 0..(1 << 14) {
            val.push(rng.gen::<u128>());
        }
        let expected: Vec<u128> = val.iter().map(|x| x.count_ones() as u128).collect();
        let res = naive_count_bits_128(&mut val);
        assert_eq!(res.len(), expected.len());
        for i in 0..res.len() {
            assert_eq!(res[i], expected[i]);
        }
    }
}
