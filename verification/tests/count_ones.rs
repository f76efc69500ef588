use parallel_bit_counting::calculate_mask::GetMask;
use parallel_bit_counting::count_ones::calculate_l;
use parallel_bit_counting::count_ones::count_ones;
use parallel_bit_counting::count_ones::WordLength;
use rand::Rng;

#[test]
fn test_calculate_l() {
    for i in 0..100 {
        assert_eq!(
            calculate_l(i),
            ((i + 2) as f64).log2().ceil() as usize,
            "Failed at iteration i:{}",
            i
        );
    }
}

#[test]
fn test_specific_128() {
    let input = [
        0b1u128, 0b1u128, 0b1u128, 0b1u128, 0b1u128, 0b1u128, 0b1u128, 0b1u128, 0b1u128, 0b1u128,
        0b1u128, 0b1u128, 0b1u128, 0b1u128, 0b1u128, 0b1u128,
    ];
    let res = count_ones(&Vec::from(input), u128::get_mask(), WordLength::U128);
    for i in 0..input.len() {
        assert_eq!(input[i], res[i]);
    }
}

#[test]
fn count_ones_test_random_64() {
    let masks = u64::get_mask();
    for _ in 0..10 {
        let mut rng = rand::thread_rng();
        let mut val: Vec<u64> = Vec::with_capacity(1 << 14);
        for _ in 0..(1 << 14) {
            val.push(rng.gen::<u64>());
        }
        let expected: Vec<u64> = val.iter().map(|x| x.count_ones() as u64).collect();
        let res = count_ones(&val, masks, WordLength::U64);
        assert_eq!(res.len(), expected.len());
        for i in 0..val.len() {
            assert_eq!(
                res[i], expected[i],
                "left: {:b},\nright: {:b},\n i: {}",
                res[i], expected[i], i
            );
        }
    }
}

#[test]
fn test_small_sample_random_128() {
    let masks = u128::get_mask();
    let val: Vec<u128> = vec![
        225038453427468444376840238419353982120,
        126200853859186040732578121884242145784,
        10262100669963364223699525567592166329,
        294425819082398123114249317675861336733,
        115777319561375603372569018363930472932,
        250901836470375547477895771691870755784,
        18068537806635936277815686070558335203,
        56513041384264465694799984113465250286,
        234390566789637499012445399682518579939,
        262161782149154646596474419290825803878,
        43083132496328971009218099960341993064,
        7892324528197330420472287502510733544,
        186881521432731296949434670679583391062,
        226592890537627480141395410248135930110,
        151200256495250426677114264341598409570,
        227874780865315671664495445171902494754,
    ];
    let expected: Vec<u128> = val.iter().map(|x| x.count_ones() as u128).collect();
    let res = count_ones(&val.clone(), masks, WordLength::U128);
    assert_eq!(res.len(), expected.len());
    for i in 0..val.len() {
        let res_index = match i & 1 {
            0 => (i >> 1) + ((i >> 3) << 2),
            1 => (i >> 1) + 4 + ((i >> 3) << 2),
            _ => panic!("i%2 gave something illegal!"),
        };
        assert_eq!(
            res[res_index], expected[i],
            "input: {}, left: {:b},\nright: {:b},\n i: {}",
            val[i], res[res_index], expected[i], i
        );
    }
}

#[test]
fn count_ones_test_random_128() {
    let masks = u128::get_mask();
    for _ in 0..10 {
        let mut rng = rand::thread_rng();
        let mut val: Vec<u128> = Vec::with_capacity(1 << 14);
        for _ in 0..(1 << 14) {
            val.push(rng.gen::<u128>());
        }
        let expected: Vec<u128> = val.iter().map(|x| x.count_ones() as u128).collect();
        let res = count_ones(&val.clone(), masks, WordLength::U128);
        assert_eq!(res.len(), expected.len());
        for i in 0..val.len() {
            let res_index = match i & 1 {
                0 => (i >> 1) + ((i >> 3) << 2),
                1 => (i >> 1) + 4 + ((i >> 3) << 2),
                _ => panic!("i%2 gave something illegal!"),
            };
            assert_eq!(
                res[res_index], expected[i],
                "input: {}, left: {:b},\nright: {:b},\n i: {}",
                val[i], res[res_index], expected[i], i
            );
        }
    }
}
