use pictropy::ppm::ppm_compress;

#[test]
fn ppm_empty_costs_zero() {
    let data: Vec<u8> = Vec::new();
    assert_eq!(ppm_compress(&data), 0);
}

#[test]
fn ppm_single_byte_costs_escape() {
    // The first position has an empty, never-seen context: 8-bit escape.
    let data: Vec<u8> = vec![9];
    assert_eq!(ppm_compress(&data), 8);
}

#[test]
fn ppm_short_inputs_never_divide() {
    // Positions 0, 1 and 2 use shorter contexts, each fresh: one escape
    // apiece, finite and positive.
    assert_eq!(ppm_compress(&vec![9, 9, 9]), 24);
    assert_eq!(ppm_compress(&vec![1, 2]), 16);
}

#[test]
fn ppm_repeated_bytes_cost() {
    // Four fresh contexts ([], [5], [5,5], [5,5,5]) cost 8 each; from the
    // fifth byte on the context [5,5,5] always predicts 5 with
    // probability 1, costing 0 bits.
    let data: Vec<u8> = vec![5; 100];
    assert_eq!(ppm_compress(&data), 32);
}

#[test]
fn ppm_adaptive_costs_exact() {
    // Hand-traced: positions 0-3 see fresh contexts (8 bits each, 32),
    // position 4 codes a 2 unseen under [1,1,1] (8 bits, 40), positions
    // 5-7 see fresh contexts again (24 bits, 64), and position 8 codes 2
    // under [1,1,1] with count 1 of total 2: ceil(log2(2)) = 1 bit, 65.
    let data: Vec<u8> = vec![1, 1, 1, 1, 2, 1, 1, 1, 2];
    assert_eq!(ppm_compress(&data), 65);
}

#[test]
fn ppm_monotonic_under_extension() {
    let data: Vec<u8> = vec![4, 4, 7, 4, 4, 7, 4, 4, 7, 200, 1, 4, 4, 7];
    let mut previous = 0usize;
    for n in 0..=data.len() {
        let prefix: Vec<u8> = data[..n].to_vec();
        let cost = ppm_compress(&prefix);
        assert!(cost >= previous);
        previous = cost;
    }
}

#[test]
fn ppm_positive_for_nonempty() {
    let samples: Vec<Vec<u8>> = vec![vec![0], vec![0, 0], vec![255; 50], vec![1, 2, 3, 4, 5]];
    for data in samples {
        assert!(ppm_compress(&data) >= 8);
    }
}
