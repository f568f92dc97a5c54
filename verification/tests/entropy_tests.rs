use pictropy::errors::AnalysisError;
use pictropy::histogram::{build_histogram, entropy_histogram};

/// Order-0 Shannon entropy in bits per symbol from a 256-bucket histogram.
fn entropy_bits(hist: &[u64]) -> f64 {
    let total: u64 = hist.iter().sum();
    let n = total as f64;
    let mut e = 0.0_f64;
    for &c in hist {
        if c > 0 {
            let p = c as f64 / n;
            e -= p * p.log2();
        }
    }
    e
}

#[test]
fn histogram_counts_exact() {
    let data: Vec<u8> = vec![1, 1, 2, 255, 0, 1];
    let hist = build_histogram(&data);
    assert_eq!(hist.len(), 256);
    assert_eq!(hist[0], 1);
    assert_eq!(hist[1], 3);
    assert_eq!(hist[2], 1);
    assert_eq!(hist[255], 1);
    assert_eq!(hist[3], 0);
    let total: u64 = hist.iter().sum();
    assert_eq!(total, 6);
}

#[test]
fn empty_channel_rejected() {
    let data: Vec<u8> = Vec::new();
    assert_eq!(entropy_histogram(&data), Err(AnalysisError::EmptyChannel));
}

#[test]
fn nonempty_channel_accepted() {
    let data: Vec<u8> = vec![42];
    let hist = entropy_histogram(&data).unwrap();
    assert_eq!(hist[42], 1);
    let total: u64 = hist.iter().sum();
    assert_eq!(total, 1);
}

#[test]
fn histogram_order_independent() {
    let a: Vec<u8> = vec![9, 3, 9, 200, 3, 3];
    let b: Vec<u8> = vec![3, 3, 3, 9, 9, 200];
    assert_eq!(build_histogram(&a), build_histogram(&b));
    assert_eq!(entropy_bits(&build_histogram(&a)), entropy_bits(&build_histogram(&b)));
}

#[test]
fn entropy_within_alphabet_bounds() {
    let mut data: Vec<u8> = Vec::new();
    for p in 0..10000usize {
        data.push(((p * 97 + 31) % 256) as u8);
    }
    let e = entropy_bits(&build_histogram(&data));
    assert!(e >= 0.0);
    assert!(e <= 8.0);
}

#[test]
fn solid_sequence_entropy_zero() {
    let data: Vec<u8> = vec![77; 500];
    let e = entropy_bits(&build_histogram(&data));
    assert_eq!(e, 0.0);
}

#[test]
fn two_equiprobable_values_one_bit() {
    let mut data: Vec<u8> = vec![0; 64];
    data.extend(vec![255; 64]);
    let e = entropy_bits(&build_histogram(&data));
    assert!((e - 1.0).abs() < 1e-12);
}
