use pictropy::channels::{rgba_image, split_rgb_channels};
use pictropy::formats::{extension_of, is_supported_extension};
use pictropy::histogram::build_histogram;
use pictropy::ppm::ppm_compress;
use pictropy::reconcile::reconcile;
use pictropy::rle::rle_size;
use pictropy::webp_size::webp_lossless_size;

/// Order-0 Shannon entropy in bits per symbol from a 256-bucket histogram.
fn entropy_bits(hist: &[u64]) -> f64 {
    let total: u64 = hist.iter().sum();
    let n = total as f64;
    let mut e = 0.0_f64;
    for &c in hist {
        if c > 0 {
            let p = c as f64 / n;
            e -= p * p.log2();
        }
    }
    e
}

fn solid_image(width: u32, height: u32, r: u8, g: u8, b: u8) -> pictropy::channels::RasterImage {
    let mut pixels: Vec<u8> = Vec::new();
    for _ in 0..(width as usize * height as usize) {
        pixels.extend([r, g, b, 255]);
    }
    rgba_image(width, height, pixels).unwrap()
}

#[test]
fn split_channels_exact() {
    let img = rgba_image(2, 1, vec![10, 20, 30, 40, 50, 60, 70, 80]).unwrap();
    let (red, green, blue) = split_rgb_channels(&img);
    assert_eq!(red, vec![10, 50]);
    assert_eq!(green, vec![20, 60]);
    assert_eq!(blue, vec![30, 70]);
}

#[test]
fn rgba_image_rejects_bad_length() {
    assert!(rgba_image(2, 2, vec![0; 15]).is_none());
    assert!(rgba_image(2, 2, vec![0; 16]).is_some());
}

#[test]
fn extension_parsing() {
    assert_eq!(extension_of(&b"photo.JPG".to_vec()), b"JPG".to_vec());
    assert_eq!(extension_of(&b"archive.tar.gz".to_vec()), b"gz".to_vec());
    assert_eq!(extension_of(&b"noext".to_vec()), b"noext".to_vec());
    assert_eq!(extension_of(&b"trailing.".to_vec()), b"".to_vec());
    assert_eq!(extension_of(&b".png".to_vec()), b"png".to_vec());
}

#[test]
fn supported_extensions() {
    assert!(is_supported_extension(&b"jpg".to_vec()));
    assert!(is_supported_extension(&b"JPeG".to_vec()));
    assert!(is_supported_extension(&b"PNG".to_vec()));
    assert!(!is_supported_extension(&b"gif".to_vec()));
    assert!(!is_supported_extension(&b"webp".to_vec()));
    assert!(!is_supported_extension(&b"".to_vec()));
    assert!(!is_supported_extension(&b"jpgg".to_vec()));
}

#[test]
fn webp_size_deterministic() {
    let img = solid_image(10, 10, 200, 100, 50);
    let first = webp_lossless_size(&img).unwrap();
    let second = webp_lossless_size(&img).unwrap();
    assert_eq!(first, second);
    assert!(first > 0);
}

#[test]
fn webp_size_rejects_bad_dimensions() {
    let empty = rgba_image(0, 0, Vec::new()).unwrap();
    assert_eq!(webp_lossless_size(&empty), None);
    let too_wide = rgba_image(16384, 1, vec![0; 16384 * 4]).unwrap();
    assert_eq!(webp_lossless_size(&too_wide), None);
}

#[test]
fn random_image_scenario() {
    // A near-uniform 100x100 RGB image: every byte value occurs almost
    // equally often in every channel, so each channel entropy is within
    // 0.1 of the 8-bit maximum, the raw theoretical size overshoots the
    // observed file size, the clamp fires and no saving is claimed.
    let mut pixels: Vec<u8> = Vec::new();
    for p in 0..10000usize {
        pixels.extend([
            ((p * 97) % 256) as u8,
            ((p * 89 + 13) % 256) as u8,
            ((p * 101 + 57) % 256) as u8,
            255,
        ]);
    }
    let img = rgba_image(100, 100, pixels).unwrap();
    let (red, green, blue) = split_rgb_channels(&img);
    let mut milli: Vec<u64> = Vec::new();
    for channel in [&red, &green, &blue] {
        let e = entropy_bits(&build_histogram(channel));
        assert!((e - 8.0).abs() < 0.1);
        milli.push((e * 1000.0) as u64);
    }
    let original_size = 25000u64;
    let res = reconcile(
        milli[0],
        milli[1],
        milli[2],
        10000,
        original_size,
        ppm_compress(&red),
        ppm_compress(&green),
        ppm_compress(&blue),
    )
    .unwrap();
    assert!(!res.model_effective);
    assert_eq!(res.theoretical_min_size, original_size);
    assert_eq!(res.compression_percent_bp, 0);
}

#[test]
fn solid_image_scenario() {
    // A solid-color 10x10 image: zero entropy in every channel, zero
    // theoretical size, and the full 100% saving; the run-length
    // simulator sees one run per channel and the context model only the
    // four initial escapes.
    let img = solid_image(10, 10, 77, 78, 79);
    let (red, green, blue) = split_rgb_channels(&img);
    let mut milli: Vec<u64> = Vec::new();
    for channel in [&red, &green, &blue] {
        let e = entropy_bits(&build_histogram(channel));
        assert_eq!(e, 0.0);
        milli.push((e * 1000.0) as u64);
    }
    assert_eq!(rle_size(&red), Ok(2));
    assert_eq!(ppm_compress(&red), 32);
    let res = reconcile(milli[0], milli[1], milli[2], 100, 350, 32, 32, 32).unwrap();
    assert!(res.model_effective);
    assert_eq!(res.theoretical_min_size, 0);
    assert_eq!(res.compression_percent_bp, 10000);
}
