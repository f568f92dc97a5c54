use pictropy::errors::AnalysisError;
use pictropy::reconcile::reconcile;

#[test]
fn reconcile_exact_percentage() {
    // total 6000 milli-bits, 8000 pixels: raw = 6000 * 8000 / 8000 = 6000
    // bytes, below the 10000-byte file: 40.00% saving.
    let res = reconcile(1000, 2000, 3000, 8000, 10000, 11, 22, 33).unwrap();
    assert_eq!(res.total_entropy_milli, 6000);
    assert_eq!(res.theoretical_min_size, 6000);
    assert_eq!(res.original_size, 10000);
    assert_eq!(res.compression_percent_bp, 4000);
    assert!(res.model_effective);
    assert_eq!(res.red_predicted_size, 11);
    assert_eq!(res.green_predicted_size, 22);
    assert_eq!(res.blue_predicted_size, 33);
}

#[test]
fn reconcile_clamp_triggers() {
    // raw = 24000 * 1000 / 8000 = 3000 bytes > 2000-byte file: clamped to
    // the file size, zero percentage, advisory instead of the claim.
    let res = reconcile(8000, 8000, 8000, 1000, 2000, 0, 0, 0).unwrap();
    assert_eq!(res.theoretical_min_size, 2000);
    assert_eq!(res.compression_percent_bp, 0);
    assert!(!res.model_effective);
}

#[test]
fn reconcile_rejects_degenerate() {
    assert_eq!(
        reconcile(8001, 0, 0, 100, 100, 0, 0, 0),
        Err(AnalysisError::NumericDegenerate)
    );
    assert_eq!(
        reconcile(0, 9000, 0, 100, 100, 0, 0, 0),
        Err(AnalysisError::NumericDegenerate)
    );
    assert_eq!(
        reconcile(0, 0, u64::MAX, 100, 100, 0, 0, 0),
        Err(AnalysisError::NumericDegenerate)
    );
}

#[test]
fn reconcile_boundary_entropy_accepted() {
    assert!(reconcile(8000, 8000, 8000, 1, 1, 0, 0, 0).is_ok());
}

#[test]
fn reconcile_clamp_invariant_holds() {
    // Theoretical size never exceeds the file size and the percentage is
    // always a percentage, across effective, clamped and boundary runs.
    let cases: Vec<(u64, u64, u64, u64, u64)> = vec![
        (0, 0, 0, 100, 1),
        (8000, 8000, 8000, u64::MAX, 1),
        (1, 2, 3, 999, 7),
        (7999, 1, 4000, 123456, 54321),
        (8000, 8000, 8000, 1000, 3000),
    ];
    for (r, g, b, pixels, size) in cases {
        let res = reconcile(r, g, b, pixels, size, 0, 0, 0).unwrap();
        assert!(res.theoretical_min_size <= res.original_size);
        assert!(res.compression_percent_bp <= 10000);
        assert_eq!(res.total_entropy_milli, r + g + b);
    }
}

#[test]
fn reconcile_zero_entropy_full_saving() {
    let res = reconcile(0, 0, 0, 100, 350, 32, 32, 32).unwrap();
    assert_eq!(res.theoretical_min_size, 0);
    assert_eq!(res.compression_percent_bp, 10000);
    assert!(res.model_effective);
}
