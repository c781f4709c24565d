use compress_queue::metrics::reduction_percent_hundredths;

#[test]
fn reduction_zero_original_is_defined() {
    // with nothing to compare against, the reduction is zero by
    // definition — never a division error or NaN
    let r = reduction_percent_hundredths(0, 0);
    assert_eq!(r, 0);
    assert!(!(r as f64 / 100.0).is_nan());
    assert_eq!(reduction_percent_hundredths(0, 5_000), 0);
}

#[test]
fn reduction_exact_values() {
    assert_eq!(reduction_percent_hundredths(10_000_000, 3_000_000), 7000);
    assert_eq!(reduction_percent_hundredths(100, 30), 7000);
    assert_eq!(reduction_percent_hundredths(100, 100), 0);
    assert_eq!(reduction_percent_hundredths(100, 0), 10000);
    // truncation toward zero
    assert_eq!(reduction_percent_hundredths(3, 1), 6666);
}

#[test]
fn reduction_negative_when_output_grew() {
    assert_eq!(reduction_percent_hundredths(100, 150), -5000);
    assert_eq!(reduction_percent_hundredths(1, u64::MAX), -184467440737095516140000);
}
