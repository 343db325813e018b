use aetos::{
    BucketOrderError, Fixed, Histogram, LabelSet, Total, exponential_buckets, linear_buckets,
    validate_histogram_buckets,
};

fn fx(v: f64) -> Fixed {
    Fixed { nanos: (v * 1e9).round() as i64 }
}

fn as_f64(x: Fixed) -> f64 {
    x.nanos as f64 / 1e9
}

fn floats(b: &[Fixed]) -> Vec<f64> {
    b.iter().map(|x| as_f64(*x)).collect()
}

fn sum_f64(t: Total) -> f64 {
    match t {
        Total::Finite(n) => n as f64 / 1e9,
        Total::PosInf => f64::INFINITY,
        Total::NegInf => f64::NEG_INFINITY,
        Total::NaN => f64::NAN,
    }
}

fn within_epsilon(a: f64, b: f64) -> bool {
    (a - b).abs() < f64::EPSILON
}

#[test]
fn test_linear_buckets_basic() {
    let buckets = linear_buckets(fx(0.1), fx(0.1), 5);
    assert_eq!(buckets.len(), 5);
    assert!(within_epsilon(as_f64(buckets[0]), 0.1));
    assert!(within_epsilon(as_f64(buckets[1]), 0.2));
    assert!(within_epsilon(as_f64(buckets[2]), 0.3));
    assert!(within_epsilon(as_f64(buckets[3]), 0.4));
    assert!(within_epsilon(as_f64(buckets[4]), 0.5));
}

#[test]
fn test_linear_buckets_single() {
    let buckets = linear_buckets(fx(5.0), fx(1.0), 1);
    assert_eq!(buckets.len(), 1);
    assert_eq!(as_f64(buckets[0]), 5.0);
}

#[test]
fn test_linear_buckets_zero_start() {
    let buckets = linear_buckets(fx(0.0), fx(0.5), 3);
    assert_eq!(floats(&buckets), vec![0.0, 0.5, 1.0]);
}

#[test]
fn test_linear_buckets_with_validation() {
    let buckets = linear_buckets(fx(1.0), fx(1.0), 5);
    assert_eq!(validate_histogram_buckets(&buckets), Ok(()));
}

#[test]
fn test_exponential_buckets_basic() {
    let buckets = exponential_buckets(fx(1.0), fx(2.0), 5);
    assert_eq!(buckets.len(), 5);
    assert_eq!(as_f64(buckets[0]), 1.0);
    assert_eq!(as_f64(buckets[1]), 2.0);
    assert_eq!(as_f64(buckets[2]), 4.0);
    assert_eq!(as_f64(buckets[3]), 8.0);
    assert_eq!(as_f64(buckets[4]), 16.0);
}

#[test]
fn test_exponential_buckets_single() {
    let buckets = exponential_buckets(fx(100.0), fx(10.0), 1);
    assert_eq!(buckets.len(), 1);
    assert_eq!(as_f64(buckets[0]), 100.0);
}

#[test]
fn test_exponential_buckets_small_factor() {
    let buckets = exponential_buckets(fx(1.0), fx(1.5), 4);
    assert_eq!(buckets.len(), 4);
    assert_eq!(as_f64(buckets[0]), 1.0);
    assert_eq!(as_f64(buckets[1]), 1.5);
    assert_eq!(as_f64(buckets[2]), 2.25);
    assert_eq!(as_f64(buckets[3]), 3.375);
}

#[test]
fn test_exponential_buckets_large_factor() {
    let buckets = exponential_buckets(fx(1.0), fx(10.0), 3);
    assert_eq!(floats(&buckets), vec![1.0, 10.0, 100.0]);
}

#[test]
fn test_exponential_buckets_with_validation() {
    let buckets = exponential_buckets(fx(100.0), fx(2.0), 8);
    assert_eq!(validate_histogram_buckets(&buckets), Ok(()));
}

#[test]
fn test_exponential_buckets_growth_rate() {
    let buckets = exponential_buckets(fx(2.0), fx(3.0), 5);
    for i in 1..5 {
        let ratio = as_f64(buckets[i]) / as_f64(buckets[i - 1]);
        assert!(
            within_epsilon(ratio, 3.0),
            "Growth factor should be 3.0, got {}",
            ratio
        );
    }
}

#[test]
fn test_linear_buckets_integration() {
    let mut hist = Histogram::new(linear_buckets(fx(0.1), fx(0.1), 5));

    hist.observe(LabelSet::empty(), fx(0.15));
    hist.observe(LabelSet::empty(), fx(0.25));
    hist.observe(LabelSet::empty(), fx(0.45));

    let data = hist.get(&LabelSet::empty()).unwrap();
    assert_eq!(data.count, 3);
    assert!(within_epsilon(sum_f64(data.sum), 0.85));
    assert_eq!(data.counts[0], 0);
    assert_eq!(data.counts[1], 1);
    assert_eq!(data.counts[2], 1);
    assert_eq!(data.counts[3], 0);
    assert_eq!(data.counts[4], 1);
}

#[test]
fn test_exponential_buckets_integration() {
    let mut hist = Histogram::new(exponential_buckets(fx(1.0), fx(2.0), 5));

    hist.observe(LabelSet::empty(), fx(0.5));
    hist.observe(LabelSet::empty(), fx(1.5));
    hist.observe(LabelSet::empty(), fx(3.0));
    hist.observe(LabelSet::empty(), fx(7.0));

    let data = hist.get(&LabelSet::empty()).unwrap();
    assert_eq!(data.count, 4);
    assert_eq!(sum_f64(data.sum), 12.0);
    assert_eq!(data.counts[0], 1);
    assert_eq!(data.counts[1], 1);
    assert_eq!(data.counts[2], 1);
    assert_eq!(data.counts[3], 1);
    assert_eq!(data.counts[4], 0);
}

#[test]
fn test_linear_buckets_in_macro() {
    let buckets = linear_buckets(fx(0.1), fx(0.1), 5);
    assert_eq!(validate_histogram_buckets(&buckets), Ok(()));
    let mut hist = Histogram::new(buckets);
    hist.observe(LabelSet::empty(), fx(0.15));
    hist.observe(LabelSet::empty(), fx(0.35));

    let data = hist.get(&LabelSet::empty()).unwrap();
    assert_eq!(data.count, 2);
    assert_eq!(data.counts[0], 0);
    assert_eq!(data.counts[1], 1);
    assert_eq!(data.counts[2], 0);
    assert_eq!(data.counts[3], 1);
    assert_eq!(data.counts[4], 0);
}

#[test]
fn test_exponential_buckets_in_macro() {
    let buckets = exponential_buckets(fx(1.0), fx(2.0), 5);
    assert_eq!(validate_histogram_buckets(&buckets), Ok(()));
    let mut hist = Histogram::new(buckets);
    hist.observe(LabelSet::empty(), fx(0.5));
    hist.observe(LabelSet::empty(), fx(1.5));
    hist.observe(LabelSet::empty(), fx(3.0));

    let data = hist.get(&LabelSet::empty()).unwrap();
    assert_eq!(data.count, 3);
    assert_eq!(data.counts[0], 1);
    assert_eq!(data.counts[1], 1);
    assert_eq!(data.counts[2], 1);
}

#[test]
fn test_array_literal_still_works() {
    let buckets = vec![fx(0.1), fx(0.5), fx(1.0)];
    assert_eq!(validate_histogram_buckets(&buckets), Ok(()));
    let mut hist = Histogram::new(buckets);
    hist.observe(LabelSet::empty(), fx(0.25));

    let data = hist.get(&LabelSet::empty()).unwrap();
    assert_eq!(data.count, 1);
}

#[test]
fn validate_rejects_descending_and_equal_boundaries() {
    assert_eq!(
        validate_histogram_buckets(&[fx(1.0), fx(0.5), fx(2.0)]),
        Err(BucketOrderError { index: 1 })
    );
    assert_eq!(
        validate_histogram_buckets(&[fx(0.1), fx(0.5), fx(0.5)]),
        Err(BucketOrderError { index: 2 })
    );
    assert_eq!(validate_histogram_buckets(&[]), Ok(()));
    assert_eq!(validate_histogram_buckets(&[fx(3.0)]), Ok(()));
}

#[test]
fn linear_buckets_exact_values() {
    let buckets = linear_buckets(fx(0.1), fx(0.1), 5);
    let nanos: Vec<i64> = buckets.iter().map(|b| b.nanos).collect();
    assert_eq!(nanos, vec![100_000_000, 200_000_000, 300_000_000, 400_000_000, 500_000_000]);
    assert!(linear_buckets(fx(1.0), fx(1.0), 0).is_empty());
}

#[test]
fn linear_buckets_negative_width() {
    let buckets = linear_buckets(fx(1.0), fx(-0.25), 3);
    assert_eq!(floats(&buckets), vec![1.0, 0.75, 0.5]);
}

#[test]
fn exponential_buckets_truncate_below_nine_digits() {
    let buckets = exponential_buckets(Fixed { nanos: 1 }, fx(0.5), 2);
    assert_eq!(buckets[0].nanos, 1);
    assert_eq!(buckets[1].nanos, 0);
    let buckets = exponential_buckets(fx(-1.0), fx(2.0), 3);
    assert_eq!(floats(&buckets), vec![-1.0, -2.0, -4.0]);
}

#[test]
fn fixed_construction_and_text() {
    assert_eq!(Fixed::new(15, 2), Some(Fixed { nanos: 150_000_000 }));
    assert_eq!(Fixed::new(-3375, 3), Some(Fixed { nanos: -3_375_000_000 }));
    assert_eq!(Fixed::new(1, 10), None);
    assert_eq!(Fixed::new(i64::MAX, 0), None);
    assert_eq!(Fixed::whole(7), Some(Fixed { nanos: 7_000_000_000 }));
    assert_eq!(Fixed::whole(i64::MAX / 1_000_000_000 + 1), None);
    assert_eq!(fx(1.0).to_text(), "1");
    assert_eq!(fx(0.56).to_text(), "0.56");
    assert_eq!(fx(-2.25).to_text(), "-2.25");
    assert_eq!(fx(0.0).to_text(), "0");
    assert_eq!(Fixed { nanos: 1 }.to_text(), "0.000000001");
    assert_eq!(Fixed { nanos: i64::MIN }.to_text(), "-9223372036.854775808");
    assert_eq!(fx(100.0).to_text(), "100");
}
