/*!
 * Integration tests for CountingBloomFilter.
 */
use bloom::bloom::CountingBloomFilter;
use bloom::Rational;

#[test]
/// Test that the getter for hash_count is visible from outside the crate
fn test_counting_bloom_filter_test_get_hash_count() {
    let bf: CountingBloomFilter = CountingBloomFilter::new(10000, Rational::new(1, 100)).unwrap();
    assert!(bf.get_hash_count() > 0);
}

#[test]
/// Test that the getter for false_positive_rate is visible from outside the
/// crate
fn test_counting_bloom_filter_test_get_false_positive_rate() {
    let bf: CountingBloomFilter = CountingBloomFilter::new(10000, Rational::new(1, 100)).unwrap();
    let r = bf.get_false_positive_rate();
    assert_eq!(r.numerator() as f64 / r.denominator() as f64, 0.01);
}

#[test]
/// Test that the getter for expected_inserts is visible from outside the
/// crate
fn test_counting_bloom_filter_test_get_expected_inserts() {
    let bf: CountingBloomFilter = CountingBloomFilter::new(10000, Rational::new(1, 100)).unwrap();
    assert_eq!(bf.get_expected_inserts(), 10000);
}

#[test]
/// Test that the getter for actual_inserts is visible from outside the crate
fn test_counting_bloom_filter_test_get_actual_inserts() {
    let bf: CountingBloomFilter = CountingBloomFilter::new(10000, Rational::new(1, 100)).unwrap();
    assert_eq!(bf.get_actual_inserts(), 0);
}

#[test]
/// Ensure that the false positive rate is close to the configured value
fn test_counting_bloom_filter_test_false_positive_rate() {
    let mut bf: CountingBloomFilter =
        CountingBloomFilter::new(10000, Rational::new(1, 100)).unwrap();
    for i in 0..10000 {
        bf.insert(&i.to_string());
    }
    let mut false_positives: u64 = 0;
    for i in 10000..100000 {
        if bf.check(&i.to_string()) {
            false_positives += 1;
        }
    }
    assert!((false_positives as f64) < (90000.0 * 0.011));
}
