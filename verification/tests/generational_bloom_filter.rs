/*!
 * Unit tests for GenerationalBloomFilter, the ring of K plain filters.
 */
use bloom::GenerationalBloomFilter;
use bloom::Rational;

#[test]
/// Test that we can create a new GenerationalBloomFilter using
/// GenerationalBloomFilter::new() and that all getters work and return the
/// expected values
fn generational_bloom_filter_test_new() {
    let bf: GenerationalBloomFilter =
        GenerationalBloomFilter::new(3, Rational::new(1, 20), 2).unwrap();
    assert_eq!(bf.get_expected_inserts(), 3);
    assert_eq!(bf.get_actual_inserts(), 0);
    let r = bf.get_false_positive_rate();
    assert_eq!(r.numerator() as f64 / r.denominator() as f64, 0.05);
    assert!(bf.get_hash_count() > 0);
}

#[test]
/// Test that we can insert a string into a GenerationalBloomFilter
fn generational_bloom_filter_test_insert() {
    let s = "This is a test string"; // Inserted
    let s2 = "This is another string"; // Inserted
    let s3 = "This is a third string"; // Not inserted
    let mut bf: GenerationalBloomFilter =
        GenerationalBloomFilter::new(2, Rational::new(1, 20), 2).unwrap();
    bf.insert(&s);
    bf.insert(&s2);
    assert!(bf.check(&s)); // Included
    assert!(bf.check(&s2)); // Included
    assert!(!bf.check(&s3)); // Not included
}

#[test]
/// Test that the actual_inserts counter works as expected
fn generational_bloom_filter_test_count_actual_inserts() {
    let mut bf: GenerationalBloomFilter =
        GenerationalBloomFilter::new(100, Rational::new(1, 20), 2).unwrap();
    assert_eq!(bf.get_actual_inserts(), 0);
    for i in 1..100 {
        bf.insert(&i.to_string());
        assert_eq!(bf.get_actual_inserts(), i);
    }
}

#[test]
/// Test that check behaves like we expect
fn generational_bloom_filter_test_check() {
    let mut bf: GenerationalBloomFilter =
        GenerationalBloomFilter::new(100, Rational::new(1, 20), 2).unwrap();
    for i in 1..100 {
        bf.insert(&i.to_string());
    }
    for g in 1..100 {
        assert!(bf.check(&g.to_string()));
    }
    let mut false_positives: u64 = 0;
    for h in 101..200 {
        if bf.check(&h.to_string()) {
            false_positives += 1;
        }
    }
    assert!(false_positives < 6); // Slightly more than 5%
}

#[test]
/// Test that we get the expected value for calculating the length of the
/// bit array using the computation:
/// m = ceil(-n*ln(p) / (ln(2)^2))
fn generational_bloom_filter_test_calculate_len() {
    let m: u64 = GenerationalBloomFilter::calculate_len(100, Rational::new(1, 100));
    assert_eq!(m, 959);
    let m2: u64 = GenerationalBloomFilter::calculate_len(1000, Rational::new(1, 1000));
    assert_eq!(m2, 14378);
    let m3: u64 = GenerationalBloomFilter::calculate_len(5, Rational::new(1, 10));
    assert_eq!(m3, 24);
    let m4: u64 = GenerationalBloomFilter::calculate_len(10000, Rational::new(1, 100));
    assert_eq!(m4, 95851);
    let m5: u64 = GenerationalBloomFilter::calculate_len(216553, Rational::new(1, 100));
    assert_eq!(m5, 2075674);
}

#[test]
/// Test that we get the expected value for calculating the number of
/// iterations of hashing we need to perform
/// k = ceil(m/n * ln(2))
fn generational_bloom_filter_test_calculate_hash_count() {
    let k: u64 = GenerationalBloomFilter::calculate_hash_count(100, 959);
    assert_eq!(k, 7);
    let k2: u64 = GenerationalBloomFilter::calculate_hash_count(1000, 14378);
    assert_eq!(k2, 10);
    let k3: u64 = GenerationalBloomFilter::calculate_hash_count(5, 24);
    assert_eq!(k3, 4);
    let k4: u64 = GenerationalBloomFilter::calculate_hash_count(10000, 95851);
    assert_eq!(k4, 7);
    let k5: u64 = GenerationalBloomFilter::calculate_hash_count(216553, 2075674);
    assert_eq!(k5, 7);
}

#[test]
#[should_panic]
/// Test that we can't pass zero as the expected_inserts value
fn generational_bloom_filter_test_invalid_inserts() {
    #[allow(unused_variables)]
    let bf: GenerationalBloomFilter =
        GenerationalBloomFilter::new(0, Rational::new(1, 1000), 2).unwrap();
}

#[test]
#[should_panic]
/// Test that we can't pass 0% as the desired false positive rate
fn generational_bloom_filter_test_invalid_fpr_zero() {
    #[allow(unused_variables)]
    let bf: GenerationalBloomFilter =
        GenerationalBloomFilter::new(1, Rational::new(0, 1), 2).unwrap();
}

#[test]
#[should_panic]
/// Test that we can't pass a non-positive ratio as the desired false
/// positive rate
fn generational_bloom_filter_test_invalid_fpr_negative() {
    #[allow(unused_variables)]
    let bf: GenerationalBloomFilter =
        GenerationalBloomFilter::new(1, Rational::new(0, 100), 2).unwrap();
}
