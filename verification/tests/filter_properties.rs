/*!
 * Behavioral tests across the filter family: deletion semantics, decay
 * accounting, generational windowing, reset idempotence, and the error
 * variants.
 */
use bloom::BloomFilter;
use bloom::CountingBloomFilter;
use bloom::FilterError;
use bloom::GenerationalBloomFilter;
use bloom::InvalidParam;
use bloom::Rational;
use bloom::ScopeDecayBloomFilter;

#[test]
/// Deleting an item that does not pass the membership check is a no-op:
/// everything previously inserted stays present.
fn test_delete_nonmember_noop() {
    let mut bf = CountingBloomFilter::new(100, Rational::new(1, 100)).unwrap();
    for i in 0..50 {
        bf.insert(&i.to_string());
    }
    // Hunt for an item that is not (even falsely) reported present.
    let mut absent = None;
    for c in 0..1000 {
        let w = format!("candidate-{}", c);
        if !bf.check(&w) {
            absent = Some(w);
            break;
        }
    }
    let w = absent.expect("some probe should miss");
    assert!(bf.delete(&w).is_ok());
    for i in 0..50 {
        assert!(bf.check(&i.to_string()));
    }
}

#[test]
/// A delete exactly undoes the insert that preceded it: on an otherwise
/// empty filter, insert(x) then delete(x) leaves every counter at zero, so
/// check(x) is false again with certainty.
fn test_insert_delete_roundtrip() {
    let mut bf = CountingBloomFilter::new(100, Rational::new(1, 100)).unwrap();
    let x = "short lived item";
    bf.insert(&x);
    assert!(bf.check(&x));
    assert!(bf.delete(&x).is_ok());
    assert!(!bf.check(&x));
}

#[test]
/// Deleting an item whose presence is a false positive can drive a counter
/// below zero; the filter reports corruption and leaves its counters
/// untouched instead of wrapping.
fn test_delete_counter_corruption() {
    // A tiny filter (15 slots, 10 hash iterations) makes false positives
    // and within-item slot collisions common, so some never-inserted probe
    // both passes the check and asks for a deeper decrement than the slots
    // hold.
    let mut found = false;
    'outer: for seed in 0..200 {
        let mut bf = CountingBloomFilter::new(1, Rational::new(1, 1000)).unwrap();
        bf.insert(&format!("anchor-{}", seed));
        bf.insert(&format!("anchor-{}-b", seed));
        for c in 0..500 {
            let w = format!("probe-{}-{}", seed, c);
            if bf.check(&w) {
                if bf.delete(&w) == Err(FilterError::CounterCorruption) {
                    found = true;
                    break 'outer;
                }
            }
        }
    }
    assert!(found);
}

#[test]
/// Deleting one inserted item never disturbs the others: every slot keeps
/// at least the counts that the surviving items contributed.
fn test_delete_keeps_others() {
    let mut bf = CountingBloomFilter::new(100, Rational::new(1, 100)).unwrap();
    for i in 0..50 {
        bf.insert(&i.to_string());
    }
    assert!(bf.delete(&25.to_string()).is_ok());
    for i in 0..50 {
        if i != 25 {
            assert!(bf.check(&i.to_string()));
        }
    }
}

#[test]
/// A decay with a bit reset rate of one clears the whole array in one
/// event: every position is drawn, so nothing survives.
fn test_decay_full_rate() {
    let mut bf = ScopeDecayBloomFilter::new(100, Rational::new(1, 100), Rational::new(1, 1)).unwrap();
    for i in 0..100 {
        bf.insert(&i.to_string());
    }
    assert!(bf.count_set_bits() > 0);
    bf.decay();
    assert_eq!(bf.count_set_bits(), 0);
    for i in 0..100 {
        assert!(!bf.check(&i.to_string()));
    }
}

#[test]
/// Decay on an entirely clear array is a no-op.
fn test_decay_on_clear_array() {
    let mut bf = ScopeDecayBloomFilter::new(100, Rational::new(1, 100), Rational::new(1, 10)).unwrap();
    assert_eq!(bf.count_set_bits(), 0);
    bf.decay();
    assert_eq!(bf.count_set_bits(), 0);
    assert_eq!(bf.get_actual_inserts(), 0);
}

#[test]
/// Generational windowing: with two generations sized for 100 inserts,
/// 199 sequentially-numbered items all stay discoverable; pushing on to 300
/// forces a recycle, after which the oldest hundred are no longer reliably
/// discoverable while the recent window still is.
fn test_generational_windowing() {
    let mut bf = GenerationalBloomFilter::new(100, Rational::new(1, 1000), 2).unwrap();
    for i in 0..199 {
        bf.insert(&i.to_string());
    }
    for i in 0..199 {
        assert!(bf.check(&i.to_string()));
    }
    for i in 199..300 {
        bf.insert(&i.to_string());
    }
    // The most recent two hundred items span the live generations.
    for i in 100..300 {
        assert!(bf.check(&i.to_string()));
    }
    // The first hundred were recycled away: only false positives remain.
    let mut stale_hits: u64 = 0;
    for i in 0..100 {
        if bf.check(&i.to_string()) {
            stale_hits += 1;
        }
    }
    assert!(stale_hits < 5);
}

#[test]
/// Emptying twice is the same as emptying once: the counter stays at zero
/// and every previously inserted item stays absent.
fn test_empty_idempotent() {
    let mut bf = BloomFilter::new(100, Rational::new(1, 20)).unwrap();
    for i in 0..100 {
        bf.insert(&i.to_string());
    }
    bf.empty();
    assert_eq!(bf.get_actual_inserts(), 0);
    for i in 0..100 {
        assert!(!bf.check(&i.to_string()));
    }
    bf.empty();
    assert_eq!(bf.get_actual_inserts(), 0);
    for i in 0..100 {
        assert!(!bf.check(&i.to_string()));
    }
}

#[test]
/// Each rejected constructor argument is reported by name.
fn test_invalid_parameter_variants() {
    assert_eq!(
        BloomFilter::new(10, Rational::new(0, 100)).err(),
        Some(FilterError::InvalidParameter(InvalidParam::FalsePositiveRate))
    );
    assert_eq!(
        BloomFilter::new(10, Rational::new(3, 2)).err(),
        Some(FilterError::InvalidParameter(InvalidParam::FalsePositiveRate))
    );
    assert_eq!(
        BloomFilter::new(0, Rational::new(1, 100)).err(),
        Some(FilterError::InvalidParameter(InvalidParam::ExpectedInserts))
    );
    assert_eq!(
        ScopeDecayBloomFilter::new(10, Rational::new(1, 100), Rational::new(3, 2)).err(),
        Some(FilterError::InvalidParameter(InvalidParam::BitResetRate))
    );
    assert_eq!(
        GenerationalBloomFilter::new(10, Rational::new(1, 100), 1).err(),
        Some(FilterError::InvalidParameter(InvalidParam::NumGenerations))
    );
}

#[test]
/// The decay filter starts decaying only once the insert volume strictly
/// exceeds the sizing target, and inserted items stay discoverable right
/// after their own insert even when that insert triggered a decay.
fn test_decay_trigger_is_strict() {
    let mut bf = ScopeDecayBloomFilter::new(10, Rational::new(1, 100), Rational::new(1, 1)).unwrap();
    // Up to and including the target plus one, no decay has fired yet.
    for i in 0..11 {
        bf.insert(&i.to_string());
    }
    for i in 0..11 {
        assert!(bf.check(&i.to_string()));
    }
    // The twelfth insert finds actual > expected and decays first; with a
    // full reset rate the previous contents vanish, the new item stays.
    bf.insert(&"fresh".to_string());
    assert!(bf.check(&"fresh".to_string()));
}
