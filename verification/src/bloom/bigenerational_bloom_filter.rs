/*!
 * Implements a murmur3-based bigenerational bloom filter:
 *      BigenerationalBloomFilter -- two alternating generations of bloom
 *                                   filters supporting a moving window of
 *                                   data: the ring of the generational
 *                                   variant fixed at K = 2.
 */
use crate::bloom::generational_bloom_filter::GenerationalBloomFilter;
use crate::bloom::params::FilterError;
use crate::bloom::params::InvalidParam;
use crate::bloom::params::Rational;
use vstd::prelude::*;

verus! {

/// A two-generation ring: the oldest generation is recycled when the newer
/// generation becomes full, in a pattern similar to blue-green deployment.
pub struct BigenerationalBloomFilter {
    pub ring: GenerationalBloomFilter,
}

impl BigenerationalBloomFilter {
    /// Construction-time invariant: a well-formed ring of exactly two
    /// generations.
    pub open spec fn wf(self) -> bool {
        &&& self.ring.wf()
        &&& self.ring.num_generations == 2
    }

    /// Getter for hash_count
    pub fn get_hash_count(&self) -> (r: u64)
        ensures
            r == self.ring.hash_count,
    {
        self.ring.get_hash_count()
    }

    /// Getter for false_positive_rate
    pub fn get_false_positive_rate(&self) -> (r: Rational)
        ensures
            r == self.ring.false_positive_rate,
    {
        self.ring.get_false_positive_rate()
    }

    /// Getter for expected_inserts
    pub fn get_expected_inserts(&self) -> (r: u64)
        ensures
            r == self.ring.expected_inserts,
    {
        self.ring.get_expected_inserts()
    }

    /// Getter for actual_inserts
    pub fn get_actual_inserts(&self) -> (r: u64)
        ensures
            r == self.ring.actual_inserts,
    {
        self.ring.get_actual_inserts()
    }

    /// Create a new BigenerationalBloomFilter: a two-generation ring.
    pub fn new(expected_inserts: u64, false_positive_rate: Rational) -> (r: Result<
        BigenerationalBloomFilter,
        FilterError,
    >)
        ensures
            !false_positive_rate.in_open_unit() ==> r == Err::<
                BigenerationalBloomFilter,
                FilterError,
            >(FilterError::InvalidParameter(InvalidParam::FalsePositiveRate)),
            false_positive_rate.in_open_unit() && expected_inserts < 1 ==> r == Err::<
                BigenerationalBloomFilter,
                FilterError,
            >(FilterError::InvalidParameter(InvalidParam::ExpectedInserts)),
            false_positive_rate.in_open_unit() && 1 <= expected_inserts ==> {
                &&& r is Ok
                &&& r->Ok_0.wf()
                &&& r->Ok_0.ring.is_reset()
                &&& r->Ok_0.ring.expected_inserts == expected_inserts
                &&& r->Ok_0.ring.false_positive_rate == false_positive_rate
            },
    {
        match GenerationalBloomFilter::new(expected_inserts, false_positive_rate, 2) {
            Ok(ring) => Ok(BigenerationalBloomFilter { ring }),
            Err(e) => Err(e),
        }
    }

    /// Insert a new element into the current generation, recycling the
    /// older generation first when the current one is full.
    pub fn insert(&mut self, item: &str)
        requires
            old(self).wf(),
        ensures
            final(self).wf(),
            GenerationalBloomFilter::insert_rel(old(self).ring, final(self).ring, item@),
    {
        self.ring.insert(item);
    }

    /// Check whether an element is probably in the filter or not: a logical
    /// OR over both generations.
    pub fn check(&self, item: &str) -> (r: bool)
        requires
            self.wf(),
        ensures
            r == self.ring.ring_member(item@),
    {
        self.ring.check(item)
    }

    /// Empty out the entire data structure (ie both generations).
    pub fn empty(&mut self)
        requires
            old(self).wf(),
        ensures
            final(self).wf(),
            final(self).ring.is_reset(),
            final(self).ring.same_config(old(self).ring),
    {
        self.ring.empty();
    }
}

} // verus!
