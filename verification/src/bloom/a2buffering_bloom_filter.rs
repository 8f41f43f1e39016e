/*!
 * Implements a murmur3-based active-active buffering bloom filter:
 *      A2BufferingBloomFilter -- a segmented (two-generation) bloom filter
 *                                relying on the active-active buffering
 *                                strategy to keep recent elements in the
 *                                current segment: a check that hits only an
 *                                older generation re-inserts the item into
 *                                the current one, so items re-queried before
 *                                they age out survive further recycles. This
 *                                makes `check` a mutating operation, which
 *                                is the documented price of the policy.
 */
use crate::bloom::generational_bloom_filter::GenerationalBloomFilter;
use crate::bloom::hashing::is_member;
use crate::bloom::params::FilterError;
use crate::bloom::params::InvalidParam;
use crate::bloom::params::Rational;
use vstd::prelude::*;

verus! {

/// A two-generation ring whose `check` refreshes items found only in the
/// non-current generation.
pub struct A2BufferingBloomFilter {
    pub ring: GenerationalBloomFilter,
}

impl A2BufferingBloomFilter {
    /// Construction-time invariant: a well-formed ring of exactly two
    /// generations.
    pub open spec fn wf(self) -> bool {
        &&& self.ring.wf()
        &&& self.ring.num_generations == 2
    }

    /// The item checks true in the generation that currently receives
    /// inserts, so a buffering check leaves the filter untouched.
    pub open spec fn in_current_generation(self, item: Seq<char>) -> bool {
        is_member(
            self.ring.gen_bits(self.ring.current_gen as int),
            item,
            self.ring.hash_count,
            self.ring.spec_len(),
        )
    }

    /// Getter for hash_count
    pub fn get_hash_count(&self) -> (r: u64)
        ensures
            r == self.ring.hash_count,
    {
        self.ring.get_hash_count()
    }

    /// Getter for false_positive_rate
    pub fn get_false_positive_rate(&self) -> (r: Rational)
        ensures
            r == self.ring.false_positive_rate,
    {
        self.ring.get_false_positive_rate()
    }

    /// Getter for expected_inserts
    pub fn get_expected_inserts(&self) -> (r: u64)
        ensures
            r == self.ring.expected_inserts,
    {
        self.ring.get_expected_inserts()
    }

    /// Getter for actual_inserts
    pub fn get_actual_inserts(&self) -> (r: u64)
        ensures
            r == self.ring.actual_inserts,
    {
        self.ring.get_actual_inserts()
    }

    /// Create a new A2BufferingBloomFilter: a two-generation ring.
    pub fn new(expected_inserts: u64, false_positive_rate: Rational) -> (r: Result<
        A2BufferingBloomFilter,
        FilterError,
    >)
        ensures
            !false_positive_rate.in_open_unit() ==> r == Err::<A2BufferingBloomFilter, FilterError>(
                FilterError::InvalidParameter(InvalidParam::FalsePositiveRate),
            ),
            false_positive_rate.in_open_unit() && expected_inserts < 1 ==> r == Err::<
                A2BufferingBloomFilter,
                FilterError,
            >(FilterError::InvalidParameter(InvalidParam::ExpectedInserts)),
            false_positive_rate.in_open_unit() && 1 <= expected_inserts ==> {
                &&& r is Ok
                &&& r->Ok_0.wf()
                &&& r->Ok_0.ring.is_reset()
                &&& r->Ok_0.ring.expected_inserts == expected_inserts
                &&& r->Ok_0.ring.false_positive_rate == false_positive_rate
            },
    {
        match GenerationalBloomFilter::new(expected_inserts, false_positive_rate, 2) {
            Ok(ring) => Ok(A2BufferingBloomFilter { ring }),
            Err(e) => Err(e),
        }
    }

    /// Insert a new element into the current generation, recycling first if
    /// the insert would exceed the generation's sizing target.
    pub fn insert(&mut self, item: &str)
        requires
            old(self).wf(),
        ensures
            final(self).wf(),
            GenerationalBloomFilter::insert_rel(old(self).ring, final(self).ring, item@),
    {
        self.ring.insert(item);
    }

    /// Check whether an element is probably in the filter or not, refreshing
    /// a hit found only in the non-current generation by marking the item in
    /// the current one (the "keep-alive" of active-active buffering), so
    /// that it survives the next recycle. The refresh does not count as an
    /// insert. A miss, or a hit already present in the current generation,
    /// leaves the filter unchanged.
    pub fn check(&mut self, item: &str) -> (r: bool)
        requires
            old(self).wf(),
        ensures
            final(self).wf(),
            r == old(self).ring.ring_member(item@),
            old(self).in_current_generation(item@) ==> *final(self) == *old(self),
            !old(self).ring.ring_member(item@) ==> *final(self) == *old(self),
            old(self).ring.ring_member(item@) && !old(self).in_current_generation(item@)
                ==> GenerationalBloomFilter::refresh_rel(old(self).ring, final(self).ring, item@),
    {
        let cur: usize = self.ring.current_gen;
        let hit_current = {
            let gen = &self.ring.generations[cur];
            gen.check(item)
        };
        if hit_current {
            proof {
                assert(self.ring.generations@[cur as int].hash_count == self.ring.hash_count);
                assert(self.ring.generations@[cur as int].len == self.ring.spec_len());
                assert(is_member(
                    self.ring.gen_bits(cur as int),
                    item@,
                    self.ring.hash_count,
                    self.ring.spec_len(),
                ));
            }
            return true;
        }
        if self.ring.check(item) {
            self.ring.refresh(item);
            return true;
        }
        false
    }

    /// Empty out the entire data structure (ie both generations).
    pub fn empty(&mut self)
        requires
            old(self).wf(),
        ensures
            final(self).wf(),
            final(self).ring.is_reset(),
            final(self).ring.same_config(old(self).ring),
    {
        self.ring.empty();
    }
}

} // verus!
