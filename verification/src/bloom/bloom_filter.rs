/*!
 * Implements a murmur3-based generic bloom filter:
 *      BloomFilter -- a standard bloom filter, using a bit array
 *                     under-the-hood. Does not support deletion.
 */
use crate::bloom::bit_array::all_clear;
use crate::bloom::bit_array::bits_of;
use crate::bloom::bit_array::bv_fill;
use crate::bloom::bit_array::bv_from_elem;
use crate::bloom::hashing::bit_index;
use crate::bloom::hashing::check_item_bits;
use crate::bloom::hashing::hash_index;
use crate::bloom::hashing::is_member;
use crate::bloom::hashing::lemma_clear_not_member;
use crate::bloom::hashing::set_item_bits;
use crate::bloom::hashing::with_hits;
use crate::bloom::params::derive_array_length;
use crate::bloom::params::derive_hash_count;
use crate::bloom::params::spec_array_length;
use crate::bloom::params::spec_hash_count;
use crate::bloom::params::FilterError;
use crate::bloom::params::InvalidParam;
use crate::bloom::params::Rational;
use vstd::prelude::*;

verus! {

/// BloomFilter struct:
///    * bit_arr:             Bit array
///    * len:                 Length of bit array
///    * hash_count:          Hash count
///    * false_positive_rate: False positive rate
///    * expected_inserts:    Expected inserts
///    * actual_inserts:      Actual inserts
pub struct BloomFilter {
    pub bit_arr: bit_vec::BitVec,
    pub len: u64,
    pub hash_count: u64,
    pub false_positive_rate: Rational,
    pub expected_inserts: u64,
    pub actual_inserts: u64,
}

impl BloomFilter {
    /// The boolean contents of the filter's storage.
    pub open spec fn bits(self) -> Seq<bool> {
        bits_of(self.bit_arr)
    }

    /// Construction-time invariant: the storage length and hash count are
    /// the values derived from the configured parameters, and the bit array
    /// has exactly that length.
    pub open spec fn wf(self) -> bool {
        &&& self.bits().len() == self.len
        &&& 1 <= self.len <= usize::MAX
        &&& 1 <= self.hash_count
        &&& self.false_positive_rate.in_open_unit()
        &&& 1 <= self.expected_inserts
        &&& self.len == spec_array_length(
            self.expected_inserts as int,
            self.false_positive_rate.num as int,
            self.false_positive_rate.den as int,
        )
        &&& self.hash_count == spec_hash_count(self.expected_inserts as int, self.len as int)
    }

    /// Two filters agree on every configured and derived parameter.
    pub open spec fn same_config(self, other: BloomFilter) -> bool {
        &&& self.len == other.len
        &&& self.hash_count == other.hash_count
        &&& self.false_positive_rate == other.false_positive_rate
        &&& self.expected_inserts == other.expected_inserts
    }

    /// The state that construction and `empty` leave behind: a well-formed
    /// filter whose storage is all clear and whose insert counter is zero.
    pub open spec fn is_reset(self) -> bool {
        &&& self.wf()
        &&& all_clear(self.bits())
        &&& self.actual_inserts == 0
    }

    /// Getter for hash_count
    pub fn get_hash_count(&self) -> (r: u64)
        ensures
            r == self.hash_count,
    {
        self.hash_count
    }

    /// Getter for false_positive_rate
    pub fn get_false_positive_rate(&self) -> (r: Rational)
        ensures
            r == self.false_positive_rate,
    {
        self.false_positive_rate
    }

    /// Getter for expected_inserts
    pub fn get_expected_inserts(&self) -> (r: u64)
        ensures
            r == self.expected_inserts,
    {
        self.expected_inserts
    }

    /// Getter for actual_inserts
    pub fn get_actual_inserts(&self) -> (r: u64)
        ensures
            r == self.actual_inserts,
    {
        self.actual_inserts
    }

    /// Given a desired false positive rate, calculate the length of the bit
    /// array required: `m = ceil(-n * ln(p) / ln(2)^2)`.
    pub fn calculate_len(expected_inserts: u64, false_positive_rate: Rational) -> (r: u64)
        requires
            1 <= expected_inserts,
            false_positive_rate.in_open_unit(),
        ensures
            r == spec_array_length(
                expected_inserts as int,
                false_positive_rate.num as int,
                false_positive_rate.den as int,
            ),
            1 <= r <= usize::MAX,
    {
        derive_array_length(expected_inserts, false_positive_rate)
    }

    /// Calculate the number of hashes required: `k = ceil(m / n * ln(2))`.
    pub fn calculate_hash_count(expected_inserts: u64, len: u64) -> (r: u64)
        requires
            1 <= expected_inserts,
            1 <= len,
        ensures
            r == spec_hash_count(expected_inserts as int, len as int),
            1 <= r,
    {
        derive_hash_count(expected_inserts, len)
    }

    /// Return a single usize value, representing an index to be marked or
    /// checked.
    pub fn get_hash_index(i: u32, item: &str, len: u64) -> (r: usize)
        requires
            1 <= len <= usize::MAX,
        ensures
            r == bit_index(item@, i, len),
            r < len,
    {
        hash_index(i, item, len)
    }

    /// Create a new BloomFilter. Construction fails, rather than producing a
    /// partially initialized filter, when the false positive rate lies
    /// outside (0, 1) or the expected insert count is zero.
    pub fn new(expected_inserts: u64, false_positive_rate: Rational) -> (r: Result<
        BloomFilter,
        FilterError,
    >)
        ensures
            !false_positive_rate.in_open_unit() ==> r == Err::<BloomFilter, FilterError>(
                FilterError::InvalidParameter(InvalidParam::FalsePositiveRate),
            ),
            false_positive_rate.in_open_unit() && expected_inserts < 1 ==> r == Err::<
                BloomFilter,
                FilterError,
            >(FilterError::InvalidParameter(InvalidParam::ExpectedInserts)),
            false_positive_rate.in_open_unit() && 1 <= expected_inserts ==> {
                &&& r is Ok
                &&& r->Ok_0.is_reset()
                &&& r->Ok_0.expected_inserts == expected_inserts
                &&& r->Ok_0.false_positive_rate == false_positive_rate
            },
    {
        if false_positive_rate.num < 1 || false_positive_rate.num >= false_positive_rate.den {
            return Err(FilterError::InvalidParameter(InvalidParam::FalsePositiveRate));
        }
        if expected_inserts < 1 {
            return Err(FilterError::InvalidParameter(InvalidParam::ExpectedInserts));
        }
        let len: u64 = derive_array_length(expected_inserts, false_positive_rate);
        let hash_count: u64 = derive_hash_count(expected_inserts, len);
        Ok(
            BloomFilter {
                bit_arr: bv_from_elem(len as usize, false),
                len,
                hash_count,
                false_positive_rate,
                expected_inserts,
                actual_inserts: 0,
            },
        )
    }

    /// Insert a new element into the BloomFilter: set every slot the item
    /// hashes to and count the insert. Saturating the array only degrades
    /// the false positive rate, never errors.
    pub fn insert(&mut self, item: &str)
        requires
            old(self).wf(),
            old(self).actual_inserts < u64::MAX,
        ensures
            final(self).wf(),
            final(self).same_config(*old(self)),
            final(self).bits() == with_hits(
                old(self).bits(),
                item@,
                old(self).hash_count,
                old(self).len,
            ),
            final(self).actual_inserts == old(self).actual_inserts + 1,
    {
        set_item_bits(&mut self.bit_arr, item, self.hash_count, self.len);
        self.actual_inserts = self.actual_inserts + 1;
    }

    /// Check whether an element is probably in the filter or not: true iff
    /// every slot the item hashes to is set.
    pub fn check(&self, item: &str) -> (r: bool)
        requires
            self.wf(),
        ensures
            r == is_member(self.bits(), item@, self.hash_count, self.len),
    {
        check_item_bits(&self.bit_arr, item, self.hash_count, self.len)
    }

    /// Empty out the BloomFilter: clear every bit and reset the insert
    /// counter.
    pub fn empty(&mut self)
        requires
            old(self).wf(),
        ensures
            final(self).wf(),
            final(self).same_config(*old(self)),
            final(self).is_reset(),
    {
        bv_fill(&mut self.bit_arr, false);
        self.actual_inserts = 0;
    }
}

/// Emptying is idempotent: the reset state is determined by the
/// configuration alone, so a second `empty` leaves every observable
/// component of the state exactly where the first put it.
pub proof fn lemma_empty_idempotent(once: BloomFilter, twice: BloomFilter)
    requires
        once.is_reset(),
        twice.is_reset(),
        once.same_config(twice),
    ensures
        once.bits() =~= twice.bits(),
        once.actual_inserts == twice.actual_inserts,
{
}

/// After `empty`, no item checks true: an all-clear array has no members.
pub proof fn lemma_reset_not_member(filter: BloomFilter, item: Seq<char>)
    requires
        filter.is_reset(),
    ensures
        !is_member(filter.bits(), item, filter.hash_count, filter.len),
{
    lemma_clear_not_member(filter.bits(), item, filter.hash_count, filter.len);
}

} // verus!
