/*!
 * Implements a murmur3-based scope decay bloom filter:
 *      ScopeDecayBloomFilter -- a scope decay bloom filter, supporting
 *                               gradual resetting of bits over time. Once
 *                               the insert volume exceeds the sizing
 *                               target, each further insert first clears a
 *                               configured fraction of the array at
 *                               positions drawn at random, approximating
 *                               aging without per-item bookkeeping.
 */
use crate::bloom::bit_array::all_clear;
use crate::bloom::bit_array::bits_of;
use crate::bloom::bit_array::bv_fill;
use crate::bloom::bit_array::bv_from_elem;
use crate::bloom::bit_array::bv_get;
use crate::bloom::bit_array::bv_none;
use crate::bloom::bit_array::bv_set;
use crate::bloom::bit_array::cleared_at;
use crate::bloom::bit_array::count_set;
use crate::bloom::bit_array::lemma_cleared_at_count;
use crate::bloom::bit_array::lemma_count_set_take_all;
use crate::bloom::bit_array::lemma_count_set_take_step;
use crate::bloom::hashing::bit_index;
use crate::bloom::hashing::check_item_bits;
use crate::bloom::hashing::hash_index;
use crate::bloom::hashing::is_member;
use crate::bloom::hashing::lemma_with_hits_is_member;
use crate::bloom::hashing::set_item_bits;
use crate::bloom::hashing::with_hits;
use crate::bloom::params::derive_array_length;
use crate::bloom::params::derive_hash_count;
use crate::bloom::params::spec_array_length;
use crate::bloom::params::spec_hash_count;
use crate::bloom::params::FilterError;
use crate::bloom::params::InvalidParam;
use crate::bloom::params::Rational;
use vstd::prelude::*;

verus! {

/// Relies on rand's thread_rng, Uniform::from and Distribution::sample: one
/// uniform draw from the half-open range [lo, hi). Nothing more is promised
/// of the value, since it depends on the generator's state.
#[verifier::external_body]
fn draw_index(lo: u64, hi: u64) -> (r: u64)
    requires
        lo < hi,
    ensures
        lo <= r < hi,
{
    let mut rng = rand::thread_rng();
    let die = rand::distributions::Uniform::from(lo..hi);
    rand::distributions::Distribution::sample(&die, &mut rng)
}

/// How many positions one decay event clears:
/// `floor(bitResetRate * arrayLength)`.
pub open spec fn spec_decay_bits(rate: Rational, len: u64) -> int {
    rate.num as int * len as int / rate.den as int
}

/// A valid choice of decay positions: exactly `nbits` distinct slots of the
/// array.
pub open spec fn valid_positions(ps: Seq<u64>, nbits: int, len: u64) -> bool {
    &&& ps.len() == nbits
    &&& ps.no_duplicates()
    &&& forall|k: int| 0 <= k < ps.len() ==> ps[k] < len
}

/// What one decay event does to the bit array: nothing when the array is
/// already entirely clear; otherwise exactly `nbits` distinct positions,
/// chosen at random, are cleared and every other slot keeps its value.
pub open spec fn decay_rel(pre: Seq<bool>, post: Seq<bool>, nbits: int, len: u64) -> bool {
    if all_clear(pre) {
        post == pre
    } else {
        exists|ps: Seq<u64>| #[trigger]
            valid_positions(ps, nbits, len) && post == cleared_at(pre, ps)
    }
}

/// ScopeDecayBloomFilter
///     * bit_arr:             Bit array
///     * len:                 Length of bit array
///     * hash_count:          Hash count
///     * false_positive_rate: False positive rate
///     * bit_reset_rate:      Bit reset rate
///     * expected_inserts:    Expected inserts
///     * actual_inserts:      Actual inserts
pub struct ScopeDecayBloomFilter {
    pub bit_arr: bit_vec::BitVec,
    pub len: u64,
    pub hash_count: u64,
    pub false_positive_rate: Rational,
    pub bit_reset_rate: Rational,
    pub expected_inserts: u64,
    pub actual_inserts: u64,
}

impl ScopeDecayBloomFilter {
    /// The boolean contents of the filter's storage.
    pub open spec fn bits(self) -> Seq<bool> {
        bits_of(self.bit_arr)
    }

    /// Construction-time invariant.
    pub open spec fn wf(self) -> bool {
        &&& self.bits().len() == self.len
        &&& 1 <= self.len <= usize::MAX
        &&& 1 <= self.hash_count
        &&& self.false_positive_rate.in_open_unit()
        &&& self.bit_reset_rate.in_closed_unit()
        &&& 1 <= self.expected_inserts
        &&& self.len == spec_array_length(
            self.expected_inserts as int,
            self.false_positive_rate.num as int,
            self.false_positive_rate.den as int,
        )
        &&& self.hash_count == spec_hash_count(self.expected_inserts as int, self.len as int)
    }

    /// Two filters agree on every configured and derived parameter.
    pub open spec fn same_config(self, other: ScopeDecayBloomFilter) -> bool {
        &&& self.len == other.len
        &&& self.hash_count == other.hash_count
        &&& self.false_positive_rate == other.false_positive_rate
        &&& self.bit_reset_rate == other.bit_reset_rate
        &&& self.expected_inserts == other.expected_inserts
    }

    /// The state that construction and `empty` leave behind.
    pub open spec fn is_reset(self) -> bool {
        &&& self.wf()
        &&& all_clear(self.bits())
        &&& self.actual_inserts == 0
    }

    /// Getter for the hashing iteration count (hash_count)
    pub fn get_hash_count(&self) -> (r: u64)
        ensures
            r == self.hash_count,
    {
        self.hash_count
    }

    /// Getter for the false positive rate (false_positive_rate)
    pub fn get_false_positive_rate(&self) -> (r: Rational)
        ensures
            r == self.false_positive_rate,
    {
        self.false_positive_rate
    }

    /// Getter for the bit reset rate (bit_reset_rate)
    pub fn get_bit_reset_rate(&self) -> (r: Rational)
        ensures
            r == self.bit_reset_rate,
    {
        self.bit_reset_rate
    }

    /// Getter for the expected number of inserts (expected_inserts)
    pub fn get_expected_inserts(&self) -> (r: u64)
        ensures
            r == self.expected_inserts,
    {
        self.expected_inserts
    }

    /// Getter for the current number of inserts performed (actual_inserts)
    pub fn get_actual_inserts(&self) -> (r: u64)
        ensures
            r == self.actual_inserts,
    {
        self.actual_inserts
    }

    /// Given a desired false positive rate, calculate the length of the bit
    /// array required: `m = ceil(-n * ln(p) / ln(2)^2)`.
    pub fn calculate_len(expected_inserts: u64, false_positive_rate: Rational) -> (r: u64)
        requires
            1 <= expected_inserts,
            false_positive_rate.in_open_unit(),
        ensures
            r == spec_array_length(
                expected_inserts as int,
                false_positive_rate.num as int,
                false_positive_rate.den as int,
            ),
            1 <= r <= usize::MAX,
    {
        derive_array_length(expected_inserts, false_positive_rate)
    }

    /// Calculate the number of hashes required: `k = ceil(m / n * ln(2))`.
    pub fn calculate_hash_count(expected_inserts: u64, len: u64) -> (r: u64)
        requires
            1 <= expected_inserts,
            1 <= len,
        ensures
            r == spec_hash_count(expected_inserts as int, len as int),
            1 <= r,
    {
        derive_hash_count(expected_inserts, len)
    }

    /// Return a single usize value, representing an index to be marked or
    /// checked.
    pub fn get_hash_index(i: u32, item: &str, len: u64) -> (r: usize)
        requires
            1 <= len <= usize::MAX,
        ensures
            r == bit_index(item@, i, len),
            r < len,
    {
        hash_index(i, item, len)
    }

    /// Create a new ScopeDecayBloomFilter.
    pub fn new(expected_inserts: u64, false_positive_rate: Rational, bit_reset_rate: Rational) -> (r:
        Result<ScopeDecayBloomFilter, FilterError>)
        ensures
            !false_positive_rate.in_open_unit() ==> r == Err::<ScopeDecayBloomFilter, FilterError>(
                FilterError::InvalidParameter(InvalidParam::FalsePositiveRate),
            ),
            false_positive_rate.in_open_unit() && expected_inserts < 1 ==> r == Err::<
                ScopeDecayBloomFilter,
                FilterError,
            >(FilterError::InvalidParameter(InvalidParam::ExpectedInserts)),
            false_positive_rate.in_open_unit() && 1 <= expected_inserts
                && !bit_reset_rate.in_closed_unit() ==> r == Err::<
                ScopeDecayBloomFilter,
                FilterError,
            >(FilterError::InvalidParameter(InvalidParam::BitResetRate)),
            false_positive_rate.in_open_unit() && 1 <= expected_inserts
                && bit_reset_rate.in_closed_unit() ==> {
                &&& r is Ok
                &&& r->Ok_0.is_reset()
                &&& r->Ok_0.expected_inserts == expected_inserts
                &&& r->Ok_0.false_positive_rate == false_positive_rate
                &&& r->Ok_0.bit_reset_rate == bit_reset_rate
            },
    {
        if false_positive_rate.num < 1 || false_positive_rate.num >= false_positive_rate.den {
            return Err(FilterError::InvalidParameter(InvalidParam::FalsePositiveRate));
        }
        if expected_inserts < 1 {
            return Err(FilterError::InvalidParameter(InvalidParam::ExpectedInserts));
        }
        if bit_reset_rate.den < 1 || bit_reset_rate.num > bit_reset_rate.den {
            return Err(FilterError::InvalidParameter(InvalidParam::BitResetRate));
        }
        let len: u64 = derive_array_length(expected_inserts, false_positive_rate);
        let hash_count: u64 = derive_hash_count(expected_inserts, len);
        Ok(
            ScopeDecayBloomFilter {
                bit_arr: bv_from_elem(len as usize, false),
                len,
                hash_count,
                false_positive_rate,
                bit_reset_rate,
                expected_inserts,
                actual_inserts: 0,
            },
        )
    }

    /// Clear `nbits` distinct positions of the bit array, chosen uniformly
    /// at random without replacement: a partial shuffle of the index pool
    /// guarantees the positions are distinct.
    fn decay_nbits(&mut self, nbits: u64)
        requires
            old(self).wf(),
            nbits <= old(self).len,
        ensures
            final(self).wf(),
            final(self).same_config(*old(self)),
            final(self).actual_inserts == old(self).actual_inserts,
            exists|ps: Seq<u64>| #[trigger]
                valid_positions(ps, nbits as int, old(self).len) && final(self).bits()
                    == cleared_at(old(self).bits(), ps),
    {
        let ghost pre = self.bits();
        let mut pool: Vec<u64> = Vec::new();
        let mut c: u64 = 0;
        while c < self.len
            invariant
                c <= self.len,
                pool@.len() == c,
                forall|k: int| 0 <= k < c ==> pool@[k] == k,
            decreases self.len - c,
        {
            pool.push(c);
            c = c + 1;
        }
        proof {
            assert(pool@.no_duplicates());
        }
        let mut d: u64 = 0;
        while d < nbits
            invariant
                self.wf(),
                self.same_config(*old(self)),
                self.actual_inserts == old(self).actual_inserts,
                pre.len() == self.len,
                d <= nbits <= self.len,
                pool@.len() == self.len,
                pool@.no_duplicates(),
                forall|k: int| 0 <= k < pool@.len() ==> pool@[k] < self.len,
                self.bits() == cleared_at(pre, pool@.take(d as int)),
            decreases nbits - d,
        {
            let j = draw_index(d, self.len);
            let ghost oldpool = pool@;
            let a: u64 = pool[d as usize];
            let b: u64 = pool[j as usize];
            pool[d as usize] = b;
            pool[j as usize] = a;
            proof {
                assert(pool@ =~= oldpool.update(d as int, b).update(j as int, a));
                assert forall|k1: int, k2: int|
                    0 <= k1 < pool@.len() && 0 <= k2 < pool@.len() && k1 != k2 implies pool@[k1]
                    != pool@[k2] by {
                    if k1 == d as int || k1 == j as int || k2 == d as int || k2 == j as int {
                        assert(oldpool[d as int] == a && oldpool[j as int] == b);
                    }
                }
                assert(pool@.take(d as int) =~= oldpool.take(d as int));
            }
            let target: u64 = b;
            let ghost mid = self.bits();
            bv_set(&mut self.bit_arr, target as usize, false);
            proof {
                let taken = pool@.take(d as int + 1);
                assert(taken.drop_last() =~= pool@.take(d as int));
                assert(taken.last() == target);
                assert forall|m: int| 0 <= m < self.len implies self.bits()[m] == cleared_at(
                    pre,
                    taken,
                )[m] by {
                    if m == target as int {
                        assert(taken.contains(target)) by {
                            assert(taken[d as int] == target);
                        }
                        assert(self.bits()[m] == false);
                    } else {
                        assert(self.bits()[m] == mid[m]);
                        assert(taken.contains(m as u64) == pool@.take(d as int).contains(m as u64))
                            by {
                            if taken.contains(m as u64) {
                                let k = choose|k: int|
                                    0 <= k < taken.len() && taken[k] == m as u64;
                                assert(k < d as int);
                                assert(pool@.take(d as int)[k] == m as u64);
                            }
                            if pool@.take(d as int).contains(m as u64) {
                                let k = choose|k: int|
                                    0 <= k < d as int && pool@.take(d as int)[k] == m as u64;
                                assert(taken[k] == m as u64);
                            }
                        }
                    }
                }
                assert(self.bits() =~= cleared_at(pre, taken));
            }
            d = d + 1;
        }
        proof {
            let ps = pool@.take(nbits as int);
            assert(ps.no_duplicates()) by {
                assert forall|k1: int, k2: int|
                    0 <= k1 < ps.len() && 0 <= k2 < ps.len() && k1 != k2 implies ps[k1] != ps[k2] by {
                    assert(ps[k1] == pool@[k1] && ps[k2] == pool@[k2]);
                }
            }
            assert(valid_positions(ps, nbits as int, old(self).len));
            assert(final(self).bits() == cleared_at(pre, ps));
        }
    }

    /// Decay using the bit reset rate: clear
    /// `floor(bitResetRate * arrayLength)` distinct random positions, or do
    /// nothing when the array is already entirely clear. The set-bit count
    /// never rises across a decay event.
    pub fn decay(&mut self)
        requires
            old(self).wf(),
        ensures
            final(self).wf(),
            final(self).same_config(*old(self)),
            final(self).actual_inserts == old(self).actual_inserts,
            decay_rel(
                old(self).bits(),
                final(self).bits(),
                spec_decay_bits(old(self).bit_reset_rate, old(self).len),
                old(self).len,
            ),
            count_set(final(self).bits()) <= count_set(old(self).bits()),
    {
        if !bv_none(&self.bit_arr) {
            proof {
                assert(self.bit_reset_rate.num as int * self.len as int / (
                self.bit_reset_rate.den as int) <= self.len as int) by (nonlinear_arith)
                    requires
                        1 <= self.bit_reset_rate.den as int,
                        self.bit_reset_rate.num as int <= self.bit_reset_rate.den as int,
                        0 <= self.len as int,
                ;
                assert(self.bit_reset_rate.num as int * self.len as int <= 0xFFFF_FFFF_FFFF_FFFF
                    * 0xFFFF_FFFF_FFFF_FFFF) by (nonlinear_arith)
                    requires
                        0 <= self.bit_reset_rate.num as int
                            && self.bit_reset_rate.num as int <= 0xFFFF_FFFF_FFFF_FFFF,
                        0 <= self.len as int && self.len as int <= 0xFFFF_FFFF_FFFF_FFFF,
                ;
            }
            let nbits: u64 = ((self.bit_reset_rate.num as u128 * self.len as u128) / (
            self.bit_reset_rate.den as u128)) as u64;
            let ghost pre = self.bits();
            self.decay_nbits(nbits);
            proof {
                let ps = choose|ps: Seq<u64>| #[trigger]
                    valid_positions(
                        ps,
                        nbits as int,
                        old(self).len,
                    ) && final(self).bits() == cleared_at(pre, ps);
                lemma_cleared_at_count(pre, ps);
            }
        }
    }

    /// Insert a new element into the ScopeDecayBloomFilter. Will initiate a
    /// new decay event if the actual inserts exceed the expected inserts;
    /// note the strict comparison: decay starts with the insert immediately
    /// after the sizing target is exceeded, not before.
    pub fn insert(&mut self, item: &str)
        requires
            old(self).wf(),
            old(self).actual_inserts < u64::MAX,
        ensures
            final(self).wf(),
            final(self).same_config(*old(self)),
            final(self).actual_inserts == old(self).actual_inserts + 1,
            old(self).actual_inserts <= old(self).expected_inserts ==> final(self).bits()
                == with_hits(old(self).bits(), item@, old(self).hash_count, old(self).len),
            old(self).actual_inserts > old(self).expected_inserts ==> exists|mid: Seq<bool>|
                #[trigger] decay_rel(
                    old(self).bits(),
                    mid,
                    spec_decay_bits(old(self).bit_reset_rate, old(self).len),
                    old(self).len,
                ) && final(self).bits() == with_hits(
                    mid,
                    item@,
                    old(self).hash_count,
                    old(self).len,
                ),
    {
        if self.actual_inserts > self.expected_inserts {
            self.decay();
        }
        set_item_bits(&mut self.bit_arr, item, self.hash_count, self.len);
        self.actual_inserts = self.actual_inserts + 1;
    }

    /// Check whether an element is probably in the filter or not.
    pub fn check(&self, item: &str) -> (r: bool)
        requires
            self.wf(),
        ensures
            r == is_member(self.bits(), item@, self.hash_count, self.len),
    {
        check_item_bits(&self.bit_arr, item, self.hash_count, self.len)
    }

    /// Count how many slots of the bit array are currently set.
    pub fn count_set_bits(&self) -> (r: u64)
        requires
            self.wf(),
        ensures
            r == count_set(self.bits()),
    {
        let mut cnt: u64 = 0;
        let mut i: u64 = 0;
        while i < self.len
            invariant
                self.wf(),
                i <= self.len,
                cnt <= i,
                cnt == count_set(self.bits().take(i as int)),
            decreases self.len - i,
        {
            proof {
                lemma_count_set_take_step(self.bits(), i as int);
            }
            if bv_get(&self.bit_arr, i as usize) {
                cnt = cnt + 1;
            }
            i = i + 1;
        }
        proof {
            lemma_count_set_take_all(self.bits());
        }
        cnt
    }

    /// Empty out the ScopeDecayBloomFilter.
    pub fn empty(&mut self)
        requires
            old(self).wf(),
        ensures
            final(self).wf(),
            final(self).same_config(*old(self)),
            final(self).is_reset(),
    {
        bv_fill(&mut self.bit_arr, false);
        self.actual_inserts = 0;
    }
}

/// Inserting makes the item immediately discoverable, whether or not the
/// insert triggered a decay first: the marking happens after the decay, so
/// every one of the item's slots is set when the insert returns.
pub proof fn lemma_scope_decay_insert_member(
    pre: ScopeDecayBloomFilter,
    post: ScopeDecayBloomFilter,
    item: Seq<char>,
)
    requires
        pre.wf(),
        post.wf(),
        post.same_config(pre),
        pre.actual_inserts <= pre.expected_inserts ==> post.bits() == with_hits(
            pre.bits(),
            item,
            pre.hash_count,
            pre.len,
        ),
        pre.actual_inserts > pre.expected_inserts ==> exists|mid: Seq<bool>|
            #[trigger] decay_rel(
                pre.bits(),
                mid,
                spec_decay_bits(pre.bit_reset_rate, pre.len),
                pre.len,
            ) && post.bits() == with_hits(mid, item, pre.hash_count, pre.len),
    ensures
        is_member(post.bits(), item, post.hash_count, post.len),
{
    if pre.actual_inserts <= pre.expected_inserts {
        lemma_with_hits_is_member(pre.bits(), item, pre.hash_count, pre.len);
    } else {
        let mid = choose|mid: Seq<bool>|
            #[trigger] decay_rel(
                pre.bits(),
                mid,
                spec_decay_bits(pre.bit_reset_rate, pre.len),
                pre.len,
            ) && post.bits() == with_hits(mid, item, pre.hash_count, pre.len);
        assert(mid.len() == post.bits().len());
        lemma_with_hits_is_member(mid, item, pre.hash_count, pre.len);
    }
}

/// Emptying is idempotent: the reset state is determined by the
/// configuration alone.
pub proof fn lemma_scope_decay_empty_idempotent(
    once: ScopeDecayBloomFilter,
    twice: ScopeDecayBloomFilter,
)
    requires
        once.is_reset(),
        twice.is_reset(),
        once.same_config(twice),
    ensures
        once.bits() =~= twice.bits(),
        once.actual_inserts == twice.actual_inserts,
{
}

/// After `empty`, no item checks true: an all-clear array has no members.
pub proof fn lemma_scope_decay_reset_not_member(filter: ScopeDecayBloomFilter, item: Seq<char>)
    requires
        filter.is_reset(),
    ensures
        !is_member(filter.bits(), item, filter.hash_count, filter.len),
{
    crate::bloom::hashing::lemma_clear_not_member(
        filter.bits(),
        item,
        filter.hash_count,
        filter.len,
    );
}

/// Decay clears exactly its chosen distinct positions: every listed slot is
/// clear afterwards, every other slot keeps its value. Together with the
/// count bound on `decay`, this is the provable half of decay
/// monotonicity; a strict drop in the set-bit count additionally needs a
/// set bit among the drawn positions.
pub proof fn lemma_decay_positions(pre: Seq<bool>, ps: Seq<u64>)
    ensures
        forall|k: int|
            0 <= k < ps.len() && ps[k] < pre.len() ==> !cleared_at(pre, ps)[#[trigger] ps[k] as int],
        forall|j: int|
            0 <= j < pre.len() && !ps.contains(j as u64) ==> cleared_at(pre, ps)[j] == pre[j],
{
    assert forall|k: int| 0 <= k < ps.len() && ps[k] < pre.len() implies !cleared_at(
        pre,
        ps,
    )[#[trigger] ps[k] as int] by {
        assert(ps.contains(ps[k]));
    }
}

} // verus!
