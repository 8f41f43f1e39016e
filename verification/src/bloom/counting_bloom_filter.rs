/*!
 * Implements a murmur3-based counting bloom filter:
 *      CountingBloomFilter -- a bloom filter which supports deleting items.
 *                             Uses an int-array rather than a bit-array
 *                             under-the-hood.
 */
use crate::bloom::hashing::bit_index;
use crate::bloom::hashing::hash_index;
use crate::bloom::params::derive_array_length;
use crate::bloom::params::derive_hash_count;
use crate::bloom::params::spec_array_length;
use crate::bloom::params::spec_hash_count;
use crate::bloom::params::FilterError;
use crate::bloom::params::InvalidParam;
use crate::bloom::params::Rational;
use vstd::prelude::*;

verus! {

/// How many of the first `bound` hash iterations of `item` land on slot
/// `j`. Distinct iterations may collide on one slot, and each collision
/// counts separately, because every one of them moves that slot's counter.
pub open spec fn hit_count(item: Seq<char>, bound: int, len: u64, j: int) -> nat
    decreases bound,
{
    if bound <= 0 {
        0
    } else {
        hit_count(item, bound - 1, len, j) + if bit_index(item, (bound - 1) as u32, len) == j {
            1nat
        } else {
            0nat
        }
    }
}

/// Addition capped at the counter width.
pub open spec fn sat64(x: int) -> u64 {
    if x > u64::MAX {
        u64::MAX
    } else if x < 0 {
        0
    } else {
        x as u64
    }
}

/// The membership predicate of the counting variant: every slot the item
/// hashes to holds a counter of at least one.
pub open spec fn counters_member(
    counters: Seq<u64>,
    item: Seq<char>,
    hash_count: u64,
    len: u64,
) -> bool {
    forall|s: u32| (s as int) < hash_count ==> counters[bit_index(item, s, len) as int] >= 1
}

/// Every slot holds at least as many counts as the item contributes to it,
/// so a whole-item decrement cannot underflow.
pub open spec fn counters_deletable(
    counters: Seq<u64>,
    item: Seq<char>,
    hash_count: u64,
    len: u64,
) -> bool {
    forall|j: int|
        0 <= j < counters.len() ==> hit_count(item, hash_count as int, len, j) <= counters[j]
}

/// The counter array after inserting `item`: each slot gains the item's
/// contribution, saturating at the counter width.
pub open spec fn counters_after_insert(
    counters: Seq<u64>,
    item: Seq<char>,
    hash_count: u64,
    len: u64,
) -> Seq<u64> {
    Seq::new(
        counters.len(),
        |j: int| sat64(counters[j] + hit_count(item, hash_count as int, len, j)),
    )
}

/// The counter array after deleting `item`: each slot loses the item's
/// contribution.
pub open spec fn counters_after_delete(
    counters: Seq<u64>,
    item: Seq<char>,
    hash_count: u64,
    len: u64,
) -> Seq<u64> {
    Seq::new(
        counters.len(),
        |j: int| (counters[j] - hit_count(item, hash_count as int, len, j)) as u64,
    )
}

/// The working state of a partial delete: the first `bound` hash iterations
/// have been subtracted from the counters without driving any slot below
/// zero.
pub open spec fn delete_partial(
    pre: Seq<u64>,
    work: Seq<u64>,
    item: Seq<char>,
    bound: int,
    len: u64,
) -> bool {
    &&& work.len() == pre.len()
    &&& forall|j: int|
        0 <= j < pre.len() ==> #[trigger] hit_count(item, bound, len, j) <= pre[j]
    &&& forall|j: int|
        0 <= j < pre.len() ==> work[j] == pre[j] - #[trigger] hit_count(item, bound, len, j)
}

/// The per-slot contribution never shrinks as more hash iterations are
/// taken into account.
pub proof fn lemma_hit_count_mono(item: Seq<char>, b1: int, b2: int, len: u64, j: int)
    requires
        b1 <= b2,
    ensures
        hit_count(item, b1, len, j) <= hit_count(item, b2, len, j),
    decreases b2 - b1,
{
    if b1 < b2 {
        lemma_hit_count_mono(item, b1, b2 - 1, len, j);
    }
}

/// Iteration `s` contributes to its own slot: the slot it selects receives
/// at least one count from the first `bound > s` iterations.
pub proof fn lemma_hit_count_positive(item: Seq<char>, bound: int, len: u64, s: u32)
    requires
        (s as int) < bound,
    ensures
        hit_count(item, bound, len, bit_index(item, s, len) as int) >= 1,
{
    let j = bit_index(item, s, len) as int;
    assert(hit_count(item, s as int + 1, len, j) >= 1);
    lemma_hit_count_mono(item, s as int + 1, bound, len, j);
}

/// CountingBloomFilter struct
///    * counters:            Counter vec
///    * len:                 Length of counter array
///    * hash_count:          Hash count
///    * false_positive_rate: False positive rate
///    * expected_inserts:    Expected inserts
///    * actual_inserts:      Actual inserts
pub struct CountingBloomFilter {
    pub counters: Vec<u64>,
    pub len: u64,
    pub hash_count: u64,
    pub false_positive_rate: Rational,
    pub expected_inserts: u64,
    pub actual_inserts: u64,
}

impl CountingBloomFilter {
    /// Construction-time invariant: the storage length and hash count are
    /// the values derived from the configured parameters, and the counter
    /// array has exactly that length.
    pub open spec fn wf(self) -> bool {
        &&& self.counters@.len() == self.len
        &&& 1 <= self.len <= usize::MAX
        &&& 1 <= self.hash_count
        &&& self.false_positive_rate.in_open_unit()
        &&& 1 <= self.expected_inserts
        &&& self.len == spec_array_length(
            self.expected_inserts as int,
            self.false_positive_rate.num as int,
            self.false_positive_rate.den as int,
        )
        &&& self.hash_count == spec_hash_count(self.expected_inserts as int, self.len as int)
    }

    /// Two filters agree on every configured and derived parameter.
    pub open spec fn same_config(self, other: CountingBloomFilter) -> bool {
        &&& self.len == other.len
        &&& self.hash_count == other.hash_count
        &&& self.false_positive_rate == other.false_positive_rate
        &&& self.expected_inserts == other.expected_inserts
    }

    /// The state that construction and `empty` leave behind.
    pub open spec fn is_reset(self) -> bool {
        &&& self.wf()
        &&& (forall|j: int| 0 <= j < self.counters@.len() ==> self.counters@[j] == 0)
        &&& self.actual_inserts == 0
    }

    /// Getter for hash_count
    pub fn get_hash_count(&self) -> (r: u64)
        ensures
            r == self.hash_count,
    {
        self.hash_count
    }

    /// Getter for false_positive_rate
    pub fn get_false_positive_rate(&self) -> (r: Rational)
        ensures
            r == self.false_positive_rate,
    {
        self.false_positive_rate
    }

    /// Getter for expected_inserts
    pub fn get_expected_inserts(&self) -> (r: u64)
        ensures
            r == self.expected_inserts,
    {
        self.expected_inserts
    }

    /// Getter for actual_inserts
    pub fn get_actual_inserts(&self) -> (r: u64)
        ensures
            r == self.actual_inserts,
    {
        self.actual_inserts
    }

    /// Given a desired false positive rate, calculate the length of the
    /// counter vec required: `m = ceil(-n * ln(p) / ln(2)^2)`.
    pub fn calculate_len(expected_inserts: u64, false_positive_rate: Rational) -> (r: u64)
        requires
            1 <= expected_inserts,
            false_positive_rate.in_open_unit(),
        ensures
            r == spec_array_length(
                expected_inserts as int,
                false_positive_rate.num as int,
                false_positive_rate.den as int,
            ),
            1 <= r <= usize::MAX,
    {
        derive_array_length(expected_inserts, false_positive_rate)
    }

    /// Calculate the number of hashes required: `k = ceil(m / n * ln(2))`.
    pub fn calculate_hash_count(expected_inserts: u64, len: u64) -> (r: u64)
        requires
            1 <= expected_inserts,
            1 <= len,
        ensures
            r == spec_hash_count(expected_inserts as int, len as int),
            1 <= r,
    {
        derive_hash_count(expected_inserts, len)
    }

    /// Return a single usize value, representing an index to be marked or
    /// checked.
    pub fn get_hash_index(i: u32, item: &str, len: u64) -> (r: usize)
        requires
            1 <= len <= usize::MAX,
        ensures
            r == bit_index(item@, i, len),
            r < len,
    {
        hash_index(i, item, len)
    }

    /// Create a new CountingBloomFilter.
    pub fn new(expected_inserts: u64, false_positive_rate: Rational) -> (r: Result<
        CountingBloomFilter,
        FilterError,
    >)
        ensures
            !false_positive_rate.in_open_unit() ==> r == Err::<CountingBloomFilter, FilterError>(
                FilterError::InvalidParameter(InvalidParam::FalsePositiveRate),
            ),
            false_positive_rate.in_open_unit() && expected_inserts < 1 ==> r == Err::<
                CountingBloomFilter,
                FilterError,
            >(FilterError::InvalidParameter(InvalidParam::ExpectedInserts)),
            false_positive_rate.in_open_unit() && 1 <= expected_inserts ==> {
                &&& r is Ok
                &&& r->Ok_0.is_reset()
                &&& r->Ok_0.expected_inserts == expected_inserts
                &&& r->Ok_0.false_positive_rate == false_positive_rate
            },
    {
        if false_positive_rate.num < 1 || false_positive_rate.num >= false_positive_rate.den {
            return Err(FilterError::InvalidParameter(InvalidParam::FalsePositiveRate));
        }
        if expected_inserts < 1 {
            return Err(FilterError::InvalidParameter(InvalidParam::ExpectedInserts));
        }
        let len: u64 = derive_array_length(expected_inserts, false_positive_rate);
        let hash_count: u64 = derive_hash_count(expected_inserts, len);
        let counters = zero_counters(len as usize);
        Ok(
            CountingBloomFilter {
                counters,
                len,
                hash_count,
                false_positive_rate,
                expected_inserts,
                actual_inserts: 0,
            },
        )
    }

    /// Insert a new element into the CountingBloomFilter: every slot the
    /// item hashes to gains one count per hash iteration that lands there.
    pub fn insert(&mut self, item: &str)
        requires
            old(self).wf(),
            old(self).actual_inserts < u64::MAX,
        ensures
            final(self).wf(),
            final(self).same_config(*old(self)),
            final(self).counters@ == counters_after_insert(
                old(self).counters@,
                item@,
                old(self).hash_count,
                old(self).len,
            ),
            final(self).actual_inserts == old(self).actual_inserts + 1,
    {
        let ghost pre = self.counters@;
        let ghost hc = self.hash_count;
        let mut i: u64 = 0;
        while i < self.hash_count
            invariant
                self.wf(),
                self.same_config(*old(self)),
                self.actual_inserts == old(self).actual_inserts,
                old(self).actual_inserts < u64::MAX,
                pre.len() == self.len,
                hc == self.hash_count,
                i <= hc,
                forall|j: int|
                    0 <= j < self.len ==> self.counters@[j] == sat64(
                        pre[j] + hit_count(item@, i as int, self.len, j),
                    ),
            decreases hc - i,
        {
            let seed: u32 = #[verifier::truncate] (i as u32);
            let idx = hash_index(seed, item, self.len);
            let ghost mid = self.counters@;
            let cur: u64 = self.counters[idx];
            if cur < u64::MAX {
                self.counters[idx] = cur + 1;
            }
            proof {
                assert(bit_index(item@, (i as int) as u32, self.len) == idx);
                assert forall|j: int| 0 <= j < self.len implies self.counters@[j] == sat64(
                    pre[j] + hit_count(item@, i as int + 1, self.len, j),
                ) by {
                    assert(mid[j] == sat64(pre[j] + hit_count(item@, i as int, self.len, j)));
                    if j == idx as int {
                        assert(hit_count(item@, i as int + 1, self.len, j) == hit_count(
                            item@,
                            i as int,
                            self.len,
                            j,
                        ) + 1);
                    } else {
                        assert(hit_count(item@, i as int + 1, self.len, j) == hit_count(
                            item@,
                            i as int,
                            self.len,
                            j,
                        ));
                        assert(self.counters@[j] == mid[j]);
                    }
                }
            }
            i = i + 1;
        }
        self.actual_inserts = self.actual_inserts + 1;
        proof {
            assert(final(self).counters@ =~= counters_after_insert(pre, item@, hc, self.len));
        }
    }

    /// Check whether an element is probably in the filter or not: true iff
    /// every slot the item hashes to holds a counter of at least one.
    pub fn check(&self, item: &str) -> (r: bool)
        requires
            self.wf(),
        ensures
            r == counters_member(self.counters@, item@, self.hash_count, self.len),
    {
        let mut i: u64 = 0;
        while i < self.hash_count
            invariant
                self.wf(),
                i <= self.hash_count,
                forall|s: u32|
                    (s as int) < i ==> self.counters@[bit_index(item@, s, self.len) as int] >= 1,
            decreases self.hash_count - i,
        {
            let seed: u32 = #[verifier::truncate] (i as u32);
            let idx = hash_index(seed, item, self.len);
            if self.counters[idx] < 1 {
                proof {
                    assert((seed as int) < self.hash_count);
                }
                return false;
            }
            proof {
                assert forall|s: u32| (s as int) < i as int + 1 implies self.counters@[bit_index(
                    item@,
                    s,
                    self.len,
                ) as int] >= 1 by {
                    if s as int == i as int {
                        assert(s == seed);
                    }
                }
            }
            i = i + 1;
        }
        true
    }

    /// An item can only be deleted if it appears it was previously inserted
    /// (e.g. it passes a `check`), BUT obviously this is probabilistic so
    /// `delete` should be used with an abundance of caution. A delete whose
    /// decrements would drive a counter below zero reports corruption and
    /// leaves the filter untouched; any other delete removes exactly the
    /// item's contribution.
    pub fn delete(&mut self, item: &str) -> (r: Result<(), FilterError>)
        requires
            old(self).wf(),
        ensures
            final(self).wf(),
            final(self).same_config(*old(self)),
            final(self).actual_inserts == old(self).actual_inserts,
            !counters_member(old(self).counters@, item@, old(self).hash_count, old(self).len)
                ==> r is Ok && final(self).counters@ == old(self).counters@,
            counters_member(old(self).counters@, item@, old(self).hash_count, old(self).len)
                && counters_deletable(
                old(self).counters@,
                item@,
                old(self).hash_count,
                old(self).len,
            ) ==> r is Ok && final(self).counters@ == counters_after_delete(
                old(self).counters@,
                item@,
                old(self).hash_count,
                old(self).len,
            ),
            counters_member(old(self).counters@, item@, old(self).hash_count, old(self).len)
                && !counters_deletable(
                old(self).counters@,
                item@,
                old(self).hash_count,
                old(self).len,
            ) ==> r == Err::<(), FilterError>(FilterError::CounterCorruption) && final(self).counters@
                == old(self).counters@,
    {
        if !self.check(item) {
            return Ok(());
        }
        let ghost pre = self.counters@;
        let ghost hc = self.hash_count;
        let mut work: Vec<u64> = Vec::new();
        let mut c: usize = 0;
        while c < self.counters.len()
            invariant
                self == old(self),
                self.wf(),
                pre == self.counters@,
                hc == self.hash_count,
                counters_member(pre, item@, hc, self.len),
                c <= self.counters@.len(),
                work@.len() == c,
                forall|k: int| 0 <= k < c ==> work@[k] == self.counters@[k],
            decreases self.counters@.len() - c,
        {
            let v: u64 = self.counters[c];
            work.push(v);
            c = c + 1;
        }
        let mut i: u64 = 0;
        while i < self.hash_count
            invariant
                self == old(self),
                self.wf(),
                pre == self.counters@,
                hc == self.hash_count,
                counters_member(pre, item@, hc, self.len),
                i <= hc,
                pre.len() == self.len,
                delete_partial(pre, work@, item@, i as int, self.len),
            decreases hc - i,
        {
            let seed: u32 = #[verifier::truncate] (i as u32);
            let idx = hash_index(seed, item, self.len);
            let ghost mid = work@;
            let cur: u64 = work[idx];
            proof {
                assert(bit_index(item@, (i as int) as u32, self.len) == idx);
            }
            if cur == 0 {
                proof {
                    let j = idx as int;
                    assert(work@[j] == pre[j] - hit_count(item@, i as int, self.len, j));
                    assert(hit_count(item@, i as int + 1, self.len, j) == hit_count(
                        item@,
                        i as int,
                        self.len,
                        j,
                    ) + 1);
                    assert(hit_count(item@, i as int + 1, self.len, j) > pre[j]);
                    lemma_hit_count_mono(item@, i as int + 1, hc as int, self.len, j);
                    assert(!counters_deletable(pre, item@, hc, self.len));
                }
                return Err(FilterError::CounterCorruption);
            }
            work[idx] = cur - 1;
            proof {
                assert forall|j: int| 0 <= j < pre.len() implies #[trigger] hit_count(
                    item@,
                    i as int + 1,
                    self.len,
                    j,
                ) <= pre[j] && work@[j] == pre[j] - hit_count(item@, i as int + 1, self.len, j) by {
                    assert(mid[j] == pre[j] - hit_count(item@, i as int, self.len, j));
                    if j == idx as int {
                        assert(cur == mid[j]);
                        assert(work@[j] == cur - 1);
                        assert(hit_count(item@, i as int + 1, self.len, j) == hit_count(
                            item@,
                            i as int,
                            self.len,
                            j,
                        ) + 1);
                    } else {
                        assert(hit_count(item@, i as int + 1, self.len, j) == hit_count(
                            item@,
                            i as int,
                            self.len,
                            j,
                        ));
                        assert(work@[j] == mid[j]);
                    }
                }
                assert(delete_partial(pre, work@, item@, i as int + 1, self.len));
            }
            i = i + 1;
        }
        proof {
            assert(counters_deletable(pre, item@, hc, self.len));
        }
        self.counters = work;
        proof {
            assert(final(self).counters@ =~= counters_after_delete(pre, item@, hc, self.len));
        }
        Ok(())
    }

    /// Empty out the CountingBloomFilter: reset the counter vec so that it
    /// is zeroed-out and set actual_inserts to 0.
    pub fn empty(&mut self)
        requires
            old(self).wf(),
        ensures
            final(self).wf(),
            final(self).same_config(*old(self)),
            final(self).is_reset(),
    {
        self.counters = zero_counters(self.len as usize);
        self.actual_inserts = 0;
    }
}

/// Inserting an item leaves every one of its slots with a counter of at
/// least one: the counting variant has no false negatives either.
pub proof fn lemma_counting_insert_member(
    counters: Seq<u64>,
    item: Seq<char>,
    hash_count: u64,
    len: u64,
)
    requires
        counters.len() == len,
        1 <= len,
    ensures
        counters_member(counters_after_insert(counters, item, hash_count, len), item, hash_count, len),
{
    let post = counters_after_insert(counters, item, hash_count, len);
    assert forall|s: u32| (s as int) < hash_count implies post[bit_index(item, s, len) as int]
        >= 1 by {
        let j = bit_index(item, s, len) as int;
        lemma_hit_count_positive(item, hash_count as int, len, s);
        assert(post[j] == sat64(counters[j] + hit_count(item, hash_count as int, len, j)));
    }
}

/// Inserting one item preserves the membership of every other: the insert
/// only raises counters.
pub proof fn lemma_counting_insert_preserves_member(
    counters: Seq<u64>,
    inserted: Seq<char>,
    member_item: Seq<char>,
    hash_count: u64,
    len: u64,
)
    requires
        counters.len() == len,
        1 <= len,
        counters_member(counters, member_item, hash_count, len),
    ensures
        counters_member(
            counters_after_insert(counters, inserted, hash_count, len),
            member_item,
            hash_count,
            len,
        ),
{
    let post = counters_after_insert(counters, inserted, hash_count, len);
    assert forall|s: u32| (s as int) < hash_count implies post[bit_index(member_item, s, len) as int]
        >= 1 by {
        let j = bit_index(member_item, s, len) as int;
        assert(counters[j] >= 1);
        assert(post[j] == sat64(counters[j] + hit_count(inserted, hash_count as int, len, j)));
    }
}

/// A delete exactly undoes the insert that preceded it: as long as no
/// counter saturates, `insert(x)` followed by `delete(x)` restores every
/// counter, the inserted item passes the membership check in between, and
/// the delete is guaranteed to succeed rather than report corruption.
pub proof fn lemma_delete_undoes_insert(
    counters: Seq<u64>,
    item: Seq<char>,
    hash_count: u64,
    len: u64,
)
    requires
        counters.len() == len,
        1 <= len,
        forall|j: int|
            0 <= j < len ==> counters[j] + #[trigger] hit_count(item, hash_count as int, len, j)
                <= u64::MAX,
    ensures
        counters_member(counters_after_insert(counters, item, hash_count, len), item, hash_count, len),
        counters_deletable(
            counters_after_insert(counters, item, hash_count, len),
            item,
            hash_count,
            len,
        ),
        counters_after_delete(
            counters_after_insert(counters, item, hash_count, len),
            item,
            hash_count,
            len,
        ) =~= counters,
{
    lemma_counting_insert_member(counters, item, hash_count, len);
    let post = counters_after_insert(counters, item, hash_count, len);
    assert forall|j: int| 0 <= j < post.len() implies #[trigger] hit_count(
        item,
        hash_count as int,
        len,
        j,
    ) <= post[j] by {
        assert(post[j] == sat64(counters[j] + hit_count(item, hash_count as int, len, j)));
    }
}

/// Emptying is idempotent: the reset state is determined by the
/// configuration alone.
pub proof fn lemma_counting_empty_idempotent(once: CountingBloomFilter, twice: CountingBloomFilter)
    requires
        once.is_reset(),
        twice.is_reset(),
        once.same_config(twice),
    ensures
        once.counters@ =~= twice.counters@,
        once.actual_inserts == twice.actual_inserts,
{
}

/// After `empty`, no item checks true: zeroed counters have no members.
pub proof fn lemma_counting_reset_not_member(filter: CountingBloomFilter, item: Seq<char>)
    requires
        filter.is_reset(),
    ensures
        !counters_member(filter.counters@, item, filter.hash_count, filter.len),
{
    let s: u32 = 0;
    assert((s as int) < filter.hash_count);
    assert(filter.counters@[bit_index(item, s, filter.len) as int] < 1);
}

/// A zeroed counter array of the requested length.
fn zero_counters(n: usize) -> (r: Vec<u64>)
    ensures
        r@.len() == n,
        forall|k: int| 0 <= k < n ==> r@[k] == 0,
{
    let mut v: Vec<u64> = Vec::new();
    let mut c: usize = 0;
    while c < n
        invariant
            c <= n,
            v@.len() == c,
            forall|k: int| 0 <= k < c ==> v@[k] == 0,
        decreases n - c,
    {
        v.push(0);
        c = c + 1;
    }
    v
}

} // verus!
