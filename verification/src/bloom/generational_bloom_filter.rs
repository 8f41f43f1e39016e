/*!
 * Implements a murmur3-based generational bloom filter:
 *      GenerationalBloomFilter -- a fixed-size ring of K >= 2 plain bloom
 *                                 filters ("generations"). Inserts land in
 *                                 the current generation; checks query every
 *                                 generation; when the current generation's
 *                                 insert budget is exhausted, the oldest
 *                                 generation is cleared and promoted to
 *                                 current ("recycling"), producing a moving
 *                                 window over the most recent inserts.
 *                                 Does ~not~ support manual deletion.
 */
use crate::bloom::bit_array::all_clear;
use crate::bloom::bloom_filter::BloomFilter;
use crate::bloom::hashing::is_member;
use crate::bloom::hashing::lemma_insert_preserves_member;
use crate::bloom::hashing::lemma_with_hits_is_member;
use crate::bloom::hashing::set_item_bits;
use crate::bloom::hashing::with_hits;
use crate::bloom::params::FilterError;
use crate::bloom::params::InvalidParam;
use crate::bloom::params::Rational;
use vstd::prelude::*;

verus! {

/// GenerationalBloomFilter struct:
///    * generations:         The ring of per-generation BloomFilters
///    * current_gen:         Which generation receives inserts
///    * num_generations:     How many generations the ring holds (K >= 2)
///    * hash_count:          Hash count
///    * false_positive_rate: False positive rate
///    * expected_inserts:    Expected inserts per generation
///    * actual_inserts:      Actual inserts, for the current generation
pub struct GenerationalBloomFilter {
    pub generations: Vec<BloomFilter>,
    pub current_gen: usize,
    pub num_generations: u64,
    pub hash_count: u64,
    pub false_positive_rate: Rational,
    pub expected_inserts: u64,
    pub actual_inserts: u64,
}

impl GenerationalBloomFilter {
    /// The ring size.
    pub open spec fn k(self) -> int {
        self.generations@.len() as int
    }

    /// The bit contents of one generation.
    pub open spec fn gen_bits(self, g: int) -> Seq<bool> {
        self.generations@[g].bits()
    }

    /// The storage length that every generation shares.
    pub open spec fn spec_len(self) -> u64 {
        self.generations@[0].len
    }

    /// Construction-time invariant: the ring holds K >= 2 well-formed
    /// generations, all sized by the same parameters, the cursor is in
    /// range, and the current generation's own insert counter moves in
    /// lockstep with the ring's.
    pub open spec fn wf(self) -> bool {
        &&& self.generations@.len() == self.num_generations
        &&& 2 <= self.num_generations
        &&& (self.current_gen as int) < self.k()
        &&& (forall|g: int| 0 <= g < self.k() ==> (#[trigger] self.generations@[g]).wf())
        &&& (forall|g: int|
            0 <= g < self.k() ==> (#[trigger] self.generations@[g]).len == self.spec_len())
        &&& (forall|g: int|
            0 <= g < self.k() ==> (#[trigger] self.generations@[g]).hash_count == self.hash_count)
        &&& (forall|g: int|
            0 <= g < self.k() ==> (#[trigger] self.generations@[g]).false_positive_rate
                == self.false_positive_rate)
        &&& (forall|g: int|
            0 <= g < self.k() ==> (#[trigger] self.generations@[g]).expected_inserts
                == self.expected_inserts)
        &&& (forall|g: int|
            0 <= g < self.k() ==> (#[trigger] self.generations@[g]).actual_inserts
                <= self.expected_inserts)
        &&& self.generations@[self.current_gen as int].actual_inserts == self.actual_inserts
        &&& self.actual_inserts <= self.expected_inserts
        &&& self.false_positive_rate.in_open_unit()
        &&& 1 <= self.expected_inserts
    }

    /// Two filters agree on every configured and derived parameter.
    pub open spec fn same_config(self, other: GenerationalBloomFilter) -> bool {
        &&& self.num_generations == other.num_generations
        &&& self.hash_count == other.hash_count
        &&& self.false_positive_rate == other.false_positive_rate
        &&& self.expected_inserts == other.expected_inserts
    }

    /// The state that construction and `empty` leave behind.
    pub open spec fn is_reset(self) -> bool {
        &&& self.wf()
        &&& (forall|g: int| 0 <= g < self.k() ==> all_clear(#[trigger] self.gen_bits(g)))
        &&& self.actual_inserts == 0
    }

    /// An item is discoverable when any generation of the ring holds it.
    pub open spec fn ring_member(self, item: Seq<char>) -> bool {
        exists|g: int|
            0 <= g < self.k() && is_member(
                #[trigger] self.gen_bits(g),
                item,
                self.hash_count,
                self.spec_len(),
            )
    }

    /// The generation that a recycle event promotes to current.
    pub open spec fn next_gen(self) -> int {
        (self.current_gen as int + 1) % self.k()
    }

    /// Which generation an insert lands in: the current one, or the next
    /// one when the insert budget is exhausted and a recycle fires first.
    pub open spec fn insert_target(self) -> int {
        if self.actual_inserts >= self.expected_inserts {
            self.next_gen()
        } else {
            self.current_gen as int
        }
    }

    /// What one insert does to the ring. When the current generation's
    /// budget is exhausted, the next generation in ring order is cleared
    /// and promoted first; the item then marks its slots in the (possibly
    /// just-rotated) current generation, and every other generation is
    /// untouched.
    pub open spec fn insert_rel(pre: GenerationalBloomFilter, post: GenerationalBloomFilter, item: Seq<char>) -> bool {
        let cur = pre.insert_target();
        let recycled = pre.actual_inserts >= pre.expected_inserts;
        let base = if recycled {
            Seq::new(pre.spec_len() as nat, |i: int| false)
        } else {
            pre.gen_bits(cur)
        };
        &&& post.same_config(pre)
        &&& post.k() == pre.k()
        &&& post.current_gen as int == cur
        &&& (forall|g: int|
            0 <= g < pre.k() && g != cur ==> #[trigger] post.gen_bits(g) == pre.gen_bits(g))
        &&& post.gen_bits(cur) == with_hits(base, item, pre.hash_count, pre.spec_len())
        &&& post.actual_inserts == if recycled {
            1int
        } else {
            pre.actual_inserts + 1
        }
    }

    /// Getter for the number of generations in the ring
    pub fn get_num_generations(&self) -> (r: u64)
        ensures
            r == self.num_generations,
    {
        self.num_generations
    }

    /// Getter for hash_count
    pub fn get_hash_count(&self) -> (r: u64)
        ensures
            r == self.hash_count,
    {
        self.hash_count
    }

    /// Getter for false_positive_rate
    pub fn get_false_positive_rate(&self) -> (r: Rational)
        ensures
            r == self.false_positive_rate,
    {
        self.false_positive_rate
    }

    /// Getter for expected_inserts
    pub fn get_expected_inserts(&self) -> (r: u64)
        ensures
            r == self.expected_inserts,
    {
        self.expected_inserts
    }

    /// Getter for actual_inserts
    pub fn get_actual_inserts(&self) -> (r: u64)
        ensures
            r == self.actual_inserts,
    {
        self.actual_inserts
    }

    /// Given a desired false positive rate, calculate the length of each
    /// generation's bit array: `m = ceil(-n * ln(p) / ln(2)^2)`.
    pub fn calculate_len(expected_inserts: u64, false_positive_rate: Rational) -> (r: u64)
        requires
            1 <= expected_inserts,
            false_positive_rate.in_open_unit(),
        ensures
            r == crate::bloom::params::spec_array_length(
                expected_inserts as int,
                false_positive_rate.num as int,
                false_positive_rate.den as int,
            ),
            1 <= r <= usize::MAX,
    {
        crate::bloom::params::derive_array_length(expected_inserts, false_positive_rate)
    }

    /// Calculate the number of hashes required: `k = ceil(m / n * ln(2))`.
    pub fn calculate_hash_count(expected_inserts: u64, len: u64) -> (r: u64)
        requires
            1 <= expected_inserts,
            1 <= len,
        ensures
            r == crate::bloom::params::spec_hash_count(expected_inserts as int, len as int),
            1 <= r,
    {
        crate::bloom::params::derive_hash_count(expected_inserts, len)
    }

    /// Create a new GenerationalBloomFilter: K independent plain filters,
    /// each sized by the shared parameters, with generation 0 current.
    pub fn new(expected_inserts: u64, false_positive_rate: Rational, num_generations: u64) -> (r:
        Result<GenerationalBloomFilter, FilterError>)
        ensures
            !false_positive_rate.in_open_unit() ==> r == Err::<
                GenerationalBloomFilter,
                FilterError,
            >(FilterError::InvalidParameter(InvalidParam::FalsePositiveRate)),
            false_positive_rate.in_open_unit() && expected_inserts < 1 ==> r == Err::<
                GenerationalBloomFilter,
                FilterError,
            >(FilterError::InvalidParameter(InvalidParam::ExpectedInserts)),
            false_positive_rate.in_open_unit() && 1 <= expected_inserts && num_generations < 2
                ==> r == Err::<GenerationalBloomFilter, FilterError>(
                FilterError::InvalidParameter(InvalidParam::NumGenerations),
            ),
            false_positive_rate.in_open_unit() && 1 <= expected_inserts && 2 <= num_generations
                ==> {
                &&& r is Ok
                &&& r->Ok_0.is_reset()
                &&& r->Ok_0.expected_inserts == expected_inserts
                &&& r->Ok_0.false_positive_rate == false_positive_rate
                &&& r->Ok_0.num_generations == num_generations
                &&& r->Ok_0.current_gen == 0
            },
    {
        if false_positive_rate.num < 1 || false_positive_rate.num >= false_positive_rate.den {
            return Err(FilterError::InvalidParameter(InvalidParam::FalsePositiveRate));
        }
        if expected_inserts < 1 {
            return Err(FilterError::InvalidParameter(InvalidParam::ExpectedInserts));
        }
        if num_generations < 2 {
            return Err(FilterError::InvalidParameter(InvalidParam::NumGenerations));
        }
        let mut generations: Vec<BloomFilter> = Vec::new();
        let mut g: u64 = 0;
        let mut hash_count: u64 = 1;
        while g < num_generations
            invariant
                g <= num_generations,
                generations@.len() == g,
                false_positive_rate.in_open_unit(),
                1 <= expected_inserts,
                forall|h: int|
                    0 <= h < g ==> {
                        &&& (#[trigger] generations@[h]).is_reset()
                        &&& generations@[h].expected_inserts == expected_inserts
                        &&& generations@[h].false_positive_rate == false_positive_rate
                    },
                g >= 1 ==> hash_count == generations@[0].hash_count,
            decreases num_generations - g,
        {
            let gen = match BloomFilter::new(expected_inserts, false_positive_rate) {
                Ok(gen) => gen,
                Err(e) => {
                    proof {
                        assert(false);
                    }
                    return Err(e);
                },
            };
            if g == 0 {
                hash_count = gen.get_hash_count();
            }
            generations.push(gen);
            g = g + 1;
        }
        proof {
            assert(generations@[0].wf());
        }
        Ok(
            GenerationalBloomFilter {
                generations,
                current_gen: 0,
                num_generations,
                hash_count,
                false_positive_rate,
                expected_inserts,
                actual_inserts: 0,
            },
        )
    }

    /// Recycle: clear the next generation in ring order, promote it to
    /// current, and reset the ring's insert counter.
    fn recycle(&mut self)
        requires
            old(self).wf(),
        ensures
            final(self).wf(),
            final(self).same_config(*old(self)),
            final(self).k() == old(self).k(),
            final(self).current_gen as int == old(self).next_gen(),
            final(self).generations@[old(self).next_gen()].is_reset(),
            final(self).generations@[old(self).next_gen()].same_config(
                old(self).generations@[old(self).next_gen()],
            ),
            forall|g: int|
                0 <= g < old(self).k() && g != old(self).next_gen()
                    ==> #[trigger] final(self).generations@[g] == old(self).generations@[g],
            final(self).actual_inserts == 0,
    {
        let klen: usize = self.generations.len();
        let next: usize = (self.current_gen + 1) % klen;
        let gen = &mut self.generations[next];
        gen.empty();
        self.current_gen = next;
        self.actual_inserts = 0;
    }

    /// Insert a new element into the current generation, recycling first if
    /// the insert would exceed the generation's sizing target.
    pub fn insert(&mut self, item: &str)
        requires
            old(self).wf(),
        ensures
            final(self).wf(),
            GenerationalBloomFilter::insert_rel(*old(self), *final(self), item@),
    {
        let ghost pre = *self;
        if self.actual_inserts >= self.expected_inserts {
            self.recycle();
        }
        let ghost mid = *self;
        proof {
            assert(mid.wf());
            assert(mid.current_gen as int == pre.insert_target());
            assert(mid.generations@[mid.current_gen as int].len == mid.spec_len());
            assert(mid.spec_len() == pre.spec_len()) by {
                assert(mid.generations@[0].wf());
                assert(pre.generations@[0].wf());
            }
        }
        let cur: usize = self.current_gen;
        let gen = &mut self.generations[cur];
        gen.insert(item);
        self.actual_inserts = self.actual_inserts + 1;
        proof {
            let curi = pre.insert_target();
            assert(final(self).gen_bits(curi) == with_hits(
                mid.gen_bits(curi),
                item@,
                pre.hash_count,
                pre.spec_len(),
            ));
            if pre.actual_inserts >= pre.expected_inserts {
                let base = Seq::new(pre.spec_len() as nat, |i: int| false);
                assert(mid.gen_bits(curi) =~= base);
            } else {
                assert(mid.gen_bits(curi) == pre.gen_bits(curi));
            }
            assert forall|g: int| 0 <= g < pre.k() && g != curi implies #[trigger] final(self).gen_bits(
                g,
            ) == pre.gen_bits(g) by {
                assert(final(self).generations@[g] == mid.generations@[g]);
            }
        }
    }

    /// What a keep-alive refresh does to the ring: the item's slots are
    /// marked in the current generation, and nothing else moves -- no
    /// counter, no cursor, no other generation.
    pub open spec fn refresh_rel(pre: GenerationalBloomFilter, post: GenerationalBloomFilter, item: Seq<char>) -> bool {
        let cur = pre.current_gen as int;
        &&& post.same_config(pre)
        &&& post.k() == pre.k()
        &&& post.current_gen == pre.current_gen
        &&& post.actual_inserts == pre.actual_inserts
        &&& (forall|g: int|
            0 <= g < pre.k() && g != cur ==> #[trigger] post.gen_bits(g) == pre.gen_bits(g))
        &&& post.gen_bits(cur) == with_hits(pre.gen_bits(cur), item, pre.hash_count, pre.spec_len())
    }

    /// Mark an item's slots in the current generation without counting an
    /// insert: the keep-alive write of the active-active buffering policy.
    pub fn refresh(&mut self, item: &str)
        requires
            old(self).wf(),
        ensures
            final(self).wf(),
            GenerationalBloomFilter::refresh_rel(*old(self), *final(self), item@),
    {
        let ghost pre = *self;
        let hash_count: u64 = self.hash_count;
        let cur: usize = self.current_gen;
        let gen = &mut self.generations[cur];
        let len: u64 = gen.len;
        set_item_bits(&mut gen.bit_arr, item, hash_count, len);
        proof {
            assert forall|g: int| 0 <= g < pre.k() && g != cur as int implies #[trigger] final(self).gen_bits(
                g,
            ) == pre.gen_bits(g) by {
                assert(final(self).generations@[g] == pre.generations@[g]);
            }
            assert(pre.generations@[cur as int].hash_count == pre.hash_count);
            assert(pre.generations@[cur as int].len == pre.spec_len());
        }
    }

    /// Check whether an element is probably in the filter or not: true iff
    /// any generation of the ring reports it present.
    pub fn check(&self, item: &str) -> (r: bool)
        requires
            self.wf(),
        ensures
            r == self.ring_member(item@),
    {
        let mut g: usize = 0;
        while g < self.generations.len()
            invariant
                self.wf(),
                g <= self.k(),
                forall|h: int|
                    0 <= h < g ==> !is_member(
                        #[trigger] self.gen_bits(h),
                        item@,
                        self.hash_count,
                        self.spec_len(),
                    ),
            decreases self.k() - g,
        {
            let gen = &self.generations[g];
            if gen.check(item) {
                proof {
                    assert(is_member(self.gen_bits(g as int), item@, self.hash_count, self.spec_len()));
                }
                return true;
            }
            g = g + 1;
        }
        false
    }

    /// Empty out the entire data structure: clear every generation and
    /// reset the insert counter. The cursor stays where it was.
    pub fn empty(&mut self)
        requires
            old(self).wf(),
        ensures
            final(self).wf(),
            final(self).same_config(*old(self)),
            final(self).is_reset(),
            final(self).current_gen == old(self).current_gen,
    {
        let mut g: usize = 0;
        while g < self.generations.len()
            invariant
                self.generations@.len() == old(self).generations@.len(),
                self.num_generations == old(self).num_generations,
                self.hash_count == old(self).hash_count,
                self.false_positive_rate == old(self).false_positive_rate,
                self.expected_inserts == old(self).expected_inserts,
                self.actual_inserts == old(self).actual_inserts,
                self.current_gen == old(self).current_gen,
                old(self).wf(),
                g <= self.k(),
                forall|h: int|
                    0 <= h < self.k() ==> {
                        &&& (#[trigger] self.generations@[h]).wf()
                        &&& self.generations@[h].same_config(old(self).generations@[h])
                    },
                forall|h: int|
                    g <= h < self.k()
                        ==> #[trigger] self.generations@[h] == old(self).generations@[h],
                forall|h: int|
                    0 <= h < g ==> all_clear((#[trigger] self.generations@[h]).bits())
                        && self.generations@[h].actual_inserts == 0,
            decreases self.k() - g,
        {
            let gen = &mut self.generations[g];
            gen.empty();
            g = g + 1;
        }
        self.actual_inserts = 0;
    }
}

/// Emptying is idempotent: the reset state is determined by the
/// configuration alone, so a second `empty` leaves every generation and the
/// counter exactly where the first put them.
pub proof fn lemma_generational_empty_idempotent(
    once: GenerationalBloomFilter,
    twice: GenerationalBloomFilter,
)
    requires
        once.is_reset(),
        twice.is_reset(),
        once.same_config(twice),
    ensures
        once.actual_inserts == twice.actual_inserts,
        forall|g: int| 0 <= g < once.k() ==> once.gen_bits(g) =~= #[trigger] twice.gen_bits(g),
{
    assert forall|g: int| 0 <= g < once.k() implies once.gen_bits(g) =~= #[trigger] twice.gen_bits(
        g,
    ) by {
        assert(once.generations@[g].wf());
        assert(twice.generations@[g].wf());
        assert(once.spec_len() == twice.spec_len()) by {
            assert(once.generations@[0].wf());
            assert(twice.generations@[0].wf());
        }
    }
}

/// After `empty`, no item checks true in any generation.
pub proof fn lemma_generational_reset_not_member(filter: GenerationalBloomFilter, item: Seq<char>)
    requires
        filter.is_reset(),
    ensures
        !filter.ring_member(item),
{
    assert forall|g: int| 0 <= g < filter.k() implies !is_member(
        #[trigger] filter.gen_bits(g),
        item,
        filter.hash_count,
        filter.spec_len(),
    ) by {
        assert(filter.generations@[g].wf());
        crate::bloom::hashing::lemma_clear_not_member(
            filter.gen_bits(g),
            item,
            filter.hash_count,
            filter.spec_len(),
        );
    }
}

/// Inserting makes the item immediately discoverable: whichever generation
/// the insert landed in reports it present, so the ring does too.
pub proof fn lemma_generational_insert_member(
    pre: GenerationalBloomFilter,
    post: GenerationalBloomFilter,
    item: Seq<char>,
)
    requires
        pre.wf(),
        post.wf(),
        GenerationalBloomFilter::insert_rel(pre, post, item),
    ensures
        post.ring_member(item),
{
    let cur = pre.insert_target();
    let base = if pre.actual_inserts >= pre.expected_inserts {
        Seq::new(pre.spec_len() as nat, |i: int| false)
    } else {
        pre.gen_bits(cur)
    };
    lemma_with_hits_is_member(base, item, pre.hash_count, pre.spec_len());
    assert(is_member(post.gen_bits(cur), item, post.hash_count, post.spec_len()));
}

/// A keep-alive refresh makes the item discoverable in the current
/// generation, so it survives the next recycle of an older generation.
pub proof fn lemma_generational_refresh_member(
    pre: GenerationalBloomFilter,
    post: GenerationalBloomFilter,
    item: Seq<char>,
)
    requires
        pre.wf(),
        post.wf(),
        GenerationalBloomFilter::refresh_rel(pre, post, item),
    ensures
        post.ring_member(item),
        is_member(
            post.gen_bits(post.current_gen as int),
            item,
            post.hash_count,
            post.spec_len(),
        ),
{
    let cur = pre.current_gen as int;
    assert(pre.generations@[cur].wf());
    lemma_with_hits_is_member(pre.gen_bits(cur), item, pre.hash_count, pre.spec_len());
}

/// A keep-alive refresh never loses anything: every item discoverable
/// before is discoverable after, since no generation loses a bit.
pub proof fn lemma_generational_refresh_preserves_member(
    pre: GenerationalBloomFilter,
    post: GenerationalBloomFilter,
    refreshed: Seq<char>,
    member_item: Seq<char>,
)
    requires
        pre.wf(),
        post.wf(),
        GenerationalBloomFilter::refresh_rel(pre, post, refreshed),
        pre.ring_member(member_item),
    ensures
        post.ring_member(member_item),
{
    let cur = pre.current_gen as int;
    let g = choose|g: int|
        0 <= g < pre.k() && is_member(
            #[trigger] pre.gen_bits(g),
            member_item,
            pre.hash_count,
            pre.spec_len(),
        );
    if g == cur {
        assert(pre.generations@[cur].wf());
        lemma_insert_preserves_member(
            pre.gen_bits(cur),
            refreshed,
            member_item,
            pre.hash_count,
            pre.spec_len(),
        );
        assert(is_member(post.gen_bits(cur), member_item, post.hash_count, post.spec_len()));
    } else {
        assert(post.gen_bits(g) == pre.gen_bits(g));
        assert(is_member(post.gen_bits(g), member_item, post.hash_count, post.spec_len()));
    }
}

/// An item discoverable in a generation that the insert did not recycle
/// stays discoverable: the other generations are untouched, and the target
/// generation only gains bits.
pub proof fn lemma_generational_insert_preserves_member(
    pre: GenerationalBloomFilter,
    post: GenerationalBloomFilter,
    inserted: Seq<char>,
    member_item: Seq<char>,
    g: int,
)
    requires
        pre.wf(),
        post.wf(),
        GenerationalBloomFilter::insert_rel(pre, post, inserted),
        0 <= g < pre.k(),
        is_member(pre.gen_bits(g), member_item, pre.hash_count, pre.spec_len()),
        pre.actual_inserts >= pre.expected_inserts ==> g != pre.insert_target(),
    ensures
        post.ring_member(member_item),
{
    let cur = pre.insert_target();
    if g == cur {
        lemma_insert_preserves_member(
            pre.gen_bits(cur),
            inserted,
            member_item,
            pre.hash_count,
            pre.spec_len(),
        );
        assert(is_member(post.gen_bits(cur), member_item, post.hash_count, post.spec_len()));
    } else {
        assert(post.gen_bits(g) == pre.gen_bits(g));
        assert(is_member(post.gen_bits(g), member_item, post.hash_count, post.spec_len()));
    }
}

} // verus!
