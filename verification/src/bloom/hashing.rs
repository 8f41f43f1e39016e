/*!
 * The deterministic multi-index scheme shared by every filter variant: a
 * seeded 128-bit murmur3 digest of the item, reduced modulo the storage
 * length. The seed plays the role of the i-th hash function of the usual
 * k-independent construction.
 */
use crate::bloom::bit_array::bits_of;
use crate::bloom::bit_array::bv_get;
use crate::bloom::bit_array::bv_set;
use vstd::prelude::*;

verus! {

/// The 128-bit murmur3 (x64 variant) digest of an item under a seed. The
/// digest is a pure function of the characters and the seed; its value is
/// fixed by the algorithm, not stated here.
pub uninterp spec fn murmur3_x64_128(item: Seq<char>, seed: u32) -> u128;

/// Relies on fasthash::murmur3::Hash128_x64::hash_with_seed: the MurmurHash3
/// x64 128-bit digest of the item's UTF-8 bytes, a deterministic function of
/// the characters and the seed alone.
#[verifier::external_body]
fn murmur3_hash128(item: &str, seed: u32) -> (r: u128)
    ensures
        r == murmur3_x64_128(item@, seed),
{
    <fasthash::murmur3::Hash128_x64 as fasthash::FastHash>::hash_with_seed(item, seed)
}

/// The storage slot that one hash iteration selects: the low 64 bits of the
/// digest, reduced modulo the storage length.
pub open spec fn bit_index(item: Seq<char>, seed: u32, len: u64) -> u64
    recommends
        1 <= len,
{
    (murmur3_x64_128(item, seed) as u64) % len
}

/// Whether one of the first `bound` hash iterations of `item` selects slot
/// `j`.
pub open spec fn is_hit_upto(item: Seq<char>, bound: int, len: u64, j: int) -> bool {
    exists|s: u32| (s as int) < bound && bit_index(item, s, len) == j
}

/// Whether one of the filter's `hash_count` iterations of `item` selects
/// slot `j`.
pub open spec fn is_hit(item: Seq<char>, hash_count: u64, len: u64, j: int) -> bool {
    is_hit_upto(item, hash_count as int, len, j)
}

/// The membership predicate of the bit-array variants: every slot that the
/// item hashes to is set.
pub open spec fn is_member(bits: Seq<bool>, item: Seq<char>, hash_count: u64, len: u64) -> bool {
    forall|s: u32| (s as int) < hash_count ==> bits[bit_index(item, s, len) as int]
}

/// The bit array after inserting `item`: every slot the item hashes to is
/// set, all others keep their old value.
pub open spec fn with_hits(bits: Seq<bool>, item: Seq<char>, hash_count: u64, len: u64) -> Seq<
    bool,
> {
    Seq::new(bits.len(), |j: int| bits[j] || is_hit(item, hash_count, len, j))
}

/// Return a single usize value, representing an index to be marked or
/// checked.
pub fn hash_index(i: u32, item: &str, len: u64) -> (r: usize)
    requires
        1 <= len <= usize::MAX,
    ensures
        r == bit_index(item@, i, len),
        r < len,
{
    let digest_val: u128 = murmur3_hash128(item, i);
    #[verifier::truncate]
    let low: u64 = digest_val as u64;
    let reduced: u64 = low % len;
    reduced as usize
}

/// Set every slot that `item` hashes to. This is the marking half of an
/// insert, shared by every bit-array variant.
pub fn set_item_bits(arr: &mut bit_vec::BitVec, item: &str, hash_count: u64, len: u64)
    requires
        bits_of(*old(arr)).len() == len,
        1 <= len <= usize::MAX,
    ensures
        bits_of(*final(arr)) == with_hits(bits_of(*old(arr)), item@, hash_count, len),
{
    let ghost pre = bits_of(*arr);
    let mut i: u64 = 0;
    while i < hash_count
        invariant
            bits_of(*arr).len() == len,
            1 <= len <= usize::MAX,
            pre.len() == len,
            i <= hash_count,
            forall|j: int|
                0 <= j < len ==> bits_of(*arr)[j] == (pre[j] || is_hit_upto(item@, i as int, len, j)),
        decreases hash_count - i,
    {
        let seed: u32 = #[verifier::truncate] (i as u32);
        let idx = hash_index(seed, item, len);
        let ghost mid = bits_of(*arr);
        bv_set(arr, idx, true);
        proof {
            assert forall|j: int| 0 <= j < len implies bits_of(*arr)[j] == (pre[j] || is_hit_upto(
                item@,
                i as int + 1,
                len,
                j,
            )) by {
                assert(mid[j] == (pre[j] || is_hit_upto(item@, i as int, len, j)));
                if is_hit_upto(item@, i as int, len, j) {
                    let s0 = choose|s: u32| (s as int) < i as int && bit_index(item@, s, len) == j;
                    assert((s0 as int) < i as int + 1);
                    assert(is_hit_upto(item@, i as int + 1, len, j));
                }
                if j == idx as int {
                    assert(bit_index(item@, seed, len) == idx);
                    assert((seed as int) < i as int + 1);
                    assert(is_hit_upto(item@, i as int + 1, len, j));
                    assert(bits_of(*arr)[j]);
                } else {
                    assert(bits_of(*arr)[j] == mid[j]);
                    if is_hit_upto(item@, i as int + 1, len, j) && !is_hit_upto(
                        item@,
                        i as int,
                        len,
                        j,
                    ) {
                        let s = choose|s: u32|
                            (s as int) < i as int + 1 && bit_index(item@, s, len) == j;
                        assert((s as int) == i as int);
                        assert(s == seed);
                        assert(false);
                    }
                }
            }
        }
        i = i + 1;
    }
    proof {
        assert(bits_of(*arr) =~= with_hits(pre, item@, hash_count, len));
    }
}

/// Read every slot that `item` hashes to: true iff all of them are set.
/// This is the probing half of a membership check, shared by every
/// bit-array variant.
pub fn check_item_bits(arr: &bit_vec::BitVec, item: &str, hash_count: u64, len: u64) -> (r: bool)
    requires
        bits_of(*arr).len() == len,
        1 <= len <= usize::MAX,
    ensures
        r == is_member(bits_of(*arr), item@, hash_count, len),
{
    let mut i: u64 = 0;
    while i < hash_count
        invariant
            bits_of(*arr).len() == len,
            1 <= len <= usize::MAX,
            i <= hash_count,
            forall|s: u32| (s as int) < i ==> bits_of(*arr)[bit_index(item@, s, len) as int],
        decreases hash_count - i,
    {
        let seed: u32 = #[verifier::truncate] (i as u32);
        let idx = hash_index(seed, item, len);
        if !bv_get(arr, idx) {
            proof {
                assert((seed as int) < hash_count);
                assert(!bits_of(*arr)[bit_index(item@, seed, len) as int]);
            }
            return false;
        }
        proof {
            assert forall|s: u32| (s as int) < i as int + 1 implies bits_of(*arr)[bit_index(
                item@,
                s,
                len,
            ) as int] by {
                if s as int == i as int {
                    assert(s == seed);
                    assert(bits_of(*arr)[idx as int]);
                }
            }
        }
        i = i + 1;
    }
    true
}

/// Inserting an item makes every one of its slots set: membership holds of
/// the updated bit array. This is the heart of the "no false negatives"
/// guarantee.
pub proof fn lemma_with_hits_is_member(
    bits: Seq<bool>,
    item: Seq<char>,
    hash_count: u64,
    len: u64,
)
    requires
        bits.len() == len,
        1 <= len,
    ensures
        is_member(with_hits(bits, item, hash_count, len), item, hash_count, len),
{
    let post = with_hits(bits, item, hash_count, len);
    assert forall|s: u32| (s as int) < hash_count implies post[bit_index(item, s, len) as int] by {
        let j = bit_index(item, s, len) as int;
        assert(0 <= j < len);
        assert(is_hit(item, hash_count, len, j));
    }
}

/// Setting further bits never clears a slot, so membership survives any
/// number of later inserts of other items.
pub proof fn lemma_member_monotone(
    pre: Seq<bool>,
    post: Seq<bool>,
    item: Seq<char>,
    hash_count: u64,
    len: u64,
)
    requires
        pre.len() == len,
        post.len() == len,
        1 <= len,
        forall|j: int| 0 <= j < len ==> (pre[j] ==> post[j]),
        is_member(pre, item, hash_count, len),
    ensures
        is_member(post, item, hash_count, len),
{
    assert forall|s: u32| (s as int) < hash_count implies post[bit_index(item, s, len) as int] by {
        let j = bit_index(item, s, len) as int;
        assert(pre[j]);
    }
}

/// Inserting one item preserves the membership of every other: the insert
/// only sets bits.
pub proof fn lemma_insert_preserves_member(
    bits: Seq<bool>,
    inserted: Seq<char>,
    member_item: Seq<char>,
    hash_count: u64,
    len: u64,
)
    requires
        bits.len() == len,
        1 <= len,
        is_member(bits, member_item, hash_count, len),
    ensures
        is_member(with_hits(bits, inserted, hash_count, len), member_item, hash_count, len),
{
    lemma_member_monotone(
        bits,
        with_hits(bits, inserted, hash_count, len),
        member_item,
        hash_count,
        len,
    );
}

/// Nothing is a member of an all-clear bit array, as long as at least one
/// hash iteration is performed.
pub proof fn lemma_clear_not_member(bits: Seq<bool>, item: Seq<char>, hash_count: u64, len: u64)
    requires
        bits.len() == len,
        1 <= len,
        1 <= hash_count,
        forall|j: int| 0 <= j < len ==> !bits[j],
    ensures
        !is_member(bits, item, hash_count, len),
{
    let s: u32 = 0;
    assert((s as int) < hash_count);
    assert(!bits[bit_index(item, s, len) as int]);
}

} // verus!
