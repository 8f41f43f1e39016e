/*!
 * The bit storage that the plain, decay and generational variants share: a
 * bit_vec::BitVec behind contracts stated over its boolean contents, plus
 * the set-bit counting used to reason about decay.
 */
use vstd::prelude::*;

verus! {

/// Declares bit_vec::BitVec, the packed bit vector that backs the plain,
/// decay and generational variants; its contents are reasoned about only
/// through `bits_of`.
#[verifier::external_type_specification]
#[verifier::external_body]
#[verifier::reject_recursive_types(B)]
pub struct ExBitVec<B>(bit_vec::BitVec<B>);

/// The boolean contents of a bit vector, slot by slot.
pub uninterp spec fn bits_of(v: bit_vec::BitVec) -> Seq<bool>;

/// Relies on bit_vec::BitVec::from_elem: a vector of `len` bits, every one
/// equal to the given bit.
#[verifier::external_body]
pub fn bv_from_elem(len: usize, bit: bool) -> (r: bit_vec::BitVec)
    ensures
        bits_of(r) == Seq::new(len as nat, |i: int| bit),
{
    bit_vec::BitVec::from_elem(len, bit)
}

/// Relies on bit_vec::BitVec's Index impl: reads the bit at an in-range
/// index.
#[verifier::external_body]
pub fn bv_get(v: &bit_vec::BitVec, i: usize) -> (r: bool)
    requires
        i < bits_of(*v).len(),
    ensures
        r == bits_of(*v)[i as int],
{
    v[i]
}

/// Relies on bit_vec::BitVec::set: writes the bit at an in-range index and
/// leaves every other slot unchanged.
#[verifier::external_body]
pub fn bv_set(v: &mut bit_vec::BitVec, i: usize, x: bool)
    requires
        i < bits_of(*old(v)).len(),
    ensures
        bits_of(*final(v)) == bits_of(*old(v)).update(i as int, x),
{
    v.set(i, x);
}

/// Relies on bit_vec::BitVec::fill: assigns every bit the given value,
/// keeping the length.
#[verifier::external_body]
pub fn bv_fill(v: &mut bit_vec::BitVec, x: bool)
    ensures
        bits_of(*final(v)) == Seq::new(bits_of(*old(v)).len(), |i: int| x),
{
    v.fill(x);
}

/// Every slot of the bit array is zero.
pub open spec fn all_clear(bits: Seq<bool>) -> bool {
    forall|i: int| 0 <= i < bits.len() ==> !bits[i]
}

/// Relies on bit_vec::BitVec::none: true exactly when every bit is zero.
#[verifier::external_body]
pub fn bv_none(v: &bit_vec::BitVec) -> (r: bool)
    ensures
        r == all_clear(bits_of(*v)),
{
    v.none()
}

/// How many slots of the bit array are set.
pub open spec fn count_set(bits: Seq<bool>) -> nat
    decreases bits.len(),
{
    if bits.len() == 0 {
        0
    } else {
        count_set(bits.drop_last()) + if bits.last() {
            1nat
        } else {
            0nat
        }
    }
}

/// The bit array with every listed position cleared and every other slot
/// unchanged.
pub open spec fn cleared_at(bits: Seq<bool>, positions: Seq<u64>) -> Seq<bool> {
    Seq::new(
        bits.len(),
        |j: int|
            if positions.contains(j as u64) {
                false
            } else {
                bits[j]
            },
    )
}

/// Counting set bits over a prefix grows by the bit at the boundary.
pub proof fn lemma_count_set_take_step(bits: Seq<bool>, i: int)
    requires
        0 <= i < bits.len(),
    ensures
        count_set(bits.take(i + 1)) == count_set(bits.take(i)) + if bits[i] {
            1nat
        } else {
            0nat
        },
{
    assert(bits.take(i + 1).drop_last() =~= bits.take(i));
    assert(bits.take(i + 1).last() == bits[i]);
}

/// Taking the whole sequence counts every set bit.
pub proof fn lemma_count_set_take_all(bits: Seq<bool>)
    ensures
        count_set(bits.take(bits.len() as int)) == count_set(bits),
{
    assert(bits.take(bits.len() as int) =~= bits);
}

/// Pointwise implication of bit arrays carries over to their set-bit
/// counts.
pub proof fn lemma_count_set_pointwise_le(a: Seq<bool>, b: Seq<bool>)
    requires
        a.len() == b.len(),
        forall|j: int| 0 <= j < a.len() ==> (a[j] ==> b[j]),
    ensures
        count_set(a) <= count_set(b),
    decreases a.len(),
{
    if a.len() > 0 {
        lemma_count_set_pointwise_le(a.drop_last(), b.drop_last());
    }
}

/// Clearing positions never raises the set-bit count. This is the safe half
/// of decay monotonicity: a decay event cannot add information back.
pub proof fn lemma_cleared_at_count(bits: Seq<bool>, positions: Seq<u64>)
    ensures
        count_set(cleared_at(bits, positions)) <= count_set(bits),
{
    lemma_count_set_pointwise_le(cleared_at(bits, positions), bits);
}

} // verus!
