/*!
 * Shared construction-time machinery for every filter variant: the rational
 * representation of configured rates, the error type surfaced by fallible
 * operations, and the sizing arithmetic that turns an expected insert count
 * and a target false positive rate into an array length and a hash count.
 */
use vstd::arithmetic::power2::lemma2_to64;
use vstd::arithmetic::power2::lemma_pow2_adds;
use vstd::arithmetic::power2::lemma_pow2_pos;
use vstd::arithmetic::power2::lemma_pow2_strictly_increases;
use vstd::arithmetic::power2::pow2;
use vstd::prelude::*;

verus! {

/// The fixed-point scale: a value `v` stands for the real number `v / 2^32`.
pub const FP_SCALE: u64 = 0x1_0000_0000;

/// ln(2) in the fixed-point scale: round(ln(2) * 2^32).
pub const LN_2_FP: u64 = 2977044472;

/// ln(2)^2 in the fixed-point scale: round(ln(2)^2 * 2^32).
pub const LN_2_SQ_FP: u64 = 2063529982;

/// Which constructor argument was rejected.
#[derive(Clone, Copy, Debug, PartialEq, Eq, Structural)]
pub enum InvalidParam {
    FalsePositiveRate,
    ExpectedInserts,
    BitResetRate,
    NumGenerations,
}

/// The two failure kinds of the filter family: a rejected constructor
/// argument, and a counter that a delete would drive below zero.
#[derive(Clone, Copy, Debug, PartialEq, Eq, Structural)]
pub enum FilterError {
    InvalidParameter(InvalidParam),
    CounterCorruption,
}

/// An exact ratio `num / den`, used for the configured false positive rate
/// and the decay variant's bit reset rate. Exact rationals keep the sizing
/// arithmetic free of machine floating point.
#[derive(Clone, Copy, Debug, PartialEq, Eq, Structural)]
pub struct Rational {
    pub num: u64,
    pub den: u64,
}

impl Rational {
    /// The ratio lies strictly between zero and one.
    pub open spec fn in_open_unit(self) -> bool {
        1 <= self.num < self.den
    }

    /// The ratio lies between zero and one, both inclusive.
    pub open spec fn in_closed_unit(self) -> bool {
        1 <= self.den && self.num <= self.den
    }

    pub fn new(num: u64, den: u64) -> (r: Rational)
        ensures
            r.num == num,
            r.den == den,
    {
        Rational { num, den }
    }

    pub fn numerator(&self) -> (r: u64)
        ensures
            r == self.num,
    {
        self.num
    }

    pub fn denominator(&self) -> (r: u64)
        ensures
            r == self.den,
    {
        self.den
    }
}

/// Halve `q` until it lies below 2^33: the mantissa of the binary range
/// reduction of a fixed-point quantity that is at least 2^32.
pub open spec fn spec_mantissa(q: int) -> int
    decreases q,
{
    if q < 0x2_0000_0000 {
        q
    } else {
        spec_mantissa(q / 2)
    }
}

/// The number of halvings that `spec_mantissa` performs on `q`.
pub open spec fn spec_exponent(q: int) -> nat
    decreases q,
{
    if q < 0x2_0000_0000 {
        0
    } else {
        1 + spec_exponent(q / 2)
    }
}

/// The j-th term of the fixed-point series for atanh: `y * y2^(j-1)`, with
/// every multiplication rescaled by the fixed-point scale.
pub open spec fn spec_series_term(y: int, y2: int, j: nat) -> int
    decreases j,
{
    if j <= 1 {
        y
    } else {
        spec_series_term(y, y2, (j - 1) as nat) * y2 / 0x1_0000_0000
    }
}

/// The sum of the first `j` terms of the series, each divided by its odd
/// denominator: `y/1 + y*y2/3 + y*y2^2/5 + ...` in fixed point.
pub open spec fn spec_series_sum(y: int, y2: int, j: nat) -> int
    decreases j,
{
    if j <= 1 {
        y
    } else {
        spec_series_sum(y, y2, (j - 1) as nat) + spec_series_term(y, y2, j) / (2 * j - 1)
    }
}

/// How many series iterations the logarithm evaluates: with the series
/// variable below 1/3, each term shrinks at least ninefold, so this many
/// rounds push the truncation error far below the fixed-point scale.
pub const SERIES_ROUNDS: u64 = 40;

/// Fixed-point natural logarithm of the ratio `den / num` (which must exceed
/// one): binary range reduction to a mantissa in [1, 2), then the series
/// `ln(m) = 2 * atanh((m - 1) / (m + 1))`.
pub open spec fn spec_ln_ratio(num: int, den: int) -> int
    recommends
        1 <= num < den,
{
    let q = den * 0x1_0000_0000 / num;
    let m = spec_mantissa(q);
    let e = spec_exponent(q);
    let y = (m - 0x1_0000_0000) * 0x1_0000_0000 / (m + 0x1_0000_0000);
    let y2 = y * y / 0x1_0000_0000;
    e * (LN_2_FP as int) + 2 * spec_series_sum(y, y2, SERIES_ROUNDS as nat)
}

/// The derived storage length: `ceil(expected * ln(den/num) / ln(2)^2)`,
/// evaluated in fixed point, kept at least one and saturated at the
/// addressable maximum.
pub open spec fn spec_array_length(expected: int, num: int, den: int) -> int
    recommends
        1 <= expected,
        1 <= num < den,
{
    let l = spec_ln_ratio(num, den);
    let lc = if l < 1 {
        1
    } else {
        l
    };
    let raw = (expected * lc + (LN_2_SQ_FP as int) - 1) / (LN_2_SQ_FP as int);
    let sat = if raw > usize::MAX as int {
        usize::MAX as int
    } else {
        raw
    };
    if sat < 1 {
        1
    } else {
        sat
    }
}

/// The derived hash-iteration count: `ceil(length / expected * ln(2))`,
/// evaluated in fixed point, kept at least one and saturated at u64::MAX.
pub open spec fn spec_hash_count(expected: int, length: int) -> int
    recommends
        1 <= expected,
        1 <= length,
{
    let raw = (length * (LN_2_FP as int) + expected * (FP_SCALE as int) - 1) / (expected * (
    FP_SCALE as int));
    let sat = if raw > u64::MAX as int {
        u64::MAX as int
    } else {
        raw
    };
    if sat < 1 {
        1
    } else {
        sat
    }
}

/// Range reduction: returns the mantissa in [2^32, 2^33) and the exponent of
/// the fixed-point input `q`.
fn reduce_mantissa(q: u128) -> (r: (u64, u64))
    requires
        0x1_0000_0000 <= q < 0x1_0000_0000_0000_0000_0000_0000,
    ensures
        r.0 == spec_mantissa(q as int),
        r.1 == spec_exponent(q as int),
        0x1_0000_0000 <= r.0 < 0x2_0000_0000,
        r.1 <= 63,
{
    let mut w: u128 = q;
    let mut e: u64 = 0;
    proof {
        lemma2_to64();
    }
    while w >= 0x2_0000_0000
        invariant
            0x1_0000_0000 <= w <= q < 0x1_0000_0000_0000_0000_0000_0000,
            spec_mantissa(w as int) == spec_mantissa(q as int),
            spec_exponent(w as int) + e == spec_exponent(q as int),
            w as int * pow2(e as nat) <= q as int,
            e <= 63,
        decreases w,
    {
        proof {
            // The next exponent stays at most 63: otherwise the product
            // `(w / 2) * pow2(e + 1)` would reach 2^32 * 2^64 = 2^96 > q.
            lemma2_to64();
            lemma_pow2_adds(e as nat, 1);
            lemma_pow2_pos(e as nat);
            assert((w as int / 2) * pow2((e + 1) as nat) <= w as int * pow2(e as nat)) by (
            nonlinear_arith)
                requires
                    w >= 2,
                    pow2((e + 1) as nat) == 2 * pow2(e as nat),
                    pow2(e as nat) >= 1,
            ;
            if e + 1 > 63 {
                lemma_pow2_adds(32, 64);
                if (e + 1) as nat > 64 {
                    lemma_pow2_strictly_increases(64, (e + 1) as nat);
                }
                assert((w as int / 2) * pow2((e + 1) as nat) >= 0x1_0000_0000_0000_0000_0000_0000)
                    by (nonlinear_arith)
                    requires
                        w as int / 2 >= 0x1_0000_0000,
                        pow2((e + 1) as nat) >= 0x1_0000_0000_0000_0000,
                ;
                assert(false);
            }
        }
        w = w / 2;
        e = e + 1;
    }
    proof {
        lemma_pow2_pos(e as nat);
    }
    ((w as u64), e)
}

/// One evaluation of the truncated atanh series in fixed point. The series
/// variable `y` must lie at or below roughly one third of the scale, which
/// the range reduction guarantees.
fn atanh_series(y: u64) -> (r: u64)
    requires
        y <= 0x5555_5556,
    ensures
        r == spec_series_sum(y as int, y as int * y as int / 0x1_0000_0000, SERIES_ROUNDS as nat),
        r <= 40 * 0x5555_5556,
{
    proof {
        assert(y as int * y as int <= 0x5555_5556 * 0x5555_5556) by (nonlinear_arith)
            requires
                0 <= y as int && y as int <= 0x5555_5556,
        ;
        assert(y as int * y as int / 0x1_0000_0000 <= y as int) by (nonlinear_arith)
            requires
                0 <= y as int && (y as int) < 0x1_0000_0000,
        ;
    }
    let y2: u64 = ((y as u128 * y as u128) / 0x1_0000_0000) as u64;
    let mut t: u64 = y;
    let mut sum: u64 = y;
    let mut j: u64 = 1;
    while j < SERIES_ROUNDS
        invariant
            y <= 0x5555_5556,
            y2 == y as int * y as int / 0x1_0000_0000,
            y2 <= y,
            t <= y,
            1 <= j <= SERIES_ROUNDS,
            t == spec_series_term(y as int, y2 as int, j as nat),
            sum == spec_series_sum(y as int, y2 as int, j as nat),
            sum <= j * 0x5555_5556,
        decreases SERIES_ROUNDS - j,
    {
        proof {
            assert(t as int * y2 as int / 0x1_0000_0000 <= t as int) by (nonlinear_arith)
                requires
                    0 <= t,
                    0 <= y2 < 0x1_0000_0000,
            ;
        }
        t = ((t as u128 * y2 as u128) / 0x1_0000_0000) as u64;
        sum = sum + t / (2 * j + 1);
        j = j + 1;
    }
    sum
}

/// Fixed-point natural logarithm of `den / num`, for a ratio strictly above
/// one. This is the quantity `ln(1 / p)` for a false positive rate
/// `p = num / den` in (0, 1).
fn ln_ratio_fp(num: u64, den: u64) -> (r: u64)
    requires
        1 <= num < den,
    ensures
        r == spec_ln_ratio(num as int, den as int),
        r <= 0x80_0000_0000,
{
    proof {
        assert(den as int * 0x1_0000_0000 / (num as int) >= 0x1_0000_0000) by (nonlinear_arith)
            requires
                1 <= num as int,
                (num as int) < (den as int),
        ;
        assert(den as int * 0x1_0000_0000 / (num as int) < 0x1_0000_0000_0000_0000_0000_0000) by (
        nonlinear_arith)
            requires
                1 <= num as int,
                (den as int) < 0x1_0000_0000_0000_0000,
        ;
    }
    let q: u128 = (den as u128) * 0x1_0000_0000 / (num as u128);
    let (m, e) = reduce_mantissa(q);
    proof {
        assert((m as int - 0x1_0000_0000) * 0x1_0000_0000 / (m as int + 0x1_0000_0000)
            <= 0x5555_5555) by (nonlinear_arith)
            requires
                0x1_0000_0000 <= (m as int) && (m as int) < 0x2_0000_0000,
        ;
    }
    let y: u64 = (((m - 0x1_0000_0000) as u128 * 0x1_0000_0000) / ((m + 0x1_0000_0000) as u128))
        as u64;
    let sum = atanh_series(y);
    e * LN_2_FP + 2 * sum
}

/// Given a desired false positive rate, calculate the length of the storage
/// array required: `m = ceil(-n * ln(p) / ln(2)^2)`.
pub fn derive_array_length(expected_inserts: u64, false_positive_rate: Rational) -> (r: u64)
    requires
        1 <= expected_inserts,
        false_positive_rate.in_open_unit(),
    ensures
        r == spec_array_length(
            expected_inserts as int,
            false_positive_rate.num as int,
            false_positive_rate.den as int,
        ),
        1 <= r <= usize::MAX,
{
    let mut l: u64 = ln_ratio_fp(false_positive_rate.num, false_positive_rate.den);
    if l < 1 {
        l = 1;
    }
    proof {
        assert(expected_inserts as int * l as int >= 1) by (nonlinear_arith)
            requires
                1 <= expected_inserts as int,
                1 <= l as int,
        ;
        assert((expected_inserts as int * l as int + LN_2_SQ_FP as int - 1) / (LN_2_SQ_FP as int)
            >= 1) by (nonlinear_arith)
            requires
                expected_inserts as int * l as int >= 1,
        ;
        assert(expected_inserts as int * l as int <= 0xFFFF_FFFF_FFFF_FFFF * 0x80_0000_0001) by (
        nonlinear_arith)
            requires
                0 <= expected_inserts as int && expected_inserts as int <= 0xFFFF_FFFF_FFFF_FFFF,
                0 <= l as int && l as int <= 0x80_0000_0001,
        ;
    }
    let raw: u128 = ((expected_inserts as u128) * (l as u128) + (LN_2_SQ_FP as u128) - 1) / (
    LN_2_SQ_FP as u128);
    let cap: u128 = usize::MAX as u128;
    let sat: u128 = if raw > cap {
        cap
    } else {
        raw
    };
    sat as u64
}

/// Calculate the number of hash iterations required:
/// `k = ceil(m / n * ln(2))`.
pub fn derive_hash_count(expected_inserts: u64, len: u64) -> (r: u64)
    requires
        1 <= expected_inserts,
        1 <= len,
    ensures
        r == spec_hash_count(expected_inserts as int, len as int),
        1 <= r,
{
    proof {
        assert(expected_inserts as u128 * FP_SCALE as u128 >= FP_SCALE) by (nonlinear_arith)
            requires
                1 <= expected_inserts as u128,
        ;
        assert(len as int * (LN_2_FP as int) >= 1) by (nonlinear_arith)
            requires
                1 <= len as int,
        ;
        assert((len as int * (LN_2_FP as int) + expected_inserts as int * (FP_SCALE as int) - 1) / (
        expected_inserts as int * (FP_SCALE as int)) >= 1) by (nonlinear_arith)
            requires
                len as int * (LN_2_FP as int) >= 1,
                expected_inserts as int * (FP_SCALE as int) >= 1,
        ;
    }
    let hnum: u128 = (len as u128) * (LN_2_FP as u128);
    let hden: u128 = (expected_inserts as u128) * (FP_SCALE as u128);
    let raw: u128 = (hnum + hden - 1) / hden;
    let cap: u128 = u64::MAX as u128;
    let sat: u128 = if raw > cap {
        cap
    } else {
        raw
    };
    sat as u64
}

} // verus!
