use vstd::prelude::*;
use vstd::relations::{sorted_by, total_ordering};

verus! {

/// Summary statistics of a series of non-negative values.
///
/// The median is kept as its two central elements of the sorted series
/// (equal for an odd count), so that it is exact: the median is
/// `(median_low + median_high) / 2`. The mean and the standard deviation use
/// the count of values as denominator (population statistics).
#[derive(Clone, Copy, Debug, PartialEq, Eq, Structural)]
pub struct Metrics {
    pub count: u64,
    pub min: u128,
    pub max: u128,
    pub median_low: u128,
    pub median_high: u128,
    /// Sum of the values, `None` where it exceeds 128 bits.
    pub sum: Option<u128>,
    /// Mean rounded down, `None` for an empty series.
    pub mean: Option<u128>,
    /// Standard deviation rounded down, `None` for an empty series and where
    /// its accumulators do not fit in 128 bits: the sum, the count times the
    /// sum of squares, or the square of the sum exceeds `u128::MAX` (as it
    /// does once a value reaches 2^64).
    pub std_deviation: Option<u128>,
}

/// The order by which values are sorted.
pub open spec fn value_leq() -> spec_fn(u128, u128) -> bool {
    |a: u128, b: u128| a <= b
}

/// The values in ascending order.
pub open spec fn sorted_values(vals: Seq<u128>) -> Seq<u128> {
    vals.sort_by(value_leq())
}

pub open spec fn seq_min(vals: Seq<u128>) -> u128
    decreases vals.len(),
{
    if vals.len() <= 1 {
        if vals.len() == 0 { 0 } else { vals[0] }
    } else {
        let m = seq_min(vals.drop_last());
        if vals.last() < m { vals.last() } else { m }
    }
}

pub open spec fn seq_max(vals: Seq<u128>) -> u128
    decreases vals.len(),
{
    if vals.len() <= 1 {
        if vals.len() == 0 { 0 } else { vals[0] }
    } else {
        let m = seq_max(vals.drop_last());
        if vals.last() > m { vals.last() } else { m }
    }
}

pub open spec fn seq_sum(vals: Seq<u128>) -> int
    decreases vals.len(),
{
    if vals.len() == 0 { 0 } else { seq_sum(vals.drop_last()) + vals.last() }
}

pub open spec fn seq_sum_sq(vals: Seq<u128>) -> int
    decreases vals.len(),
{
    if vals.len() == 0 { 0 } else { seq_sum_sq(vals.drop_last()) + vals.last() * vals.last() }
}

/// `r` is the integer square root of `d`.
pub open spec fn is_isqrt(r: int, d: int) -> bool {
    0 <= r && r * r <= d < (r + 1) * (r + 1)
}

/// `n` times the population variance times `n`: `n * Σx² - (Σx)²`, never
/// negative for real data; clamped at zero.
pub open spec fn scaled_variance(vals: Seq<u128>) -> int {
    let d = vals.len() * seq_sum_sq(vals) - seq_sum(vals) * seq_sum(vals);
    if d >= 0 { d } else { 0 }
}

/// The accumulators of the standard deviation fit in 128 bits.
pub open spec fn squares_fit(vals: Seq<u128>) -> bool {
    &&& seq_sum(vals) <= u128::MAX
    &&& vals.len() * seq_sum_sq(vals) <= u128::MAX
    &&& seq_sum(vals) * seq_sum(vals) <= u128::MAX
}

/// The summary of a series of values.
pub open spec fn summary_matches(vals: Seq<u128>, m: Metrics) -> bool {
    let n = vals.len() as int;
    &&& m.count == n
    &&& m.min == seq_min(vals)
    &&& m.max == seq_max(vals)
    &&& (n == 0 ==> m.median_low == 0 && m.median_high == 0)
    &&& (n > 0 ==> m.median_low == sorted_values(vals)[(n - 1) / 2] && m.median_high == sorted_values(vals)[n / 2])
    &&& m.sum == if seq_sum(vals) <= u128::MAX { Some(seq_sum(vals) as u128) } else { None::<u128> }
    &&& m.mean == if n > 0 { Some((seq_sum(vals) / n as int) as u128) } else { None::<u128> }
    &&& (m.std_deviation is Some <==> (n > 0 && squares_fit(vals)))
    &&& (m.std_deviation is Some ==> exists|r: int| is_isqrt(r, scaled_variance(vals)) && m.std_deviation->0 == r / n as int)
}

impl Metrics {
    /// The summary of an empty series.
    pub fn new() -> (r: Metrics)
        ensures
            summary_matches(seq![], r),
    {
        Metrics {
            count: 0,
            min: 0,
            max: 0,
            median_low: 0,
            median_high: 0,
            sum: Some(0),
            mean: None,
            std_deviation: None,
        }
    }
}

/// Sorts a vector of values in ascending order.
///
/// Relies on `slice::sort_unstable`: it sorts in ascending order and keeps
/// every element.
#[verifier::external_body]
fn sort_values(v: &mut Vec<u128>)
    ensures
        final(v)@.to_multiset() == old(v)@.to_multiset(),
        sorted_by(final(v)@, value_leq()),
{
    v.sort_unstable();
}

proof fn lemma_value_leq_total()
    ensures
        total_ordering(value_leq()),
{
    reveal(vstd::relations::total_ordering);
}

proof fn lemma_sum_nonneg(vals: Seq<u128>)
    ensures
        seq_sum(vals) >= 0,
        seq_sum_sq(vals) >= 0,
    decreases vals.len(),
{
    if vals.len() > 0 {
        lemma_sum_nonneg(vals.drop_last());
        assert(vals.last() * vals.last() >= 0) by (nonlinear_arith);
    }
}

/// The integer square root of `d`.
pub fn isqrt(d: u128) -> (r: u64)
    ensures
        is_isqrt(r as int, d as int),
{
    let mut lo: u128 = 0;
    let mut hi: u128 = 0x1_0000_0000_0000_0000;
    assert(hi * hi > u128::MAX) by (nonlinear_arith)
        requires
            hi == 0x1_0000_0000_0000_0000u128,
    ;
    while hi - lo > 1
        invariant
            lo < hi <= 0x1_0000_0000_0000_0000,
            lo * lo <= d,
            hi * hi > d,
        decreases hi - lo,
    {
        let mid = lo + (hi - lo) / 2;
        assert(mid * mid <= hi * hi) by (nonlinear_arith)
            requires
                0 <= mid <= hi,
        ;
        assert(mid * mid <= 0x1_0000_0000_0000_0000 * 0x1_0000_0000_0000_0000) by (nonlinear_arith)
            requires
                0 <= mid <= 0x1_0000_0000_0000_0000,
        ;
        let small = mid <= 0xffff_ffff_ffff_ffff;
        if small {
            assert(mid * mid <= 0xffff_ffff_ffff_ffff * 0xffff_ffff_ffff_ffff) by (nonlinear_arith)
                requires
                    0 <= mid <= 0xffff_ffff_ffff_ffff,
            ;
        }
        if small && mid * mid <= d {
            lo = mid;
        } else {
            if mid > 0xffff_ffff_ffff_ffff {
                assert(mid * mid > d) by (nonlinear_arith)
                    requires
                        mid >= 0x1_0000_0000_0000_0000,
                        d <= u128::MAX,
                ;
            }
            hi = mid;
        }
    }
    assert(lo < 0x1_0000_0000_0000_0000);
    lo as u64
}

/// The integer square root is unique, so the standard deviation that a
/// summary states is determined by the values.
pub proof fn lemma_isqrt_unique(r1: int, r2: int, d: int)
    requires
        is_isqrt(r1, d),
        is_isqrt(r2, d),
    ensures
        r1 == r2,
{
    if r1 < r2 {
        assert((r1 + 1) * (r1 + 1) <= r2 * r2) by (nonlinear_arith)
            requires
                0 <= r1 < r2,
        ;
    }
    if r2 < r1 {
        assert((r2 + 1) * (r2 + 1) <= r1 * r1) by (nonlinear_arith)
            requires
                0 <= r2 < r1,
        ;
    }
}

/// Computes the summary statistics of a series of values.
pub fn summarize(values: &Vec<u128>) -> (m: Metrics)
    ensures
        summary_matches(values@, m),
{
    let n = values.len();
    let ghost vals = values@;
    if n == 0 {
        assert(vals =~= seq![]);
        return Metrics::new();
    }
    // Minimum, maximum, sums, sums of squares and a copy to sort, in one pass.
    let mut min = values[0];
    let mut max = values[0];
    let mut sum: Option<u128> = Some(0);
    let mut sum_sq: Option<u128> = Some(0);
    let mut sorted: Vec<u128> = Vec::new();
    // The total is also kept as its quotient and remainder by the count, which
    // gives the exact mean however large the sum.
    let d = n as u128;
    let mut q: u128 = 0;
    let mut rem: u128 = 0;
    proof {
        vstd::arithmetic::div_mod::lemma_fundamental_div_mod_converse(0, d as int, 0, 0);
    }
    for i in 0..n
        invariant
            d == n,
            q == seq_sum(vals.take(i as int)) / (d as int),
            rem == seq_sum(vals.take(i as int)) % (d as int),
            seq_sum(vals.take(i as int)) == q * d + rem,
            rem < d,
            seq_sum(vals.take(i as int)) <= i * u128::MAX,
            n == vals.len(),
            vals == values@,
            n > 0,
            sorted@ == vals.take(i as int),
            i > 0 ==> min == seq_min(vals.take(i as int)),
            i > 0 ==> max == seq_max(vals.take(i as int)),
            i == 0 ==> min == vals[0] && max == vals[0],
            sum == if seq_sum(vals.take(i as int)) <= u128::MAX { Some(seq_sum(vals.take(i as int)) as u128) } else { None::<u128> },
            sum_sq == if seq_sum_sq(vals.take(i as int)) <= u128::MAX { Some(seq_sum_sq(vals.take(i as int)) as u128) } else { None::<u128> },
    {
        let x = values[i];
        let ghost pre = vals.take(i as int);
        let ghost next = vals.take(i + 1);
        assert(next.drop_last() =~= pre);
        assert(next.last() == x);
        proof {
            lemma_sum_nonneg(pre);
        }
        if i == 0 {
            assert(next.len() == 1);
        } else {
            if x < min {
                min = x;
            }
            if x > max {
                max = x;
            }
        }
        sum = match sum {
            Some(s) => s.checked_add(x),
            None => None,
        };
        assert(x * x >= 0) by (nonlinear_arith);
        let sq: Option<u128> = x.checked_mul(x);
        sum_sq = match (sum_sq, sq) {
            (Some(s), Some(q)) => s.checked_add(q),
            _ => None,
        };
        sorted.push(x);
        let qx = x / d;
        let rx = x % d;
        proof {
            vstd::arithmetic::div_mod::lemma_fundamental_div_mod(x as int, d as int);
        }
        let ghost total = seq_sum(next);
        assert(total <= (i + 1) * u128::MAX) by (nonlinear_arith)
            requires
                total == seq_sum(pre) + x,
                seq_sum(pre) <= i * u128::MAX,
                x <= u128::MAX,
        ;
        assert(total == (q as int + qx as int) * d + rem + rx) by (nonlinear_arith)
            requires
                total == seq_sum(pre) + x,
                seq_sum(pre) == q * d + rem,
                x == d * qx + rx,
        ;
        let ghost q_new: int;
        let ghost r_new: int;
        if rem + rx >= d {
            proof {
                q_new = q + qx + 1;
                r_new = rem + rx - d;
            }
        } else {
            proof {
                q_new = q + qx;
                r_new = rem + rx;
            }
        }
        assert(total == q_new * d + r_new) by (nonlinear_arith)
            requires
                total == (q as int + qx as int) * d + rem + rx,
                q_new == q + qx + 1 ==> r_new == rem + rx - d,
                q_new == q + qx ==> r_new == rem + rx,
                q_new == q + qx + 1 || q_new == q + qx,
        ;
        proof {
            vstd::arithmetic::div_mod::lemma_fundamental_div_mod_converse(total, d as int, q_new, r_new);
            lemma_sum_nonneg(next);
            vstd::arithmetic::div_mod::lemma_div_is_ordered(total, d * u128::MAX, d as int);
            vstd::arithmetic::div_mod::lemma_div_by_multiple(u128::MAX as int, d as int);
            assert((i + 1) * u128::MAX <= d * u128::MAX) by (nonlinear_arith)
                requires
                    i + 1 <= d,
            ;
            vstd::arithmetic::mul::lemma_mul_is_commutative(d as int, u128::MAX as int);
        }
        if rem + rx >= d {
            rem = rem + rx - d;
            q = q + qx + 1;
        } else {
            rem = rem + rx;
            q = q + qx;
        }
    }
    assert(vals.take(n as int) =~= vals);
    proof {
        lemma_sum_nonneg(vals);
    }
    sort_values(&mut sorted);
    proof {
        lemma_value_leq_total();
        sorted@.to_multiset_ensures();
        vals.to_multiset_ensures();
        assert(sorted@.len() == vals.len());
        vals.lemma_sort_by_ensures(value_leq());
        vstd::seq_lib::lemma_sorted_unique(sorted@, vals.sort_by(value_leq()), value_leq());
    }
    let median_low = sorted[(n - 1) / 2];
    let median_high = sorted[n / 2];
    let mean = Some(q);
    let std_deviation = match (sum, sum_sq) {
        (Some(s), Some(q)) => {
            let nq = (n as u128).checked_mul(q);
            let ss = s.checked_mul(s);
            match (nq, ss) {
                (Some(a), Some(b)) => {
                    let d = if a >= b { a - b } else { 0 };
                    let root = isqrt(d);
                    assert(d as int == scaled_variance(vals));
                    assert(is_isqrt(root as int, scaled_variance(vals)));
                    Some((root as u128) / (n as u128))
                },
                _ => None,
            }
        },
        _ => {
            proof {
                if sum is Some {
                    assert(seq_sum_sq(vals) > u128::MAX);
                    assert(n * seq_sum_sq(vals) >= seq_sum_sq(vals)) by (nonlinear_arith)
                        requires
                            n >= 1,
                            seq_sum_sq(vals) >= 0,
                    ;
                }
            }
            None
        },
    };
    Metrics { count: n as u64, min, max, median_low, median_high, sum, mean, std_deviation }
}

} // verus!
