//! The mean of a sequence of scores, rounded to hundredths.

use crate::record::Hundredths;
use vstd::arithmetic::div_mod::{lemma_fundamental_div_mod, lemma_fundamental_div_mod_converse};
use vstd::prelude::*;

verus! {

/// The sum of `scores`.
pub open spec fn sum_of(scores: Seq<i64>) -> int
    decreases scores.len(),
{
    if scores.len() == 0 {
        0
    } else {
        sum_of(scores.drop_last()) + scores.last()
    }
}

/// The integer nearest to `num / den`, a tie going away from zero.
pub open spec fn round_half_away(num: int, den: int) -> int
    recommends
        den > 0,
{
    if num >= 0 {
        (2 * num + den) / (2 * den)
    } else {
        -((2 * (-num) + den) / (2 * den))
    }
}

/// The mean of `scores` in hundredths, rounded to the nearest hundredth.
pub open spec fn mean_hundredths(scores: Seq<i64>) -> int
    recommends
        scores.len() > 0,
{
    round_half_away(100 * sum_of(scores), scores.len() as int)
}

/// The rounded mean of `scores`, if there are any.
pub open spec fn mean_of(scores: Seq<i64>) -> Option<Hundredths> {
    if scores.len() > 0 {
        Some(Hundredths { value: mean_hundredths(scores) as i128 })
    } else {
        None
    }
}

/// The largest magnitude of a score.
pub open spec fn score_limit() -> int {
    0x8000_0000_0000_0000
}

/// A sum of `n` scores lies within `n` times the largest magnitude.
pub proof fn lemma_sum_bounds(scores: Seq<i64>)
    ensures
        -(scores.len() * score_limit()) <= sum_of(scores) <= scores.len() * score_limit(),
    decreases scores.len(),
{
    if scores.len() > 0 {
        lemma_sum_bounds(scores.drop_last());
        let n = scores.len() as int;
        assert(n * score_limit() == (n - 1) * score_limit() + score_limit())
            by (nonlinear_arith);
    }
}

/// The sum of `scores`.
pub fn total(scores: &Vec<i64>) -> (sum: i128)
    ensures
        sum == sum_of(scores@),
{
    let mut sum: i128 = 0;
    let mut i: usize = 0;
    while i < scores.len()
        invariant
            i <= scores.len(),
            sum == sum_of(scores@.take(i as int)),
        decreases scores.len() - i,
    {
        proof {
            let upto = scores@.take(i + 1);
            assert(upto.drop_last() =~= scores@.take(i as int));
            lemma_sum_bounds(upto);
            assert(upto.len() * score_limit() <= 0xffff_ffff_ffff_ffff * score_limit())
                by (nonlinear_arith)
                requires
                    upto.len() <= 0xffff_ffff_ffff_ffff,
            ;
        }
        sum = sum + scores[i] as i128;
        i += 1;
    }
    proof {
        assert(scores@.take(i as int) =~= scores@);
    }
    sum
}

/// Rounding a quotient can be done on the remainder alone: with
/// `m == q * d + r`, the rounded value of `100 * m / d` is `100 * q` plus the
/// rounded value of `100 * r / d`.
proof fn lemma_round_by_parts(m: int, d: int, q: int, r: int)
    requires
        d > 0,
        0 <= r < d,
        m == q * d + r,
    ensures
        (2 * (100 * m) + d) / (2 * d) == 100 * q + (200 * r + d) / (2 * d),
{
    let b = 200 * r + d;
    let dd = 2 * d;
    lemma_fundamental_div_mod(b, dd);
    let x = 2 * (100 * m) + d;
    assert(x == (100 * q + b / dd) * dd + b % dd) by (nonlinear_arith)
        requires
            x == 2 * (100 * m) + d,
            m == q * d + r,
            b == 200 * r + d,
            dd == 2 * d,
            b == dd * (b / dd) + b % dd,
    ;
    assert(0 <= b % dd < dd) by (nonlinear_arith)
        requires
            dd > 0,
    ;
    lemma_fundamental_div_mod_converse(x, dd, 100 * q + b / dd, b % dd);
}

/// The rounded mean of `scores`, if there are any.
pub fn mean(scores: &Vec<i64>) -> (r: Option<Hundredths>)
    ensures
        r == mean_of(scores@),
        r matches Some(h) ==> h.value == mean_hundredths(scores@),
{
    let n = scores.len();
    if n == 0 {
        return None;
    }
    let sum = total(scores);
    proof {
        lemma_sum_bounds(scores@);
        assert(n * score_limit() <= 0xffff_ffff_ffff_ffff * score_limit()) by (nonlinear_arith)
            requires
                n <= 0xffff_ffff_ffff_ffff,
        ;
    }
    let negative = sum < 0;
    let m: u128 = if negative {
        (-sum) as u128
    } else {
        sum as u128
    };
    let d: u128 = n as u128;
    let q: u128 = m / d;
    let r: u128 = m % d;
    proof {
        lemma_fundamental_div_mod(m as int, d as int);
        assert(q <= score_limit()) by (nonlinear_arith)
            requires
                m == d * q + r,
                0 <= r,
                0 < d,
                m <= d * score_limit(),
        ;
        lemma_round_by_parts(m as int, d as int, q as int, r as int);
    }
    let h: u128 = 100 * q + (200 * r + d) / (2 * d);
    proof {
        assert((200 * r + d) / (2 * d) <= 100) by (nonlinear_arith)
            requires
                0 <= r < d,
        ;
    }
    let value: i128 = if negative {
        -(h as i128)
    } else {
        h as i128
    };
    Some(Hundredths { value })
}

/// The rounded mean is a nearest hundredth: it differs from the true mean by
/// at most half a hundredth.
pub proof fn lemma_mean_is_nearest(scores: Seq<i64>)
    requires
        scores.len() > 0,
    ensures
        ({
            let n = scores.len() as int;
            let off = mean_hundredths(scores) * n - 100 * sum_of(scores);
            -n <= 2 * off <= n
        }),
{
    let n = scores.len() as int;
    let s = 100 * sum_of(scores);
    let num = if s >= 0 {
        s
    } else {
        -s
    };
    let x = 2 * num + n;
    let dd = 2 * n;
    lemma_fundamental_div_mod(x, dd);
    assert(0 <= x % dd < dd) by (nonlinear_arith)
        requires
            dd > 0,
    ;
    let k = x / dd;
    assert(-n <= 2 * (k * n - num) <= n) by (nonlinear_arith)
        requires
            x == dd * k + x % dd,
            0 <= x % dd < dd,
            x == 2 * num + n,
            dd == 2 * n,
    ;
    if s < 0 {
        assert((-k) * n == -(k * n)) by (nonlinear_arith);
    }
}

} // verus!
