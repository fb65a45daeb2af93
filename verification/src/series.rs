//! Sums over a series of realized profit/loss values.

use vstd::prelude::*;

verus! {

/// Largest magnitude of a single `i64` amount.
pub open spec fn amount_bound() -> int {
    0x8000_0000_0000_0000
}

/// Sum of all values of the series.
pub open spec fn total(s: Seq<i64>) -> int
    decreases s.len(),
{
    if s.len() == 0 {
        0
    } else {
        total(s.drop_last()) + s.last()
    }
}

/// The profit carried by one value: the value itself when positive, else zero.
pub open spec fn gain(x: i64) -> int {
    if x > 0 {
        x as int
    } else {
        0
    }
}

/// The loss carried by one value: its magnitude when negative, else zero.
pub open spec fn loss(x: i64) -> int {
    if x < 0 {
        -(x as int)
    } else {
        0
    }
}

/// Sum of the positive values of the series.
pub open spec fn total_gain(s: Seq<i64>) -> int
    decreases s.len(),
{
    if s.len() == 0 {
        0
    } else {
        total_gain(s.drop_last()) + gain(s.last())
    }
}

/// Magnitude of the sum of the negative values of the series.
pub open spec fn total_loss(s: Seq<i64>) -> int
    decreases s.len(),
{
    if s.len() == 0 {
        0
    } else {
        total_loss(s.drop_last()) + loss(s.last())
    }
}

/// Extending a prefix by one element adds that element to each sum.
pub proof fn lemma_prefix_step(s: Seq<i64>, i: int)
    requires
        0 <= i < s.len(),
    ensures
        total(s.take(i + 1)) == total(s.take(i)) + s[i],
        total_gain(s.take(i + 1)) == total_gain(s.take(i)) + gain(s[i]),
        total_loss(s.take(i + 1)) == total_loss(s.take(i)) + loss(s[i]),
{
    assert(s.take(i + 1).drop_last() =~= s.take(i));
    assert(s.take(i + 1).last() == s[i]);
}

/// Every sum of a series is bounded by its length times the amount bound.
pub proof fn lemma_sum_bounds(s: Seq<i64>)
    ensures
        -s.len() * amount_bound() <= total(s) <= s.len() * amount_bound(),
        0 <= total_gain(s) <= s.len() * amount_bound(),
        0 <= total_loss(s) <= s.len() * amount_bound(),
    decreases s.len(),
{
    if s.len() > 0 {
        lemma_sum_bounds(s.drop_last());
        assert(s.drop_last().len() == s.len() - 1);
        assert((s.len() - 1) * amount_bound() + amount_bound() == s.len() * amount_bound())
            by (nonlinear_arith);
        assert(-(s.len() - 1) * amount_bound() - amount_bound() == -s.len() * amount_bound())
            by (nonlinear_arith);
    }
}

/// The sums of a series that fits in memory fit in an `i128`.
pub proof fn lemma_sums_fit(s: Seq<i64>)
    requires
        s.len() <= usize::MAX,
    ensures
        i128::MIN < total(s) < i128::MAX,
        0 <= total_gain(s) < i128::MAX,
        0 <= total_loss(s) < i128::MAX,
{
    lemma_sum_bounds(s);
    assert(s.len() * amount_bound() <= 0xffff_ffff_ffff_ffff * amount_bound()) by (nonlinear_arith)
        requires
            s.len() <= 0xffff_ffff_ffff_ffff,
    ;
}

/// Net result is gross profit less gross loss.
pub proof fn lemma_net_is_gain_less_loss(s: Seq<i64>)
    ensures
        total(s) == total_gain(s) - total_loss(s),
    decreases s.len(),
{
    if s.len() > 0 {
        lemma_net_is_gain_less_loss(s.drop_last());
    }
}

/// Net profit of the series: the exact sum of its values.
pub fn net_profit(profits: &Vec<i64>) -> (net: i128)
    ensures
        net == total(profits@),
{
    let mut net: i128 = 0;
    let mut i: usize = 0;
    while i < profits.len()
        invariant
            i <= profits.len(),
            net == total(profits@.take(i as int)),
        decreases profits.len() - i,
    {
        proof {
            lemma_prefix_step(profits@, i as int);
            lemma_sums_fit(profits@.take(i + 1));
        }
        net = net + profits[i] as i128;
        i += 1;
    }
    proof {
        assert(profits@.take(profits.len() as int) =~= profits@);
    }
    net
}

/// Gross profit of the series: the exact sum of its positive values.
pub fn gross_profit(profits: &Vec<i64>) -> (gross: i128)
    ensures
        gross == total_gain(profits@),
        gross >= 0,
{
    let mut gross: i128 = 0;
    let mut i: usize = 0;
    while i < profits.len()
        invariant
            i <= profits.len(),
            gross == total_gain(profits@.take(i as int)),
        decreases profits.len() - i,
    {
        proof {
            lemma_prefix_step(profits@, i as int);
            lemma_sums_fit(profits@.take(i + 1));
        }
        if profits[i] > 0 {
            gross = gross + profits[i] as i128;
        }
        i += 1;
    }
    proof {
        assert(profits@.take(profits.len() as int) =~= profits@);
        lemma_sum_bounds(profits@);
    }
    gross
}

/// Gross loss of the series: the magnitude of the exact sum of its negative
/// values, so never negative.
pub fn gross_loss(profits: &Vec<i64>) -> (gross: i128)
    ensures
        gross == total_loss(profits@),
        gross >= 0,
{
    let mut gross: i128 = 0;
    let mut i: usize = 0;
    while i < profits.len()
        invariant
            i <= profits.len(),
            gross == total_loss(profits@.take(i as int)),
        decreases profits.len() - i,
    {
        proof {
            lemma_prefix_step(profits@, i as int);
            lemma_sums_fit(profits@.take(i + 1));
        }
        if profits[i] < 0 {
            gross = gross - profits[i] as i128;
        }
        i += 1;
    }
    proof {
        assert(profits@.take(profits.len() as int) =~= profits@);
        lemma_sum_bounds(profits@);
    }
    gross
}

} // verus!
