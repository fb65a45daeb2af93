//! Maximum drawdown of a profit/loss series.

use vstd::prelude::*;
use crate::series::{amount_bound, lemma_prefix_step, lemma_sums_fit, total};

verus! {

/// Cumulative profit/loss after the first `k` values of the series.
pub open spec fn running(s: Seq<i64>, k: int) -> int {
    total(s.take(k))
}

/// The larger of two integers.
pub open spec fn larger(a: int, b: int) -> int {
    if a >= b {
        a
    } else {
        b
    }
}

/// Highest cumulative profit/loss seen over the first `k` values, `k >= 1`.
pub open spec fn peak(s: Seq<i64>, k: int) -> int
    decreases k,
{
    if k <= 1 {
        running(s, 1)
    } else {
        larger(peak(s, k - 1), running(s, k))
    }
}

/// Decline from the running peak to the cumulative value after `k` values.
pub open spec fn drawdown_at(s: Seq<i64>, k: int) -> int {
    peak(s, k) - running(s, k)
}

/// Largest drawdown observed over the first `k` values.
pub open spec fn max_drawdown_upto(s: Seq<i64>, k: int) -> int
    decreases k,
{
    if k <= 0 {
        0
    } else {
        larger(max_drawdown_upto(s, k - 1), drawdown_at(s, k))
    }
}

/// Maximum drawdown of the series; zero for the empty series.
pub open spec fn max_drawdown_of(s: Seq<i64>) -> int {
    max_drawdown_upto(s, s.len() as int)
}

/// The drawdown after a value is the previous drawdown less that value, and
/// never below zero.
pub proof fn lemma_drawdown_step(s: Seq<i64>, k: int)
    requires
        2 <= k <= s.len(),
    ensures
        drawdown_at(s, k) == larger(drawdown_at(s, k - 1) - s[k - 1], 0),
{
    lemma_prefix_step(s, k - 1);
}

/// Drawdowns are never negative and grow by at most one amount per value.
pub proof fn lemma_drawdown_bounds(s: Seq<i64>, k: int)
    requires
        0 <= k <= s.len(),
    ensures
        k >= 1 ==> 0 <= drawdown_at(s, k) <= (k - 1) * amount_bound(),
        0 <= max_drawdown_upto(s, k) <= k * amount_bound(),
    decreases k,
{
    if k >= 1 {
        lemma_drawdown_bounds(s, k - 1);
        if k >= 2 {
            lemma_drawdown_step(s, k);
        }
        assert((k - 2) * amount_bound() + amount_bound() == (k - 1) * amount_bound())
            by (nonlinear_arith);
        assert((k - 1) * amount_bound() <= k * amount_bound()) by (nonlinear_arith);
    }
}

/// The running peak is one of the cumulative values seen so far and no
/// smaller than any of them.
pub proof fn lemma_peak_is_highest(s: Seq<i64>, k: int)
    requires
        1 <= k,
    ensures
        forall|j: int| 1 <= j <= k ==> #[trigger] running(s, j) <= peak(s, k),
        exists|j: int| 1 <= j <= k && #[trigger] running(s, j) == peak(s, k),
    decreases k,
{
    if k > 1 {
        lemma_peak_is_highest(s, k - 1);
        let j0 = choose|j: int| 1 <= j <= k - 1 && #[trigger] running(s, j) == peak(s, k - 1);
        if peak(s, k - 1) >= running(s, k) {
            assert(running(s, j0) == peak(s, k));
        } else {
            assert(running(s, k) == peak(s, k));
        }
    } else {
        assert(running(s, 1) == peak(s, k));
    }
}

/// The maximum drawdown is never negative.
pub proof fn lemma_max_drawdown_nonnegative(s: Seq<i64>)
    ensures
        max_drawdown_of(s) >= 0,
{
    lemma_drawdown_bounds(s, s.len() as int);
}

/// A series whose cumulative profit/loss never falls has no drawdown.
pub proof fn lemma_no_drawdown_when_never_falling(s: Seq<i64>)
    requires
        forall|k: int| 1 <= k < s.len() ==> #[trigger] running(s, k) <= running(s, k + 1),
    ensures
        max_drawdown_of(s) == 0,
{
    lemma_never_falling_upto(s, s.len() as int);
}

proof fn lemma_never_falling_upto(s: Seq<i64>, k: int)
    requires
        0 <= k <= s.len(),
        forall|i: int| 1 <= i < s.len() ==> #[trigger] running(s, i) <= running(s, i + 1),
    ensures
        k >= 1 ==> peak(s, k) == running(s, k),
        max_drawdown_upto(s, k) == 0,
    decreases k,
{
    if k >= 1 {
        lemma_never_falling_upto(s, k - 1);
        if k >= 2 {
            assert(running(s, k - 1) <= running(s, (k - 1) + 1));
        }
    }
}

/// The maximum drawdown is the largest decline from any cumulative value to
/// a later one: no decline exceeds it, and on a non-empty series one
/// decline attains it.
pub proof fn lemma_max_drawdown_is_largest_decline(s: Seq<i64>)
    ensures
        forall|j: int, k: int|
            1 <= j <= k <= s.len() ==> #[trigger] running(s, j) - #[trigger] running(s, k)
                <= max_drawdown_of(s),
        s.len() > 0 ==> exists|j: int, k: int|
            1 <= j <= k <= s.len() && #[trigger] running(s, j) - #[trigger] running(s, k)
                == max_drawdown_of(s),
{
    lemma_largest_decline_upto(s, s.len() as int);
}

proof fn lemma_largest_decline_upto(s: Seq<i64>, n: int)
    requires
        0 <= n <= s.len(),
    ensures
        forall|j: int, k: int|
            1 <= j <= k <= n ==> #[trigger] running(s, j) - #[trigger] running(s, k)
                <= max_drawdown_upto(s, n),
        n > 0 ==> exists|j: int, k: int|
            1 <= j <= k <= n && #[trigger] running(s, j) - #[trigger] running(s, k)
                == max_drawdown_upto(s, n),
    decreases n,
{
    if n > 0 {
        lemma_largest_decline_upto(s, n - 1);
        lemma_peak_is_highest(s, n);
        let jp = choose|j: int| 1 <= j <= n && #[trigger] running(s, j) == peak(s, n);
        assert forall|j: int, k: int| 1 <= j <= k <= n implies #[trigger] running(s, j)
            - #[trigger] running(s, k) <= max_drawdown_upto(s, n) by {
            if k == n {
                assert(running(s, j) <= peak(s, n));
            }
        }
        if n == 1 {
            assert(running(s, 1) - running(s, 1) == max_drawdown_upto(s, 1));
        } else if drawdown_at(s, n) >= max_drawdown_upto(s, n - 1) {
            assert(running(s, jp) - running(s, n) == max_drawdown_upto(s, n));
        } else {
            let (j1, k1) = choose|j: int, k: int|
                1 <= j <= k <= n - 1 && #[trigger] running(s, j) - #[trigger] running(s, k)
                    == max_drawdown_upto(s, n - 1);
            assert(running(s, j1) - running(s, k1) == max_drawdown_upto(s, n));
        }
    }
}

/// Maximum drawdown of the series: follow the cumulative profit/loss, keep
/// its running peak, and report the largest decline from the peak.
pub fn max_drawdown(profits: &Vec<i64>) -> (dd: i128)
    ensures
        dd == max_drawdown_of(profits@),
        dd >= 0,
{
    let n = profits.len();
    if n == 0 {
        return 0;
    }
    let mut high: i128 = profits[0] as i128;
    let mut cumulative: i128 = 0;
    let mut dd: i128 = 0;
    let mut i: usize = 0;
    proof {
        assert(profits@.take(0).len() == 0);
        lemma_prefix_step(profits@, 0);
    }
    while i < n
        invariant
            n == profits.len(),
            n > 0,
            i <= n,
            cumulative == running(profits@, i as int),
            i == 0 ==> high == running(profits@, 1),
            i > 0 ==> high == peak(profits@, i as int),
            dd == max_drawdown_upto(profits@, i as int),
        decreases n - i,
    {
        proof {
            lemma_prefix_step(profits@, i as int);
            lemma_sums_fit(profits@.take(i + 1));
            lemma_drawdown_bounds(profits@, i + 1);
            assert((i + 1) * amount_bound() <= 0xffff_ffff_ffff_ffff * amount_bound())
                by (nonlinear_arith)
                requires
                    i + 1 <= 0xffff_ffff_ffff_ffff,
            ;
        }
        cumulative = cumulative + profits[i] as i128;
        if cumulative > high {
            high = cumulative;
        }
        let drawdown = high - cumulative;
        if drawdown > dd {
            dd = drawdown;
        }
        i += 1;
    }
    proof {
        lemma_max_drawdown_nonnegative(profits@);
    }
    dd
}

} // verus!
