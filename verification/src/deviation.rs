//! When the standard deviation of a series is zero.
//!
//! The deviation itself needs a square root; whether it vanishes does not.
//! With `n` values of total `t`, value `x` deviates from the mean by
//! `(n * x - t) / n`, so the sum of the squares of `n * x - t` is `n * n`
//! times the sum of squared deviations, and zero exactly when that is.

use vstd::prelude::*;
use crate::series::total;

verus! {

/// `n` times the deviation of value `i` from the mean of the series.
pub open spec fn scaled_deviation(s: Seq<i64>, i: int) -> int {
    s.len() * s[i] - total(s)
}

/// Sum of the squared scaled deviations of the first `k` values.
pub open spec fn squared_deviations_upto(s: Seq<i64>, k: int) -> int
    decreases k,
{
    if k <= 0 {
        0
    } else {
        squared_deviations_upto(s, k - 1) + scaled_deviation(s, k - 1) * scaled_deviation(s, k - 1)
    }
}

/// `n * n` times the sum of squared deviations from the mean.
pub open spec fn squared_deviations(s: Seq<i64>) -> int {
    squared_deviations_upto(s, s.len() as int)
}

/// All values of the series are the same.
pub open spec fn all_equal(s: Seq<i64>) -> bool {
    forall|i: int, j: int| 0 <= i < s.len() && 0 <= j < s.len() ==> s[i] == s[j]
}

/// The total of a series of equal values is their count times the value.
pub proof fn lemma_total_of_equal_values(s: Seq<i64>)
    requires
        all_equal(s),
        s.len() > 0,
    ensures
        total(s) == s.len() * s[0],
    decreases s.len(),
{
    if s.len() > 1 {
        let rest = s.drop_last();
        assert(all_equal(rest)) by {
            assert forall|i: int, j: int| 0 <= i < rest.len() && 0 <= j < rest.len() implies rest[i]
                == rest[j] by {
                assert(rest[i] == s[i] && rest[j] == s[j]);
            }
        }
        lemma_total_of_equal_values(rest);
        assert(rest[0] == s[0]);
        assert(s.last() == s[0]);
        assert((s.len() - 1) * s[0] + s[0] == s.len() * s[0]) by (nonlinear_arith);
    } else {
        assert(total(s.drop_last()) == 0);
        assert(s.last() == s[0]);
    }
}

/// A sum of squares is never negative, and vanishes exactly when every
/// term does.
pub proof fn lemma_squares_vanish_together(s: Seq<i64>, k: int)
    requires
        0 <= k <= s.len(),
    ensures
        squared_deviations_upto(s, k) >= 0,
        squared_deviations_upto(s, k) == 0 <==> (forall|i: int|
            0 <= i < k ==> #[trigger] scaled_deviation(s, i) == 0),
    decreases k,
{
    if k > 0 {
        lemma_squares_vanish_together(s, k - 1);
        let d = scaled_deviation(s, k - 1);
        assert(d * d >= 0) by (nonlinear_arith);
        assert(d * d == 0 <==> d == 0) by (nonlinear_arith);
    }
}

/// The standard deviation of a series is zero exactly when all its values
/// are the same; in particular for every series of fewer than two values.
pub proof fn lemma_deviation_vanishes_iff_all_equal(s: Seq<i64>)
    ensures
        squared_deviations(s) == 0 <==> all_equal(s),
        s.len() <= 1 ==> squared_deviations(s) == 0,
{
    let n = s.len() as int;
    lemma_squares_vanish_together(s, n);
    if all_equal(s) {
        if n > 0 {
            lemma_total_of_equal_values(s);
            assert forall|i: int| 0 <= i < n implies #[trigger] scaled_deviation(s, i) == 0 by {
                assert(s[i] == s[0]);
            }
        }
    }
    if squared_deviations(s) == 0 {
        assert forall|i: int, j: int| 0 <= i < n && 0 <= j < n implies s[i] == s[j] by {
            assert(scaled_deviation(s, i) == 0);
            assert(scaled_deviation(s, j) == 0);
            assert(n * s[i] == n * s[j]);
            assert(s[i] == s[j]) by (nonlinear_arith)
                requires
                    n * s[i] == n * s[j],
                    n > 0,
            ;
        }
    }
}

/// Whether the standard deviation of the series is zero.
pub fn deviation_is_zero(values: &Vec<i64>) -> (zero: bool)
    ensures
        zero == (squared_deviations(values@) == 0),
{
    let n = values.len();
    let mut i: usize = 1;
    proof {
        lemma_deviation_vanishes_iff_all_equal(values@);
    }
    while i < n
        invariant
            n == values.len(),
            1 <= i,
            squared_deviations(values@) == 0 <==> all_equal(values@),
            forall|j: int| 0 <= j < i && j < n ==> #[trigger] values@[j] == values@[0],
        decreases n - i,
    {
        if values[i] != values[0] {
            assert(values@[i as int] != values@[0]);
            return false;
        }
        i += 1;
    }
    assert(all_equal(values@)) by {
        assert forall|a: int, b: int| 0 <= a < n && 0 <= b < n implies values@[a] == values@[b] by {
            assert(values@[a] == values@[0]);
            assert(values@[b] == values@[0]);
        }
    }
    true
}

} // verus!
