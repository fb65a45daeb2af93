//! Exact quotients and the outcome kinds of a metric.

use vstd::prelude::*;

verus! {

/// A quotient of two integers, kept unreduced so that no precision is lost.
///
/// Equality of two `Ratio` values is equality of their fields; use
/// [`RatioView::same_value`] to compare the numbers they stand for.
#[derive(Clone, Copy, Debug, PartialEq, Eq, Structural)]
pub struct Ratio {
    pub num: i128,
    pub den: i128,
}

/// The mathematical content of a [`Ratio`]: numerator over denominator.
pub struct RatioView {
    pub num: int,
    pub den: int,
}

impl RatioView {
    /// The quotient `0 / 1`.
    pub open spec fn zero() -> RatioView {
        RatioView { num: 0, den: 1 }
    }

    /// A quotient is well formed when its denominator is positive.
    pub open spec fn wf(self) -> bool {
        self.den > 0
    }

    /// Two well-formed quotients stand for the same number.
    pub open spec fn same_value(self, other: RatioView) -> bool {
        self.num * other.den == other.num * self.den
    }

    /// A well-formed quotient stands for a number below the integer `bound`.
    pub open spec fn below(self, bound: int) -> bool {
        self.num < bound * self.den
    }
}

impl View for Ratio {
    type V = RatioView;

    open spec fn view(&self) -> RatioView {
        RatioView { num: self.num as int, den: self.den as int }
    }
}

impl Ratio {
    /// The ratio `0 / 1`.
    pub fn zero() -> (r: Ratio)
        ensures
            r@ == RatioView::zero(),
    {
        Ratio { num: 0, den: 1 }
    }

    /// Whether the ratio stands for a number below `bound`. The product of
    /// bound and denominator is formed only where it fits; where it does
    /// not, its sign decides.
    pub fn is_below(&self, bound: i64) -> (b: bool)
        ensures
            b == self@.below(bound as int),
    {
        match (bound as i128).checked_mul(self.den) {
            Some(scaled) => self.num < scaled,
            None => {
                proof {
                    let product = bound as int * self.den as int;
                    assert((bound > 0) == (self.den > 0) ==> product > 0) by (nonlinear_arith)
                        requires
                            product == bound as int * self.den as int,
                            product != 0,
                    ;
                    assert((bound > 0) != (self.den > 0) ==> product < 0) by (nonlinear_arith)
                        requires
                            product == bound as int * self.den as int,
                            product != 0,
                    ;
                }
                (bound > 0) == (self.den > 0)
            },
        }
    }

    /// Whether the ratio stands for zero.
    pub fn is_zero(&self) -> (b: bool)
        ensures
            b == (self@.num == 0),
    {
        self.num == 0
    }
}

/// The value of a metric that may be unbounded.
#[derive(Clone, Copy, Debug, PartialEq, Eq, Structural)]
pub enum Metric {
    /// An exact finite value.
    Finite(Ratio),
    /// Positive infinity.
    Infinite,
}

/// The mathematical content of a [`Metric`].
pub enum MetricView {
    Finite(RatioView),
    Infinite,
}

impl View for Metric {
    type V = MetricView;

    open spec fn view(&self) -> MetricView {
        match *self {
            Metric::Finite(r) => MetricView::Finite(r@),
            Metric::Infinite => MetricView::Infinite,
        }
    }
}

/// Which rule of a metric's policy applies to an input.
///
/// Metrics that need a square root or a real power are not evaluated in
/// integers: for them the library decides the rule, and only under
/// `Formula` is there anything left to evaluate.
#[derive(Clone, Copy, Debug, PartialEq, Eq, Structural)]
pub enum MetricRule {
    /// The metric is exactly zero.
    Zero,
    /// The metric is positive infinity.
    Infinite,
    /// The metric is given by its formula.
    Formula,
}

} // verus!
