//! The metric library: pure functions from a trade history to its
//! statistics, each with its policy for empty and degenerate input.

use vstd::prelude::*;
use crate::deviation::{
    deviation_is_zero, lemma_deviation_vanishes_iff_all_equal, squared_deviations,
};
use crate::drawdown::{max_drawdown, max_drawdown_of};
use crate::ratio::{Metric, MetricRule, MetricView, Ratio, RatioView};
use crate::series::{
    gross_loss, gross_profit, lemma_sum_bounds, lemma_sums_fit, net_profit, total, total_gain,
    total_loss,
};
use crate::trade::{
    all_closed, count_losses, count_wins, lemma_wins_and_losses, losses_of, profit_series, profits_of,
    wins_of, Trade,
};

verus! {

/// Win rate in percent: winning over closed trades times one hundred, and
/// zero where no trade is closed.
pub open spec fn win_rate_of(winning: nat, closed: nat) -> RatioView {
    if closed == 0 {
        RatioView::zero()
    } else {
        RatioView { num: 100 * (winning as int), den: closed as int }
    }
}

/// Profit factor: gross profit over gross loss, and positive infinity where
/// the gross loss is zero.
pub open spec fn profit_factor_of(profits: Seq<i64>) -> MetricView {
    if total_loss(profits) == 0 {
        MetricView::Infinite
    } else {
        MetricView::Finite(RatioView { num: total_gain(profits), den: total_loss(profits) })
    }
}

/// Average result per trade: the net profit over the number of values, and
/// zero for the empty series.
pub open spec fn average_of(profits: Seq<i64>) -> RatioView {
    if profits.len() == 0 {
        RatioView::zero()
    } else {
        RatioView { num: total(profits), den: profits.len() as int }
    }
}

/// Average win: gross profit over the number of winning trades, and zero
/// where no trade has won.
pub open spec fn average_win_of(closed: Seq<Trade>) -> RatioView {
    if wins_of(closed) == 0 {
        RatioView::zero()
    } else {
        RatioView { num: total_gain(profits_of(closed)), den: wins_of(closed) as int }
    }
}

/// Average loss: gross loss over the number of losing trades, and zero
/// where no trade has lost.
pub open spec fn average_loss_of(closed: Seq<Trade>) -> RatioView {
    if losses_of(closed) == 0 {
        RatioView::zero()
    } else {
        RatioView { num: total_loss(profits_of(closed)), den: losses_of(closed) as int }
    }
}

/// Expectancy of a history of closed trades: the share of wins times the
/// average win, less the share of losses times the average loss. Over the
/// common denominator, the number of trades, the counts cancel.
pub open spec fn expectancy_of(closed: Seq<Trade>) -> RatioView {
    if closed.len() == 0 {
        RatioView::zero()
    } else {
        RatioView {
            num: average_win_of(closed).num - average_loss_of(closed).num,
            den: closed.len() as int,
        }
    }
}

/// Recovery factor: net profit over maximum drawdown, and zero where there
/// is no drawdown.
pub open spec fn recovery_factor_of(profits: Seq<i64>) -> RatioView {
    if max_drawdown_of(profits) == 0 {
        RatioView::zero()
    } else {
        RatioView { num: total(profits), den: max_drawdown_of(profits) }
    }
}

/// Rule for the Sharpe ratio: zero where the standard deviation is zero,
/// which covers the empty and the one-value series.
pub open spec fn sharpe_rule_of(profits: Seq<i64>) -> MetricRule {
    if squared_deviations(profits) == 0 {
        MetricRule::Zero
    } else {
        MetricRule::Formula
    }
}

/// The losing values of a series, in order.
pub open spec fn downside_of(profits: Seq<i64>) -> Seq<i64> {
    profits.filter(|p: i64| p < 0)
}

/// Rule for the Sortino ratio: zero for the empty series, positive infinity
/// where no value is a loss, zero where the losses have no deviation.
pub open spec fn sortino_rule_of(profits: Seq<i64>) -> MetricRule {
    if profits.len() == 0 {
        MetricRule::Zero
    } else if downside_of(profits).len() == 0 {
        MetricRule::Infinite
    } else if squared_deviations(downside_of(profits)) == 0 {
        MetricRule::Zero
    } else {
        MetricRule::Formula
    }
}

/// Rule for the risk of ruin: zero where the average loss or the average
/// win is zero.
pub open spec fn risk_of_ruin_rule_of(average_win: RatioView, average_loss: RatioView) -> MetricRule {
    if average_loss.num == 0 || average_win.num == 0 {
        MetricRule::Zero
    } else {
        MetricRule::Formula
    }
}

/// Rule for the annualized return: zero where there is no observation.
pub open spec fn annual_return_rule_of(observations: nat) -> MetricRule {
    if observations == 0 {
        MetricRule::Zero
    } else {
        MetricRule::Formula
    }
}

/// Win rate in percent.
pub fn win_rate(winning: usize, closed: usize) -> (rate: Ratio)
    ensures
        rate@ == win_rate_of(winning as nat, closed as nat),
        rate@.wf(),
{
    if closed == 0 {
        Ratio::zero()
    } else {
        Ratio { num: 100 * (winning as i128), den: closed as i128 }
    }
}

/// Profit factor of a profit/loss series.
pub fn profit_factor(profits: &Vec<i64>) -> (factor: Metric)
    ensures
        factor@ == profit_factor_of(profits@),
        factor@ matches MetricView::Finite(r) ==> r.wf(),
{
    let loss = gross_loss(profits);
    if loss > 0 {
        Metric::Finite(Ratio { num: gross_profit(profits), den: loss })
    } else {
        Metric::Infinite
    }
}

/// Average result per trade of a profit/loss series.
pub fn average_trade(profits: &Vec<i64>) -> (average: Ratio)
    ensures
        average@ == average_of(profits@),
        average@.wf(),
{
    if profits.len() == 0 {
        Ratio::zero()
    } else {
        Ratio { num: net_profit(profits), den: profits.len() as i128 }
    }
}

/// Average win of a trade history.
pub fn average_win(closed: &Vec<Trade>) -> (average: Ratio)
    ensures
        average@ == average_win_of(closed@),
        average@.wf(),
{
    let wins = count_wins(closed);
    if wins == 0 {
        Ratio::zero()
    } else {
        let profits = profit_series(closed);
        Ratio { num: gross_profit(&profits), den: wins as i128 }
    }
}

/// Average loss of a trade history.
pub fn average_loss(closed: &Vec<Trade>) -> (average: Ratio)
    ensures
        average@ == average_loss_of(closed@),
        average@.wf(),
{
    let losses = count_losses(closed);
    if losses == 0 {
        Ratio::zero()
    } else {
        let profits = profit_series(closed);
        Ratio { num: gross_loss(&profits), den: losses as i128 }
    }
}

/// Expectancy of a history of closed trades.
pub fn expectancy(closed: &Vec<Trade>) -> (expected: Ratio)
    ensures
        expected@ == expectancy_of(closed@),
        expected@.wf(),
{
    if closed.len() == 0 {
        return Ratio::zero();
    }
    let win = average_win(closed);
    let loss = average_loss(closed);
    proof {
        lemma_sums_fit(profits_of(closed@));
    }
    Ratio { num: win.num - loss.num, den: closed.len() as i128 }
}

/// Recovery factor of a profit/loss series.
pub fn recovery_factor(profits: &Vec<i64>) -> (factor: Ratio)
    ensures
        factor@ == recovery_factor_of(profits@),
        factor@.wf(),
{
    let drawdown = max_drawdown(profits);
    if drawdown > 0 {
        Ratio { num: net_profit(profits), den: drawdown }
    } else {
        Ratio::zero()
    }
}

/// Rule for the Sharpe ratio of a profit/loss series.
pub fn sharpe_ratio_rule(profits: &Vec<i64>) -> (rule: MetricRule)
    ensures
        rule == sharpe_rule_of(profits@),
{
    if deviation_is_zero(profits) {
        MetricRule::Zero
    } else {
        MetricRule::Formula
    }
}

/// The losing values of a series, in order.
pub fn downside(profits: &Vec<i64>) -> (losses: Vec<i64>)
    ensures
        losses@ == downside_of(profits@),
{
    let mut losses: Vec<i64> = Vec::new();
    let mut i: usize = 0;
    proof {
        reveal(Seq::filter);
        assert(profits@.take(0).len() == 0);
    }
    while i < profits.len()
        invariant
            i <= profits.len(),
            losses@ == downside_of(profits@.take(i as int)),
        decreases profits.len() - i,
    {
        proof {
            reveal(Seq::filter);
            assert(profits@.take(i + 1).drop_last() =~= profits@.take(i as int));
            assert(profits@.take(i + 1).last() == profits@[i as int]);
        }
        if profits[i] < 0 {
            losses.push(profits[i]);
        }
        i += 1;
    }
    proof {
        assert(profits@.take(profits.len() as int) =~= profits@);
    }
    losses
}

/// Rule for the Sortino ratio of a profit/loss series.
pub fn sortino_ratio_rule(profits: &Vec<i64>) -> (rule: MetricRule)
    ensures
        rule == sortino_rule_of(profits@),
{
    if profits.len() == 0 {
        return MetricRule::Zero;
    }
    let losses = downside(profits);
    if losses.len() == 0 {
        MetricRule::Infinite
    } else if deviation_is_zero(&losses) {
        MetricRule::Zero
    } else {
        MetricRule::Formula
    }
}

/// Rule for the risk of ruin, from the average win and the average loss.
pub fn risk_of_ruin_rule(average_win: &Ratio, average_loss: &Ratio) -> (rule: MetricRule)
    ensures
        rule == risk_of_ruin_rule_of(average_win@, average_loss@),
{
    if average_loss.is_zero() || average_win.is_zero() {
        MetricRule::Zero
    } else {
        MetricRule::Formula
    }
}

/// Rule for the annualized return over a number of return observations.
pub fn annual_return_rule(observations: usize) -> (rule: MetricRule)
    ensures
        rule == annual_return_rule_of(observations as nat),
{
    if observations == 0 {
        MetricRule::Zero
    } else {
        MetricRule::Formula
    }
}

/// The profit factor is infinite exactly when the gross loss is zero and
/// the gross profit is positive. A series with neither profit nor loss is
/// left out: its gross loss is zero, so its profit factor is infinite too.
pub proof fn lemma_profit_factor_infinite(profits: Seq<i64>)
    requires
        total_gain(profits) != 0 || total_loss(profits) != 0,
    ensures
        profit_factor_of(profits) is Infinite <==> (total_loss(profits) == 0 && total_gain(profits)
            > 0),
{
    lemma_sum_bounds(profits);
}

/// The Sharpe ratio is zero whenever the standard deviation is zero, and so
/// for every series of fewer than two values.
pub proof fn lemma_sharpe_zero_without_deviation(profits: Seq<i64>)
    ensures
        squared_deviations(profits) == 0 ==> sharpe_rule_of(profits) == MetricRule::Zero,
        profits.len() <= 1 ==> sharpe_rule_of(profits) == MetricRule::Zero,
{
    lemma_deviation_vanishes_iff_all_equal(profits);
}

/// Where the risk of ruin is left to its formula, trades have won and
/// trades have lost, so the share of wins lies strictly between zero and
/// one and the formula divides by neither zero share nor zero loss.
pub proof fn lemma_risk_formula_has_wins_and_losses(closed: Seq<Trade>)
    requires
        risk_of_ruin_rule_of(average_win_of(closed), average_loss_of(closed)) == MetricRule::Formula,
    ensures
        0 < wins_of(closed) < closed.len(),
        0 < losses_of(closed) < closed.len(),
        average_win_of(closed).num > 0,
        average_loss_of(closed).num > 0,
{
    lemma_wins_and_losses(closed);
    lemma_sum_bounds(profits_of(closed));
}

/// The textbook expectancy of closed trades: with `w` wins among `c`
/// trades, `w / c` times the average win less `(c - w) / c` times the
/// average loss, over the product of all denominators.
pub open spec fn textbook_expectancy(closed: Seq<Trade>) -> RatioView {
    let c = closed.len() as int;
    let w = wins_of(closed) as int;
    let win = average_win_of(closed);
    let loss = average_loss_of(closed);
    RatioView {
        num: w * win.num * loss.den - (c - w) * loss.num * win.den,
        den: c * win.den * loss.den,
    }
}

/// The expectancy stands for the same number as the textbook formula.
pub proof fn lemma_expectancy_formula(closed: Seq<Trade>)
    requires
        all_closed(closed),
        closed.len() > 0,
    ensures
        expectancy_of(closed).same_value(textbook_expectancy(closed)),
        textbook_expectancy(closed).wf(),
{
    lemma_wins_and_losses(closed);
    let c = closed.len() as int;
    let w = wins_of(closed) as int;
    let l = losses_of(closed) as int;
    let gp = total_gain(profits_of(closed));
    let gl = total_loss(profits_of(closed));
    if w > 0 && l > 0 {
        assert((gp - gl) * (c * w * l) == (w * gp * l - (c - w) * gl * w) * c) by (nonlinear_arith)
            requires
                c - w == l,
        ;
        assert(c * w * l > 0) by (nonlinear_arith)
            requires
                c > 0,
                w > 0,
                l > 0,
        ;
    } else if w == 0 {
        assert((0 - gl) * (c * 1 * l) == (0 * 0 * l - (c - 0) * gl * 1) * c) by (nonlinear_arith)
            requires
                l == c,
        ;
        assert(c * 1 * l > 0) by (nonlinear_arith)
            requires
                c > 0,
                l == c,
        ;
    } else {
        assert((gp - 0) * (c * w * 1) == (w * gp * 1 - (c - w) * 0 * w) * c) by (nonlinear_arith);
        assert(c * w * 1 > 0) by (nonlinear_arith)
            requires
                c > 0,
                w > 0,
        ;
    }
}

} // verus!
