//! The analysis builder: from a trade set to the report.
//!
//! The trade set is split into closed and open trades; each sub-report is
//! computed from the trades alone, none reads another, so they are handed
//! to `rayon` to run side by side and joined into one report.

use vstd::prelude::*;
use crate::drawdown::{max_drawdown, max_drawdown_of};
use crate::groups::{
    analyze_daily_performance, analyze_hourly_performance, analyze_monthly_performance,
    analyze_trading_sessions, is_hourly_breakdown, is_monthly_breakdown, is_tag_breakdown,
    is_weekday_breakdown, tag_breakdown, GroupStats,
};
use crate::metrics::{
    annual_return_rule, annual_return_rule_of, average_loss, average_loss_of, average_of,
    average_trade, average_win, average_win_of, expectancy, expectancy_of, profit_factor,
    profit_factor_of, recovery_factor, recovery_factor_of, risk_of_ruin_rule,
    risk_of_ruin_rule_of, sharpe_ratio_rule, sharpe_rule_of, sortino_ratio_rule,
    sortino_rule_of, win_rate, win_rate_of,
};
use crate::patterns::{calculate_ict_heatmap, calculate_ict_win_rates, is_heatmap, is_win_rate_table};
use crate::report::{
    AnalysisSummary, BehavioralPatterns, ConsistencyMetrics, ICTAnalysis, PerformanceMetrics,
    PsychologicalMetrics, StrategyAnalysis, TimeBasedAnalysis, TradeAnalysis,
};
use crate::strategies::{calculate_strategy_performance, is_strategy_table};
use crate::series::{gross_loss, gross_profit, net_profit, total, total_gain, total_loss};
use crate::streak::{longest_streak, longest_streak_of, outcome_series, outcomes_of};
use crate::tags::Tag;
use crate::trade::{
    closed_of, count_losses, count_wins, losses_of, open_of, partition, profit_series,
    profits_of, wins_of, Trade,
};

verus! {

/// `summary` is the summary of the trade set `trades` whose closed trades,
/// oldest first, are `closed`.
pub open spec fn is_summary_of(summary: AnalysisSummary, trades: Seq<Trade>, closed: Seq<Trade>) -> bool {
    let profits = profits_of(closed);
    &&& summary.total_trades == trades.len()
    &&& summary.winning_trades == wins_of(closed)
    &&& summary.losing_trades == losses_of(closed)
    &&& summary.open_trades == open_of(trades).len()
    &&& summary.win_rate@ == win_rate_of(wins_of(closed), closed.len())
    &&& summary.net_profit == total(profits)
    &&& summary.gross_profit == total_gain(profits)
    &&& summary.gross_loss == total_loss(profits)
    &&& summary.profit_factor@ == profit_factor_of(profits)
    &&& summary.expectancy@ == expectancy_of(closed)
    &&& summary.average_trade@ == average_of(profits)
    &&& summary.sharpe_ratio == sharpe_rule_of(profits)
    &&& summary.max_drawdown == max_drawdown_of(profits)
    &&& summary.recovery_factor@ == recovery_factor_of(profits)
    &&& summary.risk_of_ruin == risk_of_ruin_rule_of(average_win_of(closed), average_loss_of(closed))
}

/// `performance` is the performance of the closed trades `closed`: all
/// zero where there is none.
pub open spec fn is_performance_of(performance: PerformanceMetrics, closed: Seq<Trade>) -> bool {
    let profits = profits_of(closed);
    if closed.len() == 0 {
        performance == PerformanceMetrics::zero()
    } else {
        &&& performance.total_return == total(profits)
        &&& performance.annual_return == annual_return_rule_of(profits.len())
        &&& performance.volatility == sharpe_rule_of(profits)
        &&& performance.sortino_ratio == sortino_rule_of(profits)
    }
}

/// `psychological` is the psychological sub-report of `trades`: its
/// closed trades broken down by emotion, the longest streaks among their
/// outcomes, and no behavioral flag.
pub open spec fn is_psychological_of(psychological: PsychologicalMetrics, trades: Seq<Trade>) -> bool {
    &&& is_tag_breakdown(psychological.emotional_impact@, trades, Tag::Emotion)
    &&& psychological.consistency.longest_win_streak == longest_streak_of(outcomes_of(trades), true)
    &&& psychological.consistency.longest_loss_streak == longest_streak_of(
        outcomes_of(trades),
        false,
    )
    &&& psychological.behavioral_patterns == BehavioralPatterns::none()
}

/// `ict_analysis` is the pattern sub-report of the closed trades `closed`:
/// the table of win rates by pattern and the heatmap.
pub open spec fn is_ict_analysis_of(ict_analysis: ICTAnalysis, closed: Seq<Trade>) -> bool {
    &&& is_win_rate_table(ict_analysis.pattern_performance@, closed)
    &&& is_heatmap(ict_analysis.heatmap_data@, closed)
}

/// `time_analysis` is the time-based sub-report of the closed trades
/// `closed`: a group for each hour, each weekday, each month and each
/// session.
pub open spec fn is_time_analysis_of(time_analysis: TimeBasedAnalysis, closed: Seq<Trade>) -> bool {
    &&& is_hourly_breakdown(time_analysis.hourly_analysis@, closed)
    &&& is_weekday_breakdown(time_analysis.daily_analysis@, closed)
    &&& is_monthly_breakdown(time_analysis.monthly_analysis@, closed)
    &&& is_tag_breakdown(time_analysis.session_analysis@, closed, Tag::Session)
}

/// `strategy_analysis` is the strategy sub-report of the closed trades
/// `closed`, taken oldest first.
pub open spec fn is_strategy_analysis_of(strategy_analysis: StrategyAnalysis, closed: Seq<Trade>) -> bool {
    is_strategy_table(strategy_analysis.strategy_performance@, closed)
}

/// The closed trades of a set that lists its trades newest first, put in
/// chronological order.
pub open spec fn chronological_closed(trades: Seq<Trade>) -> Seq<Trade> {
    closed_of(trades).reverse()
}

/// `analysis` is the report of the non-empty trade set `trades`, listed
/// newest first.
pub open spec fn is_analysis_of(analysis: TradeAnalysis, trades: Seq<Trade>) -> bool {
    let closed = chronological_closed(trades);
    &&& is_summary_of(analysis.summary, trades, closed)
    &&& is_performance_of(analysis.performance, closed)
    &&& is_psychological_of(analysis.psychological, trades)
    &&& is_ict_analysis_of(analysis.ict_analysis, closed)
    &&& is_time_analysis_of(analysis.time_analysis, closed)
    &&& is_strategy_analysis_of(analysis.strategy_analysis, closed)
}

/// The same trades in the opposite order.
pub fn reversed(trades: &Vec<Trade>) -> (turned: Vec<Trade>)
    ensures
        turned@ == trades@.reverse(),
{
    let mut turned: Vec<Trade> = Vec::new();
    let mut i: usize = trades.len();
    while i > 0
        invariant
            i <= trades.len(),
            turned@.len() == trades.len() - i,
            forall|j: int| 0 <= j < turned@.len() ==> turned@[j] == trades@[trades.len() - 1 - j],
        decreases i,
    {
        i -= 1;
        turned.push(trades[i]);
    }
    proof {
        assert(turned@ =~= trades@.reverse());
    }
    turned
}

/// The summary: counts, net and gross results and the headline metrics.
/// Open trades enter only the count of open trades.
pub fn calculate_summary(trades: &Vec<Trade>, closed_trades: &Vec<Trade>) -> (summary: AnalysisSummary)
    ensures
        is_summary_of(summary, trades@, closed_trades@),
{
    let parts = partition(trades);
    let winning_trades = count_wins(closed_trades);
    let losing_trades = count_losses(closed_trades);
    let profits = profit_series(closed_trades);
    let win = average_win(closed_trades);
    let loss = average_loss(closed_trades);
    AnalysisSummary {
        total_trades: trades.len(),
        winning_trades,
        losing_trades,
        open_trades: parts.1.len(),
        win_rate: win_rate(winning_trades, closed_trades.len()),
        net_profit: net_profit(&profits),
        gross_profit: gross_profit(&profits),
        gross_loss: gross_loss(&profits),
        profit_factor: profit_factor(&profits),
        expectancy: expectancy(closed_trades),
        average_trade: average_trade(&profits),
        sharpe_ratio: sharpe_ratio_rule(&profits),
        max_drawdown: max_drawdown(&profits),
        recovery_factor: recovery_factor(&profits),
        risk_of_ruin: risk_of_ruin_rule(&win, &loss),
    }
}

/// The performance metrics of the closed trades.
pub fn calculate_performance_metrics(closed_trades: &Vec<Trade>) -> (performance: PerformanceMetrics)
    ensures
        is_performance_of(performance, closed_trades@),
{
    if closed_trades.len() == 0 {
        return PerformanceMetrics::default();
    }
    let profits = profit_series(closed_trades);
    PerformanceMetrics {
        total_return: net_profit(&profits),
        annual_return: annual_return_rule(profits.len()),
        volatility: sharpe_ratio_rule(&profits),
        sortino_ratio: sortino_ratio_rule(&profits),
    }
}

/// The consistency metrics: the longest winning and the longest losing
/// streak among the outcomes of the closed trades.
pub fn calculate_consistency_metrics(trades: &Vec<Trade>) -> (consistency: ConsistencyMetrics)
    ensures
        consistency.longest_win_streak == longest_streak_of(outcomes_of(trades@), true),
        consistency.longest_loss_streak == longest_streak_of(outcomes_of(trades@), false),
{
    let outcomes = outcome_series(trades);
    ConsistencyMetrics {
        longest_win_streak: longest_streak(&outcomes, true),
        longest_loss_streak: longest_streak(&outcomes, false),
    }
}

/// The closed trades broken down by emotion.
pub fn analyze_emotional_impact(trades: &Vec<Trade>) -> (groups: Vec<GroupStats>)
    ensures
        is_tag_breakdown(groups@, trades@, Tag::Emotion),
{
    tag_breakdown(trades, Tag::Emotion)
}

/// The psychological sub-report.
pub fn analyze_psychological_aspects(trades: &Vec<Trade>) -> (psychological: PsychologicalMetrics)
    ensures
        is_psychological_of(psychological, trades@),
{
    PsychologicalMetrics {
        emotional_impact: analyze_emotional_impact(trades),
        consistency: calculate_consistency_metrics(trades),
        behavioral_patterns: BehavioralPatterns::default(),
    }
}

/// The pattern sub-report.
pub fn analyze_ict_patterns(closed_trades: &Vec<Trade>) -> (ict_analysis: ICTAnalysis)
    ensures
        is_ict_analysis_of(ict_analysis, closed_trades@),
{
    ICTAnalysis {
        pattern_performance: calculate_ict_win_rates(closed_trades),
        heatmap_data: calculate_ict_heatmap(closed_trades),
    }
}

/// The time-based sub-report.
pub fn analyze_time_based_patterns(closed_trades: &Vec<Trade>) -> (time_analysis: TimeBasedAnalysis)
    ensures
        is_time_analysis_of(time_analysis, closed_trades@),
{
    TimeBasedAnalysis {
        hourly_analysis: analyze_hourly_performance(closed_trades),
        daily_analysis: analyze_daily_performance(closed_trades),
        monthly_analysis: analyze_monthly_performance(closed_trades),
        session_analysis: analyze_trading_sessions(closed_trades),
    }
}

/// The strategy sub-report.
pub fn analyze_strategy_performance(closed_trades: &Vec<Trade>) -> (strategy_analysis: StrategyAnalysis)
    ensures
        is_strategy_analysis_of(strategy_analysis, closed_trades@),
{
    StrategyAnalysis { strategy_performance: calculate_strategy_performance(closed_trades) }
}

/// `rayon::join`: runs two closures, possibly in parallel, and returns
/// both results.
///
/// Trusted: where both closures can be called, the first result is one that
/// the first closure can return and the second result one that the second
/// closure can return.
pub assume_specification<A, B, RA, RB>[ rayon::join::<A, B, RA, RB> ](oper_a: A, oper_b: B) -> (results: (
    RA,
    RB,
))
    where
        A: FnOnce() -> RA + Send,
        B: FnOnce() -> RB + Send,
        RA: Send,
        RB: Send,
    requires
        oper_a.requires(()),
        oper_b.requires(()),
    ensures
        oper_a.ensures((), results.0),
        oper_b.ensures((), results.1),
;

/// Builds the report of a trade set listed newest first. The empty set
/// gives the canonical zero report, and no sub-report is computed for it.
pub fn perform_comprehensive_analysis(trades: &Vec<Trade>) -> (analysis: TradeAnalysis)
    ensures
        trades@.len() == 0 ==> analysis.is_zero(),
        trades@.len() > 0 ==> is_analysis_of(analysis, trades@),
{
    if trades.len() == 0 {
        return TradeAnalysis::default();
    }
    let parts = partition(trades);
    let closed = reversed(&parts.0);
    let closed_ref = &closed;
    let summarize = || -> (summary: AnalysisSummary)
        ensures
            is_summary_of(summary, trades@, closed_ref@),
    {
        calculate_summary(trades, closed_ref)
    };
    let perform = || -> (performance: PerformanceMetrics)
        ensures
            is_performance_of(performance, closed_ref@),
    {
        calculate_performance_metrics(closed_ref)
    };
    let reflect = || -> (psychological: PsychologicalMetrics)
        ensures
            is_psychological_of(psychological, trades@),
    {
        analyze_psychological_aspects(trades)
    };
    let tag = || -> (ict_analysis: ICTAnalysis)
        ensures
            is_ict_analysis_of(ict_analysis, closed_ref@),
    {
        analyze_ict_patterns(closed_ref)
    };
    let time = || -> (time_analysis: TimeBasedAnalysis)
        ensures
            is_time_analysis_of(time_analysis, closed_ref@),
    {
        analyze_time_based_patterns(closed_ref)
    };
    let compare = || -> (strategy_analysis: StrategyAnalysis)
        ensures
            is_strategy_analysis_of(strategy_analysis, closed_ref@),
    {
        analyze_strategy_performance(closed_ref)
    };
    let tag_and_time = || -> (pair: (ICTAnalysis, TimeBasedAnalysis))
        ensures
            is_ict_analysis_of(pair.0, closed_ref@),
            is_time_analysis_of(pair.1, closed_ref@),
    {
        rayon::join(tag, time)
    };
    let count = || -> (pair: (AnalysisSummary, PerformanceMetrics))
        ensures
            is_summary_of(pair.0, trades@, closed_ref@),
            is_performance_of(pair.1, closed_ref@),
    {
        rayon::join(summarize, perform)
    };
    let reflect_and_compare = || -> (pair: (PsychologicalMetrics, StrategyAnalysis))
        ensures
            is_psychological_of(pair.0, trades@),
            is_strategy_analysis_of(pair.1, closed_ref@),
    {
        rayon::join(reflect, compare)
    };
    let break_down = || -> (pair: (
        (PsychologicalMetrics, StrategyAnalysis),
        (ICTAnalysis, TimeBasedAnalysis),
    ))
        ensures
            is_psychological_of(pair.0.0, trades@),
            is_strategy_analysis_of(pair.0.1, closed_ref@),
            is_ict_analysis_of(pair.1.0, closed_ref@),
            is_time_analysis_of(pair.1.1, closed_ref@),
    {
        rayon::join(reflect_and_compare, tag_and_time)
    };
    let (figures, breakdowns) = rayon::join(count, break_down);
    TradeAnalysis {
        summary: figures.0,
        performance: figures.1,
        psychological: breakdowns.0.0,
        ict_analysis: breakdowns.1.0,
        time_analysis: breakdowns.1.1,
        strategy_analysis: breakdowns.0.1,
    }
}

} // verus!
