//! The quick summary: headline figures of the report with the current
//! streak and the result of the day.

use vstd::prelude::*;
use crate::ratio::{Metric, MetricRule, Ratio};
use crate::report::TradeAnalysis;
use crate::series::{net_profit, total};
use crate::streak::{current_streak, current_streak_of, outcome_series, outcomes_of};
use crate::timeline::{day_number, day_of};
use crate::trade::{count_wins, is_closed, profit_series, profits_of, wins_of, Trade};

verus! {

/// Closed trades entered on one day: how many, how many of them won, and
/// their net profit.
#[derive(Clone, Copy, Debug, PartialEq, Eq, Structural)]
pub struct TodayPerformance {
    /// The day, counted from the epoch.
    pub day: i64,
    pub total_trades: usize,
    pub winning_trades: usize,
    pub net_profit: i128,
}

/// Headline figures for a glance.
#[derive(Clone, Copy, Debug, PartialEq, Eq, Structural)]
pub struct QuickSummary {
    pub win_rate: Ratio,
    pub net_profit: i128,
    pub profit_factor: Metric,
    pub max_drawdown: i128,
    pub sharpe_ratio: MetricRule,
    pub current_streak: i32,
    pub daily_performance: TodayPerformance,
}

/// The closed trades entered on `day`, in order.
pub open spec fn closed_on_day(trades: Seq<Trade>, day: int) -> Seq<Trade> {
    trades.filter(|t: Trade| is_closed(t) && day_of(t.entry_time) == day)
}

/// `daily` is the result of the day of `now` over `trades`.
pub open spec fn is_daily_performance_of(daily: TodayPerformance, trades: Seq<Trade>, now: i64) -> bool {
    let members = closed_on_day(trades, day_of(now));
    &&& daily.day == day_of(now)
    &&& daily.total_trades == members.len()
    &&& daily.winning_trades == wins_of(members)
    &&& daily.net_profit == total(profits_of(members))
}

/// `quick` is the quick summary of `analysis` over `trades`, listed newest
/// first, at `now`.
pub open spec fn is_quick_summary_of(
    quick: QuickSummary,
    analysis: TradeAnalysis,
    trades: Seq<Trade>,
    now: i64,
) -> bool {
    &&& quick.win_rate == analysis.summary.win_rate
    &&& quick.net_profit == analysis.summary.net_profit
    &&& quick.profit_factor == analysis.summary.profit_factor
    &&& quick.max_drawdown == analysis.summary.max_drawdown
    &&& quick.sharpe_ratio == analysis.summary.sharpe_ratio
    &&& quick.current_streak == current_streak_of(outcomes_of(trades))
    &&& is_daily_performance_of(quick.daily_performance, trades, now)
}

/// The current streak of a trade set listed newest first: the run that its
/// newest closed trade starts, within the ten most recent closed trades.
pub fn calculate_current_streak(trades: &Vec<Trade>) -> (streak: i32)
    ensures
        streak == current_streak_of(outcomes_of(trades@)),
{
    let outcomes = outcome_series(trades);
    current_streak(&outcomes)
}

/// The result of the day of `now`: the closed trades entered that day.
pub fn calculate_daily_performance(trades: &Vec<Trade>, now: i64) -> (daily: TodayPerformance)
    ensures
        is_daily_performance_of(daily, trades@, now),
{
    let day = day_number(now);
    let mut members: Vec<Trade> = Vec::new();
    let mut i: usize = 0;
    proof {
        reveal(Seq::filter);
        assert(trades@.take(0).len() == 0);
    }
    while i < trades.len()
        invariant
            i <= trades.len(),
            day == day_of(now),
            members@ == closed_on_day(trades@.take(i as int), day as int),
        decreases trades.len() - i,
    {
        proof {
            reveal(Seq::filter);
            assert(trades@.take(i + 1).drop_last() =~= trades@.take(i as int));
            assert(trades@.take(i + 1).last() == trades@[i as int]);
        }
        let t = trades[i];
        if t.is_closed() && day_number(t.entry_time) == day {
            members.push(t);
        }
        i += 1;
    }
    proof {
        assert(trades@.take(trades.len() as int) =~= trades@);
    }
    let profits = profit_series(&members);
    TodayPerformance {
        day,
        total_trades: members.len(),
        winning_trades: count_wins(&members),
        net_profit: net_profit(&profits),
    }
}

/// The quick summary of a report over the trades it was built from.
pub fn quick_analysis(analysis: &TradeAnalysis, trades: &Vec<Trade>, now: i64) -> (quick: QuickSummary)
    ensures
        is_quick_summary_of(quick, *analysis, trades@, now),
{
    QuickSummary {
        win_rate: analysis.summary.win_rate,
        net_profit: analysis.summary.net_profit,
        profit_factor: analysis.summary.profit_factor,
        max_drawdown: analysis.summary.max_drawdown,
        sharpe_ratio: analysis.summary.sharpe_ratio,
        current_streak: calculate_current_streak(trades),
        daily_performance: calculate_daily_performance(trades, now),
    }
}

} // verus!
