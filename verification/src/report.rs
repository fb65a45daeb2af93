//! The analysis report and its sub-reports.
//!
//! Amounts are exact sums in minor currency units, quotients are exact
//! ratios, and a metric that needs a square root or a real power is
//! reported as the rule of its policy that applies.

use vstd::prelude::*;
use crate::groups::GroupStats;
use crate::patterns::{ICTHeatmapData, PatternPerformance};
use crate::ratio::{Metric, MetricRule, Ratio};
use crate::strategies::StrategyPerformance;

verus! {

/// Counts and headline metrics of a trade history.
#[derive(Clone, Copy, Debug, PartialEq, Eq, Structural)]
pub struct AnalysisSummary {
    pub total_trades: usize,
    pub winning_trades: usize,
    pub losing_trades: usize,
    pub open_trades: usize,
    /// Win rate in percent.
    pub win_rate: Ratio,
    pub net_profit: i128,
    pub gross_profit: i128,
    pub gross_loss: i128,
    pub profit_factor: Metric,
    pub expectancy: Ratio,
    pub average_trade: Ratio,
    pub sharpe_ratio: MetricRule,
    pub max_drawdown: i128,
    pub recovery_factor: Ratio,
    pub risk_of_ruin: MetricRule,
}

/// Return metrics of the closed trades.
#[derive(Clone, Copy, Debug, PartialEq, Eq, Structural)]
pub struct PerformanceMetrics {
    pub total_return: i128,
    pub annual_return: MetricRule,
    pub volatility: MetricRule,
    pub sortino_ratio: MetricRule,
}

/// Longest runs of consecutive wins and of consecutive losses.
#[derive(Clone, Copy, Debug, PartialEq, Eq, Structural)]
pub struct ConsistencyMetrics {
    pub longest_win_streak: usize,
    pub longest_loss_streak: usize,
}

/// Behavioral flags. No heuristic is laid down for them: every flag is
/// `false` until a caller sets it.
#[derive(Clone, Copy, Debug, PartialEq, Eq, Structural)]
pub struct BehavioralPatterns {
    pub revenge_trading: bool,
    pub overtrading: bool,
    pub hesitation: bool,
    pub early_exits: bool,
    pub late_entries: bool,
}

/// The psychological sub-report.
#[derive(Clone, Debug, PartialEq, Eq)]
pub struct PsychologicalMetrics {
    /// One group for each emotion under which a closed trade is filed: how
    /// many trades, how many of them won, and their net result.
    pub emotional_impact: Vec<GroupStats>,
    pub consistency: ConsistencyMetrics,
    pub behavioral_patterns: BehavioralPatterns,
}

/// The time-based sub-report: closed trades broken down by the hour, the
/// weekday and the month of their entry, and by their session.
#[derive(Clone, Debug, PartialEq, Eq)]
pub struct TimeBasedAnalysis {
    /// One group for each hour of the day, or none at all.
    pub hourly_analysis: Vec<GroupStats>,
    /// One group for each day of the week from Sunday, or none at all.
    pub daily_analysis: Vec<GroupStats>,
    /// One group for each month of the year, or none at all.
    pub monthly_analysis: Vec<GroupStats>,
    /// One group for each session under which a trade is filed.
    pub session_analysis: Vec<GroupStats>,
}

/// The pattern sub-report: closed trades broken down by their pattern
/// tag.
#[derive(Clone, Debug, PartialEq, Eq)]
pub struct ICTAnalysis {
    /// One row for each pattern, in descending order of win rate.
    pub pattern_performance: Vec<PatternPerformance>,
    /// One cell for each pattern, weekday and hour with a trade.
    pub heatmap_data: Vec<ICTHeatmapData>,
}

/// The strategy sub-report: closed trades broken down by their strategy.
#[derive(Clone, Debug, PartialEq, Eq)]
pub struct StrategyAnalysis {
    /// One row for each strategy, in ascending order of strategy.
    pub strategy_performance: Vec<StrategyPerformance>,
}

/// The analysis report: its sub-reports, produced as a whole.
#[derive(Clone, Debug, PartialEq, Eq)]
pub struct TradeAnalysis {
    pub summary: AnalysisSummary,
    pub performance: PerformanceMetrics,
    pub psychological: PsychologicalMetrics,
    pub ict_analysis: ICTAnalysis,
    pub time_analysis: TimeBasedAnalysis,
    pub strategy_analysis: StrategyAnalysis,
}

impl StrategyAnalysis {
    /// No strategy has a row.
    pub open spec fn is_empty(self) -> bool {
        self.strategy_performance@.len() == 0
    }
}

impl Default for StrategyAnalysis {
    fn default() -> (strategy_analysis: Self)
        ensures
            strategy_analysis.is_empty(),
    {
        StrategyAnalysis { strategy_performance: Vec::new() }
    }
}

impl ICTAnalysis {
    /// No pattern has a row or a cell.
    pub open spec fn is_empty(self) -> bool {
        &&& self.pattern_performance@.len() == 0
        &&& self.heatmap_data@.len() == 0
    }
}

impl Default for ICTAnalysis {
    fn default() -> (ict_analysis: Self)
        ensures
            ict_analysis.is_empty(),
    {
        ICTAnalysis { pattern_performance: Vec::new(), heatmap_data: Vec::new() }
    }
}

impl TimeBasedAnalysis {
    /// No breakdown holds any group.
    pub open spec fn is_empty(self) -> bool {
        &&& self.hourly_analysis@.len() == 0
        &&& self.daily_analysis@.len() == 0
        &&& self.monthly_analysis@.len() == 0
        &&& self.session_analysis@.len() == 0
    }
}

impl Default for TimeBasedAnalysis {
    fn default() -> (time_analysis: Self)
        ensures
            time_analysis.is_empty(),
    {
        TimeBasedAnalysis {
            hourly_analysis: Vec::new(),
            daily_analysis: Vec::new(),
            monthly_analysis: Vec::new(),
            session_analysis: Vec::new(),
        }
    }
}

impl TradeAnalysis {
    /// The canonical report of no trades: every count and amount zero,
    /// every rate zero, every collection empty.
    pub open spec fn is_zero(self) -> bool {
        &&& self.summary == AnalysisSummary::zero()
        &&& self.performance == PerformanceMetrics::zero()
        &&& self.psychological.is_zero()
        &&& self.ict_analysis.is_empty()
        &&& self.time_analysis.is_empty()
        &&& self.strategy_analysis.is_empty()
    }
}

impl Default for TradeAnalysis {
    fn default() -> (analysis: Self)
        ensures
            analysis.is_zero(),
    {
        TradeAnalysis {
            summary: AnalysisSummary::default(),
            performance: PerformanceMetrics::default(),
            psychological: PsychologicalMetrics::default(),
            ict_analysis: ICTAnalysis::default(),
            time_analysis: TimeBasedAnalysis::default(),
            strategy_analysis: StrategyAnalysis::default(),
        }
    }
}

impl AnalysisSummary {
    /// The summary of no trades: every count and amount zero, every rate
    /// zero.
    pub open spec fn zero() -> AnalysisSummary {
        AnalysisSummary {
            total_trades: 0,
            winning_trades: 0,
            losing_trades: 0,
            open_trades: 0,
            win_rate: Ratio { num: 0, den: 1 },
            net_profit: 0,
            gross_profit: 0,
            gross_loss: 0,
            profit_factor: Metric::Finite(Ratio { num: 0, den: 1 }),
            expectancy: Ratio { num: 0, den: 1 },
            average_trade: Ratio { num: 0, den: 1 },
            sharpe_ratio: MetricRule::Zero,
            max_drawdown: 0,
            recovery_factor: Ratio { num: 0, den: 1 },
            risk_of_ruin: MetricRule::Zero,
        }
    }
}

impl Default for AnalysisSummary {
    fn default() -> (summary: Self)
        ensures
            summary == AnalysisSummary::zero(),
    {
        AnalysisSummary {
            total_trades: 0,
            winning_trades: 0,
            losing_trades: 0,
            open_trades: 0,
            win_rate: Ratio { num: 0, den: 1 },
            net_profit: 0,
            gross_profit: 0,
            gross_loss: 0,
            profit_factor: Metric::Finite(Ratio { num: 0, den: 1 }),
            expectancy: Ratio { num: 0, den: 1 },
            average_trade: Ratio { num: 0, den: 1 },
            sharpe_ratio: MetricRule::Zero,
            max_drawdown: 0,
            recovery_factor: Ratio { num: 0, den: 1 },
            risk_of_ruin: MetricRule::Zero,
        }
    }
}

impl PerformanceMetrics {
    /// The performance of no closed trades.
    pub open spec fn zero() -> PerformanceMetrics {
        PerformanceMetrics {
            total_return: 0,
            annual_return: MetricRule::Zero,
            volatility: MetricRule::Zero,
            sortino_ratio: MetricRule::Zero,
        }
    }
}

impl Default for PerformanceMetrics {
    fn default() -> (performance: Self)
        ensures
            performance == PerformanceMetrics::zero(),
    {
        PerformanceMetrics {
            total_return: 0,
            annual_return: MetricRule::Zero,
            volatility: MetricRule::Zero,
            sortino_ratio: MetricRule::Zero,
        }
    }
}

impl BehavioralPatterns {
    /// No flag raised.
    pub open spec fn none() -> BehavioralPatterns {
        BehavioralPatterns {
            revenge_trading: false,
            overtrading: false,
            hesitation: false,
            early_exits: false,
            late_entries: false,
        }
    }
}

impl Default for BehavioralPatterns {
    fn default() -> (patterns: Self)
        ensures
            patterns == BehavioralPatterns::none(),
    {
        BehavioralPatterns {
            revenge_trading: false,
            overtrading: false,
            hesitation: false,
            early_exits: false,
            late_entries: false,
        }
    }
}

impl ConsistencyMetrics {
    /// No streak at all.
    pub open spec fn zero() -> ConsistencyMetrics {
        ConsistencyMetrics { longest_win_streak: 0, longest_loss_streak: 0 }
    }
}

impl PsychologicalMetrics {
    /// The psychological sub-report of no trades: no emotion, no streak, no
    /// flag.
    pub open spec fn is_zero(self) -> bool {
        &&& self.emotional_impact@.len() == 0
        &&& self.consistency == ConsistencyMetrics::zero()
        &&& self.behavioral_patterns == BehavioralPatterns::none()
    }
}

impl Default for PsychologicalMetrics {
    fn default() -> (psychological: Self)
        ensures
            psychological.is_zero(),
    {
        PsychologicalMetrics {
            emotional_impact: Vec::new(),
            consistency: ConsistencyMetrics { longest_win_streak: 0, longest_loss_streak: 0 },
            behavioral_patterns: BehavioralPatterns::default(),
        }
    }
}

} // verus!
