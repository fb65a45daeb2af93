use trading_journal::alerts::{generate_alerts, sharpe_below_one, Alert, AlertKind, Severity};
use trading_journal::analysis::{
    analyze_emotional_impact, analyze_psychological_aspects, analyze_time_based_patterns, calculate_consistency_metrics,
    calculate_performance_metrics, calculate_summary, perform_comprehensive_analysis, reversed,
};
use trading_journal::config::AnalysisConfig;
use trading_journal::quick::{calculate_current_streak, calculate_daily_performance, quick_analysis};
use trading_journal::ratio::{Metric, MetricRule, Ratio};
use trading_journal::report::{
    AnalysisSummary, BehavioralPatterns, PerformanceMetrics, PsychologicalMetrics, TradeAnalysis,
};
use trading_journal::trade::Trade;

const DAY: i64 = 86_400_000;

fn closed_at(id: u32, entry_time: i64, profit: i64) -> Trade {
    Trade { id, entry_time, ict_pattern: None, strategy_name: None, session: None, emotion: None, is_win: Some(profit > 0), profit_loss_money: Some(profit) }
}

fn open_at(id: u32, entry_time: i64) -> Trade {
    Trade { id, entry_time, ict_pattern: None, strategy_name: None, session: None, emotion: None, is_win: None, profit_loss_money: None }
}

fn value(r: Ratio) -> f64 {
    r.num as f64 / r.den as f64
}

#[test]
fn empty_trade_set_gives_the_zero_report() {
    let analysis = perform_comprehensive_analysis(&vec![]);
    assert_eq!(analysis, TradeAnalysis::default());
    let s = analysis.summary;
    assert_eq!(
        (s.total_trades, s.winning_trades, s.losing_trades, s.open_trades),
        (0, 0, 0, 0)
    );
    assert_eq!((s.net_profit, s.gross_profit, s.gross_loss, s.max_drawdown), (0, 0, 0, 0));
    assert_eq!(s.win_rate, Ratio { num: 0, den: 1 });
    assert_eq!(s.profit_factor, Metric::Finite(Ratio { num: 0, den: 1 }));
    assert_eq!(s.expectancy, Ratio { num: 0, den: 1 });
    assert_eq!(s.average_trade, Ratio { num: 0, den: 1 });
    assert_eq!(s.recovery_factor, Ratio { num: 0, den: 1 });
    assert_eq!(s.sharpe_ratio, MetricRule::Zero);
    assert_eq!(s.risk_of_ruin, MetricRule::Zero);
    assert_eq!(analysis.performance, PerformanceMetrics::default());
    assert_eq!(analysis.psychological, PsychologicalMetrics::default());
    assert!(analysis.ict_analysis.pattern_performance.is_empty());
    assert!(analysis.ict_analysis.heatmap_data.is_empty());
    assert!(analysis.strategy_analysis.strategy_performance.is_empty());
    assert!(analysis.time_analysis.hourly_analysis.is_empty());
    assert!(analysis.time_analysis.daily_analysis.is_empty());
    assert!(analysis.time_analysis.monthly_analysis.is_empty());
    assert!(analysis.time_analysis.session_analysis.is_empty());
}

#[test]
fn three_closed_trades_scenario() {
    // newest first, so that the profit/loss series reads 100, -50, 200 in time
    let trades = vec![closed_at(3, 3 * DAY, 200), closed_at(2, 2 * DAY, -50), closed_at(1, DAY, 100)];
    let summary = perform_comprehensive_analysis(&trades).summary;
    assert_eq!(summary.net_profit, 250);
    assert_eq!(summary.gross_profit, 300);
    assert_eq!(summary.gross_loss, 50);
    match summary.profit_factor {
        Metric::Finite(r) => assert_eq!(value(r), 6.0),
        Metric::Infinite => panic!("profit factor must be finite"),
    }
    assert_eq!(format!("{:.2}", value(summary.win_rate)), "66.67");
    assert_eq!(summary.total_trades, 3);
    assert_eq!(summary.winning_trades, 2);
    assert_eq!(summary.losing_trades, 1);
    assert_eq!(summary.open_trades, 0);
    assert_eq!(summary.max_drawdown, 50);
    assert_eq!(summary.expectancy, Ratio { num: 250, den: 3 });
    assert_eq!(summary.average_trade, Ratio { num: 250, den: 3 });
    assert_eq!(summary.recovery_factor, Ratio { num: 250, den: 50 });
    assert_eq!(summary.sharpe_ratio, MetricRule::Formula);
    assert_eq!(summary.risk_of_ruin, MetricRule::Formula);
}

#[test]
fn report_follows_time_not_list_order() {
    // in time: -30, 10, 50, a total that never falls
    let trades = vec![closed_at(3, 3 * DAY, 50), closed_at(2, 2 * DAY, 10), closed_at(1, DAY, -30)];
    let analysis = perform_comprehensive_analysis(&trades);
    assert_eq!(analysis.summary.max_drawdown, 0);
    assert_eq!(analysis.summary.recovery_factor, Ratio { num: 0, den: 1 });
    // taken as listed, the total falls from 60 to 30
    assert_eq!(calculate_summary(&trades, &trades).max_drawdown, 30);
}

#[test]
fn reversed_turns_the_order_round() {
    let trades = vec![closed_at(1, 0, 1), closed_at(2, 0, 2), closed_at(3, 0, 3)];
    let ids: Vec<u32> = reversed(&trades).iter().map(|t| t.id).collect();
    assert_eq!(ids, vec![3, 2, 1]);
    assert!(reversed(&vec![]).is_empty());
}

#[test]
fn open_trades_enter_only_their_count() {
    let trades = vec![open_at(4, 4 * DAY), closed_at(3, 3 * DAY, 200), open_at(2, 2 * DAY), closed_at(1, DAY, -50)];
    let analysis = perform_comprehensive_analysis(&trades);
    assert_eq!(analysis.summary.total_trades, 4);
    assert_eq!(analysis.summary.open_trades, 2);
    assert_eq!(analysis.summary.winning_trades, 1);
    assert_eq!(analysis.summary.losing_trades, 1);
    assert_eq!(analysis.summary.win_rate, Ratio { num: 100, den: 2 });
    assert_eq!(analysis.summary.net_profit, 150);
    assert_eq!(analysis.performance.total_return, 150);
}

#[test]
fn only_open_trades_give_an_infinite_profit_factor() {
    let trades = vec![open_at(1, 0), open_at(2, 0)];
    let analysis = perform_comprehensive_analysis(&trades);
    assert_eq!(analysis.summary.total_trades, 2);
    assert_eq!(analysis.summary.open_trades, 2);
    assert_eq!(analysis.summary.win_rate, Ratio { num: 0, den: 1 });
    assert_eq!(analysis.summary.profit_factor, Metric::Infinite);
    assert_eq!(analysis.summary.sharpe_ratio, MetricRule::Zero);
    assert_eq!(analysis.summary.risk_of_ruin, MetricRule::Zero);
    assert_eq!(analysis.performance, PerformanceMetrics::default());
    assert_eq!(analysis.time_analysis.hourly_analysis.len(), 24);
}

#[test]
fn single_losing_trade_scenario() {
    let trades = vec![closed_at(1, 0, -100)];
    let summary = perform_comprehensive_analysis(&trades).summary;
    assert_eq!(summary.winning_trades, 0);
    assert_eq!(summary.losing_trades, 1);
    assert_eq!(summary.risk_of_ruin, MetricRule::Zero);
    assert_eq!(summary.sharpe_ratio, MetricRule::Zero);
    assert_eq!(summary.max_drawdown, 0);
}

#[test]
fn performance_of_closed_trades() {
    let closed = vec![closed_at(1, 0, 100), closed_at(2, 0, -50), closed_at(3, 0, -70)];
    let performance = calculate_performance_metrics(&closed);
    assert_eq!(performance.total_return, -20);
    assert_eq!(performance.annual_return, MetricRule::Formula);
    assert_eq!(performance.volatility, MetricRule::Formula);
    assert_eq!(performance.sortino_ratio, MetricRule::Formula);
    let winners = vec![closed_at(1, 0, 5), closed_at(2, 0, 5)];
    let performance = calculate_performance_metrics(&winners);
    assert_eq!(performance.volatility, MetricRule::Zero);
    assert_eq!(performance.sortino_ratio, MetricRule::Infinite);
    assert_eq!(calculate_performance_metrics(&vec![]), PerformanceMetrics::default());
}

#[test]
fn psychological_report_holds_the_longest_streaks() {
    let trades = vec![
        closed_at(1, 0, 1),
        closed_at(2, 0, 1),
        open_at(3, 0),
        closed_at(4, 0, 1),
        closed_at(5, 0, -1),
    ];
    let consistency = calculate_consistency_metrics(&trades);
    assert_eq!(consistency.longest_win_streak, 3);
    assert_eq!(consistency.longest_loss_streak, 1);
    let psychological = analyze_psychological_aspects(&trades);
    assert!(psychological.emotional_impact.is_empty());
    assert_eq!(psychological.consistency, consistency);
    assert_eq!(psychological.behavioral_patterns, BehavioralPatterns::default());
    assert!(!psychological.behavioral_patterns.overtrading);
}

#[test]
fn emotions_are_broken_down_over_closed_trades() {
    let feeling = |id: u32, emotion: u32, profit: Option<i64>| Trade {
        id,
        entry_time: 0,
        ict_pattern: None,
        strategy_name: None,
        session: None,
        emotion: Some(emotion),
        is_win: profit.map(|p| p > 0),
        profit_loss_money: profit,
    };
    let trades = vec![
        feeling(1, 7, Some(50)),
        feeling(2, 3, Some(-20)),
        feeling(3, 7, Some(-10)),
        feeling(4, 5, None),
        feeling(5, 7, Some(30)),
    ];
    let groups = analyze_emotional_impact(&trades);
    let rows: Vec<(u32, usize, usize, i128)> =
        groups.iter().map(|g| (g.key, g.total_trades, g.winning_trades, g.net_profit)).collect();
    assert_eq!(rows, vec![(3, 1, 0, -20), (7, 3, 2, 70)]);
    assert_eq!(analyze_psychological_aspects(&trades).emotional_impact, groups);
}

#[test]
fn ten_alternating_trades_scenario() {
    let trades: Vec<Trade> = (0..10)
        .map(|i| closed_at(i, (10 - i as i64) * DAY, if i % 2 == 0 { 10 } else { -10 }))
        .collect();
    let analysis = perform_comprehensive_analysis(&trades);
    assert_eq!(analysis.psychological.consistency.longest_win_streak, 1);
    assert_eq!(analysis.psychological.consistency.longest_loss_streak, 1);
}

#[test]
fn time_based_report_has_a_group_for_each_bucket() {
    let closed = vec![closed_at(1, 0, 10)];
    let time_analysis = analyze_time_based_patterns(&closed);
    assert_eq!(time_analysis.hourly_analysis.len(), 24);
    assert_eq!(time_analysis.daily_analysis.len(), 7);
    assert_eq!(time_analysis.monthly_analysis.len(), 12);
    assert_eq!(time_analysis.hourly_analysis[0].total_trades, 1);
    assert_eq!(time_analysis.daily_analysis[4].total_trades, 1);
    assert_eq!(time_analysis.monthly_analysis[0].key, 1);
    assert_eq!(time_analysis.monthly_analysis[0].total_trades, 1);
    assert_eq!(time_analysis.monthly_analysis[11].total_trades, 0);
    assert!(time_analysis.session_analysis.is_empty());
}

#[test]
fn default_config_holds_the_documented_constants() {
    let config = AnalysisConfig::default();
    assert_eq!(config.confidence_level, 9500);
    assert_eq!(config.lookback_period, 252);
    assert_eq!(config.risk_free_rate, 200);
    assert_eq!(config.trading_days_per_year, 252);
    assert_eq!(config.max_drawdown_period, 21);
    assert_eq!(config.var_horizon, 1);
}

#[test]
fn default_summary_is_all_zero() {
    let s = AnalysisSummary::default();
    assert_eq!(s.total_trades, 0);
    assert_eq!(s.profit_factor, Metric::Finite(Ratio { num: 0, den: 1 }));
    assert_eq!(s.win_rate, Ratio { num: 0, den: 1 });
}

#[test]
fn quiet_report_raises_no_alert() {
    let mut analysis = TradeAnalysis::default();
    analysis.summary.win_rate = Ratio { num: 4000, den: 100 };
    analysis.summary.sharpe_ratio = MetricRule::Formula;
    analysis.summary.max_drawdown = 100_000;
    assert_eq!(generate_alerts(&analysis, 1000), vec![]);
}

#[test]
fn each_threshold_raises_its_alert() {
    let mut analysis = TradeAnalysis::default();
    analysis.summary.win_rate = Ratio { num: 4000, den: 100 };
    analysis.summary.sharpe_ratio = MetricRule::Formula;

    let mut high = analysis.clone();
    high.summary.max_drawdown = 100_001;
    assert_eq!(
        generate_alerts(&high, 1000),
        vec![Alert { kind: AlertKind::HighMaximumDrawdown, severity: Severity::Warning }]
    );

    let mut low = analysis.clone();
    low.summary.win_rate = Ratio { num: 3999, den: 100 };
    assert_eq!(
        generate_alerts(&low, 1000),
        vec![Alert { kind: AlertKind::LowWinRate, severity: Severity::Error }]
    );

    assert_eq!(
        generate_alerts(&analysis, 999),
        vec![Alert { kind: AlertKind::SuboptimalRiskAdjustedReturns, severity: Severity::Warning }]
    );

    let mut busy = analysis.clone();
    busy.psychological.behavioral_patterns.overtrading = true;
    assert_eq!(
        generate_alerts(&busy, 1000),
        vec![Alert { kind: AlertKind::OvertradingDetected, severity: Severity::Warning }]
    );
}

#[test]
fn alerts_come_in_a_fixed_order() {
    let mut analysis = TradeAnalysis::default();
    analysis.summary.max_drawdown = 250_000;
    analysis.psychological.behavioral_patterns.overtrading = true;
    let kinds: Vec<AlertKind> = generate_alerts(&analysis, 5000).iter().map(|a| a.kind).collect();
    assert_eq!(
        kinds,
        vec![
            AlertKind::HighMaximumDrawdown,
            AlertKind::LowWinRate,
            AlertKind::SuboptimalRiskAdjustedReturns,
            AlertKind::OvertradingDetected,
        ]
    );
}

#[test]
fn sharpe_zero_by_rule_is_below_one() {
    assert!(sharpe_below_one(MetricRule::Zero, 5000));
    assert!(!sharpe_below_one(MetricRule::Infinite, 0));
    assert!(sharpe_below_one(MetricRule::Formula, 999));
    assert!(!sharpe_below_one(MetricRule::Formula, 1000));
    assert!(sharpe_below_one(MetricRule::Formula, -1));
    assert_eq!(AlertKind::LowWinRate.severity(), Severity::Error);
    assert_eq!(
        AlertKind::LowWinRate.alert(),
        Alert { kind: AlertKind::LowWinRate, severity: Severity::Error }
    );
    assert_eq!(AlertKind::OvertradingDetected.severity(), Severity::Warning);
}

#[test]
fn current_streak_of_a_trade_set() {
    let trades = vec![
        open_at(9, 9 * DAY),
        closed_at(8, 8 * DAY, -5),
        closed_at(7, 7 * DAY, -5),
        closed_at(6, 6 * DAY, 5),
    ];
    assert_eq!(calculate_current_streak(&trades), -2);
    assert_eq!(calculate_current_streak(&vec![open_at(1, 0)]), 0);
}

#[test]
fn daily_performance_counts_the_closed_trades_of_the_day() {
    let now = 20 * DAY + 5_000;
    let trades = vec![
        closed_at(1, 20 * DAY, 100),
        closed_at(2, 20 * DAY + DAY - 1, -30),
        open_at(3, 20 * DAY + 10),
        closed_at(4, 21 * DAY, 7),
        closed_at(5, 20 * DAY - 1, 9),
    ];
    let daily = calculate_daily_performance(&trades, now);
    assert_eq!(daily.day, 20);
    assert_eq!(daily.total_trades, 2);
    assert_eq!(daily.winning_trades, 1);
    assert_eq!(daily.net_profit, 70);
}

#[test]
fn daily_performance_before_the_epoch() {
    let daily = calculate_daily_performance(&vec![closed_at(1, -1, 5), closed_at(2, 0, 5)], -DAY);
    assert_eq!(daily.day, -1);
    assert_eq!(daily.total_trades, 1);
}

#[test]
fn quick_summary_projects_the_report() {
    let trades = vec![closed_at(3, 3 * DAY, 200), closed_at(2, 2 * DAY, -50), closed_at(1, DAY, 100)];
    let analysis = perform_comprehensive_analysis(&trades);
    let quick = quick_analysis(&analysis, &trades, 3 * DAY + 1);
    assert_eq!(quick.win_rate, analysis.summary.win_rate);
    assert_eq!(quick.net_profit, 250);
    assert_eq!(quick.profit_factor, Metric::Finite(Ratio { num: 300, den: 50 }));
    assert_eq!(quick.max_drawdown, 50);
    assert_eq!(quick.sharpe_ratio, MetricRule::Formula);
    assert_eq!(quick.current_streak, 1);
    assert_eq!(quick.daily_performance.total_trades, 1);
    assert_eq!(quick.daily_performance.net_profit, 200);
}
