use trading_journal::analysis::{analyze_strategy_performance, perform_comprehensive_analysis};
use trading_journal::ratio::{Metric, MetricRule, Ratio};
use trading_journal::strategies::{calculate_strategy_performance, strategy_row, StrategyPerformance};
use trading_journal::tags::{members_of_tag, tag_index, tag_of_trade, Tag};
use trading_journal::trade::Trade;

const DAY: i64 = 86_400_000;

fn filed(id: u32, strategy: u32, entry_time: i64, profit: i64) -> Trade {
    Trade {
        id,
        entry_time,
        ict_pattern: Some(100 + strategy),
        strategy_name: Some(strategy),
        session: Some(strategy % 3),
        emotion: None,
        is_win: Some(profit > 0),
        profit_loss_money: Some(profit),
    }
}

fn unfiled(id: u32, profit: i64) -> Trade {
    Trade {
        id,
        entry_time: 0,
        ict_pattern: None,
        strategy_name: None, session: None, emotion: None,
        is_win: Some(profit > 0),
        profit_loss_money: Some(profit),
    }
}

fn open_filed(id: u32, strategy: u32) -> Trade {
    Trade {
        id,
        entry_time: 0,
        ict_pattern: None,
        strategy_name: Some(strategy),
        session: Some(strategy % 3),
        emotion: None,
        is_win: None,
        profit_loss_money: None,
    }
}

// oldest first
fn sample() -> Vec<Trade> {
    vec![
        filed(1, 4, DAY, 100),
        filed(2, 1, 2 * DAY, 30),
        filed(3, 4, 3 * DAY, -60),
        unfiled(4, 1_000),
        filed(5, 4, 5 * DAY, 20),
        open_filed(6, 8),
        filed(7, 1, 7 * DAY, 30),
    ]
}

#[test]
fn each_kind_of_tag_is_read_from_its_own_field() {
    let t = filed(1, 4, 0, 1);
    assert_eq!(tag_of_trade(&t, Tag::Strategy), Some(4));
    assert_eq!(tag_of_trade(&t, Tag::Pattern), Some(104));
    assert_eq!(tag_of_trade(&open_filed(1, 8), Tag::Strategy), None);
    assert_eq!(tag_of_trade(&unfiled(1, 5), Tag::Strategy), None);
}

#[test]
fn tag_index_is_kept_by_kind() {
    assert_eq!(tag_index(&sample(), Tag::Strategy), vec![1, 4]);
    assert_eq!(tag_index(&sample(), Tag::Pattern), vec![101, 104]);
    let ids: Vec<u32> = members_of_tag(&sample(), Tag::Strategy, 4).iter().map(|t| t.id).collect();
    assert_eq!(ids, vec![1, 3, 5]);
    assert!(members_of_tag(&sample(), Tag::Strategy, 8).is_empty());
}

#[test]
fn strategy_row_holds_the_metrics_of_its_trades() {
    assert_eq!(
        strategy_row(&sample(), 4),
        StrategyPerformance {
            strategy: 4,
            total_trades: 3,
            win_rate: Ratio { num: 200, den: 3 },
            net_profit: 60,
            profit_factor: Metric::Finite(Ratio { num: 120, den: 60 }),
            sharpe_ratio: MetricRule::Formula,
            max_drawdown: 60,
            recovery_factor: Ratio { num: 60, den: 60 },
        }
    );
    assert_eq!(
        strategy_row(&sample(), 1),
        StrategyPerformance {
            strategy: 1,
            total_trades: 2,
            win_rate: Ratio { num: 200, den: 2 },
            net_profit: 60,
            profit_factor: Metric::Infinite,
            sharpe_ratio: MetricRule::Zero,
            max_drawdown: 0,
            recovery_factor: Ratio { num: 0, den: 1 },
        }
    );
}

#[test]
fn strategy_table_lists_strategies_in_ascending_order() {
    let rows = calculate_strategy_performance(&sample());
    let strategies: Vec<u32> = rows.iter().map(|r| r.strategy).collect();
    assert_eq!(strategies, vec![1, 4]);
    assert_eq!(rows[0], strategy_row(&sample(), 1));
    assert_eq!(rows[1], strategy_row(&sample(), 4));
    assert!(calculate_strategy_performance(&vec![]).is_empty());
    assert!(calculate_strategy_performance(&vec![unfiled(1, 5), open_filed(2, 3)]).is_empty());
}

#[test]
fn strategy_report_is_part_of_the_analysis() {
    let newest_first: Vec<Trade> = sample().into_iter().rev().collect();
    let analysis = perform_comprehensive_analysis(&newest_first);
    assert_eq!(analysis.strategy_analysis, analyze_strategy_performance(&sample()));
    // the drawdown of a strategy follows time: 100, -60, 20
    assert_eq!(analysis.strategy_analysis.strategy_performance[1].max_drawdown, 60);
}
