use trading_journal::deviation::deviation_is_zero;
use trading_journal::drawdown::max_drawdown;
use trading_journal::metrics::{
    annual_return_rule, average_loss, average_trade, average_win, downside, expectancy,
    profit_factor, recovery_factor, risk_of_ruin_rule, sharpe_ratio_rule, sortino_ratio_rule,
    win_rate,
};
use trading_journal::ratio::{Metric, MetricRule, Ratio};
use trading_journal::series::{gross_loss, gross_profit, net_profit};
use trading_journal::trade::Trade;

fn closed(id: u32, profit: i64, won: bool) -> Trade {
    Trade { id, entry_time: 0, ict_pattern: None, strategy_name: None, session: None, emotion: None, is_win: Some(won), profit_loss_money: Some(profit) }
}

fn value(r: Ratio) -> f64 {
    r.num as f64 / r.den as f64
}

#[test]
fn sums_of_a_mixed_series() {
    let profits = vec![100, -50, 200];
    assert_eq!(net_profit(&profits), 250);
    assert_eq!(gross_profit(&profits), 300);
    assert_eq!(gross_loss(&profits), 50);
}

#[test]
fn sums_of_the_empty_series_are_zero() {
    let profits: Vec<i64> = vec![];
    assert_eq!(net_profit(&profits), 0);
    assert_eq!(gross_profit(&profits), 0);
    assert_eq!(gross_loss(&profits), 0);
}

#[test]
fn sums_do_not_overflow_on_extreme_amounts() {
    let profits = vec![i64::MAX, i64::MAX, i64::MIN, i64::MIN, i64::MIN];
    assert_eq!(net_profit(&profits), 2 * (i64::MAX as i128) + 3 * (i64::MIN as i128));
    assert_eq!(gross_profit(&profits), 2 * (i64::MAX as i128));
    assert_eq!(gross_loss(&profits), -3 * (i64::MIN as i128));
}

#[test]
fn win_rate_is_a_percentage() {
    assert_eq!(win_rate(2, 3), Ratio { num: 200, den: 3 });
    assert_eq!(format!("{:.2}", value(win_rate(2, 3))), "66.67");
    assert_eq!(win_rate(0, 5), Ratio { num: 0, den: 5 });
    assert_eq!(win_rate(4, 4), Ratio { num: 400, den: 4 });
}

#[test]
fn win_rate_without_closed_trades_is_zero() {
    assert_eq!(win_rate(0, 0), Ratio { num: 0, den: 1 });
}

#[test]
fn profit_factor_is_profit_over_loss() {
    assert_eq!(
        profit_factor(&vec![100, -50, 200]),
        Metric::Finite(Ratio { num: 300, den: 50 })
    );
    assert_eq!(profit_factor(&vec![-50]), Metric::Finite(Ratio { num: 0, den: 50 }));
}

#[test]
fn profit_factor_is_infinite_without_loss() {
    assert_eq!(profit_factor(&vec![100, 200]), Metric::Infinite);
    assert_eq!(profit_factor(&vec![0, 0]), Metric::Infinite);
    assert_eq!(profit_factor(&vec![]), Metric::Infinite);
}

#[test]
fn average_trade_is_net_over_count() {
    assert_eq!(average_trade(&vec![100, -50, 200]), Ratio { num: 250, den: 3 });
    assert_eq!(average_trade(&vec![]), Ratio { num: 0, den: 1 });
}

#[test]
fn averages_of_wins_and_losses() {
    let trades = vec![closed(1, 100, true), closed(2, -50, false), closed(3, 200, true)];
    assert_eq!(average_win(&trades), Ratio { num: 300, den: 2 });
    assert_eq!(average_loss(&trades), Ratio { num: 50, den: 1 });
    let only_losses = vec![closed(1, -100, false)];
    assert_eq!(average_win(&only_losses), Ratio { num: 0, den: 1 });
    assert_eq!(average_loss(&only_losses), Ratio { num: 100, den: 1 });
}

#[test]
fn expectancy_is_weighted_win_less_weighted_loss() {
    let trades = vec![closed(1, 100, true), closed(2, -50, false), closed(3, 200, true)];
    let e = expectancy(&trades);
    assert_eq!(e, Ratio { num: 250, den: 3 });
    // 2/3 * 150 - 1/3 * 50
    let textbook = (2.0 / 3.0) * 150.0 - (1.0 / 3.0) * 50.0;
    assert!((value(e) - textbook).abs() < 1e-9);
    assert_eq!(expectancy(&vec![]), Ratio { num: 0, den: 1 });
}

#[test]
fn sharpe_rule_is_zero_without_deviation() {
    assert_eq!(sharpe_ratio_rule(&vec![]), MetricRule::Zero);
    assert_eq!(sharpe_ratio_rule(&vec![42]), MetricRule::Zero);
    assert_eq!(sharpe_ratio_rule(&vec![7, 7, 7, 7]), MetricRule::Zero);
    assert_eq!(sharpe_ratio_rule(&vec![-3, -3]), MetricRule::Zero);
}

#[test]
fn sharpe_rule_is_the_formula_with_deviation() {
    assert_eq!(sharpe_ratio_rule(&vec![1, 2]), MetricRule::Formula);
    assert_eq!(sharpe_ratio_rule(&vec![7, 7, 7, 8]), MetricRule::Formula);
    assert_eq!(sharpe_ratio_rule(&vec![100, -50, 200]), MetricRule::Formula);
}

#[test]
fn deviation_is_zero_exactly_for_equal_values() {
    assert!(deviation_is_zero(&vec![]));
    assert!(deviation_is_zero(&vec![5]));
    assert!(deviation_is_zero(&vec![5, 5, 5]));
    assert!(!deviation_is_zero(&vec![5, 5, 6]));
    assert!(!deviation_is_zero(&vec![6, 5, 5]));
}

#[test]
fn sortino_rule_follows_its_policy() {
    assert_eq!(sortino_ratio_rule(&vec![]), MetricRule::Zero);
    assert_eq!(sortino_ratio_rule(&vec![10, 20, 0]), MetricRule::Infinite);
    assert_eq!(sortino_ratio_rule(&vec![10, -20, 5]), MetricRule::Zero);
    assert_eq!(sortino_ratio_rule(&vec![-20, 10, -20]), MetricRule::Zero);
    assert_eq!(sortino_ratio_rule(&vec![-10, -20, 5]), MetricRule::Formula);
}

#[test]
fn downside_keeps_the_losses_in_order() {
    assert_eq!(downside(&vec![5, -1, 0, -7, 3, -1]), vec![-1, -7, -1]);
    assert_eq!(downside(&vec![5, 0]), Vec::<i64>::new());
}

#[test]
fn max_drawdown_is_the_largest_decline_from_a_peak() {
    assert_eq!(max_drawdown(&vec![100, -50, 200]), 50);
    assert_eq!(max_drawdown(&vec![10, -30, 5, -10, 50]), 35);
    assert_eq!(max_drawdown(&vec![-100, -50]), 50);
}

#[test]
fn max_drawdown_is_zero_when_the_total_never_falls() {
    assert_eq!(max_drawdown(&vec![]), 0);
    assert_eq!(max_drawdown(&vec![-100]), 0);
    assert_eq!(max_drawdown(&vec![10, 0, 20, 30]), 0);
    assert_eq!(max_drawdown(&vec![-5, 0, 5]), 0);
}

#[test]
fn max_drawdown_is_never_negative() {
    let mut seed: i64 = 12_345;
    for length in 0..40 {
        let mut profits = Vec::new();
        for _ in 0..length {
            seed = (seed * 1_103_515_245 + 12_345) % 2_147_483_648;
            profits.push(seed % 2_001 - 1_000);
        }
        assert!(max_drawdown(&profits) >= 0);
        let gains: Vec<i64> = profits.iter().map(|p| p.abs()).collect();
        assert_eq!(max_drawdown(&gains), 0);
    }
}

#[test]
fn risk_formula_is_left_only_with_wins_and_losses() {
    let both = vec![closed(1, 100, true), closed(2, -50, false)];
    assert_eq!(
        risk_of_ruin_rule(&average_win(&both), &average_loss(&both)),
        MetricRule::Formula
    );
    let only_wins = vec![closed(1, 100, true), closed(2, 50, true)];
    assert_eq!(
        risk_of_ruin_rule(&average_win(&only_wins), &average_loss(&only_wins)),
        MetricRule::Zero
    );
}

#[test]
fn max_drawdown_does_not_overflow_on_extreme_amounts() {
    assert_eq!(
        max_drawdown(&vec![i64::MAX, i64::MIN, i64::MIN]),
        -2 * (i64::MIN as i128)
    );
}

#[test]
fn recovery_factor_is_net_over_drawdown() {
    assert_eq!(recovery_factor(&vec![100, -50, 200]), Ratio { num: 250, den: 50 });
    assert_eq!(recovery_factor(&vec![100, 200]), Ratio { num: 0, den: 1 });
    assert_eq!(recovery_factor(&vec![]), Ratio { num: 0, den: 1 });
}

#[test]
fn risk_of_ruin_rule_guards_zero_averages() {
    let zero = Ratio { num: 0, den: 1 };
    let some = Ratio { num: 100, den: 1 };
    assert_eq!(risk_of_ruin_rule(&some, &zero), MetricRule::Zero);
    assert_eq!(risk_of_ruin_rule(&zero, &some), MetricRule::Zero);
    assert_eq!(risk_of_ruin_rule(&zero, &zero), MetricRule::Zero);
    assert_eq!(risk_of_ruin_rule(&some, &some), MetricRule::Formula);
}

#[test]
fn single_loss_without_wins_has_zero_risk_of_ruin() {
    let trades = vec![closed(1, -100, false)];
    let rule = risk_of_ruin_rule(&average_win(&trades), &average_loss(&trades));
    assert_eq!(rule, MetricRule::Zero);
}

#[test]
fn annual_return_rule_needs_an_observation() {
    assert_eq!(annual_return_rule(0), MetricRule::Zero);
    assert_eq!(annual_return_rule(1), MetricRule::Formula);
    assert_eq!(annual_return_rule(252), MetricRule::Formula);
}

#[test]
fn ratio_compares_with_an_integer_bound() {
    assert!(Ratio { num: 199, den: 5 }.is_below(40));
    assert!(!Ratio { num: 200, den: 5 }.is_below(40));
    assert!(Ratio { num: 0, den: 1 }.is_below(40));
    assert!(!Ratio { num: 0, den: 1 }.is_below(0));
    assert!(Ratio { num: -1, den: 7 }.is_below(0));
    assert!(Ratio { num: i128::MAX, den: i128::MAX }.is_below(40));
    assert!(!Ratio { num: i128::MIN, den: i128::MAX }.is_below(-40));
    assert!(Ratio::zero().is_zero());
    assert!(!Ratio { num: 1, den: 9 }.is_zero());
}
