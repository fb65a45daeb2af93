//! Strategy analysis: closed trades grouped by their strategy, each group
//! with the headline metrics of its own history.

use vstd::prelude::*;
use crate::drawdown::{max_drawdown, max_drawdown_of};
use crate::metrics::{
    profit_factor, profit_factor_of, recovery_factor, recovery_factor_of, sharpe_ratio_rule,
    sharpe_rule_of, win_rate, win_rate_of,
};
use crate::ratio::{Metric, MetricRule, Ratio};
use crate::series::{net_profit, total};
use crate::tags::{is_tag_index, members_of_tag, tag_index, tag_members, Tag};
use crate::trade::{count_wins, profit_series, profits_of, wins_of, Trade};

verus! {

/// The metrics of the trades of one strategy.
#[derive(Clone, Copy, Debug, PartialEq, Eq, Structural)]
pub struct StrategyPerformance {
    pub strategy: u32,
    pub total_trades: usize,
    /// Win rate in percent.
    pub win_rate: Ratio,
    pub net_profit: i128,
    pub profit_factor: Metric,
    pub sharpe_ratio: MetricRule,
    pub max_drawdown: i128,
    pub recovery_factor: Ratio,
}

/// The trades that count under `strategy`, in order.
pub open spec fn strategy_members(trades: Seq<Trade>, strategy: u32) -> Seq<Trade> {
    tag_members(trades, Tag::Strategy, strategy)
}

/// `row` holds the metrics of the trades that count under its strategy,
/// taken in their order.
pub open spec fn is_strategy_row(row: StrategyPerformance, trades: Seq<Trade>) -> bool {
    let members = strategy_members(trades, row.strategy);
    let profits = profits_of(members);
    &&& row.total_trades == members.len()
    &&& row.win_rate@ == win_rate_of(wins_of(members), members.len())
    &&& row.net_profit == total(profits)
    &&& row.profit_factor@ == profit_factor_of(profits)
    &&& row.sharpe_ratio == sharpe_rule_of(profits)
    &&& row.max_drawdown == max_drawdown_of(profits)
    &&& row.recovery_factor@ == recovery_factor_of(profits)
}

/// The strategies of the rows, in the order of the rows.
pub open spec fn strategies_of(rows: Seq<StrategyPerformance>) -> Seq<u32> {
    rows.map_values(|row: StrategyPerformance| row.strategy)
}

/// `rows` is the strategy table of `trades`: one row for each strategy
/// under which a trade counts, in ascending order of strategy.
pub open spec fn is_strategy_table(rows: Seq<StrategyPerformance>, trades: Seq<Trade>) -> bool {
    &&& is_tag_index(strategies_of(rows), trades, Tag::Strategy)
    &&& forall|i: int| 0 <= i < rows.len() ==> is_strategy_row(#[trigger] rows[i], trades)
}

/// The row of one strategy: the metrics of the trades that count under it.
pub fn strategy_row(trades: &Vec<Trade>, strategy: u32) -> (row: StrategyPerformance)
    ensures
        row.strategy == strategy,
        is_strategy_row(row, trades@),
{
    let members = members_of_tag(trades, Tag::Strategy, strategy);
    let wins = count_wins(&members);
    let profits = profit_series(&members);
    StrategyPerformance {
        strategy,
        total_trades: members.len(),
        win_rate: win_rate(wins, members.len()),
        net_profit: net_profit(&profits),
        profit_factor: profit_factor(&profits),
        sharpe_ratio: sharpe_ratio_rule(&profits),
        max_drawdown: max_drawdown(&profits),
        recovery_factor: recovery_factor(&profits),
    }
}

/// The strategy table: one row for each strategy under which a closed
/// trade is filed, in ascending order of strategy.
pub fn calculate_strategy_performance(trades: &Vec<Trade>) -> (rows: Vec<StrategyPerformance>)
    ensures
        is_strategy_table(rows@, trades@),
{
    let index = tag_index(trades, Tag::Strategy);
    let mut rows: Vec<StrategyPerformance> = Vec::new();
    let mut k: usize = 0;
    while k < index.len()
        invariant
            k <= index@.len(),
            rows@.len() == k,
            strategies_of(rows@) == index@.take(k as int),
            forall|i: int| 0 <= i < rows@.len() ==> is_strategy_row(#[trigger] rows@[i], trades@),
        decreases index@.len() - k,
    {
        let row = strategy_row(trades, index[k]);
        let ghost before = rows@;
        rows.push(row);
        proof {
            assert forall|i: int| 0 <= i < k + 1 implies strategies_of(rows@)[i] == index@.take(
                k + 1,
            )[i] by {
                if i < k {
                    assert(rows@[i] == before[i]);
                    assert(strategies_of(before)[i] == index@.take(k as int)[i]);
                }
            }
            assert(strategies_of(rows@) =~= index@.take(k + 1));
        }
        k += 1;
    }
    proof {
        assert(index@.take(index@.len() as int) =~= index@);
    }
    rows
}

} // verus!
