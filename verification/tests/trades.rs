use trading_journal::streak::{current_streak, longest_streak, outcome_series};
use trading_journal::trade::{count_losses, count_wins, partition, profit_series, Trade};

fn trade(id: u32, is_win: Option<bool>, profit: Option<i64>) -> Trade {
    Trade { id, entry_time: 0, ict_pattern: None, strategy_name: None, session: None, emotion: None, is_win, profit_loss_money: profit }
}

#[test]
fn partition_splits_on_the_outcome_flag() {
    let trades = vec![
        trade(1, Some(true), Some(10)),
        trade(2, None, None),
        trade(3, Some(false), Some(-5)),
        trade(4, None, Some(3)),
        trade(5, Some(true), None),
    ];
    let (closed, open) = partition(&trades);
    let closed_ids: Vec<u32> = closed.iter().map(|t| t.id).collect();
    let open_ids: Vec<u32> = open.iter().map(|t| t.id).collect();
    assert_eq!(closed_ids, vec![1, 3, 5]);
    assert_eq!(open_ids, vec![2, 4]);
}

#[test]
fn partition_covers_the_set_without_overlap() {
    let trades: Vec<Trade> = (0..50)
        .map(|i| trade(i, if i % 3 == 0 { None } else { Some(i % 2 == 0) }, Some(i as i64)))
        .collect();
    let (closed, open) = partition(&trades);
    assert_eq!(closed.len() + open.len(), trades.len());
    assert!(closed.iter().all(|t| t.is_closed()));
    assert!(open.iter().all(|t| !t.is_closed()));
    assert!(closed.iter().all(|c| open.iter().all(|o| o.id != c.id)));
}

#[test]
fn partition_of_the_empty_set_is_empty() {
    let (closed, open) = partition(&vec![]);
    assert!(closed.is_empty());
    assert!(open.is_empty());
}

#[test]
fn wins_and_losses_are_counted_by_flag() {
    let trades = vec![
        trade(1, Some(true), Some(10)),
        trade(2, None, None),
        trade(3, Some(false), Some(-5)),
        trade(4, Some(true), Some(-1)),
    ];
    assert_eq!(count_wins(&trades), 2);
    assert_eq!(count_losses(&trades), 1);
}

#[test]
fn missing_profit_counts_as_zero() {
    let trades = vec![trade(1, Some(true), None), trade(2, Some(false), Some(-7))];
    assert_eq!(profit_series(&trades), vec![0, -7]);
    assert_eq!(trades[0].realized(), 0);
    assert_eq!(trades[1].realized(), -7);
}

#[test]
fn outcomes_leave_open_trades_out() {
    let trades = vec![
        trade(1, Some(true), None),
        trade(2, None, None),
        trade(3, Some(false), None),
    ];
    assert_eq!(outcome_series(&trades), vec![true, false]);
}

#[test]
fn alternating_outcomes_have_streaks_of_one() {
    let outcomes: Vec<bool> = (0..10).map(|i| i % 2 == 0).collect();
    assert_eq!(outcomes.len(), 10);
    assert_eq!(longest_streak(&outcomes, true), 1);
    assert_eq!(longest_streak(&outcomes, false), 1);
}

#[test]
fn longest_streak_finds_the_longest_run() {
    let outcomes = vec![true, true, false, true, true, true, false, false];
    assert_eq!(longest_streak(&outcomes, true), 3);
    assert_eq!(longest_streak(&outcomes, false), 2);
    assert_eq!(longest_streak(&vec![], true), 0);
    assert_eq!(longest_streak(&vec![false, false], true), 0);
    assert_eq!(longest_streak(&vec![false, false], false), 2);
}

#[test]
fn current_streak_is_signed_by_the_newest_outcome() {
    assert_eq!(current_streak(&vec![true, true, false, true]), 2);
    assert_eq!(current_streak(&vec![false, false, false, true]), -3);
    assert_eq!(current_streak(&vec![true]), 1);
    assert_eq!(current_streak(&vec![false]), -1);
    assert_eq!(current_streak(&vec![]), 0);
}

#[test]
fn current_streak_looks_at_ten_outcomes() {
    assert_eq!(current_streak(&vec![true; 12]), 10);
    assert_eq!(current_streak(&vec![false; 25]), -10);
    let mut outcomes = vec![true; 9];
    outcomes.push(false);
    outcomes.push(true);
    assert_eq!(current_streak(&outcomes), 9);
}
