//! Trades as the analytics read them, and the split into closed and open.

use vstd::prelude::*;

verus! {

/// One journal entry, reduced to what the analytics read.
#[derive(Clone, Copy, Debug)]
pub struct Trade {
    /// Unique identity.
    pub id: u32,
    /// Entry time in milliseconds since the Unix epoch, UTC.
    pub entry_time: i64,
    /// Pattern tag, as a number that the caller assigns to each tag.
    pub ict_pattern: Option<u32>,
    /// Strategy name, as a number that the caller assigns to each name.
    pub strategy_name: Option<u32>,
    /// Session tag, as a number that the caller assigns to each session.
    pub session: Option<u32>,
    /// Emotion tag, as a number that the caller assigns to each emotion.
    pub emotion: Option<u32>,
    /// Outcome flag: `None` while the trade is open.
    pub is_win: Option<bool>,
    /// Realized profit or loss in minor currency units.
    pub profit_loss_money: Option<i64>,
}

/// A trade is closed exactly when its outcome flag is present.
pub open spec fn is_closed(t: Trade) -> bool {
    t.is_win is Some
}

/// The closed trades of a set, in the order of the set.
pub open spec fn closed_of(trades: Seq<Trade>) -> Seq<Trade> {
    trades.filter(|t: Trade| is_closed(t))
}

/// The open trades of a set, in the order of the set.
pub open spec fn open_of(trades: Seq<Trade>) -> Seq<Trade> {
    trades.filter(|t: Trade| !is_closed(t))
}

/// The realized profit or loss of a trade, zero where none is recorded.
pub open spec fn realized(t: Trade) -> i64 {
    match t.profit_loss_money {
        Some(p) => p,
        None => 0,
    }
}

/// The profit/loss series of a sequence of trades.
pub open spec fn profits_of(trades: Seq<Trade>) -> Seq<i64> {
    trades.map_values(|t: Trade| realized(t))
}

/// Number of trades flagged as wins.
pub open spec fn wins_of(trades: Seq<Trade>) -> nat {
    trades.filter(|t: Trade| t.is_win == Some(true)).len()
}

/// Number of trades flagged as losses.
pub open spec fn losses_of(trades: Seq<Trade>) -> nat {
    trades.filter(|t: Trade| t.is_win == Some(false)).len()
}

/// Every trade of the sequence is closed.
pub open spec fn all_closed(trades: Seq<Trade>) -> bool {
    forall|i: int| 0 <= i < trades.len() ==> is_closed(#[trigger] trades[i])
}

impl Trade {
    /// Whether the trade is closed.
    pub fn is_closed(&self) -> (b: bool)
        ensures
            b == is_closed(*self),
    {
        self.is_win.is_some()
    }

    /// The realized profit or loss, zero where none is recorded.
    pub fn realized(&self) -> (p: i64)
        ensures
            p == realized(*self),
    {
        match self.profit_loss_money {
            Some(p) => p,
            None => 0,
        }
    }
}

/// Splits a trade set into its closed and its open trades, keeping order.
pub fn partition(trades: &Vec<Trade>) -> (parts: (Vec<Trade>, Vec<Trade>))
    ensures
        parts.0@ == closed_of(trades@),
        parts.1@ == open_of(trades@),
{
    let mut closed: Vec<Trade> = Vec::new();
    let mut open: Vec<Trade> = Vec::new();
    let mut i: usize = 0;
    proof {
        reveal(Seq::filter);
        assert(trades@.take(0).len() == 0);
    }
    while i < trades.len()
        invariant
            i <= trades.len(),
            closed@ == closed_of(trades@.take(i as int)),
            open@ == open_of(trades@.take(i as int)),
        decreases trades.len() - i,
    {
        proof {
            reveal(Seq::filter);
            assert(trades@.take(i + 1).drop_last() =~= trades@.take(i as int));
            assert(trades@.take(i + 1).last() == trades@[i as int]);
        }
        let t = trades[i];
        if t.is_closed() {
            closed.push(t);
        } else {
            open.push(t);
        }
        i += 1;
    }
    proof {
        assert(trades@.take(trades.len() as int) =~= trades@);
    }
    (closed, open)
}

/// The profit/loss series of a sequence of trades.
pub fn profit_series(trades: &Vec<Trade>) -> (profits: Vec<i64>)
    ensures
        profits@ == profits_of(trades@),
{
    let mut profits: Vec<i64> = Vec::new();
    let mut i: usize = 0;
    while i < trades.len()
        invariant
            i <= trades.len(),
            profits@ == profits_of(trades@.take(i as int)),
        decreases trades.len() - i,
    {
        profits.push(trades[i].realized());
        proof {
            assert(profits@ =~= profits_of(trades@.take(i + 1)));
        }
        i += 1;
    }
    proof {
        assert(trades@.take(trades.len() as int) =~= trades@);
    }
    profits
}

/// Number of trades flagged as wins.
pub fn count_wins(trades: &Vec<Trade>) -> (wins: usize)
    ensures
        wins == wins_of(trades@),
{
    let mut wins: usize = 0;
    let mut i: usize = 0;
    proof {
        reveal(Seq::filter);
        assert(trades@.take(0).len() == 0);
    }
    while i < trades.len()
        invariant
            i <= trades.len(),
            wins == wins_of(trades@.take(i as int)),
            wins <= i,
        decreases trades.len() - i,
    {
        proof {
            reveal(Seq::filter);
            assert(trades@.take(i + 1).drop_last() =~= trades@.take(i as int));
            assert(trades@.take(i + 1).last() == trades@[i as int]);
        }
        let won = match trades[i].is_win {
            Some(flag) => flag,
            None => false,
        };
        if won {
            wins += 1;
        }
        i += 1;
    }
    proof {
        assert(trades@.take(trades.len() as int) =~= trades@);
    }
    wins
}

/// Number of trades flagged as losses.
pub fn count_losses(trades: &Vec<Trade>) -> (losses: usize)
    ensures
        losses == losses_of(trades@),
{
    let mut losses: usize = 0;
    let mut i: usize = 0;
    proof {
        reveal(Seq::filter);
        assert(trades@.take(0).len() == 0);
    }
    while i < trades.len()
        invariant
            i <= trades.len(),
            losses == losses_of(trades@.take(i as int)),
            losses <= i,
        decreases trades.len() - i,
    {
        proof {
            reveal(Seq::filter);
            assert(trades@.take(i + 1).drop_last() =~= trades@.take(i as int));
            assert(trades@.take(i + 1).last() == trades@[i as int]);
        }
        let lost = match trades[i].is_win {
            Some(flag) => !flag,
            None => false,
        };
        if lost {
            losses += 1;
        }
        i += 1;
    }
    proof {
        assert(trades@.take(trades.len() as int) =~= trades@);
    }
    losses
}

/// Wins and losses never outnumber the trades, and among closed trades
/// every trade is one or the other.
pub proof fn lemma_wins_and_losses(trades: Seq<Trade>)
    ensures
        wins_of(trades) + losses_of(trades) <= trades.len(),
        all_closed(trades) ==> wins_of(trades) + losses_of(trades) == trades.len(),
    decreases trades.len(),
{
    reveal(Seq::filter);
    if trades.len() > 0 {
        let rest = trades.drop_last();
        lemma_wins_and_losses(rest);
        if all_closed(trades) {
            assert(all_closed(rest)) by {
                assert forall|i: int| 0 <= i < rest.len() implies is_closed(#[trigger] rest[i]) by {
                    assert(rest[i] == trades[i]);
                }
            }
            let last = trades.last();
            assert(is_closed(trades[trades.len() - 1]));
            assert(last.is_win == Some(true) || last.is_win == Some(false));
        }
    }
}

/// Every trade is either closed or open: the two parts together have as many
/// trades as the whole set.
pub proof fn lemma_partition_covers(trades: Seq<Trade>)
    ensures
        closed_of(trades).len() + open_of(trades).len() == trades.len(),
    decreases trades.len(),
{
    reveal(Seq::filter);
    if trades.len() > 0 {
        lemma_partition_covers(trades.drop_last());
    }
}

/// No trade is both closed and open: every trade of the closed part has an
/// outcome flag, none of the open part has one, so the parts share no trade.
pub proof fn lemma_partition_disjoint(trades: Seq<Trade>)
    ensures
        all_closed(closed_of(trades)),
        forall|j: int| 0 <= j < open_of(trades).len() ==> !is_closed(#[trigger] open_of(trades)[j]),
        forall|i: int, j: int|
            0 <= i < closed_of(trades).len() && 0 <= j < open_of(trades).len()
                ==> #[trigger] closed_of(trades)[i] != #[trigger] open_of(trades)[j],
{
    let closed_pred = |t: Trade| is_closed(t);
    let open_pred = |t: Trade| !is_closed(t);
    assert forall|i: int| 0 <= i < closed_of(trades).len() implies is_closed(
        #[trigger] closed_of(trades)[i],
    ) by {
        trades.lemma_filter_pred(closed_pred, i);
    }
    assert forall|j: int| 0 <= j < open_of(trades).len() implies !is_closed(
        #[trigger] open_of(trades)[j],
    ) by {
        trades.lemma_filter_pred(open_pred, j);
    }
}

} // verus!
