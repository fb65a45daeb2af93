//! Pattern analysis: closed trades grouped by their pattern tag, with the
//! table of win rates by pattern and the heatmap of win rates by pattern,
//! weekday and hour.

use vstd::prelude::*;
use crate::metrics::{profit_factor, profit_factor_of, win_rate, win_rate_of};
use crate::ratio::{Metric, Ratio, RatioView};
use crate::series::{net_profit, total};
use crate::tags::{
    is_tag_index, lemma_filter_keeps_something, members_of_tag, tag_index, tag_members, tag_occurs,
    tag_of, tag_of_trade, Tag,
};
use crate::timeline::{day_of_week, hour_of, hour_of_day, weekday_of};
use crate::trade::{count_wins, profit_series, profits_of, wins_of, Trade};

verus! {

/// The pattern under which a trade counts: its pattern tag, where it is
/// closed and has one.
pub open spec fn tagged(t: Trade) -> Option<u32> {
    tag_of(t, Tag::Pattern)
}

/// Some trade counts under `pattern`.
pub open spec fn occurs(trades: Seq<Trade>, pattern: u32) -> bool {
    tag_occurs(trades, Tag::Pattern, pattern)
}

/// The trades that count under `pattern`, in order.
pub open spec fn pattern_members(trades: Seq<Trade>, pattern: u32) -> Seq<Trade> {
    tag_members(trades, Tag::Pattern, pattern)
}

/// The trades that count under `pattern` and were entered on weekday `day`
/// in hour `hour`, in order.
pub open spec fn cell_members(trades: Seq<Trade>, pattern: u32, day: u32, hour: u32) -> Seq<Trade> {
    trades.filter(
        |t: Trade|
            tagged(t) == Some(pattern) && weekday_of(t.entry_time) == day && hour_of(t.entry_time)
                == hour,
    )
}

/// The trades of the sequence whose outcome flag is `flag`, in order.
pub open spec fn flagged(trades: Seq<Trade>, flag: bool) -> Seq<Trade> {
    trades.filter(|t: Trade| t.is_win == Some(flag))
}

/// Average result of the trades whose outcome flag is `flag`: their net
/// result over their number, and zero where there is none.
pub open spec fn flagged_average_of(trades: Seq<Trade>, flag: bool) -> RatioView {
    let chosen = flagged(trades, flag);
    if chosen.len() == 0 {
        RatioView::zero()
    } else {
        RatioView { num: total(profits_of(chosen)), den: chosen.len() as int }
    }
}

/// `index` lists the patterns under which trades count, each once, in
/// ascending order.
pub open spec fn is_pattern_index(index: Seq<u32>, trades: Seq<Trade>) -> bool {
    is_tag_index(index, trades, Tag::Pattern)
}

/// A pattern occurs exactly when it has members.
pub proof fn lemma_occurs_iff_members(trades: Seq<Trade>, pattern: u32)
    ensures
        occurs(trades, pattern) <==> pattern_members(trades, pattern).len() > 0,
{
    crate::tags::lemma_occurs_iff_members(trades, Tag::Pattern, pattern);
}

/// The pattern under which a trade counts.
pub fn pattern_of(t: &Trade) -> (pattern: Option<u32>)
    ensures
        pattern == tagged(*t),
{
    tag_of_trade(t, Tag::Pattern)
}

/// The patterns under which trades count, each once, in ascending order.
pub fn pattern_index(trades: &Vec<Trade>) -> (index: Vec<u32>)
    ensures
        is_pattern_index(index@, trades@),
{
    tag_index(trades, Tag::Pattern)
}

/// One row of the table of win rates by pattern.
#[derive(Clone, Copy, Debug, PartialEq, Eq, Structural)]
pub struct PatternPerformance {
    pub pattern: u32,
    pub total_trades: usize,
    pub winning_trades: usize,
    /// Win rate in percent.
    pub win_rate: Ratio,
    pub profit_factor: Metric,
    /// Average result of the winning trades.
    pub average_profit: Ratio,
    /// Average result of the losing trades, negative where they lost.
    pub average_loss: Ratio,
}

/// `row` is the reduction of the trades that count under its pattern.
pub open spec fn is_pattern_row(row: PatternPerformance, trades: Seq<Trade>) -> bool {
    let members = pattern_members(trades, row.pattern);
    &&& row.total_trades == members.len()
    &&& row.winning_trades == wins_of(members)
    &&& row.win_rate@ == win_rate_of(wins_of(members), members.len())
    &&& row.profit_factor@ == profit_factor_of(profits_of(members))
    &&& row.average_profit@ == flagged_average_of(members, true)
    &&& row.average_loss@ == flagged_average_of(members, false)
}

/// The win rate of `a` is at least that of `b`, for rows of at least one
/// trade each: the rates compared over the product of their counts.
pub open spec fn rate_at_least(a: PatternPerformance, b: PatternPerformance) -> bool {
    a.winning_trades * b.total_trades >= b.winning_trades * a.total_trades
}

/// `rows` is the table of win rates by pattern of `trades`: one row for
/// each pattern under which a trade counts, in descending order of win
/// rate. The order among rows of the same win rate is left open.
pub open spec fn is_win_rate_table(rows: Seq<PatternPerformance>, trades: Seq<Trade>) -> bool {
    &&& forall|i: int|
        0 <= i < rows.len() ==> is_pattern_row(#[trigger] rows[i], trades) && occurs(
            trades,
            rows[i].pattern,
        )
    &&& forall|i: int, j: int|
        0 <= i < j < rows.len() ==> (#[trigger] rows[i]).pattern != (#[trigger] rows[j]).pattern
    &&& forall|p: u32| #[trigger]
        occurs(trades, p) ==> exists|i: int| 0 <= i < rows.len() && (#[trigger] rows[i]).pattern == p
    &&& forall|i: int, j: int|
        0 <= i < j < rows.len() ==> rate_at_least(#[trigger] rows[i], #[trigger] rows[j])
}

/// The order by win rate carries over: with `b` of at least one trade,
/// `a` at least `b` and `b` at least `c` give `a` at least `c`.
pub proof fn lemma_rate_order_carries(a: PatternPerformance, b: PatternPerformance, c: PatternPerformance)
    requires
        rate_at_least(a, b),
        rate_at_least(b, c),
        b.total_trades > 0,
    ensures
        rate_at_least(a, c),
{
    let (aw, at) = (a.winning_trades as int, a.total_trades as int);
    let (bw, bt) = (b.winning_trades as int, b.total_trades as int);
    let (cw, ct) = (c.winning_trades as int, c.total_trades as int);
    assert(aw * ct * bt >= cw * at * bt) by (nonlinear_arith)
        requires
            aw * bt >= bw * at,
            bw * ct >= cw * bt,
            at >= 0,
            ct >= 0,
            bt > 0,
    ;
    assert(aw * ct >= cw * at) by (nonlinear_arith)
        requires
            aw * ct * bt >= cw * at * bt,
            bt > 0,
    ;
}

/// The trades that count under `pattern`, in order.
pub fn members_of_pattern(trades: &Vec<Trade>, pattern: u32) -> (members: Vec<Trade>)
    ensures
        members@ == pattern_members(trades@, pattern),
{
    members_of_tag(trades, Tag::Pattern, pattern)
}

/// Average result of the trades whose outcome flag is `flag`.
pub fn flagged_average(trades: &Vec<Trade>, flag: bool) -> (average: Ratio)
    ensures
        average@ == flagged_average_of(trades@, flag),
        average@.wf(),
{
    let mut chosen: Vec<Trade> = Vec::new();
    let mut i: usize = 0;
    proof {
        reveal(Seq::filter);
        assert(trades@.take(0).len() == 0);
    }
    while i < trades.len()
        invariant
            i <= trades.len(),
            chosen@ == flagged(trades@.take(i as int), flag),
        decreases trades.len() - i,
    {
        proof {
            reveal(Seq::filter);
            assert(trades@.take(i + 1).drop_last() =~= trades@.take(i as int));
            assert(trades@.take(i + 1).last() == trades@[i as int]);
        }
        let t = trades[i];
        if t.is_win == Some(flag) {
            chosen.push(t);
        }
        i += 1;
    }
    proof {
        assert(trades@.take(trades.len() as int) =~= trades@);
    }
    if chosen.len() == 0 {
        Ratio::zero()
    } else {
        let profits = profit_series(&chosen);
        Ratio { num: net_profit(&profits), den: chosen.len() as i128 }
    }
}

/// The row of one pattern: the reduction of the trades that count under it.
pub fn pattern_row(trades: &Vec<Trade>, pattern: u32) -> (row: PatternPerformance)
    ensures
        row.pattern == pattern,
        is_pattern_row(row, trades@),
{
    let members = members_of_pattern(trades, pattern);
    let wins = count_wins(&members);
    let profits = profit_series(&members);
    PatternPerformance {
        pattern,
        total_trades: members.len(),
        winning_trades: wins,
        win_rate: win_rate(wins, members.len()),
        profit_factor: profit_factor(&profits),
        average_profit: flagged_average(&members, true),
        average_loss: flagged_average(&members, false),
    }
}

/// Whether the win rate of `a` is at least that of `b`.
pub fn rate_is_at_least(a: &PatternPerformance, b: &PatternPerformance) -> (holds: bool)
    ensures
        holds == rate_at_least(*a, *b),
{
    let left: u128 = a.winning_trades as u128;
    let right: u128 = b.winning_trades as u128;
    proof {
        assert(left * (b.total_trades as u128) <= 0xffff_ffff_ffff_ffff * 0xffff_ffff_ffff_ffff)
            by (nonlinear_arith)
            requires
                left <= 0xffff_ffff_ffff_ffff,
                b.total_trades <= 0xffff_ffff_ffff_ffff,
        ;
        assert(right * (a.total_trades as u128) <= 0xffff_ffff_ffff_ffff * 0xffff_ffff_ffff_ffff)
            by (nonlinear_arith)
            requires
                right <= 0xffff_ffff_ffff_ffff,
                a.total_trades <= 0xffff_ffff_ffff_ffff,
        ;
    }
    left * (b.total_trades as u128) >= right * (a.total_trades as u128)
}

/// The rows stand in descending order of win rate.
pub open spec fn descending_by_rate(rows: Seq<PatternPerformance>) -> bool {
    forall|i: int, j: int|
        0 <= i < j < rows.len() ==> rate_at_least(#[trigger] rows[i], #[trigger] rows[j])
}

/// Every row has at least one trade.
pub open spec fn all_have_trades(rows: Seq<PatternPerformance>) -> bool {
    forall|i: int| 0 <= i < rows.len() ==> (#[trigger] rows[i]).total_trades > 0
}

/// Puts a row into rows that stand in descending order of win rate, behind
/// the rows of the same win rate, so that the order holds again.
fn insert_by_rate(rows: &mut Vec<PatternPerformance>, row: PatternPerformance)
    requires
        descending_by_rate(old(rows)@),
        all_have_trades(old(rows)@),
        row.total_trades > 0,
    ensures
        descending_by_rate(final(rows)@),
        all_have_trades(final(rows)@),
        final(rows)@.to_multiset() == old(rows)@.to_multiset().insert(row),
{
    let mut at: usize = 0;
    while at < rows.len() && rate_is_at_least(&rows[at], &row)
        invariant
            at <= rows@.len(),
            forall|i: int| 0 <= i < at ==> rate_at_least(#[trigger] rows@[i], row),
        decreases rows@.len() - at,
    {
        at += 1;
    }
    let ghost before = rows@;
    rows.insert(at, row);
    proof {
        let after = rows@;
        vstd::seq_lib::to_multiset_insert(before, at as int, row);
        assert forall|i: int| 0 <= i < after.len() implies (#[trigger] after[i]).total_trades
            > 0 by {
            if i < at {
                assert(after[i] == before[i]);
            } else if i > at {
                assert(after[i] == before[i - 1]);
            }
        }
        assert forall|i: int, j: int| 0 <= i < j < after.len() implies rate_at_least(
            #[trigger] after[i],
            #[trigger] after[j],
        ) by {
            if j < at {
                assert(after[i] == before[i] && after[j] == before[j]);
            } else if j == at {
                assert(after[i] == before[i]);
            } else if i < at {
                assert(after[i] == before[i] && after[j] == before[j - 1]);
            } else if i == at {
                assert(after[j] == before[j - 1]);
                assert(!rate_at_least(before[at as int], row));
                if j - 1 > at {
                    assert(rate_at_least(before[at as int], before[j - 1]));
                    lemma_rate_order_reversed(row, before[at as int], before[j - 1]);
                }
            } else {
                assert(after[i] == before[i - 1] && after[j] == before[j - 1]);
            }
        }
    }
}

/// The same rows in descending order of win rate.
fn sorted_by_rate(rows: &Vec<PatternPerformance>) -> (sorted: Vec<PatternPerformance>)
    requires
        all_have_trades(rows@),
    ensures
        descending_by_rate(sorted@),
        sorted@.to_multiset() == rows@.to_multiset(),
{
    let mut sorted: Vec<PatternPerformance> = Vec::new();
    let mut i: usize = 0;
    proof {
        assert(rows@.take(0) =~= Seq::<PatternPerformance>::empty());
    }
    while i < rows.len()
        invariant
            i <= rows@.len(),
            all_have_trades(rows@),
            descending_by_rate(sorted@),
            all_have_trades(sorted@),
            sorted@.to_multiset() == rows@.take(i as int).to_multiset(),
        decreases rows@.len() - i,
    {
        proof {
            assert(rows@.take(i + 1) =~= rows@.take(i as int).push(rows@[i as int]));
            vstd::seq_lib::to_multiset_build(rows@.take(i as int), rows@[i as int]);
        }
        insert_by_rate(&mut sorted, rows[i]);
        i += 1;
    }
    proof {
        assert(rows@.take(rows@.len() as int) =~= rows@);
    }
    sorted
}

/// `rows` holds the row of each pattern of `index`, in the order of
/// `index`.
pub open spec fn is_rows_of_index(rows: Seq<PatternPerformance>, index: Seq<u32>, trades: Seq<Trade>) -> bool {
    &&& rows.len() == index.len()
    &&& forall|q: int|
        0 <= q < rows.len() ==> (#[trigger] rows[q]).pattern == index[q] && is_pattern_row(
            rows[q],
            trades,
        )
}

/// The row of each pattern of `index`, in the order of `index`.
pub fn rows_of_index(trades: &Vec<Trade>, index: &Vec<u32>) -> (rows: Vec<PatternPerformance>)
    ensures
        is_rows_of_index(rows@, index@, trades@),
{
    let mut rows: Vec<PatternPerformance> = Vec::new();
    let mut k: usize = 0;
    while k < index.len()
        invariant
            k <= index@.len(),
            is_rows_of_index(rows@, index@.take(k as int), trades@),
        decreases index@.len() - k,
    {
        let row = pattern_row(trades, index[k]);
        rows.push(row);
        k += 1;
    }
    proof {
        assert(index@.take(index@.len() as int) =~= index@);
    }
    rows
}

/// Two rows of the same pattern over the same trades are the same row.
pub proof fn lemma_row_is_determined(a: PatternPerformance, b: PatternPerformance, trades: Seq<Trade>)
    requires
        is_pattern_row(a, trades),
        is_pattern_row(b, trades),
        a.pattern == b.pattern,
    ensures
        a == b,
{
}

/// The rows of a pattern index, in whatever order that is descending by
/// win rate, are the table of win rates.
proof fn lemma_sorted_rows_are_table(
    sorted: Seq<PatternPerformance>,
    rows: Seq<PatternPerformance>,
    index: Seq<u32>,
    trades: Seq<Trade>,
)
    requires
        is_pattern_index(index, trades),
        is_rows_of_index(rows, index, trades),
        descending_by_rate(sorted),
        sorted.to_multiset() == rows.to_multiset(),
    ensures
        is_win_rate_table(sorted, trades),
{
    assert forall|i: int| 0 <= i < sorted.len() implies rows.contains(#[trigger] sorted[i]) by {
        assert(sorted.contains(sorted[i]));
        vstd::seq_lib::to_multiset_contains(sorted, sorted[i]);
        vstd::seq_lib::to_multiset_contains(rows, sorted[i]);
    }
    assert forall|i: int| 0 <= i < sorted.len() implies is_pattern_row(
        #[trigger] sorted[i],
        trades,
    ) && occurs(trades, sorted[i].pattern) by {
        assert(rows.contains(sorted[i]));
        let q = choose|q: int| 0 <= q < rows.len() && rows[q] == sorted[i];
        assert(rows[q].pattern == index[q]);
        assert(occurs(trades, index[q]));
    }
    assert(rows.no_duplicates()) by {
        assert forall|a: int, b: int| 0 <= a < rows.len() && 0 <= b < rows.len() && a != b implies rows[a]
            != rows[b] by {
            assert(rows[a].pattern == index[a] && rows[b].pattern == index[b]);
            if a < b {
                assert(index[a] < index[b]);
            } else {
                assert(index[b] < index[a]);
            }
        }
    }
    rows.lemma_multiset_has_no_duplicates();
    sorted.lemma_multiset_has_no_duplicates_conv();
    assert forall|i: int, j: int| 0 <= i < j < sorted.len() implies (#[trigger] sorted[i]).pattern
        != (#[trigger] sorted[j]).pattern by {
        if sorted[i].pattern == sorted[j].pattern {
            lemma_row_is_determined(sorted[i], sorted[j], trades);
        }
    }
    assert forall|p: u32| #[trigger] occurs(trades, p) implies exists|i: int|
        0 <= i < sorted.len() && (#[trigger] sorted[i]).pattern == p by {
        assert(index.contains(p));
        let q = choose|q: int| 0 <= q < index.len() && index[q] == p;
        assert(rows[q].pattern == p);
        assert(rows.contains(rows[q]));
        vstd::seq_lib::to_multiset_contains(rows, rows[q]);
        vstd::seq_lib::to_multiset_contains(sorted, rows[q]);
        let i = choose|i: int| 0 <= i < sorted.len() && sorted[i] == rows[q];
        assert(sorted[i].pattern == p);
    }
}

/// The table of win rates by pattern: one row for each pattern under
/// which a closed trade is tagged, in descending order of win rate.
pub fn calculate_ict_win_rates(trades: &Vec<Trade>) -> (rows: Vec<PatternPerformance>)
    ensures
        is_win_rate_table(rows@, trades@),
{
    let index = pattern_index(trades);
    let rows = rows_of_index(trades, &index);
    proof {
        assert forall|q: int| 0 <= q < rows@.len() implies (#[trigger] rows@[q]).total_trades
            > 0 by {
            assert(occurs(trades@, index@[q]));
            lemma_occurs_iff_members(trades@, rows@[q].pattern);
        }
    }
    let sorted = sorted_by_rate(&rows);
    proof {
        lemma_sorted_rows_are_table(sorted@, rows@, index@, trades@);
    }
    sorted
}

/// A row that ranks strictly above `b` ranks at least as high as every row
/// that `b` ranks at least as high as, where `b` has a trade.
pub proof fn lemma_rate_order_reversed(a: PatternPerformance, b: PatternPerformance, c: PatternPerformance)
    requires
        !rate_at_least(b, a),
        rate_at_least(b, c),
        b.total_trades > 0,
    ensures
        rate_at_least(a, c),
{
    assert(rate_at_least(a, b));
    lemma_rate_order_carries(a, b, c);
}

/// One cell of the heatmap: the trades of a pattern entered on a weekday
/// in an hour.
#[derive(Clone, Copy, Debug, PartialEq, Eq, Structural)]
pub struct ICTHeatmapData {
    pub pattern: u32,
    /// Day of the week, 0 for Sunday.
    pub day_of_week: u32,
    pub hour_of_day: u32,
    pub total_trades: usize,
    /// Win rate in percent.
    pub win_rate: Ratio,
}

/// `cell` is the reduction of the trades of its pattern, weekday and hour,
/// of which there is at least one.
pub open spec fn is_heatmap_cell(cell: ICTHeatmapData, trades: Seq<Trade>) -> bool {
    let members = cell_members(trades, cell.pattern, cell.day_of_week, cell.hour_of_day);
    &&& members.len() > 0
    &&& cell.total_trades == members.len()
    &&& cell.win_rate@ == win_rate_of(wins_of(members), members.len())
}

/// The slot of pattern, weekday and hour `(p1, d1, h1)` comes before the
/// slot `(p2, d2, h2)`: by pattern, then by weekday, then by hour.
pub open spec fn slot_before(p1: int, d1: int, h1: int, p2: int, d2: int, h2: int) -> bool {
    p1 < p2 || (p1 == p2 && (d1 < d2 || (d1 == d2 && h1 < h2)))
}

/// The slot of `a` comes before the slot of `b`.
pub open spec fn cell_before(a: ICTHeatmapData, b: ICTHeatmapData) -> bool {
    slot_before(
        a.pattern as int,
        a.day_of_week as int,
        a.hour_of_day as int,
        b.pattern as int,
        b.day_of_week as int,
        b.hour_of_day as int,
    )
}

/// Some cell stands for the slot `(pattern, day, hour)`.
pub open spec fn has_cell(cells: Seq<ICTHeatmapData>, pattern: u32, day: u32, hour: u32) -> bool {
    exists|i: int|
        0 <= i < cells.len() && (#[trigger] cells[i]).pattern == pattern && cells[i].day_of_week
            == day && cells[i].hour_of_day == hour
}

/// `cells` is the heatmap of `trades`: one cell for each slot of pattern,
/// weekday and hour in which a trade counts, in ascending order of slot.
pub open spec fn is_heatmap(cells: Seq<ICTHeatmapData>, trades: Seq<Trade>) -> bool {
    &&& forall|i: int| 0 <= i < cells.len() ==> is_heatmap_cell(#[trigger] cells[i], trades)
    &&& forall|i: int, j: int|
        0 <= i < j < cells.len() ==> cell_before(#[trigger] cells[i], #[trigger] cells[j])
    &&& forall|p: u32, d: u32, h: u32|
        (#[trigger] cell_members(trades, p, d, h)).len() > 0 ==> has_cell(cells, p, d, h)
}

/// `cells` is the heatmap of `trades` as far as the slots before
/// `(pattern, day, hour)` go, and holds no cell of another slot.
pub open spec fn is_heatmap_upto(
    cells: Seq<ICTHeatmapData>,
    trades: Seq<Trade>,
    pattern: int,
    day: int,
    hour: int,
) -> bool {
    &&& forall|i: int| 0 <= i < cells.len() ==> is_heatmap_cell(#[trigger] cells[i], trades)
    &&& forall|i: int, j: int|
        0 <= i < j < cells.len() ==> cell_before(#[trigger] cells[i], #[trigger] cells[j])
    &&& forall|i: int|
        0 <= i < cells.len() ==> slot_before(
            (#[trigger] cells[i]).pattern as int,
            cells[i].day_of_week as int,
            cells[i].hour_of_day as int,
            pattern,
            day,
            hour,
        )
    &&& forall|p: u32, d: u32, h: u32|
        (#[trigger] cell_members(trades, p, d, h)).len() > 0 && slot_before(
            p as int,
            d as int,
            h as int,
            pattern,
            day,
            hour,
        ) ==> has_cell(cells, p, d, h)
}

/// The pattern at position `k` of the index, and a number above every
/// pattern behind its end.
pub open spec fn pattern_at(index: Seq<u32>, k: int) -> int {
    if 0 <= k < index.len() {
        index[k] as int
    } else {
        0x1_0000_0000
    }
}

/// A slot with a trade in it has a pattern that occurs, a weekday below 7
/// and an hour below 24.
pub proof fn lemma_slot_in_range(trades: Seq<Trade>, pattern: u32, day: u32, hour: u32)
    requires
        cell_members(trades, pattern, day, hour).len() > 0,
    ensures
        occurs(trades, pattern),
        day < 7,
        hour < 24,
{
    let pred = |t: Trade|
        tagged(t) == Some(pattern) && weekday_of(t.entry_time) == day && hour_of(t.entry_time)
            == hour;
    lemma_filter_keeps_something(trades, pred);
    let i = choose|i: int| 0 <= i < trades.len() && pred(#[trigger] trades[i]);
    assert(tagged(trades[i]) == Some(pattern));
    let ms = trades[i].entry_time as int % 86_400_000;
    assert(0 <= ms < 86_400_000);
    assert(ms / 3_600_000 < 24);
}

proof fn lemma_heatmap_start(trades: Seq<Trade>, index: Seq<u32>)
    requires
        is_pattern_index(index, trades),
    ensures
        is_heatmap_upto(Seq::<ICTHeatmapData>::empty(), trades, pattern_at(index, 0), 0, 0),
{
    assert forall|p: u32, d: u32, h: u32|
        (#[trigger] cell_members(trades, p, d, h)).len() > 0 && slot_before(
            p as int,
            d as int,
            h as int,
            pattern_at(index, 0),
            0,
            0,
        ) implies has_cell(Seq::<ICTHeatmapData>::empty(), p, d, h) by {
        lemma_slot_in_range(trades, p, d, h);
        assert(index.contains(p));
        let q = choose|q: int| 0 <= q < index.len() && index[q] == p;
        if q > 0 {
            assert(index[0] < index[q]);
        }
    }
}

proof fn lemma_heatmap_next_day(cells: Seq<ICTHeatmapData>, trades: Seq<Trade>, pattern: int, day: int)
    requires
        is_heatmap_upto(cells, trades, pattern, day, 24),
    ensures
        is_heatmap_upto(cells, trades, pattern, day + 1, 0),
{
    assert forall|p: u32, d: u32, h: u32|
        (#[trigger] cell_members(trades, p, d, h)).len() > 0 && slot_before(
            p as int,
            d as int,
            h as int,
            pattern,
            day + 1,
            0,
        ) implies has_cell(cells, p, d, h) by {
        lemma_slot_in_range(trades, p, d, h);
        assert(slot_before(p as int, d as int, h as int, pattern, day, 24));
    }
}

proof fn lemma_heatmap_next_pattern(
    cells: Seq<ICTHeatmapData>,
    trades: Seq<Trade>,
    index: Seq<u32>,
    k: int,
)
    requires
        is_pattern_index(index, trades),
        0 <= k < index.len(),
        is_heatmap_upto(cells, trades, index[k] as int, 7, 0),
    ensures
        is_heatmap_upto(cells, trades, pattern_at(index, k + 1), 0, 0),
{
    let next = pattern_at(index, k + 1);
    if k + 1 < index.len() {
        assert(index[k] < index[k + 1]);
    }
    assert forall|p: u32, d: u32, h: u32|
        (#[trigger] cell_members(trades, p, d, h)).len() > 0 && slot_before(
            p as int,
            d as int,
            h as int,
            next,
            0,
            0,
        ) implies has_cell(cells, p, d, h) by {
        lemma_slot_in_range(trades, p, d, h);
        assert(index.contains(p));
        let q = choose|q: int| 0 <= q < index.len() && index[q] == p;
        if q > k {
            if k + 1 < q {
                assert(index[k + 1] < index[q]);
            }
            assert(false);
        }
        if q < k {
            assert(index[q] < index[k]);
        }
        assert(slot_before(p as int, d as int, h as int, index[k] as int, 7, 0));
    }
}

proof fn lemma_heatmap_done(cells: Seq<ICTHeatmapData>, trades: Seq<Trade>)
    requires
        is_heatmap_upto(cells, trades, 0x1_0000_0000, 0, 0),
    ensures
        is_heatmap(cells, trades),
{
    assert forall|p: u32, d: u32, h: u32|
        (#[trigger] cell_members(trades, p, d, h)).len() > 0 implies has_cell(cells, p, d, h) by {
        assert(slot_before(p as int, d as int, h as int, 0x1_0000_0000, 0, 0));
    }
}

/// The trades that count under `pattern` and were entered on weekday `day`
/// in hour `hour`, in order.
pub fn members_of_cell(trades: &Vec<Trade>, pattern: u32, day: u32, hour: u32) -> (members: Vec<
    Trade,
>)
    ensures
        members@ == cell_members(trades@, pattern, day, hour),
{
    let mut members: Vec<Trade> = Vec::new();
    let mut i: usize = 0;
    proof {
        reveal(Seq::filter);
        assert(trades@.take(0).len() == 0);
    }
    while i < trades.len()
        invariant
            i <= trades.len(),
            members@ == cell_members(trades@.take(i as int), pattern, day, hour),
        decreases trades.len() - i,
    {
        proof {
            reveal(Seq::filter);
            assert(trades@.take(i + 1).drop_last() =~= trades@.take(i as int));
            assert(trades@.take(i + 1).last() == trades@[i as int]);
        }
        let t = trades[i];
        if pattern_of(&t) == Some(pattern) && day_of_week(t.entry_time) == day && hour_of_day(
            t.entry_time,
        ) == hour {
            members.push(t);
        }
        i += 1;
    }
    proof {
        assert(trades@.take(trades.len() as int) =~= trades@);
    }
    members
}

/// Looks at one slot and adds its cell where a trade counts in it.
fn add_cell(cells: &mut Vec<ICTHeatmapData>, trades: &Vec<Trade>, pattern: u32, day: u32, hour: u32)
    requires
        is_heatmap_upto(old(cells)@, trades@, pattern as int, day as int, hour as int),
    ensures
        is_heatmap_upto(final(cells)@, trades@, pattern as int, day as int, hour + 1),
{
    let members = members_of_cell(trades, pattern, day, hour);
    let ghost before = cells@;
    if members.len() > 0 {
        let wins = count_wins(&members);
        let cell = ICTHeatmapData {
            pattern,
            day_of_week: day,
            hour_of_day: hour,
            total_trades: members.len(),
            win_rate: win_rate(wins, members.len()),
        };
        cells.push(cell);
        proof {
            assert(cells@[before.len() as int] == cell);
            assert forall|i: int| 0 <= i < before.len() implies #[trigger] cells@[i]
                == before[i] by {}
        }
    }
    proof {
        let after = cells@;
        assert forall|p: u32, d: u32, h: u32|
            (#[trigger] cell_members(trades@, p, d, h)).len() > 0 && slot_before(
                p as int,
                d as int,
                h as int,
                pattern as int,
                day as int,
                hour + 1,
            ) implies has_cell(after, p, d, h) by {
            if p == pattern && d == day && h == hour {
                assert(after[before.len() as int].pattern == p);
            } else {
                assert(slot_before(
                    p as int,
                    d as int,
                    h as int,
                    pattern as int,
                    day as int,
                    hour as int,
                ));
                assert(has_cell(before, p, d, h));
                let i = choose|i: int|
                    0 <= i < before.len() && (#[trigger] before[i]).pattern == p
                        && before[i].day_of_week == d && before[i].hour_of_day == h;
                assert(after[i] == before[i]);
            }
        }
    }
}

/// The heatmap of win rates by pattern, weekday and hour: one cell for
/// each slot in which a closed, tagged trade was entered, in ascending
/// order of pattern, weekday and hour.
pub fn calculate_ict_heatmap(trades: &Vec<Trade>) -> (cells: Vec<ICTHeatmapData>)
    ensures
        is_heatmap(cells@, trades@),
{
    let index = pattern_index(trades);
    let mut cells: Vec<ICTHeatmapData> = Vec::new();
    let mut k: usize = 0;
    proof {
        lemma_heatmap_start(trades@, index@);
    }
    while k < index.len()
        invariant
            k <= index@.len(),
            is_pattern_index(index@, trades@),
            is_heatmap_upto(cells@, trades@, pattern_at(index@, k as int), 0, 0),
        decreases index@.len() - k,
    {
        let pattern = index[k];
        let mut day: u32 = 0;
        while day < 7
            invariant
                day <= 7,
                is_heatmap_upto(cells@, trades@, pattern as int, day as int, 0),
            decreases 7 - day,
        {
            let mut hour: u32 = 0;
            while hour < 24
                invariant
                    hour <= 24,
                    day < 7,
                    is_heatmap_upto(cells@, trades@, pattern as int, day as int, hour as int),
                decreases 24 - hour,
            {
                add_cell(&mut cells, trades, pattern, day, hour);
                hour += 1;
            }
            proof {
                lemma_heatmap_next_day(cells@, trades@, pattern as int, day as int);
            }
            day += 1;
        }
        proof {
            lemma_heatmap_next_pattern(cells@, trades@, index@, k as int);
        }
        k += 1;
    }
    proof {
        lemma_heatmap_done(cells@, trades@);
    }
    cells
}

} // verus!
