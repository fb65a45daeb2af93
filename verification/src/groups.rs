//! Group by key, then reduce: the breakdown of closed trades into buckets
//! with a count, a win count, a win rate and a net profit each.

use vstd::prelude::*;
use crate::metrics::{win_rate, win_rate_of};
use crate::ratio::Ratio;
use crate::series::{net_profit, total};
use crate::tags::{is_tag_index, members_of_tag, tag_index, tag_members, Tag};
use crate::timeline::{
    calendar_month, day_of_week, hour_of, hour_of_day, month_of_year, weekday_of,
};
use crate::trade::{count_wins, profit_series, profits_of, wins_of, Trade};

verus! {

/// The statistics of the trades that share a key.
#[derive(Clone, Copy, Debug, PartialEq, Eq, Structural)]
pub struct GroupStats {
    pub key: u32,
    pub total_trades: usize,
    pub winning_trades: usize,
    /// Win rate in percent.
    pub win_rate: Ratio,
    pub net_profit: i128,
}

/// `group` is the reduction of `members` under `key`.
pub open spec fn is_group_of(group: GroupStats, key: u32, members: Seq<Trade>) -> bool {
    &&& group.key == key
    &&& group.total_trades == members.len()
    &&& group.winning_trades == wins_of(members)
    &&& group.win_rate@ == win_rate_of(wins_of(members), members.len())
    &&& group.net_profit == total(profits_of(members))
}

/// The trades filed under `key`, in order.
pub open spec fn members_with_key(keyed: Seq<(u32, Trade)>, key: u32) -> Seq<Trade> {
    keyed.filter(|entry: (u32, Trade)| entry.0 == key).map_values(|entry: (u32, Trade)| entry.1)
}

/// `groups` holds one group for each key from `first` to `last`, in
/// ascending order of key, and nothing where `first` exceeds `last`.
pub open spec fn is_grouping(
    groups: Seq<GroupStats>,
    keyed: Seq<(u32, Trade)>,
    first: u32,
    last: u32,
) -> bool {
    &&& first > last ==> groups.len() == 0
    &&& first <= last ==> groups.len() == last - first + 1
    &&& forall|i: int|
        0 <= i < groups.len() ==> is_group_of(
            #[trigger] groups[i],
            (first + i) as u32,
            members_with_key(keyed, (first + i) as u32),
        )
}

/// Each trade filed under the hour of its entry.
pub open spec fn hour_keyed(trades: Seq<Trade>) -> Seq<(u32, Trade)> {
    trades.map_values(|t: Trade| (hour_of(t.entry_time) as u32, t))
}

/// Each trade filed under the weekday of its entry, 0 for Sunday.
pub open spec fn weekday_keyed(trades: Seq<Trade>) -> Seq<(u32, Trade)> {
    trades.map_values(|t: Trade| (weekday_of(t.entry_time) as u32, t))
}

/// A trade filed under the month of its entry, where the calendar has one.
pub open spec fn month_entry(t: Trade) -> Option<(u32, Trade)> {
    match calendar_month(t.entry_time) {
        Some(month) => Some((month, t)),
        None => None,
    }
}

/// Each trade filed under the month of its entry, 1 for January; trades
/// whose entry time the calendar does not reach are left out.
pub open spec fn month_keyed(trades: Seq<Trade>) -> Seq<(u32, Trade)> {
    trades.filter_map(|t: Trade| month_entry(t))
}

/// The trades entered in hour `hour`, in order.
pub open spec fn entered_in_hour(trades: Seq<Trade>, hour: u32) -> Seq<Trade> {
    trades.filter(|t: Trade| hour_of(t.entry_time) == hour)
}

/// The trades entered on weekday `day`, in order.
pub open spec fn entered_on_weekday(trades: Seq<Trade>, day: u32) -> Seq<Trade> {
    trades.filter(|t: Trade| weekday_of(t.entry_time) == day)
}

/// The trades entered in month `month` of the calendar, in order.
pub open spec fn entered_in_month(trades: Seq<Trade>, month: u32) -> Seq<Trade> {
    trades.filter(|t: Trade| calendar_month(t.entry_time) == Some(month))
}

/// Filed under the hour of their entry, the trades of an hour are the
/// trades entered in that hour.
pub proof fn lemma_hour_members(trades: Seq<Trade>, hour: u32)
    ensures
        members_with_key(hour_keyed(trades), hour) == entered_in_hour(trades, hour),
    decreases trades.len(),
{
    reveal(Seq::filter);
    if trades.len() > 0 {
        let rest = trades.drop_last();
        lemma_hour_members(rest, hour);
        assert(hour_keyed(trades).drop_last() =~= hour_keyed(rest));
        let ms = trades.last().entry_time as int % 86_400_000;
        assert(0 <= ms / 3_600_000 < 24);
    }
    assert(members_with_key(hour_keyed(trades), hour) =~= entered_in_hour(trades, hour));
}

/// Filed under the weekday of their entry, the trades of a weekday are
/// the trades entered on that weekday.
pub proof fn lemma_weekday_members(trades: Seq<Trade>, day: u32)
    ensures
        members_with_key(weekday_keyed(trades), day) == entered_on_weekday(trades, day),
    decreases trades.len(),
{
    reveal(Seq::filter);
    if trades.len() > 0 {
        let rest = trades.drop_last();
        lemma_weekday_members(rest, day);
        assert(weekday_keyed(trades).drop_last() =~= weekday_keyed(rest));
    }
    assert(members_with_key(weekday_keyed(trades), day) =~= entered_on_weekday(trades, day));
}

/// Filed under the month of their entry, the trades of a month are the
/// trades entered in that month.
pub proof fn lemma_month_members(trades: Seq<Trade>, month: u32)
    ensures
        members_with_key(month_keyed(trades), month) == entered_in_month(trades, month),
    decreases trades.len(),
{
    reveal(Seq::filter);
    if trades.len() > 0 {
        let rest = trades.drop_last();
        lemma_month_members(rest, month);
        match calendar_month(trades.last().entry_time) {
            Some(m) => {
                assert(month_keyed(trades) =~= month_keyed(rest).push((m, trades.last())));
                assert(month_keyed(trades).drop_last() =~= month_keyed(rest));
            },
            None => {
                assert(month_keyed(trades) =~= month_keyed(rest));
            },
        }
    }
    assert(members_with_key(month_keyed(trades), month) =~= entered_in_month(trades, month));
}

/// The trades filed under `key`, in order.
pub fn select_by_key(keyed: &Vec<(u32, Trade)>, key: u32) -> (members: Vec<Trade>)
    ensures
        members@ == members_with_key(keyed@, key),
{
    let mut members: Vec<Trade> = Vec::new();
    let mut i: usize = 0;
    proof {
        reveal(Seq::filter);
        assert(keyed@.take(0).len() == 0);
        assert(members@ =~= members_with_key(keyed@.take(0), key));
    }
    while i < keyed.len()
        invariant
            i <= keyed.len(),
            members@ == members_with_key(keyed@.take(i as int), key),
        decreases keyed.len() - i,
    {
        proof {
            reveal(Seq::filter);
            assert(keyed@.take(i + 1).drop_last() =~= keyed@.take(i as int));
            assert(keyed@.take(i + 1).last() == keyed@[i as int]);
        }
        let entry = keyed[i];
        if entry.0 == key {
            members.push(entry.1);
        }
        proof {
            assert(members@ =~= members_with_key(keyed@.take(i + 1), key));
        }
        i += 1;
    }
    proof {
        assert(keyed@.take(keyed.len() as int) =~= keyed@);
    }
    members
}

/// Reduces the trades that share `key` to their statistics.
pub fn reduce_group(key: u32, members: &Vec<Trade>) -> (group: GroupStats)
    ensures
        is_group_of(group, key, members@),
{
    let wins = count_wins(members);
    let profits = profit_series(members);
    GroupStats {
        key,
        total_trades: members.len(),
        winning_trades: wins,
        win_rate: win_rate(wins, members.len()),
        net_profit: net_profit(&profits),
    }
}

/// Groups keyed trades by every key from `first` to `last` and reduces each
/// group; a key that no trade has gives a group of zero trades.
pub fn group_by_key(keyed: &Vec<(u32, Trade)>, first: u32, last: u32) -> (groups: Vec<GroupStats>)
    ensures
        is_grouping(groups@, keyed@, first, last),
{
    let mut groups: Vec<GroupStats> = Vec::new();
    if first > last {
        return groups;
    }
    let mut key: u32 = first;
    loop
        invariant_except_break
            first <= key <= last,
            groups@.len() == key - first,
            forall|i: int|
                0 <= i < groups@.len() ==> is_group_of(
                    #[trigger] groups@[i],
                    (first + i) as u32,
                    members_with_key(keyed@, (first + i) as u32),
                ),
        ensures
            is_grouping(groups@, keyed@, first, last),
        decreases last - key,
    {
        let members = select_by_key(keyed, key);
        let group = reduce_group(key, &members);
        groups.push(group);
        if key == last {
            break;
        }
        key += 1;
    }
    groups
}

/// Files each trade under the hour of its entry.
pub fn key_by_hour(trades: &Vec<Trade>) -> (keyed: Vec<(u32, Trade)>)
    ensures
        keyed@ == hour_keyed(trades@),
{
    let mut keyed: Vec<(u32, Trade)> = Vec::new();
    let mut i: usize = 0;
    while i < trades.len()
        invariant
            i <= trades.len(),
            keyed@ == hour_keyed(trades@.take(i as int)),
        decreases trades.len() - i,
    {
        let t = trades[i];
        keyed.push((hour_of_day(t.entry_time), t));
        proof {
            assert(keyed@ =~= hour_keyed(trades@.take(i + 1)));
        }
        i += 1;
    }
    proof {
        assert(trades@.take(trades.len() as int) =~= trades@);
    }
    keyed
}

/// Files each trade under the weekday of its entry.
pub fn key_by_weekday(trades: &Vec<Trade>) -> (keyed: Vec<(u32, Trade)>)
    ensures
        keyed@ == weekday_keyed(trades@),
{
    let mut keyed: Vec<(u32, Trade)> = Vec::new();
    let mut i: usize = 0;
    while i < trades.len()
        invariant
            i <= trades.len(),
            keyed@ == weekday_keyed(trades@.take(i as int)),
        decreases trades.len() - i,
    {
        let t = trades[i];
        keyed.push((day_of_week(t.entry_time), t));
        proof {
            assert(keyed@ =~= weekday_keyed(trades@.take(i + 1)));
        }
        i += 1;
    }
    proof {
        assert(trades@.take(trades.len() as int) =~= trades@);
    }
    keyed
}

/// Files each trade under the month of its entry, leaving out the trades
/// whose entry time the calendar does not reach.
pub fn key_by_month(trades: &Vec<Trade>) -> (keyed: Vec<(u32, Trade)>)
    ensures
        keyed@ == month_keyed(trades@),
{
    let mut keyed: Vec<(u32, Trade)> = Vec::new();
    let mut i: usize = 0;
    proof {
        assert(trades@.take(0).len() == 0);
    }
    while i < trades.len()
        invariant
            i <= trades.len(),
            keyed@ == month_keyed(trades@.take(i as int)),
        decreases trades.len() - i,
    {
        proof {
            assert(trades@.take(i + 1).drop_last() =~= trades@.take(i as int));
            assert(trades@.take(i + 1).last() == trades@[i as int]);
        }
        let t = trades[i];
        match month_of_year(t.entry_time) {
            Some(month) => {
                keyed.push((month, t));
                proof {
                    assert(keyed@ =~= month_keyed(trades@.take(i as int)) + seq![(month, t)]);
                }
            },
            None => {},
        }
        i += 1;
    }
    proof {
        assert(trades@.take(trades.len() as int) =~= trades@);
    }
    keyed
}

/// `groups` is the per-hour breakdown of `closed`: for each hour from 0 to
/// 23, in order, the reduction of the trades entered in that hour.
pub open spec fn is_hourly_breakdown(groups: Seq<GroupStats>, closed: Seq<Trade>) -> bool {
    &&& groups.len() == 24
    &&& forall|hour: int|
        0 <= hour < 24 ==> is_group_of(
            #[trigger] groups[hour],
            hour as u32,
            entered_in_hour(closed, hour as u32),
        )
}

/// `groups` is the per-weekday breakdown of `closed`: for each weekday
/// from 0, Sunday, to 6, in order, the reduction of the trades entered on
/// that weekday.
pub open spec fn is_weekday_breakdown(groups: Seq<GroupStats>, closed: Seq<Trade>) -> bool {
    &&& groups.len() == 7
    &&& forall|day: int|
        0 <= day < 7 ==> is_group_of(
            #[trigger] groups[day],
            day as u32,
            entered_on_weekday(closed, day as u32),
        )
}

/// `groups` is the per-month breakdown of `closed`: for each month from 1,
/// January, to 12, in order, the reduction of the trades entered in that
/// month.
pub open spec fn is_monthly_breakdown(groups: Seq<GroupStats>, closed: Seq<Trade>) -> bool {
    &&& groups.len() == 12
    &&& forall|i: int|
        0 <= i < 12 ==> is_group_of(
            #[trigger] groups[i],
            (i + 1) as u32,
            entered_in_month(closed, (i + 1) as u32),
        )
}

/// The keys of the groups, in the order of the groups.
pub open spec fn keys_of(groups: Seq<GroupStats>) -> Seq<u32> {
    groups.map_values(|group: GroupStats| group.key)
}

/// `groups` is the breakdown of `trades` by a kind of tag: one group for
/// each tag under which a trade counts, in ascending order of tag, each
/// the reduction of the trades that count under it.
pub open spec fn is_tag_breakdown(groups: Seq<GroupStats>, trades: Seq<Trade>, tag: Tag) -> bool {
    &&& is_tag_index(keys_of(groups), trades, tag)
    &&& forall|i: int|
        0 <= i < groups.len() ==> is_group_of(
            #[trigger] groups[i],
            groups[i].key,
            tag_members(trades, tag, groups[i].key),
        )
}

/// The breakdown of trades by a kind of tag.
pub fn tag_breakdown(trades: &Vec<Trade>, tag: Tag) -> (groups: Vec<GroupStats>)
    ensures
        is_tag_breakdown(groups@, trades@, tag),
{
    let index = tag_index(trades, tag);
    let mut groups: Vec<GroupStats> = Vec::new();
    let mut k: usize = 0;
    while k < index.len()
        invariant
            k <= index@.len(),
            groups@.len() == k,
            keys_of(groups@) == index@.take(k as int),
            forall|i: int|
                0 <= i < groups@.len() ==> is_group_of(
                    #[trigger] groups@[i],
                    groups@[i].key,
                    tag_members(trades@, tag, groups@[i].key),
                ),
        decreases index@.len() - k,
    {
        let members = members_of_tag(trades, tag, index[k]);
        let group = reduce_group(index[k], &members);
        let ghost before = groups@;
        groups.push(group);
        proof {
            assert forall|i: int| 0 <= i < k + 1 implies keys_of(groups@)[i] == index@.take(
                k + 1,
            )[i] by {
                if i < k {
                    assert(groups@[i] == before[i]);
                    assert(keys_of(before)[i] == index@.take(k as int)[i]);
                }
            }
            assert(keys_of(groups@) =~= index@.take(k + 1));
        }
        k += 1;
    }
    proof {
        assert(index@.take(index@.len() as int) =~= index@);
    }
    groups
}

/// Per-session breakdown: one group for each session under which a trade
/// is filed, in ascending order of session.
pub fn analyze_trading_sessions(closed: &Vec<Trade>) -> (groups: Vec<GroupStats>)
    ensures
        is_tag_breakdown(groups@, closed@, Tag::Session),
{
    tag_breakdown(closed, Tag::Session)
}

/// Per-hour breakdown: one group for each hour from 0 to 23.
pub fn analyze_hourly_performance(closed: &Vec<Trade>) -> (groups: Vec<GroupStats>)
    ensures
        is_hourly_breakdown(groups@, closed@),
{
    let keyed = key_by_hour(closed);
    let groups = group_by_key(&keyed, 0, 23);
    proof {
        assert forall|hour: int| 0 <= hour < 24 implies is_group_of(
            #[trigger] groups@[hour],
            hour as u32,
            entered_in_hour(closed@, hour as u32),
        ) by {
            lemma_hour_members(closed@, hour as u32);
            assert((0 + hour) as u32 == hour as u32);
        }
    }
    groups
}

/// Per-weekday breakdown: one group for each day from 0, Sunday, to 6.
pub fn analyze_daily_performance(closed: &Vec<Trade>) -> (groups: Vec<GroupStats>)
    ensures
        is_weekday_breakdown(groups@, closed@),
{
    let keyed = key_by_weekday(closed);
    let groups = group_by_key(&keyed, 0, 6);
    proof {
        assert forall|day: int| 0 <= day < 7 implies is_group_of(
            #[trigger] groups@[day],
            day as u32,
            entered_on_weekday(closed@, day as u32),
        ) by {
            lemma_weekday_members(closed@, day as u32);
            assert((0 + day) as u32 == day as u32);
        }
    }
    groups
}

/// Per-month breakdown: one group for each month from 1, January, to 12.
/// Trades whose entry time the calendar does not reach are in no group.
pub fn analyze_monthly_performance(closed: &Vec<Trade>) -> (groups: Vec<GroupStats>)
    ensures
        is_monthly_breakdown(groups@, closed@),
{
    let keyed = key_by_month(closed);
    let groups = group_by_key(&keyed, 1, 12);
    proof {
        assert forall|i: int| 0 <= i < 12 implies is_group_of(
            #[trigger] groups@[i],
            (i + 1) as u32,
            entered_in_month(closed@, (i + 1) as u32),
        ) by {
            lemma_month_members(closed@, (i + 1) as u32);
            assert((1 + i) as u32 == (i + 1) as u32);
        }
    }
    groups
}

} // verus!
