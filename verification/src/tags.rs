//! Tags: the numbers under which closed trades are filed by pattern, by
//! strategy, by session and by emotion, and the index of the tags that
//! occur.

use vstd::prelude::*;
use crate::trade::{is_closed, Trade};

verus! {

/// The kinds of tag that a trade carries.
#[derive(Clone, Copy, Debug, PartialEq, Eq, Structural)]
pub enum Tag {
    /// The discretionary pattern label.
    Pattern,
    /// The strategy name.
    Strategy,
    /// The trading session.
    Session,
    /// The emotion noted with the trade.
    Emotion,
}

/// The number under which a trade counts for a kind of tag: its tag of
/// that kind, where it is closed and has one.
pub open spec fn tag_of(t: Trade, tag: Tag) -> Option<u32> {
    if is_closed(t) {
        match tag {
            Tag::Pattern => t.ict_pattern,
            Tag::Strategy => t.strategy_name,
            Tag::Session => t.session,
            Tag::Emotion => t.emotion,
        }
    } else {
        None
    }
}

/// Some trade counts under `key`.
pub open spec fn tag_occurs(trades: Seq<Trade>, tag: Tag, key: u32) -> bool {
    exists|i: int| 0 <= i < trades.len() && tag_of(#[trigger] trades[i], tag) == Some(key)
}

/// The trades that count under `key`, in order.
pub open spec fn tag_members(trades: Seq<Trade>, tag: Tag, key: u32) -> Seq<Trade> {
    trades.filter(|t: Trade| tag_of(t, tag) == Some(key))
}

/// Each value is below the next.
pub open spec fn strictly_ascending(s: Seq<u32>) -> bool {
    forall|i: int, j: int| 0 <= i < j < s.len() ==> s[i] < s[j]
}

/// `index` lists the tags under which trades count, each once, in
/// ascending order.
pub open spec fn is_tag_index(index: Seq<u32>, trades: Seq<Trade>, tag: Tag) -> bool {
    &&& strictly_ascending(index)
    &&& forall|i: int| 0 <= i < index.len() ==> tag_occurs(trades, tag, #[trigger] index[i])
    &&& forall|key: u32| tag_occurs(trades, tag, key) ==> index.contains(key)
}

/// A filter keeps something exactly when some element passes it.
pub proof fn lemma_filter_keeps_something<A>(s: Seq<A>, pred: spec_fn(A) -> bool)
    ensures
        s.filter(pred).len() > 0 <==> exists|i: int| 0 <= i < s.len() && pred(#[trigger] s[i]),
    decreases s.len(),
{
    reveal(Seq::filter);
    if s.len() > 0 {
        let rest = s.drop_last();
        lemma_filter_keeps_something(rest, pred);
        if exists|i: int| 0 <= i < rest.len() && pred(#[trigger] rest[i]) {
            let i = choose|i: int| 0 <= i < rest.len() && pred(#[trigger] rest[i]);
            assert(pred(s[i]));
        }
        if pred(s.last()) {
            assert(pred(s[s.len() - 1]));
        }
        if exists|i: int| 0 <= i < s.len() && pred(#[trigger] s[i]) {
            let i = choose|i: int| 0 <= i < s.len() && pred(#[trigger] s[i]);
            if i < s.len() - 1 {
                assert(pred(rest[i]));
            }
        }
    }
}

/// A tag occurs exactly when it has members.
pub proof fn lemma_occurs_iff_members(trades: Seq<Trade>, tag: Tag, key: u32)
    ensures
        tag_occurs(trades, tag, key) <==> tag_members(trades, tag, key).len() > 0,
{
    lemma_filter_keeps_something(trades, |t: Trade| tag_of(t, tag) == Some(key));
}

/// The number under which a trade counts for a kind of tag.
pub fn tag_of_trade(t: &Trade, tag: Tag) -> (key: Option<u32>)
    ensures
        key == tag_of(*t, tag),
{
    if t.is_closed() {
        match tag {
            Tag::Pattern => t.ict_pattern,
            Tag::Strategy => t.strategy_name,
            Tag::Session => t.session,
            Tag::Emotion => t.emotion,
        }
    } else {
        None
    }
}

/// The trades that count under `key`, in order.
pub fn members_of_tag(trades: &Vec<Trade>, tag: Tag, key: u32) -> (members: Vec<Trade>)
    ensures
        members@ == tag_members(trades@, tag, key),
{
    let mut members: Vec<Trade> = Vec::new();
    let mut i: usize = 0;
    proof {
        reveal(Seq::filter);
        assert(trades@.take(0).len() == 0);
    }
    while i < trades.len()
        invariant
            i <= trades.len(),
            members@ == tag_members(trades@.take(i as int), tag, key),
        decreases trades.len() - i,
    {
        proof {
            reveal(Seq::filter);
            assert(trades@.take(i + 1).drop_last() =~= trades@.take(i as int));
            assert(trades@.take(i + 1).last() == trades@[i as int]);
        }
        let t = trades[i];
        if tag_of_trade(&t, tag) == Some(key) {
            members.push(t);
        }
        i += 1;
    }
    proof {
        assert(trades@.take(trades.len() as int) =~= trades@);
    }
    members
}

/// The tags under which trades count, each once, in ascending order.
pub fn tag_index(trades: &Vec<Trade>, tag: Tag) -> (index: Vec<u32>)
    ensures
        is_tag_index(index@, trades@, tag),
{
    let mut index: Vec<u32> = Vec::new();
    let mut i: usize = 0;
    while i < trades.len()
        invariant
            i <= trades.len(),
            strictly_ascending(index@),
            forall|k: int| 0 <= k < index@.len() ==> tag_occurs(trades@, tag, #[trigger] index@[k]),
            forall|j: int|
                0 <= j < i && tag_of(#[trigger] trades@[j], tag) is Some ==> index@.contains(
                    tag_of(trades@[j], tag)->0,
                ),
        decreases trades.len() - i,
    {
        match tag_of_trade(&trades[i], tag) {
            Some(key) => {
                let mut at: usize = 0;
                while at < index.len() && index[at] < key
                    invariant
                        at <= index@.len(),
                        forall|k: int| 0 <= k < at ==> index@[k] < key,
                    decreases index@.len() - at,
                {
                    at += 1;
                }
                let ghost before = index@;
                if at < index.len() && index[at] == key {
                    assert(index@.contains(key));
                } else {
                    index.insert(at, key);
                    proof {
                        assert(index@[at as int] == key);
                        assert forall|a: int, b: int| 0 <= a < b < index@.len() implies index@[a]
                            < index@[b] by {
                            if b < at {
                                assert(index@[a] == before[a] && index@[b] == before[b]);
                            } else if b == at {
                                assert(index@[a] == before[a]);
                            } else if a < at {
                                assert(index@[a] == before[a] && index@[b] == before[b - 1]);
                                assert(before[at as int] > key || at == before.len());
                                if b - 1 > at {
                                    assert(before[at as int] < before[b - 1]);
                                }
                            } else if a == at {
                                assert(index@[b] == before[b - 1]);
                                if b - 1 > at {
                                    assert(before[at as int] < before[b - 1]);
                                }
                            } else {
                                assert(index@[a] == before[a - 1] && index@[b] == before[b - 1]);
                            }
                        }
                        assert forall|k: int| 0 <= k < index@.len() implies tag_occurs(
                            trades@,
                            tag,
                            #[trigger] index@[k],
                        ) by {
                            if k < at {
                                assert(index@[k] == before[k]);
                            } else if k > at {
                                assert(index@[k] == before[k - 1]);
                            }
                        }
                        assert forall|p: u32| before.contains(p) implies index@.contains(p) by {
                            let k = choose|k: int| 0 <= k < before.len() && before[k] == p;
                            if k < at {
                                assert(index@[k] == p);
                            } else {
                                assert(index@[k + 1] == p);
                            }
                        }
                    }
                }
            },
            None => {},
        }
        i += 1;
    }
    proof {
        assert forall|p: u32| tag_occurs(trades@, tag, p) implies index@.contains(p) by {
            let j = choose|j: int|
                0 <= j < trades@.len() && tag_of(#[trigger] trades@[j], tag) == Some(p);
            assert(tag_of(trades@[j], tag) == Some(p));
        }
    }
    index
}

} // verus!
