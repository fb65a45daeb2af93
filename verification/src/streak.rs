//! Streaks: runs of consecutive wins or losses in a sequence of outcomes.

use vstd::prelude::*;
use crate::trade::Trade;

verus! {

/// How many of the most recent closed trades the current streak looks at.
pub const STREAK_WINDOW: usize = 10;

/// The outcomes of the closed trades of a sequence, in order: `true` for a
/// win, `false` for a loss. Open trades have no outcome and are left out.
pub open spec fn outcomes_of(trades: Seq<Trade>) -> Seq<bool> {
    trades.filter_map(|t: Trade| t.is_win)
}

/// The `len` outcomes from position `start` on all equal `outcome`.
pub open spec fn is_run(s: Seq<bool>, start: int, len: int, outcome: bool) -> bool {
    &&& 0 <= start
    &&& 0 <= len
    &&& start + len <= s.len()
    &&& forall|i: int| start <= i < start + len ==> s[i] == outcome
}

/// Length of the run of `outcome` that ends the sequence.
pub open spec fn trailing_run(s: Seq<bool>, outcome: bool) -> nat
    decreases s.len(),
{
    if s.len() == 0 || s.last() != outcome {
        0
    } else {
        trailing_run(s.drop_last(), outcome) + 1
    }
}

/// Length of the longest run of `outcome` in the sequence.
pub open spec fn longest_streak_of(s: Seq<bool>, outcome: bool) -> nat
    decreases s.len(),
{
    if s.len() == 0 {
        0
    } else {
        let before = longest_streak_of(s.drop_last(), outcome);
        let ending = trailing_run(s, outcome);
        if before >= ending {
            before
        } else {
            ending
        }
    }
}

/// Length of the run of `outcome` that starts at position `i`.
pub open spec fn run_from(s: Seq<bool>, i: int, outcome: bool) -> nat
    decreases s.len() - i,
{
    if i < 0 || i >= s.len() || s[i] != outcome {
        0
    } else {
        run_from(s, i + 1, outcome) + 1
    }
}

/// The current streak over outcomes listed newest first: the length of the
/// run that the newest outcome starts within the first `STREAK_WINDOW`
/// outcomes, positive for wins, negative for losses, zero without outcomes.
pub open spec fn current_streak_of(recent: Seq<bool>) -> int {
    let window = if recent.len() <= STREAK_WINDOW {
        recent
    } else {
        recent.take(STREAK_WINDOW as int)
    };
    if window.len() == 0 {
        0
    } else if window[0] {
        run_from(window, 0, true) as int
    } else {
        -(run_from(window, 0, false) as int)
    }
}

/// The trailing run is a run that ends the sequence, and no run that ends
/// the sequence is longer.
pub proof fn lemma_trailing_run(s: Seq<bool>, outcome: bool)
    ensures
        is_run(s, s.len() - trailing_run(s, outcome), trailing_run(s, outcome) as int, outcome),
        forall|start: int, len: int|
            #[trigger] is_run(s, start, len, outcome) && start + len == s.len() ==> len
                <= trailing_run(s, outcome),
    decreases s.len(),
{
    if s.len() > 0 {
        let rest = s.drop_last();
        lemma_trailing_run(rest, outcome);
        if s.last() == outcome {
            assert forall|start: int, len: int|
                #[trigger] is_run(s, start, len, outcome) && start + len == s.len() implies len
                <= trailing_run(s, outcome) by {
                if len > 0 {
                    assert(is_run(rest, start, len - 1, outcome)) by {
                        assert forall|i: int| start <= i < start + len - 1 implies rest[i]
                            == outcome by {
                            assert(rest[i] == s[i]);
                        }
                    }
                }
            }
            let t = trailing_run(rest, outcome) as int;
            assert(is_run(s, s.len() - (t + 1), t + 1, outcome)) by {
                assert forall|i: int| s.len() - (t + 1) <= i < s.len() implies s[i] == outcome by {
                    if i < s.len() - 1 {
                        assert(rest[i] == s[i]);
                    }
                }
            }
        } else {
            assert forall|start: int, len: int|
                #[trigger] is_run(s, start, len, outcome) && start + len == s.len() implies len
                <= 0 by {
                if len > 0 {
                    assert(s[s.len() - 1] == outcome);
                }
            }
        }
    }
}

/// The longest streak is the length of some run of the outcome, and no run
/// of the outcome is longer.
pub proof fn lemma_longest_streak(s: Seq<bool>, outcome: bool)
    ensures
        exists|start: int| #[trigger] is_run(s, start, longest_streak_of(s, outcome) as int, outcome),
        forall|start: int, len: int| #[trigger]
            is_run(s, start, len, outcome) ==> len <= longest_streak_of(s, outcome),
    decreases s.len(),
{
    if s.len() == 0 {
        assert(is_run(s, 0, 0, outcome));
    } else {
        let rest = s.drop_last();
        lemma_longest_streak(rest, outcome);
        lemma_trailing_run(s, outcome);
        let before = longest_streak_of(rest, outcome);
        let ending = trailing_run(s, outcome);
        assert forall|start: int, len: int| #[trigger] is_run(s, start, len, outcome) implies len
            <= longest_streak_of(s, outcome) by {
            if start + len < s.len() {
                assert(is_run(rest, start, len, outcome)) by {
                    assert forall|i: int| start <= i < start + len implies rest[i] == outcome by {
                        assert(rest[i] == s[i]);
                    }
                }
            }
        }
        if before >= ending {
            let start = choose|start: int| #[trigger] is_run(rest, start, before as int, outcome);
            assert(is_run(s, start, before as int, outcome)) by {
                assert forall|i: int| start <= i < start + before implies s[i] == outcome by {
                    assert(rest[i] == s[i]);
                }
            }
        } else {
            assert(is_run(s, s.len() - ending, ending as int, outcome));
        }
    }
}

/// A run that starts at `i`, holds up to `k` and stops there has length
/// `k - i`.
pub proof fn lemma_run_from(s: Seq<bool>, i: int, k: int, outcome: bool)
    requires
        0 <= i <= k <= s.len(),
        forall|j: int| i <= j < k ==> s[j] == outcome,
        k == s.len() || s[k] != outcome,
    ensures
        run_from(s, i, outcome) == k - i,
    decreases k - i,
{
    if i < k {
        lemma_run_from(s, i + 1, k, outcome);
    }
}

/// The outcomes of the closed trades of a sequence, in order.
pub fn outcome_series(trades: &Vec<Trade>) -> (outcomes: Vec<bool>)
    ensures
        outcomes@ == outcomes_of(trades@),
{
    let mut outcomes: Vec<bool> = Vec::new();
    let mut i: usize = 0;
    proof {
        assert(trades@.take(0).len() == 0);
    }
    while i < trades.len()
        invariant
            i <= trades.len(),
            outcomes@ == outcomes_of(trades@.take(i as int)),
        decreases trades.len() - i,
    {
        proof {
            assert(trades@.take(i + 1).drop_last() =~= trades@.take(i as int));
            assert(trades@.take(i + 1).last() == trades@[i as int]);
        }
        match trades[i].is_win {
            Some(flag) => {
                outcomes.push(flag);
                proof {
                    assert(outcomes@ =~= outcomes_of(trades@.take(i as int)) + seq![flag]);
                }
            },
            None => {},
        }
        i += 1;
    }
    proof {
        assert(trades@.take(trades.len() as int) =~= trades@);
    }
    outcomes
}

/// Length of the longest run of `outcome` among the outcomes.
pub fn longest_streak(outcomes: &Vec<bool>, outcome: bool) -> (longest: usize)
    ensures
        longest == longest_streak_of(outcomes@, outcome),
{
    let mut longest: usize = 0;
    let mut current: usize = 0;
    let mut i: usize = 0;
    proof {
        assert(outcomes@.take(0).len() == 0);
    }
    while i < outcomes.len()
        invariant
            i <= outcomes.len(),
            current == trailing_run(outcomes@.take(i as int), outcome),
            longest == longest_streak_of(outcomes@.take(i as int), outcome),
            current <= i,
            longest <= i,
        decreases outcomes.len() - i,
    {
        proof {
            assert(outcomes@.take(i + 1).drop_last() =~= outcomes@.take(i as int));
            assert(outcomes@.take(i + 1).last() == outcomes@[i as int]);
        }
        if outcomes[i] == outcome {
            current += 1;
        } else {
            current = 0;
        }
        if current > longest {
            longest = current;
        }
        i += 1;
    }
    proof {
        assert(outcomes@.take(outcomes.len() as int) =~= outcomes@);
    }
    longest
}

/// The current streak over outcomes listed newest first.
pub fn current_streak(recent: &Vec<bool>) -> (streak: i32)
    ensures
        streak == current_streak_of(recent@),
        -(STREAK_WINDOW as int) <= streak <= STREAK_WINDOW,
{
    let limit = if recent.len() <= STREAK_WINDOW {
        recent.len()
    } else {
        STREAK_WINDOW
    };
    if limit == 0 {
        return 0;
    }
    let ghost window = if recent.len() <= STREAK_WINDOW {
        recent@
    } else {
        recent@.take(STREAK_WINDOW as int)
    };
    let newest = recent[0];
    let mut k: usize = 1;
    while k < limit && recent[k] == newest
        invariant
            1 <= k <= limit,
            limit <= recent.len(),
            limit <= STREAK_WINDOW,
            newest == recent@[0],
            forall|j: int| 0 <= j < k ==> recent@[j] == newest,
        decreases limit - k,
    {
        k += 1;
    }
    proof {
        assert(window.len() == limit);
        assert forall|j: int| 0 <= j < k implies window[j] == newest by {
            assert(window[j] == recent@[j]);
        }
        if k < limit {
            assert(window[k as int] == recent@[k as int]);
        }
        lemma_run_from(window, 0, k as int, newest);
    }
    if newest {
        k as i32
    } else {
        -(k as i32)
    }
}

} // verus!
