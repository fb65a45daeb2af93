//! The analysis cache: the latest report with its time of computation,
//! served unchanged while it is fresh.
//!
//! The cache is a state machine. A caller that holds it exclusively asks
//! [`AnalysisCache::decide`] what a request calls for, performs the
//! recomputation where one is called for, and hands the outcome to
//! [`AnalysisCache::complete`]. Times are milliseconds since the Unix epoch.

use vstd::prelude::*;

verus! {

/// How long a report is served without recomputation: five minutes.
pub const FRESHNESS_WINDOW_MS: i64 = 300_000;

/// What a caller asks of the cache.
#[derive(Clone, Copy, Debug, PartialEq, Eq, Structural)]
pub enum Request {
    /// The report, from the cache if it is fresh.
    Get,
    /// A recomputation, whatever the cache holds.
    ForceRefresh,
}

/// What the cache calls for in answer to a request.
#[derive(Debug)]
pub enum CacheAction<'a, R> {
    /// Return the held report; nothing is fetched or computed.
    Serve(&'a R),
    /// Fetch the trades, build the report and complete with the outcome.
    Recompute,
}

/// What a cache holds: a report and the time at which it was computed.
pub struct Entry<R> {
    pub report: R,
    pub computed_at: i64,
}

/// The cache: empty at first, then the entry of the latest successful
/// recomputation. The entry is replaced as a whole, so a report is never
/// held without its time, nor a time without its report.
#[derive(Debug)]
pub struct AnalysisCache<R> {
    report: Option<R>,
    computed_at: Option<i64>,
}

impl<R> AnalysisCache<R> {
    #[verifier::type_invariant]
    spec fn filled_as_a_whole(self) -> bool {
        self.report is Some <==> self.computed_at is Some
    }

    /// What the cache holds, if anything.
    pub closed spec fn entry(self) -> Option<Entry<R>> {
        match (self.report, self.computed_at) {
            (Some(report), Some(computed_at)) => Some(Entry { report, computed_at }),
            _ => None,
        }
    }

    /// The held entry was computed less than the freshness window before
    /// `now`.
    pub open spec fn fresh_at(self, now: i64) -> bool {
        self.entry() matches Some(entry) && now - entry.computed_at < FRESHNESS_WINDOW_MS
    }

    /// The request is answered from the cache: it is a `Get` and the entry
    /// is fresh.
    pub open spec fn serves(self, request: Request, now: i64) -> bool {
        request == Request::Get && self.fresh_at(now)
    }

    /// The report that answers the request at `now`: the held report where
    /// the request is served from the cache, none where it calls for a
    /// recomputation.
    pub open spec fn answer(self, request: Request, now: i64) -> Option<R> {
        if self.serves(request, now) {
            Some(self.entry()->0.report)
        } else {
            None
        }
    }

    /// What the cache holds after a recomputation ended with `outcome` at
    /// `now`: a new report replaces the entry, a failure leaves it as it
    /// was.
    pub open spec fn entry_after<E>(self, outcome: Result<R, E>, now: i64) -> Option<Entry<R>> {
        match outcome {
            Ok(report) => Some(Entry { report, computed_at: now }),
            Err(_) => self.entry(),
        }
    }

    /// The empty cache, as at startup.
    pub fn new() -> (cache: Self)
        ensures
            cache.entry() is None,
    {
        AnalysisCache { report: None, computed_at: None }
    }

    /// Whether the entry is fresh at `now`.
    pub fn is_fresh(&self, now: i64) -> (fresh: bool)
        ensures
            fresh == self.fresh_at(now),
    {
        match (&self.report, self.computed_at) {
            (Some(_), Some(at)) => (now as i128) - (at as i128) < FRESHNESS_WINDOW_MS as i128,
            _ => false,
        }
    }

    /// What `request` calls for at `now`: the held report where a `Get`
    /// meets a fresh entry, a recomputation otherwise.
    pub fn decide(&self, request: Request, now: i64) -> (action: CacheAction<'_, R>)
        ensures
            action == match self.answer(request, now) {
                Some(report) => CacheAction::Serve(&report),
                None => CacheAction::<R>::Recompute,
            },
    {
        match request {
            Request::ForceRefresh => CacheAction::Recompute,
            Request::Get => {
                if self.is_fresh(now) {
                    match &self.report {
                        Some(report) => CacheAction::Serve(report),
                        None => CacheAction::Recompute,
                    }
                } else {
                    CacheAction::Recompute
                }
            },
        }
    }

    /// Ends a recomputation at `now`. A new report replaces the whole entry;
    /// a failure is handed back and the entry stays as it was.
    pub fn complete<E>(&mut self, outcome: Result<R, E>, now: i64) -> (result: Result<(), E>)
        ensures
            final(self).entry() == old(self).entry_after(outcome, now),
            outcome is Ok ==> result is Ok,
            outcome is Err ==> result == Err::<(), E>(outcome->Err_0),
    {
        match outcome {
            Ok(report) => {
                *self = AnalysisCache { report: Some(report), computed_at: Some(now) };
                Ok(())
            },
            Err(error) => Err(error),
        }
    }

    /// The held report, fresh or not.
    pub fn held(&self) -> (report: Option<&R>)
        ensures
            report == match self.entry() {
                Some(entry) => Some(&entry.report),
                None => None,
            },
    {
        proof {
            use_type_invariant(self);
        }
        self.report.as_ref()
    }

    /// When the held report was computed.
    pub fn computed_at(&self) -> (at: Option<i64>)
        ensures
            at == match self.entry() {
                Some(entry) => Some(entry.computed_at),
                None => None,
            },
    {
        proof {
            use_type_invariant(self);
        }
        self.computed_at
    }
}

/// Idempotence: two `Get` requests at times at which the entry is fresh are
/// answered from the cache, both with the report that it holds; neither
/// calls for a recomputation, so nothing is fetched for them.
pub proof fn lemma_fresh_gets_agree<R>(cache: AnalysisCache<R>, first: i64, second: i64)
    requires
        cache.fresh_at(first),
        cache.fresh_at(second),
    ensures
        cache.answer(Request::Get, first) == Some(cache.entry()->0.report),
        cache.answer(Request::Get, second) == cache.answer(Request::Get, first),
{
}

/// Liveness: once a recomputation has succeeded at `computed`, whatever the
/// cache held before, a `Get` within the freshness window is answered with
/// the new report.
pub proof fn lemma_refreshed_report_is_served<R, E>(
    before: AnalysisCache<R>,
    after: AnalysisCache<R>,
    report: R,
    computed: i64,
    now: i64,
)
    requires
        after.entry() == before.entry_after(Ok::<R, E>(report), computed),
        now - computed < FRESHNESS_WINDOW_MS,
    ensures
        after.answer(Request::Get, now) == Some(report),
{
}

/// A failed recomputation changes nothing: what is held is what was held,
/// and so is every answer.
pub proof fn lemma_failure_keeps_entry<R, E>(
    before: AnalysisCache<R>,
    after: AnalysisCache<R>,
    error: E,
    failed: i64,
)
    requires
        after.entry() == before.entry_after(Err::<R, E>(error), failed),
    ensures
        after.entry() == before.entry(),
        forall|request: Request, now: i64|
            #[trigger] after.answer(request, now) == before.answer(request, now),
{
}

/// A forced refresh is never answered from the cache.
pub proof fn lemma_force_refresh_recomputes<R>(cache: AnalysisCache<R>, now: i64)
    ensures
        cache.answer(Request::ForceRefresh, now) is None,
{
}

/// Callers that take the cache one after the other share one
/// recomputation: where the first `Get` meets a stale cache and its
/// recomputation succeeds, every later `Get` within the freshness window is
/// answered with that report and calls for no recomputation of its own.
pub proof fn lemma_later_gets_share_recomputation<R, E>(
    stale: AnalysisCache<R>,
    refreshed: AnalysisCache<R>,
    report: R,
    times: Seq<i64>,
)
    requires
        times.len() > 0,
        !stale.fresh_at(times[0]),
        refreshed.entry() == stale.entry_after(Ok::<R, E>(report), times[0]),
        forall|i: int| 0 <= i < times.len() ==> #[trigger] times[i] - times[0] < FRESHNESS_WINDOW_MS,
    ensures
        stale.answer(Request::Get, times[0]) is None,
        forall|i: int|
            1 <= i < times.len() ==> refreshed.answer(Request::Get, #[trigger] times[i]) == Some(
                report,
            ),
{
}

} // verus!
