use trading_journal::cache::{AnalysisCache, CacheAction, Request, FRESHNESS_WINDOW_MS};

fn served(cache: &AnalysisCache<String>, request: Request, now: i64) -> Option<String> {
    match cache.decide(request, now) {
        CacheAction::Serve(report) => Some(report.clone()),
        CacheAction::Recompute => None,
    }
}

#[test]
fn empty_cache_calls_for_recomputation() {
    let cache: AnalysisCache<String> = AnalysisCache::new();
    assert!(!cache.is_fresh(0));
    assert_eq!(served(&cache, Request::Get, 0), None);
    assert!(cache.held().is_none());
}

#[test]
fn gets_within_the_window_are_served_the_same_report() {
    let mut cache: AnalysisCache<String> = AnalysisCache::new();
    let done: Result<(), String> = cache.complete(Ok("first".to_string()), 1_000);
    assert_eq!(done, Ok(()));
    let one = served(&cache, Request::Get, 1_000);
    let two = served(&cache, Request::Get, 1_000 + FRESHNESS_WINDOW_MS - 1);
    assert_eq!(one, Some("first".to_string()));
    assert_eq!(two, one);
}

#[test]
fn report_goes_stale_after_five_minutes() {
    let mut cache: AnalysisCache<String> = AnalysisCache::new();
    let _: Result<(), String> = cache.complete(Ok("first".to_string()), 1_000);
    assert_eq!(FRESHNESS_WINDOW_MS, 5 * 60 * 1000);
    assert!(cache.is_fresh(1_000 + 299_999));
    assert!(!cache.is_fresh(1_000 + 300_000));
    assert_eq!(served(&cache, Request::Get, 1_000 + 300_000), None);
    assert_eq!(cache.held(), Some(&"first".to_string()));
}

#[test]
fn clock_running_backwards_keeps_the_report_fresh() {
    let mut cache: AnalysisCache<String> = AnalysisCache::new();
    let _: Result<(), String> = cache.complete(Ok("first".to_string()), 1_000);
    assert!(cache.is_fresh(0));
    assert!(cache.is_fresh(i64::MIN));
}

#[test]
fn freshness_does_not_overflow_on_extreme_times() {
    let mut cache: AnalysisCache<String> = AnalysisCache::new();
    let _: Result<(), String> = cache.complete(Ok("first".to_string()), i64::MIN);
    assert!(!cache.is_fresh(i64::MAX));
    assert!(cache.is_fresh(i64::MIN + 1));
}

#[test]
fn forced_refresh_is_never_served_from_the_cache() {
    let mut cache: AnalysisCache<String> = AnalysisCache::new();
    let _: Result<(), String> = cache.complete(Ok("first".to_string()), 1_000);
    assert_eq!(served(&cache, Request::ForceRefresh, 1_001), None);
}

#[test]
fn refreshed_report_replaces_the_old_one() {
    let mut cache: AnalysisCache<String> = AnalysisCache::new();
    let _: Result<(), String> = cache.complete(Ok("old".to_string()), 1_000);
    let _: Result<(), String> = cache.complete(Ok("new".to_string()), 2_000);
    assert_eq!(served(&cache, Request::Get, 2_500), Some("new".to_string()));
    assert_eq!(cache.computed_at(), Some(2_000));
}

#[test]
fn failed_recomputation_keeps_the_held_report() {
    let mut cache: AnalysisCache<String> = AnalysisCache::new();
    let _: Result<(), String> = cache.complete(Ok("good".to_string()), 1_000);
    let failed = cache.complete(Err("store unreachable".to_string()), 400_000);
    assert_eq!(failed, Err("store unreachable".to_string()));
    assert_eq!(cache.held(), Some(&"good".to_string()));
    assert_eq!(cache.computed_at(), Some(1_000));
    assert_eq!(served(&cache, Request::Get, 1_500), Some("good".to_string()));
}

#[test]
fn failed_first_computation_leaves_the_cache_empty() {
    let mut cache: AnalysisCache<String> = AnalysisCache::new();
    let failed = cache.complete(Err(7u8), 1_000);
    assert_eq!(failed, Err(7u8));
    assert!(cache.held().is_none());
    assert_eq!(cache.computed_at(), None);
}

#[test]
fn callers_in_turn_share_one_recomputation() {
    let mut cache: AnalysisCache<String> = AnalysisCache::new();
    let mut recomputations = 0;
    let mut reports = Vec::new();
    for caller in 0..8i64 {
        let now = 10_000 + caller;
        let hit = served(&cache, Request::Get, now);
        let report = match hit {
            Some(report) => report,
            None => {
                recomputations += 1;
                let built = format!("report {}", recomputations);
                let _: Result<(), String> = cache.complete(Ok(built.clone()), now);
                built
            }
        };
        reports.push(report);
    }
    assert_eq!(recomputations, 1);
    assert!(reports.iter().all(|r| r == "report 1"));
}
