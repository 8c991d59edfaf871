//! When the filter is retrieved, and how long it is kept.

use vapour_protection::dns_cache::{DnsFilter, MAX_CACHE_AGE_SECS, REFRESH_INTERVAL_SECS};
use vapour_protection::dns_updater::{DnsUpdater, FAILURE_RETRY_MS};

fn filter(at: u64) -> DnsFilter {
    DnsFilter {
        version: 1,
        source: "https://filters.example/dns.txt".to_owned(),
        retrieved_at: at,
        hash: "fixture".to_owned(),
        rules_count: 1,
        rules: "||ads.example^".to_owned(),
    }
}

/// An updater that has looked at its cache and is retrieving.
fn retrieving(instant: u64) -> DnsUpdater {
    let mut updater = DnsUpdater::new();
    assert_eq!(updater.request(instant, 100, false), Some(true));
    assert!(updater.initialize(Ok(None), 100, false));
    updater
}

#[test]
fn worker_panic_releases_refresh_and_retains_retry_backoff() {
    let now = 5_000_000;
    let mut updater = DnsUpdater::new();
    assert_eq!(updater.request(now, 100, false), Some(true));
    assert!(updater.status(100).refreshing);
    updater.worker_ended();
    assert!(!updater.status(100).refreshing);
    assert!(updater.status(100).last_error.is_some());
    assert!(!updater.due(now, 100, false));
    assert!(updater.due(now + FAILURE_RETRY_MS, 100, false));
}

#[test]
fn refresh_coalesces_and_failed_attempts_back_off() {
    let now = 5_000_000;
    let mut updater = retrieving(now);
    assert!(!updater.due(now, 100, true));
    updater.finish(Err("offline".into()));
    assert!(!updater.due(now + FAILURE_RETRY_MS - 1000, 100, false));
    assert!(updater.due(now + FAILURE_RETRY_MS, 100, false));
    assert!(updater.due(now, 100, true));
}

#[test]
fn failed_download_preserves_last_good_but_not_forever() {
    let mut updater = DnsUpdater::new();
    updater.finish(Ok(filter(100)));
    let original = updater.snapshot(100).unwrap().copied();
    updater.finish(Err("bad replacement".into()));
    assert_eq!(updater.snapshot(101), Some(&original));
    assert!(updater.status(100 + REFRESH_INTERVAL_SECS).stale);
    let expired = updater.status(101 + MAX_CACHE_AGE_SECS);
    assert!(!expired.available);
    assert_eq!(expired.rules_count, 0);
    assert!(updater.snapshot(101 + MAX_CACHE_AGE_SECS).is_none());
}

#[test]
fn fresh_cache_waits_until_daily_refresh_and_clock_rollback_is_rejected() {
    let mut updater = DnsUpdater::new();
    assert_eq!(updater.request(0, 1000, false), Some(true));
    assert!(!updater.initialize(Ok(Some(filter(1000))), 1000, false));
    let instant = FAILURE_RETRY_MS;
    assert!(!updater.due(instant, 1001, false));
    assert!(updater.due(instant, 1000 + REFRESH_INTERVAL_SECS, false));
    assert!(updater.snapshot(0).is_none());
}

#[test]
fn a_forced_refresh_retrieves_though_the_cache_is_fresh() {
    let mut updater = DnsUpdater::new();
    assert_eq!(updater.request(0, 1000, true), Some(true));
    assert!(updater.initialize(Ok(Some(filter(1000))), 1000, true));
    assert!(updater.status(1000).refreshing);
    updater.finish(Ok(filter(1001)));
    let status = updater.status(1001);
    assert!(!status.refreshing);
    assert!(status.available);
    assert_eq!(status.retrieved_at, Some(1001));
    assert_eq!(status.rules_count, 1);
    assert_eq!(status.last_error, None);
}

#[test]
fn errors_are_told_and_shortened() {
    let mut updater = DnsUpdater::new();
    assert_eq!(updater.request(0, 100, false), Some(true));
    assert!(updater.initialize(Err("bad json".to_owned()), 100, false));
    assert_eq!(
        updater.status(100).last_error,
        Some("Cached DNS filter could not be validated".to_owned())
    );
    updater.finish(Err("é".repeat(2000)));
    assert_eq!(updater.status(100).last_error, Some("é".repeat(1024)));
    assert_eq!(updater.request(0, 100, true), Some(false));
    updater.worker_unavailable();
    assert_eq!(
        updater.status(100).last_error,
        Some("DNS filter worker unavailable".to_owned())
    );
}
