//! The key cache: single-flight refresh, expiry, key-set building and
//! candidate ranges.

use google_signin::certs::{build_key_set, compute_expiry, status_is_success};
use google_signin::{CacheDecision, CachePhase, CachedCerts, Cert, Error};

fn cert(kid: &str, n: &str, e: &str) -> Cert {
    Cert {
        kid: kid.to_string(),
        n: n.to_string(),
        e: e.to_string(),
    }
}

#[test]
fn new_cache_is_uninitialized() {
    let certs = CachedCerts::new();
    assert_eq!(certs.phase(), CachePhase::Uninitialized);
    assert_eq!(certs.expiry(), None);
    assert!(certs.current_keys().is_empty());
}

#[test]
fn fifty_concurrent_callers_one_fetch() {
    // Fifty callers poll an empty cache before the fetch completes: exactly
    // one is told to fetch, every other one joins that fetch, and once it
    // completes all of them read the identical key set.
    let mut cache = CachedCerts::new();
    let now = 1_000;
    let mut fetches = 0;
    let mut joins = 0;
    for _ in 0..50 {
        match cache.get_or_refresh(now) {
            CacheDecision::StartFetch => fetches += 1,
            CacheDecision::Join => joins += 1,
            CacheDecision::Fresh => panic!("no keys are cached yet"),
        }
    }
    assert_eq!(fetches, 1);
    assert_eq!(joins, 49);

    // The fetch completes; every caller now sees the same fresh keys.
    cache.on_fetch_success(vec![cert("k1", "n1", "AQAB")], Some(now + 300));
    for _ in 0..50 {
        assert_eq!(cache.get_or_refresh(now + 1), CacheDecision::Fresh);
        let keys = cache.current_keys();
        assert_eq!(keys.len(), 1);
        assert_eq!(keys[0].kid, "k1");
    }
}

#[test]
fn zero_max_age_forces_refetch() {
    // A response fetched at `now` with `max-age=0` expires at `now`: the
    // very next poll starts a new fetch.
    let mut cache = CachedCerts::new();
    let now = 5_000;
    assert_eq!(cache.get_or_refresh(now), CacheDecision::StartFetch);
    let expiry = compute_expiry(Some("public, max-age=0"), now);
    assert_eq!(expiry, Some(now));
    cache.on_fetch_success(vec![cert("k1", "n1", "AQAB")], expiry);
    assert_eq!(cache.phase(), CachePhase::Ready);
    assert_eq!(cache.get_or_refresh(now), CacheDecision::StartFetch);
}

#[test]
fn missing_max_age_forces_refetch() {
    let mut cache = CachedCerts::new();
    let now = 5_000;
    assert_eq!(cache.get_or_refresh(now), CacheDecision::StartFetch);
    // No max-age, unparsable header, absent header: all "already expired".
    assert_eq!(compute_expiry(Some("public"), now), None);
    assert_eq!(compute_expiry(Some("max-age="), now), None);
    assert_eq!(compute_expiry(None, now), None);
    cache.on_fetch_success(vec![cert("k1", "n1", "AQAB")], None);
    assert_eq!(cache.get_or_refresh(now + 1), CacheDecision::StartFetch);
}

#[test]
fn fresh_reads_never_fetch() {
    // Re-querying a Ready, non-expired cache is idempotent: the fetch
    // counter never moves.
    let mut cache = CachedCerts::new();
    assert_eq!(cache.get_or_refresh(0), CacheDecision::StartFetch);
    cache.on_fetch_success(vec![cert("k1", "n1", "AQAB")], Some(10_000));
    let mut fetches = 0;
    for now in 0..9_999 {
        match cache.get_or_refresh(now) {
            CacheDecision::Fresh => {}
            _ => fetches += 1,
        }
    }
    assert_eq!(fetches, 0);
    assert_eq!(cache.phase(), CachePhase::Ready);
    // At the expiry instant the keys are stale.
    assert_eq!(cache.get_or_refresh(10_000), CacheDecision::StartFetch);
}

#[test]
fn failed_fetch_is_retryable() {
    // A failed refresh is reported, and the next caller starts a fresh
    // attempt instead of rejoining the failed one.
    let mut cache = CachedCerts::new();
    assert_eq!(cache.get_or_refresh(0), CacheDecision::StartFetch);
    cache.on_fetch_failure();
    assert_eq!(cache.phase(), CachePhase::Ready);
    assert_eq!(cache.get_or_refresh(1), CacheDecision::StartFetch);
    cache.on_fetch_success(vec![cert("k1", "n1", "AQAB")], Some(100));
    assert_eq!(cache.get_or_refresh(50), CacheDecision::Fresh);
}

#[test]
fn failed_refresh_retains_last_keys() {
    // The key set is replaced only by a successful refresh: a later failed
    // one leaves the last known keys in place (stale, so the next poll
    // still fetches).
    let mut cache = CachedCerts::new();
    assert_eq!(cache.get_or_refresh(0), CacheDecision::StartFetch);
    cache.on_fetch_success(vec![cert("k1", "n1", "AQAB")], Some(100));
    assert_eq!(cache.get_or_refresh(100), CacheDecision::StartFetch);
    cache.on_fetch_failure();
    assert_eq!(cache.current_keys().len(), 1);
    assert_eq!(cache.current_keys()[0].kid, "k1");
    assert_eq!(cache.get_or_refresh(101), CacheDecision::StartFetch);
}

#[test]
fn key_set_is_sorted_and_last_wins() {
    let keys = build_key_set(vec![
        cert("kb", "n-old", "e-old"),
        cert("ka", "na", "ea"),
        cert("kb", "n-new", "e-new"),
    ]);
    assert_eq!(keys.len(), 2);
    assert_eq!(keys[0].kid, "ka");
    assert_eq!(keys[1].kid, "kb");
    assert_eq!(keys[1].n, "n-new");
    assert_eq!(keys[1].e, "e-new");
}

#[test]
fn get_range_selects_candidates() {
    let mut cache = CachedCerts::new();
    assert_eq!(cache.get_or_refresh(0), CacheDecision::StartFetch);
    cache.on_fetch_success(
        vec![cert("k2", "n2", "e2"), cert("k1", "n1", "e1")],
        Some(100),
    );
    // No key-id: every key, in ascending key-id order.
    assert_eq!(cache.get_range(&None), Ok((0, 2)));
    assert_eq!(cache.key_at(0).kid, "k1");
    assert_eq!(cache.key_at(1).kid, "k2");
    // A named key-id selects exactly that key.
    assert_eq!(cache.get_range(&Some("k2".to_string())), Ok((1, 2)));
    // An unknown key-id is rejected.
    assert_eq!(
        cache.get_range(&Some("missing".to_string())),
        Err(Error::InvalidKey)
    );
}

#[test]
fn expiry_is_now_plus_max_age() {
    assert_eq!(compute_expiry(Some("public, max-age=300"), 100), Some(400));
    assert_eq!(compute_expiry(Some("max-age=0"), 7), Some(7));
    // Saturates instead of wrapping.
    assert_eq!(
        compute_expiry(Some("max-age=18446744073709551615"), 10),
        Some(u64::MAX)
    );
}

#[test]
fn certs_url_is_fixed() {
    assert_eq!(
        CachedCerts::certs_url(),
        "https://www.googleapis.com/oauth2/v2/certs"
    );
}

#[test]
fn success_statuses() {
    assert!(status_is_success(200));
    assert!(status_is_success(204));
    assert!(status_is_success(299));
    assert!(!status_is_success(199));
    assert!(!status_is_success(300));
    assert!(!status_is_success(404));
}
