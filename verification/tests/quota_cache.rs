use account_pool::quota::{FetchError, QuotaCache, QuotaSnapshot};

fn snapshot(models: &[(&str, i32)]) -> QuotaSnapshot {
    let mut snap = QuotaSnapshot::new();
    for (name, pct) in models {
        snap.push_model((*name).to_string(), *pct, Some(1_700_000_000));
    }
    snap
}

#[test]
fn successful_fetch_replaces_snapshot_wholesale() {
    let mut cache = QuotaCache::new();
    let first = cache
        .apply_fetch_outcome("one@x.com", Ok(snapshot(&[("m1", 40), ("m2", 100)])))
        .unwrap();
    assert_eq!(first.models.len(), 2);

    let second = cache
        .apply_fetch_outcome("one@x.com", Ok(snapshot(&[("m3", 10)])))
        .unwrap();
    assert_eq!(second.models.len(), 1);
    assert_eq!(second.models[0].name, "m3");

    let held = cache.lookup("one@x.com").unwrap();
    assert_eq!(held.models.len(), 1);
    assert_eq!(held.models[0].name, "m3");
}

#[test]
fn failed_fetch_serves_stale_snapshot() {
    let mut cache = QuotaCache::new();
    cache
        .apply_fetch_outcome("one@x.com", Ok(snapshot(&[("m1", 70)])))
        .unwrap();

    let served = cache
        .apply_fetch_outcome("one@x.com", Err(FetchError::Network))
        .unwrap();
    assert_eq!(served.models.len(), 1);
    assert_eq!(served.models[0].name, "m1");
    assert_eq!(served.models[0].percentage, 70);
}

#[test]
fn failed_fetch_without_prior_snapshot_propagates() {
    let mut cache = QuotaCache::new();
    let r = cache.apply_fetch_outcome("one@x.com", Err(FetchError::UpstreamStatus(503)));
    assert_eq!(r.unwrap_err(), FetchError::UpstreamStatus(503));
    let r = cache.apply_fetch_outcome("one@x.com", Err(FetchError::InvalidResponse));
    assert_eq!(r.unwrap_err(), FetchError::InvalidResponse);
}

#[test]
fn caching_is_per_account() {
    let mut cache = QuotaCache::new();
    cache
        .apply_fetch_outcome("one@x.com", Ok(snapshot(&[("m1", 70)])))
        .unwrap();
    cache
        .apply_fetch_outcome("two@x.com", Ok(snapshot(&[("m1", 30)])))
        .unwrap();
    assert_eq!(cache.lookup("one@x.com").unwrap().models[0].percentage, 70);
    assert_eq!(cache.lookup("two@x.com").unwrap().models[0].percentage, 30);
    assert!(cache.lookup("three@x.com").is_none());
}

#[test]
fn cache_preference_is_explicit() {
    let mut cache = QuotaCache::new();
    assert!(!cache.can_serve_cached("one@x.com", true));
    cache
        .apply_fetch_outcome("one@x.com", Ok(snapshot(&[("m1", 70)])))
        .unwrap();
    assert!(cache.can_serve_cached("one@x.com", true));
    assert!(!cache.can_serve_cached("one@x.com", false));
}

#[test]
fn unknown_model_is_absent_not_zero() {
    let snap = snapshot(&[("m1", 70)]);
    assert!(snap.find_model("m1").is_some());
    assert!(snap.find_model("m2").is_none());
    assert_eq!(snap.find_model("m1").unwrap().percentage, 70);
    assert_eq!(snap.find_model("m1").unwrap().reset_time, Some(1_700_000_000));
}
