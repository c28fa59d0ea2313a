use provenance_stamping::cdgc::CachedMeta;
use provenance_stamping::config::Config;
use provenance_stamping::headers::HeaderMap;
use provenance_stamping::lookup::{Lookup, LookupAction, LookupEvent, LookupStage};

fn config(fail_open: Option<bool>, refresh: Option<i64>) -> Config {
    Config {
        cdgc_org_password: "test-password".to_string(),
        cdgc_org_username: "svc".to_string(),
        distributed: None,
        fail_open_on_cdgc_error: fail_open,
        header_on_miss: None,
        include_lineage: None,
        refresh_interval_seconds: refresh,
        schema_id: "s".to_string(),
        schema_id_claim: None,
        schema_id_header: None,
        timeout: None,
    }
}

fn fields(v: &str) -> HeaderMap {
    let mut m = HeaderMap::new();
    m.insert("x-dp-provenance-name".to_string(), v.to_string());
    m
}

fn name(a: LookupAction) -> Option<String> {
    match a {
        LookupAction::Serve(Some(m)) => m.get("x-dp-provenance-name").cloned(),
        LookupAction::Serve(None) => None,
        _ => panic!("expected to serve"),
    }
}

#[test]
fn fresh_cache_is_served_without_refresh() {
    let (mut l, a) = Lookup::start(&config(None, Some(60)), 1000);
    assert!(matches!(a, LookupAction::ReadCache));
    let a = l.step(LookupEvent::Cached(Some(CachedMeta { fields: fields("cached"), timestamp: 990 })));
    assert_eq!(name(a).as_deref(), Some("cached"));
    assert_eq!(l.stage, LookupStage::Finished);
}

#[test]
fn stale_cache_refreshes_and_writes() {
    let (mut l, _) = Lookup::start(&config(None, Some(60)), 1000);
    let a = l.step(LookupEvent::Cached(Some(CachedMeta { fields: fields("old"), timestamp: 900 })));
    assert!(matches!(a, LookupAction::TakeLock));
    assert!(matches!(l.step(LookupEvent::Locked(Some(true))), LookupAction::RunRefresh));
    match l.step(LookupEvent::Refreshed(Some(fields("new")))) {
        LookupAction::WriteCache(e) => {
            assert_eq!(e.timestamp, 1000);
            assert_eq!(e.fields.get("x-dp-provenance-name").map(|s| s.as_str()), Some("new"));
        },
        _ => panic!("expected a cache write"),
    }
    assert_eq!(name(l.step(LookupEvent::Written)).as_deref(), Some("new"));
}

#[test]
fn lock_held_elsewhere_serves_stale_entry() {
    let (mut l, _) = Lookup::start(&config(None, Some(60)), 1000);
    let _ = l.step(LookupEvent::Cached(Some(CachedMeta { fields: fields("old"), timestamp: 900 })));
    assert_eq!(name(l.step(LookupEvent::Locked(Some(false)))).as_deref(), Some("old"));
}

#[test]
fn lock_store_failure_still_refreshes() {
    let (mut l, _) = Lookup::start(&config(None, None), 1000);
    let _ = l.step(LookupEvent::Cached(None));
    assert!(matches!(l.step(LookupEvent::Locked(None)), LookupAction::RunRefresh));
}

#[test]
fn failed_refresh_fails_open_or_closed() {
    let (mut l, _) = Lookup::start(&config(None, Some(60)), 1000);
    let _ = l.step(LookupEvent::Cached(Some(CachedMeta { fields: fields("old"), timestamp: 900 })));
    let _ = l.step(LookupEvent::Locked(Some(true)));
    assert_eq!(name(l.step(LookupEvent::Refreshed(None))).as_deref(), Some("old"));

    let (mut c, _) = Lookup::start(&config(Some(false), Some(60)), 1000);
    let _ = c.step(LookupEvent::Cached(Some(CachedMeta { fields: fields("old"), timestamp: 900 })));
    let _ = c.step(LookupEvent::Locked(Some(true)));
    assert_eq!(name(c.step(LookupEvent::Refreshed(None))), None);

    let (mut e, _) = Lookup::start(&config(None, None), 1000);
    let _ = e.step(LookupEvent::Cached(None));
    let _ = e.step(LookupEvent::Locked(Some(true)));
    assert_eq!(name(e.step(LookupEvent::Refreshed(None))), None);
}

#[test]
fn short_interval_is_raised_to_thirty_seconds() {
    let (mut l, _) = Lookup::start(&config(None, Some(10)), 1000);
    assert_eq!(l.ttl, 30);
    let a = l.step(LookupEvent::Cached(Some(CachedMeta { fields: fields("c"), timestamp: 980 })));
    assert_eq!(name(a).as_deref(), Some("c"));

    let (mut n, _) = Lookup::start(&config(None, Some(-5)), 1000);
    assert_eq!(n.ttl, 30);
    let a = n.step(LookupEvent::Cached(Some(CachedMeta { fields: fields("c"), timestamp: 970 })));
    assert!(matches!(a, LookupAction::TakeLock));
}
