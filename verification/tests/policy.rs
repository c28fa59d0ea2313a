use provenance_stamping::cache::{
    lock_start, lock_step, write_start, write_step, LockAction, LockEvent, LockStage, WriteAction,
    WriteEvent,
};
use provenance_stamping::cdgc::{nonce_from_nanos, nonce_from_time, CachedMeta};
use provenance_stamping::config::Config;
use provenance_stamping::headers::HeaderMap;
use provenance_stamping::json::Json;
use provenance_stamping::policy::{
    after_refresh, bearer_authorization, body_allows, is_fresh, jwt_token_path, meta_cache_key,
    meta_store_ttl_ms, next_call_timeout, per_call_timeout_ms, refresh_after_lock,
    refresh_lock_key, refresh_ttl, response_headers, schema_claim, schema_header_name,
    select_schema_id, session_cookie, status_ok, wants_body,
};

fn config() -> Config {
    Config {
        cdgc_org_password: "test-password".to_string(),
        cdgc_org_username: "svc".to_string(),
        distributed: None,
        fail_open_on_cdgc_error: None,
        header_on_miss: None,
        include_lineage: None,
        refresh_interval_seconds: None,
        schema_id: "configured-id".to_string(),
        schema_id_claim: None,
        schema_id_header: None,
        timeout: None,
    }
}

fn map(entries: &[(&str, &str)]) -> HeaderMap {
    let mut m = HeaderMap::new();
    for (k, v) in entries {
        m.insert(k.to_string(), v.to_string());
    }
    m
}

fn pairs(v: &[(String, String)]) -> Vec<(&str, &str)> {
    v.iter().map(|(k, x)| (k.as_str(), x.as_str())).collect()
}

#[test]
fn nonce_is_decimal_nanoseconds() {
    assert_eq!(nonce_from_nanos(Some(1788347759583000000)), "1788347759583000000");
    assert_eq!(nonce_from_nanos(Some(0)), "0");
    assert_eq!(nonce_from_nanos(Some(7)), "7");
    assert_eq!(nonce_from_nanos(None), "0");
    assert_eq!(nonce_from_nanos(Some(u128::MAX)), u128::MAX.to_string());
}

#[test]
fn nonce_from_time_counts_from_the_epoch() {
    let t = std::time::UNIX_EPOCH + std::time::Duration::from_nanos(1_234_567_890);
    assert_eq!(nonce_from_time(t), "1234567890");
    let before = std::time::UNIX_EPOCH - std::time::Duration::from_secs(5);
    assert_eq!(nonce_from_time(before), "0");
}

#[test]
fn call_timeout_respects_the_budget() {
    assert_eq!(next_call_timeout(5000, 0), Some(5000));
    assert_eq!(next_call_timeout(5000, 12000), Some(3000));
    assert_eq!(next_call_timeout(5000, 15000), None);
    assert_eq!(next_call_timeout(5000, 20000), None);
    assert_eq!(next_call_timeout(0, 100), Some(1));
    assert_eq!(next_call_timeout(-5, 100), Some(1));
    assert_eq!(per_call_timeout_ms(&config()), 5000);
    let mut c = config();
    c.timeout = Some(750);
    assert_eq!(per_call_timeout_ms(&c), 750);
}

#[test]
fn store_ttl_is_clamped() {
    let mut c = config();
    assert_eq!(refresh_ttl(&c), 86400);
    assert_eq!(meta_store_ttl_ms(&c), 2_592_000_000);
    c.refresh_interval_seconds = Some(2_000_000);
    assert_eq!(meta_store_ttl_ms(&c), 4_000_000_000);
    c.refresh_interval_seconds = Some(3_000_000);
    assert_eq!(meta_store_ttl_ms(&c), u32::MAX);
    c.refresh_interval_seconds = Some(i64::MAX);
    assert_eq!(meta_store_ttl_ms(&c), u32::MAX);
    c.refresh_interval_seconds = Some(-10);
    assert_eq!(refresh_ttl(&c), 30);
    c.refresh_interval_seconds = Some(29);
    assert_eq!(refresh_ttl(&c), 30);
    c.refresh_interval_seconds = Some(31);
    assert_eq!(refresh_ttl(&c), 31);
    c.refresh_interval_seconds = Some(-10);
    assert_eq!(meta_store_ttl_ms(&c), 2_592_000_000);
}

#[test]
fn freshness_and_fail_open() {
    assert!(is_fresh(100, 90, 30));
    assert!(!is_fresh(130, 90, 30));
    assert!(!is_fresh(100, 90, 0));
    let fetched = map(&[("a", "1")]);
    let cached = map(&[("b", "2")]);
    let r = after_refresh(Some(fetched), Some(cached.clone()), Some(false)).unwrap();
    assert_eq!(r.get("a").map(|s| s.as_str()), Some("1"));
    let r = after_refresh(None, Some(cached.clone()), None).unwrap();
    assert_eq!(r.get("b").map(|s| s.as_str()), Some("2"));
    assert!(after_refresh(None, Some(cached), Some(false)).is_none());
    assert!(refresh_after_lock(Some(true)));
    assert!(!refresh_after_lock(Some(false)));
    assert!(refresh_after_lock(None));
}

#[test]
fn schema_id_prefers_claim_then_header_then_config() {
    let c = config();
    assert_eq!(select_schema_id(&c, Some("from-claim".to_string()), Some("hdr")), "from-claim");
    assert_eq!(select_schema_id(&c, None, Some(" hdr ")), " hdr ");
    assert_eq!(select_schema_id(&c, None, Some("   ")), "configured-id");
    assert_eq!(select_schema_id(&c, None, None), "configured-id");
    assert_eq!(schema_header_name(&c), "x-dp-schema-id");
    let mut c2 = config();
    c2.schema_id_header = Some("x-asset".to_string());
    assert_eq!(schema_header_name(&c2), "x-asset");
}

#[test]
fn schema_claim_only_when_configured() {
    let claims = Json::Object(vec![("asset".to_string(), Json::Str(" a-1 ".to_string()))]);
    let c = config();
    assert_eq!(schema_claim(&c, Some(&claims)), None);
    let mut c2 = config();
    c2.schema_id_claim = Some("asset".to_string());
    assert_eq!(schema_claim(&c2, Some(&claims)).as_deref(), Some("a-1"));
    assert_eq!(schema_claim(&c2, None), None);
}

#[test]
fn body_gate_follows_json_rpc_method() {
    assert!(wants_body(Some("application/json; charset=utf-8"), "POST"));
    assert!(!wants_body(Some("application/json"), "GET"));
    assert!(!wants_body(Some("text/plain"), "POST"));
    assert!(!wants_body(None, "POST"));
    let call = Json::Object(vec![("method".to_string(), Json::Str("tools/call".to_string()))]);
    let list = Json::Object(vec![("method".to_string(), Json::Str("tools/list".to_string()))]);
    let other = Json::Object(vec![("id".to_string(), Json::Number("1".to_string()))]);
    assert!(body_allows(Some(&call)));
    assert!(!body_allows(Some(&list)));
    assert!(body_allows(Some(&other)));
    assert!(body_allows(None));
}

#[test]
fn response_stamps_fields_or_unavailable() {
    let c = config();
    let fields = map(&[("x-dp-provenance-name", "dim_product.csv"), ("x-dp-lineage-status", "none")]);
    let h = response_headers(Some(&fields), &c);
    assert_eq!(
        pairs(&h),
        vec![
            ("x-dp-lineage-status", "none"),
            ("x-dp-provenance-name", "dim_product.csv"),
            ("x-dp-provenance-source", "cdgc"),
            ("x-dp-provenance-status", "ok"),
        ]
    );
    let empty = HeaderMap::new();
    assert_eq!(pairs(&response_headers(Some(&empty), &c)), vec![("x-dp-provenance-status", "unavailable")]);
    let mut quiet = config();
    quiet.header_on_miss = Some(false);
    assert!(response_headers(Some(&empty), &quiet).is_empty());
    assert!(response_headers(None, &c).is_empty());
}

#[test]
fn request_strings_are_built_from_parts() {
    assert_eq!(meta_cache_key("abc"), "prov-meta-abc");
    assert_eq!(refresh_lock_key("abc"), "prov-lock-abc");
    assert_eq!(session_cookie("s1"), "USER_SESSION=s1");
    assert_eq!(
        jwt_token_path("42"),
        "/identity-service/api/v1/jwt/Token?client_id=idmc_api&nonce=42"
    );
    assert_eq!(bearer_authorization("tok"), "Bearer tok");
    assert!(status_ok(200));
    assert!(status_ok(299));
    assert!(!status_ok(300));
    assert!(!status_ok(503));
}

#[test]
fn lock_protocol_decisions() {
    assert_eq!(lock_start(), (LockStage::Claim, LockAction::StoreIfAbsent));
    assert_eq!(lock_step(LockStage::Claim, LockEvent::Stored, 100), (LockStage::Claim, LockAction::Finish(Some(true))));
    assert_eq!(lock_step(LockStage::Claim, LockEvent::Conflict, 100), (LockStage::Inspect, LockAction::Read));
    assert_eq!(lock_step(LockStage::Claim, LockEvent::Failed, 100), (LockStage::Claim, LockAction::Finish(None)));
    assert_eq!(lock_step(LockStage::Inspect, LockEvent::Held(80), 100), (LockStage::Inspect, LockAction::Finish(Some(false))));
    assert_eq!(lock_step(LockStage::Inspect, LockEvent::Held(70), 100), (LockStage::Replace, LockAction::StoreReplacing));
    assert_eq!(lock_step(LockStage::Inspect, LockEvent::Vacant, 100), (LockStage::Reclaim, LockAction::StoreIfAbsent));
    assert_eq!(lock_step(LockStage::Replace, LockEvent::Conflict, 100), (LockStage::Replace, LockAction::Finish(Some(false))));
    assert_eq!(lock_step(LockStage::Reclaim, LockEvent::Stored, 100), (LockStage::Reclaim, LockAction::Finish(Some(true))));
    assert_eq!(lock_step(LockStage::Inspect, LockEvent::Failed, 100), (LockStage::Inspect, LockAction::Finish(None)));
}

#[test]
fn writer_retries_three_times_at_most() {
    assert_eq!(write_start(), (1, WriteAction::Read));
    assert_eq!(write_step(1, WriteEvent::Found), (1, WriteAction::StoreReplacing));
    assert_eq!(write_step(1, WriteEvent::Missing), (1, WriteAction::StoreIfAbsent));
    assert_eq!(write_step(1, WriteEvent::Conflict), (2, WriteAction::Read));
    assert_eq!(write_step(2, WriteEvent::Conflict), (3, WriteAction::Read));
    assert_eq!(write_step(3, WriteEvent::Conflict), (3, WriteAction::Stop));
    assert_eq!(write_step(2, WriteEvent::Stored), (2, WriteAction::Stop));
    assert_eq!(write_step(1, WriteEvent::ReadFailed), (1, WriteAction::Stop));
    assert_eq!(write_step(1, WriteEvent::StoreFailed), (1, WriteAction::Stop));
}

#[test]
fn header_map_keeps_names_sorted_and_unique() {
    let mut m = HeaderMap::new();
    assert!(m.is_empty());
    m.insert("b".to_string(), "2".to_string());
    m.insert("a".to_string(), "1".to_string());
    m.insert("c".to_string(), "3".to_string());
    m.insert("b".to_string(), "20".to_string());
    assert_eq!(m.len(), 3);
    assert_eq!(m.get("b").map(|s| s.as_str()), Some("20"));
    assert_eq!(m.get("z"), None);
    assert_eq!(pairs(m.entries()), vec![("a", "1"), ("b", "20"), ("c", "3")]);
    assert_eq!(m.keys(), vec!["a".to_string(), "b".to_string(), "c".to_string()]);
    let d = CachedMeta::default();
    assert!(d.fields.is_empty());
    assert_eq!(d.timestamp, 0);
}

#[test]
fn header_map_orders_names_by_bytes() {
    let m = map(&[("é", "1"), ("z", "2"), ("B", "3"), ("a", "4")]);
    assert_eq!(m.keys(), vec!["B".to_string(), "a".to_string(), "z".to_string(), "é".to_string()]);
    let c = m.clone();
    assert_eq!(pairs(c.entries()), pairs(m.entries()));
}

/// One caller taking the lock against an in-memory store: its clock, its
/// step, and the version its last read saw.
struct Caller {
    now: i64,
    stage: LockStage,
    action: LockAction,
    seen: Option<u64>,
}

/// The store's answer to the caller's action, applied to `entry`.
fn call(entry: &mut Option<(i64, u64)>, next: &mut u64, c: &mut Caller) {
    if matches!(c.action, LockAction::Finish(_)) {
        return;
    }
    let event = match c.action {
        LockAction::StoreIfAbsent => {
            if entry.is_none() {
                *entry = Some((c.now, *next));
                *next += 1;
                LockEvent::Stored
            } else {
                LockEvent::Conflict
            }
        },
        LockAction::Read => match *entry {
            Some((at, v)) => {
                c.seen = Some(v);
                LockEvent::Held(at)
            },
            None => {
                c.seen = None;
                LockEvent::Vacant
            },
        },
        LockAction::StoreReplacing => match *entry {
            Some((_, v)) if c.seen == Some(v) => {
                *entry = Some((c.now, *next));
                *next += 1;
                LockEvent::Stored
            },
            _ => LockEvent::Conflict,
        },
        LockAction::Finish(_) => unreachable!(),
    };
    let (stage, action) = lock_step(c.stage, event, c.now);
    c.stage = stage;
    c.action = action;
}

/// Whether both callers win the lock under the interleaving `schedule` (bit
/// `i` set: the first caller makes the `i`-th call).
fn both_win(initial: Option<(i64, u64)>, now_a: i64, now_b: i64, schedule: u32) -> bool {
    let (mut entry, mut next) = (initial, 10u64);
    let start = |now| {
        let (stage, action) = lock_start();
        Caller { now, stage, action, seen: None }
    };
    let (mut a, mut b) = (start(now_a), start(now_b));
    for i in 0..6 {
        if schedule & (1 << i) != 0 {
            call(&mut entry, &mut next, &mut a);
        } else {
            call(&mut entry, &mut next, &mut b);
        }
    }
    a.action == LockAction::Finish(Some(true)) && b.action == LockAction::Finish(Some(true))
}

#[test]
fn two_callers_within_the_lock_ttl_never_both_win() {
    for initial in [None, Some((0, 1)), Some((950, 2)), Some((990, 3))] {
        for (now_a, now_b) in [(1000, 1000), (1000, 1029), (1029, 1000), (1000, 1015)] {
            for schedule in 0..64 {
                assert!(!both_win(initial, now_a, now_b, schedule), "{initial:?} {now_a} {now_b} {schedule}");
            }
        }
    }
    // Clocks a lock TTL apart: the later caller takes over the earlier's entry.
    assert!((0..64).any(|s| both_win(None, 1000, 1030, s)));
}
