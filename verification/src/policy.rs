//! The gateway policy's decisions: catalog call budgets, cache lifetimes and
//! freshness, fail-open serving, which schema asset a request is for, whether
//! it is enriched, what its response is stamped with, and the strings of the
//! catalog requests.

use vstd::prelude::*;
use crate::config::Config;
use crate::claims::{claim, claim_str};
use crate::derive::{content_method, is_content_method};
use crate::headers::{pair_views, HeaderMap};
use crate::json::{opt_text, Json};
use crate::text::{has_prefix, str_eq, strip_prefix, trim, trimmed};

verus! {

/// Default per-call catalog timeout, in milliseconds.
pub const DEFAULT_TIMEOUT_MS: i64 = 5000;

/// Budget for one whole catalog refresh, in milliseconds.
pub const CDGC_REFRESH_BUDGET_MS: i64 = 15000;

/// Default provenance cache TTL, in seconds.
pub const DEFAULT_REFRESH_INTERVAL_SECONDS: i64 = 86400;

/// Least provenance cache TTL, in seconds: a configured interval below it is
/// raised to it.
pub const MIN_REFRESH_INTERVAL_SECONDS: i64 = 30;

/// How long a refresh lock holds, in seconds.
pub const REFRESH_LOCK_TTL_SECONDS: i64 = 30;

/// How long a refresh lock entry is kept by shared storage, in milliseconds.
pub const REFRESH_LOCK_TTL_MS: u32 = 30000;

/// Least time shared storage keeps a cache entry: thirty days, in milliseconds.
pub const META_STORE_MIN_TTL_MS: u64 = 2592000000;

/// Attempts the cache writer makes before giving up on conflicting writers.
pub const CAS_MAX_RETRIES: u32 = 3;

/// The per-call timeout the configuration asks for.
pub fn per_call_timeout_ms(config: &Config) -> (r: i64)
    ensures
        r == match config.timeout {
            Some(t) => t,
            None => DEFAULT_TIMEOUT_MS,
        },
{
    match config.timeout {
        Some(t) => t,
        None => DEFAULT_TIMEOUT_MS,
    }
}

/// The timeout of the next catalog call, in milliseconds, when `elapsed`
/// milliseconds of the refresh budget are spent: `None` once the budget is
/// gone, else the per-call timeout capped by what is left, and at least 1.
pub open spec fn call_timeout(per_call_ms: int, elapsed: int) -> Option<int> {
    let remaining = CDGC_REFRESH_BUDGET_MS - elapsed;
    if remaining <= 0 {
        None
    } else {
        let t = if per_call_ms < remaining {
            per_call_ms
        } else {
            remaining
        };
        Some(if t < 1 {
            1
        } else {
            t
        })
    }
}

/// The timeout of the next catalog call, in milliseconds.
pub fn next_call_timeout(per_call_ms: i64, elapsed: i64) -> (r: Option<u64>)
    requires
        CDGC_REFRESH_BUDGET_MS - elapsed <= i64::MAX,
    ensures
        match call_timeout(per_call_ms as int, elapsed as int) {
            Some(t) => r == Some(t as u64),
            None => r is None,
        },
{
    let remaining = CDGC_REFRESH_BUDGET_MS - elapsed;
    if remaining <= 0 {
        return None;
    }
    let t = if per_call_ms < remaining {
        per_call_ms
    } else {
        remaining
    };
    let t = if t < 1 {
        1
    } else {
        t
    };
    Some(t as u64)
}

/// A catalog call never waits past the refresh budget: its timeout is at
/// least 1 ms, at most what is left of the budget, and at most the per-call
/// timeout when that is positive.
pub proof fn lemma_call_timeout_within_budget(per_call_ms: int, elapsed: int)
    ensures
        call_timeout(per_call_ms, elapsed) matches Some(t) ==> {
            &&& 1 <= t <= CDGC_REFRESH_BUDGET_MS - elapsed
            &&& per_call_ms >= 1 ==> t <= per_call_ms
        },
        call_timeout(per_call_ms, elapsed) is None <==> elapsed >= CDGC_REFRESH_BUDGET_MS,
{
}

/// The provenance cache TTL: the configured refresh interval (a day when
/// unset), never below thirty seconds.
pub open spec fn refresh_seconds(config: Config) -> int {
    let r = match config.refresh_interval_seconds {
        Some(r) => r as int,
        None => DEFAULT_REFRESH_INTERVAL_SECONDS as int,
    };
    if r < MIN_REFRESH_INTERVAL_SECONDS {
        MIN_REFRESH_INTERVAL_SECONDS as int
    } else {
        r
    }
}

/// The provenance cache TTL in seconds.
pub fn refresh_ttl(config: &Config) -> (r: i64)
    ensures
        r == refresh_seconds(*config),
{
    let r = match config.refresh_interval_seconds {
        Some(r) => r,
        None => DEFAULT_REFRESH_INTERVAL_SECONDS,
    };
    if r < MIN_REFRESH_INTERVAL_SECONDS {
        MIN_REFRESH_INTERVAL_SECONDS
    } else {
        r
    }
}

/// How long shared storage keeps a cache entry: twice the refresh interval,
/// at least thirty days, at most what a `u32` of milliseconds holds.
pub open spec fn store_ttl(config: Config) -> int {
    let t = refresh_seconds(config) * 2000;
    if t < META_STORE_MIN_TTL_MS {
        META_STORE_MIN_TTL_MS as int
    } else if t > u32::MAX {
        u32::MAX as int
    } else {
        t
    }
}

/// The shared cache keeps entries at least thirty days and at most what a
/// `u32` of milliseconds holds, and longer refresh intervals never shorten it.
pub proof fn lemma_store_ttl_bounds(a: Config, b: Config)
    ensures
        META_STORE_MIN_TTL_MS <= store_ttl(a) <= u32::MAX,
        refresh_seconds(a) <= refresh_seconds(b) ==> store_ttl(a) <= store_ttl(b),
{
}

/// `a * b`, or `u64::MAX` when that overflows.
fn saturating_mul_u64(a: u64, b: u64) -> (r: u64)
    ensures
        r == if a * b > u64::MAX {
            u64::MAX as int
        } else {
            a * b
        },
{
    match a.checked_mul(b) {
        Some(p) => p,
        None => u64::MAX,
    }
}

/// Time-to-live of the shared cache namespace, in milliseconds.
pub fn meta_store_ttl_ms(config: &Config) -> (r: u32)
    ensures
        r == store_ttl(*config),
{
    let refresh = refresh_ttl(config) as u64;
    let ms = saturating_mul_u64(saturating_mul_u64(refresh, 2), 1000);
    assert(ms == if refresh * 2000 > u64::MAX {
        u64::MAX as int
    } else {
        refresh * 2000
    }) by (nonlinear_arith)
        requires
            ms == (if (if refresh * 2 > u64::MAX {
                u64::MAX as int
            } else {
                refresh * 2
            }) * 1000 > u64::MAX {
                u64::MAX as int
            } else {
                (if refresh * 2 > u64::MAX {
                    u64::MAX as int
                } else {
                    refresh * 2
                }) * 1000
            }),
    ;
    let ms = if ms < META_STORE_MIN_TTL_MS {
        META_STORE_MIN_TTL_MS
    } else {
        ms
    };
    if ms > 4294967295 {
        4294967295
    } else {
        ms as u32
    }
}

/// A cached entry written at `timestamp` is still fresh at `now`.
pub open spec fn fresh(now: int, timestamp: int, ttl: int) -> bool {
    now - timestamp < ttl
}

/// Whether a cache entry written at `timestamp` is still fresh at `now`.
pub fn is_fresh(now: i64, timestamp: i64, ttl: i64) -> (r: bool)
    requires
        i64::MIN <= now - timestamp <= i64::MAX,
    ensures
        r == fresh(now as int, timestamp as int, ttl as int),
{
    now - timestamp < ttl
}

/// Cache freshness follows the configured refresh interval: an entry written
/// `a` seconds before the lookup is served from the cache exactly when `a` is
/// less than the configured `refreshIntervalSeconds` (when that is at least
/// thirty), less than thirty (when it is smaller), or less than a day (when it
/// is unset). No other bound applies, however long the interval.
pub proof fn lemma_freshness_follows_interval(config: Config, now: int, timestamp: int)
    ensures
        (config.refresh_interval_seconds matches Some(r) && r >= 30) ==> (fresh(
            now,
            timestamp,
            refresh_seconds(config),
        ) <==> now - timestamp < config.refresh_interval_seconds->Some_0),
        (config.refresh_interval_seconds matches Some(r) && r < 30) ==> (fresh(
            now,
            timestamp,
            refresh_seconds(config),
        ) <==> now - timestamp < 30),
        config.refresh_interval_seconds is None ==> (fresh(now, timestamp, refresh_seconds(config))
            <==> now - timestamp < 86400),
{
}

/// What to serve after a failed or refused refresh, and what to serve after a
/// successful one.
pub open spec fn served(
    fetched: Option<Map<Seq<char>, Seq<char>>>,
    cached: Option<Map<Seq<char>, Seq<char>>>,
    fail_open: Option<bool>,
) -> Option<Map<Seq<char>, Seq<char>>> {
    match fetched {
        Some(f) => Some(f),
        None => if fail_open.unwrap_or(true) {
            cached
        } else {
            None
        },
    }
}

/// The view of an optional header map.
pub open spec fn opt_map(m: Option<HeaderMap>) -> Option<Map<Seq<char>, Seq<char>>> {
    match m {
        Some(h) => Some(h@),
        None => None,
    }
}

/// The provenance to serve once a refresh has run: what it fetched, or, when it
/// failed, the stale cached fields if the policy fails open (the default).
pub fn after_refresh(fetched: Option<HeaderMap>, cached: Option<HeaderMap>, fail_open: Option<bool>) -> (r: Option<HeaderMap>)
    ensures
        opt_map(r) == served(opt_map(fetched), opt_map(cached), fail_open),
{
    match fetched {
        Some(f) => Some(f),
        None => {
            let open = match fail_open {
                Some(b) => b,
                None => true,
            };
            if open {
                cached
            } else {
                None
            }
        },
    }
}

/// Whether this request refreshes the cache after trying to take the refresh
/// lock: it does when it took the lock, and when the lock store failed
/// (`None`), so that a storage outage does not stop refreshes.
pub fn refresh_after_lock(acquired: Option<bool>) -> (r: bool)
    ensures
        r == match acquired {
            Some(b) => b,
            None => true,
        },
{
    match acquired {
        Some(b) => b,
        None => true,
    }
}

/// The request header that may override the schema asset id.
pub open spec fn schema_header(config: Config) -> Seq<char> {
    match config.schema_id_header {
        Some(h) => h@,
        None => "x-dp-schema-id"@,
    }
}

/// The name of the request header that may override the schema asset id.
pub fn schema_header_name(config: &Config) -> (r: &str)
    ensures
        r@ == schema_header(*config),
{
    match &config.schema_id_header {
        Some(h) => h.as_str(),
        None => "x-dp-schema-id",
    }
}

/// The schema asset id that the configured claim names: only when a claim
/// name is configured and the decoded claims carry it.
pub open spec fn claimed_schema(config: Config, claims: Option<Json>) -> Option<Seq<char>> {
    match (config.schema_id_claim, claims) {
        (Some(name), Some(c)) => claim(c, name@),
        _ => None,
    }
}

/// The schema asset id bound to the caller's validated JWT, when the policy is
/// configured to read one from `claims`.
pub fn schema_claim(config: &Config, claims: Option<&Json>) -> (r: Option<String>)
    ensures
        opt_text(r) == claimed_schema(
            *config,
            match claims {
                Some(c) => Some(*c),
                None => None,
            },
        ),
{
    match (&config.schema_id_claim, claims) {
        (Some(name), Some(c)) => claim_str(c, name.as_str()),
        _ => None,
    }
}

/// The schema asset whose provenance a request gets: the claim wins; else a
/// non-blank override header (as sent); else the configured schema id.
pub open spec fn chosen_schema(config: Config, claim: Option<Seq<char>>, header: Option<Seq<char>>) -> Seq<char> {
    match claim {
        Some(c) => c,
        None => match header {
            Some(h) => if trimmed(h).len() > 0 {
                h
            } else {
                config.schema_id@
            },
            None => config.schema_id@,
        },
    }
}

/// A configured claim that the token carries wins over the header; without a
/// configured claim the token is ignored and a non-blank header wins over the
/// configured schema id.
pub proof fn lemma_claim_wins_over_header(config: Config, claims: Option<Json>, header: Option<Seq<char>>)
    ensures
        claimed_schema(config, claims) matches Some(c) ==> chosen_schema(
            config,
            claimed_schema(config, claims),
            header,
        ) == c,
        config.schema_id_claim is None ==> claimed_schema(config, claims) is None,
        claimed_schema(config, claims) is None && (header matches Some(h) && trimmed(h).len()
            > 0) ==> chosen_schema(config, None, header) == header.unwrap(),
{
}

/// Choose the schema asset id for a request from the claim (see
/// `schema_claim`) and the value of the override header, if present.
pub fn select_schema_id(config: &Config, claim: Option<String>, header: Option<&str>) -> (r: String)
    ensures
        r@ == chosen_schema(
            *config,
            opt_text(claim),
            match header {
                Some(h) => Some(h@),
                None => None,
            },
        ),
{
    match claim {
        Some(c) => c,
        None => match header {
            Some(h) => if trim(h).is_empty() {
                config.schema_id.clone()
            } else {
                h.to_owned()
            },
            None => config.schema_id.clone(),
        },
    }
}

/// A request carries a JSON-RPC body worth inspecting: a POST whose content
/// type starts with `application/json`.
pub open spec fn inspects_body(content_type: Option<Seq<char>>, http_method: Seq<char>) -> bool {
    has_prefix(content_type.unwrap_or(Seq::empty()), "application/json"@) && http_method
        == "POST"@
}

/// Whether the gateway reads the request body to gate enrichment by method.
pub fn wants_body(content_type: Option<&str>, http_method: &str) -> (r: bool)
    ensures
        r == inspects_body(
            match content_type {
                Some(c) => Some(c@),
                None => None,
            },
            http_method@,
        ),
{
    let ct = match content_type {
        Some(c) => c,
        None => "",
    };
    proof {
        reveal_strlit("");
    }
    assert(ct@ == match content_type {
        Some(c) => c@,
        None => Seq::<char>::empty(),
    });
    strip_prefix(ct, "application/json").is_some() && str_eq(http_method, "POST")
}

/// A request body lets the response be enriched unless it is JSON with a
/// string `method` that is not a content method. `None` is a body that did
/// not parse as JSON.
pub open spec fn body_enriched(body: Option<Json>) -> bool {
    match body {
        Some(v) => match v.text_field("method"@) {
            Some(m) => content_method(m),
            None => true,
        },
        None => true,
    }
}

/// Whether the response to a request with this parsed body is enriched.
pub fn body_allows(body: Option<&Json>) -> (r: bool)
    ensures
        r == body_enriched(
            match body {
                Some(v) => Some(*v),
                None => None,
            },
        ),
{
    match body {
        Some(v) => match v.get("method") {
            Some(Json::Str(m)) => is_content_method(m.as_str()),
            _ => true,
        },
        None => true,
    }
}

/// The headers a response is stamped with, in order, given the provenance the
/// request resolved (`None` when the request was not enriched): every field,
/// then source `cdgc` and status `ok`; with no fields, status `unavailable`
/// when the policy says so (the default); the response itself is never held.
pub open spec fn stamped(ctx: Option<Seq<(Seq<char>, Seq<char>)>>, header_on_miss: Option<bool>) -> Seq<(Seq<char>, Seq<char>)> {
    match ctx {
        None => Seq::empty(),
        Some(fields) => if fields.len() > 0 {
            fields + seq![
                ("x-dp-provenance-source"@, "cdgc"@),
                ("x-dp-provenance-status"@, "ok"@),
            ]
        } else if header_on_miss.unwrap_or(true) {
            seq![("x-dp-provenance-status"@, "unavailable"@)]
        } else {
            Seq::empty()
        },
    }
}

/// Fail-open: when a refresh fails and nothing was cached, the request carries
/// no provenance, and its response is stamped `x-dp-provenance-status:
/// unavailable` (unless the policy turns that header off); a stale entry is
/// served instead when there is one and the policy fails open.
pub proof fn lemma_outage_degrades_to_unavailable(
    cached: Option<Map<Seq<char>, Seq<char>>>,
    fail_open: Option<bool>,
    header_on_miss: Option<bool>,
)
    ensures
        cached is None ==> served(None, cached, fail_open) is None,
        fail_open.unwrap_or(true) ==> served(None, cached, fail_open) == cached,
        stamped(Some(Seq::empty()), header_on_miss) == (if header_on_miss.unwrap_or(true) {
            seq![("x-dp-provenance-status"@, "unavailable"@)]
        } else {
            Seq::empty()
        }),
{
}

/// Known provenance is stamped verbatim, followed by source `cdgc` and status
/// `ok`; the status is `ok` exactly when there are fields.
pub proof fn lemma_known_provenance_stamped_ok(
    fields: Seq<(Seq<char>, Seq<char>)>,
    header_on_miss: Option<bool>,
)
    requires
        fields.len() > 0,
    ensures
        stamped(Some(fields), header_on_miss).take(fields.len() as int) == fields,
        stamped(Some(fields), header_on_miss).last() == ("x-dp-provenance-status"@, "ok"@),
{
    assert(stamped(Some(fields), header_on_miss).take(fields.len() as int) =~= fields);
}

/// The headers to set on a response, in order.
pub fn response_headers(ctx: Option<&HeaderMap>, config: &Config) -> (r: Vec<(String, String)>)
    ensures
        pair_views(r@) == stamped(
            match ctx {
                Some(f) => Some(f.pairs()),
                None => None,
            },
            config.header_on_miss,
        ),
{
    let mut out: Vec<(String, String)> = Vec::new();
    let fields = match ctx {
        Some(f) => f,
        None => {
            assert(pair_views(out@) =~= Seq::empty());
            return out;
        },
    };
    if !fields.is_empty() {
        let entries = fields.entries();
        let n = entries.len();
        let mut i: usize = 0;
        while i < n
            invariant
                n == entries@.len(),
                0 <= i <= n,
                pair_views(out@) == pair_views(entries@).take(i as int),
            decreases n - i,
        {
            let ghost before = out@;
            out.push((entries[i].0.clone(), entries[i].1.clone()));
            assert(pair_views(out@) =~= pair_views(before).push(pair_views(entries@)[i as int]));
            assert(pair_views(out@) =~= pair_views(entries@).take(i + 1));
            i = i + 1;
        }
        assert(pair_views(entries@).take(n as int) =~= pair_views(entries@));
        let ghost before = out@;
        out.push(("x-dp-provenance-source".to_owned(), "cdgc".to_owned()));
        out.push(("x-dp-provenance-status".to_owned(), "ok".to_owned()));
        assert(pair_views(out@) =~= pair_views(before) + seq![
            ("x-dp-provenance-source"@, "cdgc"@),
            ("x-dp-provenance-status"@, "ok"@),
        ]);
    } else {
        let on_miss = match config.header_on_miss {
            Some(b) => b,
            None => true,
        };
        if on_miss {
            out.push(("x-dp-provenance-status".to_owned(), "unavailable".to_owned()));
            assert(pair_views(out@) =~= seq![("x-dp-provenance-status"@, "unavailable"@)]);
        } else {
            assert(pair_views(out@) =~= Seq::empty());
        }
    }
    out
}

/// `prefix` followed by `rest`.
fn concat(prefix: &str, rest: &str) -> (r: String)
    ensures
        r@ == prefix@ + rest@,
{
    let mut out = prefix.to_owned();
    out.append(rest);
    out
}

/// The cache key of a schema asset's provenance.
pub fn meta_cache_key(schema_id: &str) -> (r: String)
    ensures
        r@ == "prov-meta-"@ + schema_id@,
{
    concat("prov-meta-", schema_id)
}

/// The refresh-lock key of a schema asset.
pub fn refresh_lock_key(schema_id: &str) -> (r: String)
    ensures
        r@ == "prov-lock-"@ + schema_id@,
{
    concat("prov-lock-", schema_id)
}

/// The session cookie that the token request presents.
pub fn session_cookie(session_id: &str) -> (r: String)
    ensures
        r@ == "USER_SESSION="@ + session_id@,
{
    concat("USER_SESSION=", session_id)
}

/// The path of the token request, carrying the per-request nonce.
pub fn jwt_token_path(nonce: &str) -> (r: String)
    ensures
        r@ == "/identity-service/api/v1/jwt/Token?client_id=idmc_api&nonce="@ + nonce@,
{
    concat("/identity-service/api/v1/jwt/Token?client_id=idmc_api&nonce=", nonce)
}

/// The `Authorization` value of a catalog search.
pub fn bearer_authorization(jwt: &str) -> (r: String)
    ensures
        r@ == "Bearer "@ + jwt@,
{
    concat("Bearer ", jwt)
}

/// A catalog response status that counts as success: below 300.
pub fn status_ok(status: u32) -> (r: bool)
    ensures
        r == (status < 300),
{
    status < 300
}

/// Whether a refresh also resolves lineage (the default).
pub fn lineage_enabled(config: &Config) -> (r: bool)
    ensures
        r == config.include_lineage.unwrap_or(true),
{
    match config.include_lineage {
        Some(b) => b,
        None => true,
    }
}

/// Whether the cache and refresh lock are shared across replicas (default off).
pub fn shared_storage(config: &Config) -> (r: bool)
    ensures
        r == config.distributed.unwrap_or(false),
{
    match config.distributed {
        Some(b) => b,
        None => false,
    }
}

} // verus!
