//! Looking up a schema asset's provenance: the cache, the refresh lock, a
//! catalog refresh and the cache write, as one step function.
//!
//! A fresh cached entry is served as it is. Otherwise the request tries to take
//! the refresh lock; when another request holds it, the stale entry (if any) is
//! served. The lock holder refreshes from the catalog, writes the result to the
//! cache and serves it; when the refresh fails, the stale entry is served if the
//! policy fails open (the default), else nothing.

use vstd::prelude::*;
use crate::cdgc::CachedMeta;
use crate::config::Config;
use crate::headers::HeaderMap;
use crate::policy::{after_refresh, fresh, is_fresh, opt_map, refresh_after_lock, refresh_seconds, refresh_ttl, served};

verus! {

/// What a lookup waits for.
#[derive(PartialEq, Eq, Structural, Clone, Copy, Debug)]
pub enum LookupStage {
    Cache,
    Lock,
    Refresh,
    Write,
    Finished,
}

/// The outcome of the last action of a lookup.
pub enum LookupEvent {
    /// The cache entry, when one was there and could be read.
    Cached(Option<CachedMeta>),
    /// The refresh lock: `Some(true)` taken, `Some(false)` held by another
    /// request, `None` the lock store failed.
    Locked(Option<bool>),
    /// The refreshed headers, or `None` when the refresh failed.
    Refreshed(Option<HeaderMap>),
    /// The cache writer is done.
    Written,
}

/// What the gateway does next for a lookup.
pub enum LookupAction {
    /// Read the cache entry.
    ReadCache,
    /// Try to take the refresh lock.
    TakeLock,
    /// Refresh from the catalog.
    RunRefresh,
    /// Write this entry to the cache.
    WriteCache(CachedMeta),
    /// Done: serve these headers (`None`: nothing known).
    Serve(Option<HeaderMap>),
}

/// A lookup in progress.
pub struct Lookup {
    /// Unix seconds of the request.
    pub now: i64,
    /// Cache TTL in seconds.
    pub ttl: i64,
    /// Whether a failed refresh serves the stale entry (default yes).
    pub fail_open: Option<bool>,
    /// What the lookup waits for.
    pub stage: LookupStage,
    /// The stale cached headers, if any.
    pub cached: Option<HeaderMap>,
    /// The refreshed headers, once there.
    pub fetched: Option<HeaderMap>,
}

/// The lookup serves `m`.
pub open spec fn serves(a: LookupAction, m: Option<Map<Seq<char>, Seq<char>>>) -> bool {
    a matches LookupAction::Serve(r) && opt_map(r) == m
}

/// How many more actions a lookup can ask for from `stage`.
pub open spec fn lookup_rank(stage: LookupStage) -> int {
    match stage {
        LookupStage::Cache => 4,
        LookupStage::Lock => 3,
        LookupStage::Refresh => 2,
        LookupStage::Write => 1,
        LookupStage::Finished => 0,
    }
}

impl Lookup {
    /// Begin a lookup at Unix second `now`: read the cache.
    pub fn start(config: &Config, now: i64) -> (r: (Lookup, LookupAction))
        ensures
            r.0.now == now,
            r.0.ttl == refresh_seconds(*config),
            r.0.fail_open == config.fail_open_on_cdgc_error,
            r.0.stage == LookupStage::Cache,
            r.0.cached is None,
            r.1 is ReadCache,
    {
        let lookup = Lookup {
            now,
            ttl: refresh_ttl(config),
            fail_open: config.fail_open_on_cdgc_error,
            stage: LookupStage::Cache,
            cached: None,
            fetched: None,
        };
        (lookup, LookupAction::ReadCache)
    }

    /// Take the outcome of the last action and say what comes next. An event
    /// that does not answer the stage's action ends the lookup with nothing.
    pub fn step(&mut self, event: LookupEvent) -> (a: LookupAction)
        requires
            old(self).stage == LookupStage::Cache ==> (event matches LookupEvent::Cached(Some(c))
                ==> i64::MIN <= old(self).now - c.timestamp <= i64::MAX),
        ensures
            final(self).now == old(self).now,
            final(self).ttl == old(self).ttl,
            final(self).fail_open == old(self).fail_open,
            lookup_rank(final(self).stage) < lookup_rank(old(self).stage) || old(self).stage
                == LookupStage::Finished,
            final(self).stage == LookupStage::Finished <==> a is Serve,
            match (old(self).stage, event) {
                (LookupStage::Cache, LookupEvent::Cached(Some(c))) => if fresh(
                    old(self).now as int,
                    c.timestamp as int,
                    old(self).ttl as int,
                ) {
                    serves(a, Some(c.fields@))
                } else {
                    final(self).stage == LookupStage::Lock && a is TakeLock && opt_map(
                        final(self).cached,
                    ) == Some(c.fields@)
                },
                (LookupStage::Cache, LookupEvent::Cached(None)) => final(self).stage
                    == LookupStage::Lock && a is TakeLock && final(self).cached is None,
                (LookupStage::Lock, LookupEvent::Locked(r)) => if r.unwrap_or(true) {
                    final(self).stage == LookupStage::Refresh && a is RunRefresh && opt_map(
                        final(self).cached,
                    ) == opt_map(old(self).cached)
                } else {
                    serves(a, opt_map(old(self).cached))
                },
                (LookupStage::Refresh, LookupEvent::Refreshed(Some(f))) => final(self).stage
                    == LookupStage::Write && (a matches LookupAction::WriteCache(e) && e.fields@
                    == f@ && e.timestamp == old(self).now) && opt_map(final(self).fetched) == Some(
                    f@,
                ),
                (LookupStage::Refresh, LookupEvent::Refreshed(None)) => serves(
                    a,
                    served(None, opt_map(old(self).cached), old(self).fail_open),
                ),
                (LookupStage::Write, LookupEvent::Written) => serves(
                    a,
                    opt_map(old(self).fetched),
                ),
                _ => serves(a, None),
            },
    {
        match (self.stage, event) {
            (LookupStage::Cache, LookupEvent::Cached(c)) => match c {
                Some(c) => {
                    if is_fresh(self.now, c.timestamp, self.ttl) {
                        self.stage = LookupStage::Finished;
                        LookupAction::Serve(Some(c.fields))
                    } else {
                        self.cached = Some(c.fields);
                        self.stage = LookupStage::Lock;
                        LookupAction::TakeLock
                    }
                },
                None => {
                    self.cached = None;
                    self.stage = LookupStage::Lock;
                    LookupAction::TakeLock
                },
            },
            (LookupStage::Lock, LookupEvent::Locked(r)) => {
                if refresh_after_lock(r) {
                    self.stage = LookupStage::Refresh;
                    LookupAction::RunRefresh
                } else {
                    self.stage = LookupStage::Finished;
                    LookupAction::Serve(self.cached.take())
                }
            },
            (LookupStage::Refresh, LookupEvent::Refreshed(f)) => match f {
                Some(f) => {
                    self.fetched = Some(f.clone());
                    self.stage = LookupStage::Write;
                    LookupAction::WriteCache(CachedMeta { fields: f, timestamp: self.now })
                },
                None => {
                    self.stage = LookupStage::Finished;
                    LookupAction::Serve(after_refresh(None, self.cached.take(), self.fail_open))
                },
            },
            (LookupStage::Write, LookupEvent::Written) => {
                self.stage = LookupStage::Finished;
                LookupAction::Serve(self.fetched.take())
            },
            _ => {
                self.stage = LookupStage::Finished;
                LookupAction::Serve(None)
            },
        }
    }
}

} // verus!
