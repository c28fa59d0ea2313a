//! The cached catalog types and the per-request token nonce.

use vstd::prelude::*;
use std::time::SystemTime;
use crate::headers::HeaderMap;
use crate::text::{decimal, decimal_string};

verus! {

/// A point in wall-clock time, as the gateway's clock gives it.
#[verifier::external_type_specification]
#[verifier::external_body]
pub struct ExSystemTime(SystemTime);

/// Cached, derived metadata for one asset: response header name to value.
#[derive(Clone, Debug)]
pub struct CachedMeta {
    pub fields: HeaderMap,
    /// Unix seconds when fetched; drives the refresh TTL.
    pub timestamp: i64,
}

impl Default for CachedMeta {
    /// An empty entry written at time zero.
    fn default() -> (r: CachedMeta)
        ensures
            r.fields@ == Map::<Seq<char>, Seq<char>>::empty(),
            r.timestamp == 0,
    {
        CachedMeta { fields: HeaderMap::new(), timestamp: 0 }
    }
}

/// Single-initiator refresh lock entry (stampede control).
#[derive(Clone, Copy, Debug)]
pub struct RefreshLock {
    pub acquired_at: i64,
}

/// Nanoseconds from the Unix epoch to the time `t`, or `None` for a time
/// before the epoch.
pub uninterp spec fn epoch_nanos(t: SystemTime) -> Option<u128>;

/// `SystemTime::duration_since(SystemTime::UNIX_EPOCH)`, with the duration
/// given as its whole nanoseconds (`Duration::as_nanos`) and the error for a
/// time before the epoch as `None`. Claimed: the result depends on the time
/// value alone (`epoch_nanos`); what the count is for a given time is not
/// stated, the time value being opaque here.
#[verifier::external_body]
fn nanos_since_epoch(now: &SystemTime) -> (r: Option<u128>)
    ensures
        r == epoch_nanos(*now),
{
    match now.duration_since(SystemTime::UNIX_EPOCH) {
        Ok(d) => Some(d.as_nanos()),
        Err(_) => None,
    }
}

/// The nonce text for a time `nanos` nanoseconds after the Unix epoch, or for a
/// time before the epoch (`None`): the decimal count, or `"0"`.
pub fn nonce_from_nanos(nanos: Option<u128>) -> (r: String)
    ensures
        r@ == decimal(
            match nanos {
                Some(n) => n as nat,
                None => 0,
            },
        ),
{
    match nanos {
        Some(n) => decimal_string(n),
        None => decimal_string(0),
    }
}

/// Per-request JWT nonce: nanoseconds since the Unix epoch as a decimal string
/// (`"0"` for a time before the epoch).
pub fn nonce_from_time(now: SystemTime) -> (r: String)
    ensures
        r@ == decimal(
            match epoch_nanos(now) {
                Some(n) => n as nat,
                None => 0,
            },
        ),
{
    nonce_from_nanos(nanos_since_epoch(&now))
}

} // verus!
