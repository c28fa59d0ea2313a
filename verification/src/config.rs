//! The policy configuration, as plain values.

use vstd::prelude::*;

verus! {

/// The policy's configuration. The two catalog service endpoints are held by
/// the gateway, which makes the calls; everything the decisions read is here.
pub struct Config {
    /// Password of the read-only catalog service account.
    pub cdgc_org_password: String,
    /// User name of the read-only catalog service account.
    pub cdgc_org_username: String,
    /// Share the cache and refresh lock across replicas (default off).
    pub distributed: Option<bool>,
    /// Serve the last known provenance when a refresh fails (default on).
    pub fail_open_on_cdgc_error: Option<bool>,
    /// Stamp `x-dp-provenance-status: unavailable` when nothing is known (default on).
    pub header_on_miss: Option<bool>,
    /// Also resolve and stamp lineage (default on).
    pub include_lineage: Option<bool>,
    /// Provenance cache TTL in seconds (default one day).
    pub refresh_interval_seconds: Option<i64>,
    /// Catalog asset id of the schema whose provenance is stamped.
    pub schema_id: String,
    /// JWT claim that, when configured and present, names the schema asset.
    pub schema_id_claim: Option<String>,
    /// Request header that overrides the schema asset id (default `x-dp-schema-id`).
    pub schema_id_header: Option<String>,
    /// Per-call catalog timeout in milliseconds (default 5000).
    pub timeout: Option<i64>,
}

} // verus!
