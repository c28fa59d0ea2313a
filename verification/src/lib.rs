//! Provenance stamping for a data-product gateway: the verified core.
//!
//! The library derives the `x-dp-provenance-*` / `x-dp-lineage-*` response
//! headers of a data product from catalog search results, reads caller claims
//! from a bearer token, and makes the caching and refresh-lock decisions of the
//! gateway policy. Network, storage and JSON parsing happen around it.

pub mod cache;
pub mod cdgc;
pub mod claims;
pub mod config;
pub mod derive;
pub mod headers;
pub mod json;
pub mod lookup;
pub mod order;
pub mod policy;
pub mod provenance;
pub mod refresh;
pub mod search;
pub mod text;
