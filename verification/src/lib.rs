//! Verified core of a catalog-listing feed relay: it models a parsed listing
//! page, extracts one feed record per item block under a defined
//! mandatory/optional field policy, assembles page-level metadata, encodes
//! the batch as JSON wire records, and builds the request that ships them.

pub mod client;
pub mod dom;
pub mod extract;
pub mod json;
pub mod laws;
pub mod publish;
pub mod feed;
pub mod urls;

