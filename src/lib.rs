//! Content-addressed ingestion core: fingerprints observed files, keeps a
//! ledger of per-destination upload outcomes, frames encrypted payloads and
//! decides, for each destination, what the coordinator does next.
pub mod config;
pub mod crypto;
pub mod fingerprint;
pub mod ledger;
pub mod pipeline;
