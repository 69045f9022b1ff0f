//! Catalog and principal metadata over a versioned key-value store.
//!
//! Every mutation goes through compare-and-set on a per-entry version, so
//! racing writers are serialized by the store alone.

pub mod error;
pub mod store;
pub mod auth;
pub mod user;
pub mod catalog;
pub mod uuids;
