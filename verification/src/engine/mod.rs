//! The index and the four ways to search: chunking, fingerprints and the
//! store of sidecar entries, the planning of an update, ranking and the
//! search modes.

pub mod chunk;
pub mod fingerprint;
pub mod indexer;
pub mod modes;
pub mod order;
pub mod pattern;
pub mod rank;
pub mod regex_mode;
pub mod slicing;
pub mod stats;
pub mod store;
pub mod summary;
