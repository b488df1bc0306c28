//! Memory: an indexed prior-run store that produces deterministic lookup
//! records.
pub mod store;
