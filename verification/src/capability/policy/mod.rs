//! Versioned policy capability.
pub mod store;
