//! Judgment capability records.
pub mod record;
