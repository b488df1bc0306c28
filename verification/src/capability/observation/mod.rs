//! Observation capability: bounded, ordered external signals become
//! hash-addressed records that submit invariant evidence.
pub mod record;
pub mod source;
