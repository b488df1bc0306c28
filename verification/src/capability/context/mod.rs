//! Context: assembles packet, observations and memory recall into a
//! deterministic analysis record.
pub mod record;
