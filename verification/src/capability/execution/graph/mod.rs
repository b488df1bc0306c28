//! Graph artifacts of the execution capability.
pub mod artifacts;
