//! Planning capability: the task graph, its receipt, and plan patches.
pub mod record;
