//! Execution capability: bounded effects that produce runtime receipts.
pub mod action;
pub mod graph;
pub mod patch;
pub mod record;
pub mod shell;
