//! Orchestration: routing and batch records, task lifecycle receipts, agent
//! cycle events and wave scheduling records.
pub mod cycle_event;
pub mod record;
pub mod task_lifecycle;
pub mod wave;
