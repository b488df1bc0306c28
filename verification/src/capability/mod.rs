//! Pluggable evidence producers. Capabilities own rich records and submit
//! only kernel-visible evidence tokens.
use vstd::prelude::*;
use crate::kernel::EvidenceSubmission;

pub mod orchestration;
pub mod memory;
pub mod policy;
pub mod context;
pub mod eval;
pub mod judgment;
pub mod llm;
pub mod learning;
pub mod planning;
pub mod observation;
pub mod execution;
pub mod analysis;
pub mod skills;

verus! {

/// A capability record that the runtime can submit as evidence.
pub trait EvidenceProducer {
    type Record;

    /// The record itself.
    fn record(&self) -> &Self::Record;

    /// The evidence token the record submits.
    fn submission(&self) -> EvidenceSubmission;
}

} // verus!
