//! Eval: scores, thresholds, scorecard receipts and the evolution ledger.
pub mod evolution;
pub mod record;
