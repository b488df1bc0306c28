//! Action tools of the execution capability.
pub mod canon_diagnostics;
pub mod record;
