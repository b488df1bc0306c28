//! Learning capability: training artifacts, vocabulary, policy promotion and
//! distillation.
pub mod artifact;
pub mod promote;
pub mod vocabulary;
