//! LLM capability: task receipts, endpoints, provider records.
pub mod provider_common;
pub mod record;
pub mod task_receipt;
pub mod transport;
pub mod openai;
pub mod ollama;
pub mod browser_router;
pub mod sse;
