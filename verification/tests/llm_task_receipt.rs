use canon_agent::capability::llm::task_receipt::{LlmTaskContext, LlmTurnReceipt, LlmTurnRecord};
use canon_agent::kernel::{Evidence, GateId};

fn context() -> LlmTaskContext {
    LlmTaskContext::new("node-1", "worker-a", 42, 0xdead_beef, 7)
        .expect("test setup should succeed")
}

#[test]
fn llm_task_context_is_valid_with_all_fields() {
    let ctx = context();
    assert!(ctx.is_valid());
    assert_ne!(ctx.context_hash(), 0);
}

#[test]
fn llm_task_context_rejects_empty_node_id() {
    assert!(LlmTaskContext::new("", "worker-a", 1, 0xabc, 0).is_none());
}

#[test]
fn llm_task_context_rejects_zero_claim_id() {
    assert!(LlmTaskContext::new("node-1", "worker-a", 0, 0xabc, 0).is_none());
}

#[test]
fn llm_turn_record_is_valid_with_all_fields() {
    let ctx = context();
    let record = LlmTurnRecord::new(&ctx, 1, 0xaaaa, 0xbbbb, 100, true)
        .expect("test setup should succeed");
    assert!(record.is_valid());
    assert_ne!(record.record_hash(), 0);
    assert_eq!(record.task_context_hash, ctx.context_hash());
}

#[test]
fn llm_turn_record_rejects_zero_turn_seq() {
    let ctx = context();
    assert!(LlmTurnRecord::new(&ctx, 0, 0xaaaa, 0xbbbb, 100, true).is_none());
}

#[test]
fn llm_turn_record_rejects_zero_token_count() {
    let ctx = context();
    assert!(LlmTurnRecord::new(&ctx, 1, 0xaaaa, 0xbbbb, 0, true).is_none());
}

#[test]
fn llm_turn_receipt_is_valid_and_self_consistent() {
    let ctx = context();
    let record = LlmTurnRecord::new(&ctx, 1, 0xaaaa, 0xbbbb, 100, true)
        .expect("test setup should succeed");
    let receipt = LlmTurnReceipt::from_turn_record(&record, 3, 0xcccc_dddd, 42)
        .expect("test setup should succeed");

    assert!(receipt.is_valid());
    assert_eq!(receipt.turn_record_hash, record.record_hash());
    assert_eq!(receipt.receipt_hash, receipt.expected_receipt_hash());
    assert!(receipt.replay_bound);
}

#[test]
fn llm_turn_receipt_rejects_zero_event_seq() {
    let ctx = context();
    let record = LlmTurnRecord::new(&ctx, 1, 0xaaaa, 0xbbbb, 100, true)
        .expect("test setup should succeed");
    assert!(LlmTurnReceipt::from_turn_record(&record, 0, 0xcccc, 42).is_none());
}

#[test]
fn llm_turn_receipt_submission_carries_execution_receipt_evidence() {
    let ctx = context();
    let record = LlmTurnRecord::new(&ctx, 1, 0xaaaa, 0xbbbb, 100, true)
        .expect("test setup should succeed");
    let receipt = LlmTurnReceipt::from_turn_record(&record, 3, 0xcccc_dddd, 42)
        .expect("test setup should succeed");

    let sub = receipt.submission();
    assert_eq!(sub.gate, GateId::Execution);
    assert_eq!(sub.evidence, Evidence::ExecutionReceipt);
    assert!(sub.passed);
}

#[test]
fn tampered_receipt_hash_invalidates_receipt() {
    let ctx = context();
    let record = LlmTurnRecord::new(&ctx, 1, 0xaaaa, 0xbbbb, 100, true)
        .expect("test setup should succeed");
    let mut receipt = LlmTurnReceipt::from_turn_record(&record, 3, 0xcccc_dddd, 42)
        .expect("test setup should succeed");

    receipt.receipt_hash ^= 1;
    assert!(!receipt.is_valid());
}

#[test]
fn context_hash_changes_when_node_id_changes() {
    let a = LlmTaskContext::new("node-a", "w", 1, 0xabc, 0).expect("test setup should succeed");
    let b = LlmTaskContext::new("node-b", "w", 1, 0xabc, 0).expect("test setup should succeed");
    assert_ne!(a.context_hash(), b.context_hash());
}

