use canon_agent::capability::orchestration::task_lifecycle::TaskLifecycleReceipt;

#[test]
fn complete_receipt_requires_bound_evidence_hash() {
    let valid = TaskLifecycleReceipt::complete("node-1", "worker-a", 7, 50_000, 10_000, 42);
    let invalid = TaskLifecycleReceipt::complete("node-1", "worker-a", 7, 50_000, 10_000, 0);

    assert!(valid.is_contract_valid());
    assert!(!invalid.is_contract_valid());
}

#[test]
fn receipt_hash_detects_tampering() {
    let mut receipt = TaskLifecycleReceipt::heartbeat("node-1", "worker-a", 7, 50_000, 10_000);
    receipt.claim_id = 8;

    assert!(!receipt.is_contract_valid());
}

#[test]
fn claim_receipt_is_valid_execution_receipt() {
    let receipt = TaskLifecycleReceipt::claim("node-1", "worker-a", 7, 99, 50_000, 10_000);

    assert!(receipt.is_contract_valid());
    let submission = receipt.submission();
    assert!(submission.passed);
    assert_ne!(submission.payload_hash, 0);
}
