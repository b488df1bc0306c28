use canon_agent::capability::eval::evolution::{
    encode_candidate_receipt_ndjson, CandidateReceipt, CandidateReceiptInput, CandidateVerdict,
    SelectionRecord,
};

fn candidate(id: u64, score: u64, verdict: CandidateVerdict, replay_valid: bool) -> CandidateReceipt {
    CandidateReceipt::new(CandidateReceiptInput {
        generation: 1,
        candidate_id: id,
        parent_id: 99,
        seed_hash: 1000,
        patch_hash: 2000 + id,
        sandbox_hash: 3000 + id,
        evaluator_hash: 4000,
        score,
        threshold: 80,
        verdict,
        replay_valid,
        proof_hash: 5000 + id,
    })
    .expect("test value should be present")
}

#[test]
fn passing_candidate_binds_external_evidence() {
    let receipt = candidate(1, 91, CandidateVerdict::Pass, true);
    assert!(receipt.passed());
    assert!(receipt.is_structurally_valid());
    assert_eq!(
        receipt.lineage_hash,
        receipt.expected_lineage_hash().expect("test value should be present")
    );
}

#[test]
fn failed_or_unreplayable_candidates_cannot_pass() {
    assert!(!candidate(1, 91, CandidateVerdict::Fail, true).passed());
    assert!(!candidate(2, 91, CandidateVerdict::Pass, false).passed());
    assert!(!candidate(3, 79, CandidateVerdict::Pass, true).passed());
}

#[test]
fn selection_keeps_highest_verified_score() {
    let candidates = vec![
        candidate(1, 91, CandidateVerdict::Pass, true),
        candidate(2, 95, CandidateVerdict::Pass, true),
        candidate(3, 99, CandidateVerdict::Fail, true),
    ];
    let selected = SelectionRecord::select_winner(&candidates).expect("test setup should succeed");
    assert_eq!(selected.selected_candidate_id, 2);
    assert_eq!(selected.selected_score, 95);
    assert_eq!(selected.pass_count, 2);
    assert!(selected.is_valid_for(&candidates));
}

#[test]
fn selection_is_deterministic_on_score_ties() {
    let a = candidate(1, 91, CandidateVerdict::Pass, true);
    let b = candidate(2, 91, CandidateVerdict::Pass, true);
    let candidates = vec![a.clone(), b.clone()];
    let selected = SelectionRecord::select_winner(&candidates).expect("test setup should succeed");
    let expected = if a.lineage_hash < b.lineage_hash { 1 } else { 2 };
    assert_eq!(selected.selected_candidate_id, expected);
}

#[test]
fn tampered_candidate_rejects_selection() {
    let mut candidates = vec![candidate(1, 91, CandidateVerdict::Pass, true)];
    candidates[0].score = 100;
    assert!(SelectionRecord::select_winner(&candidates).is_none());
}

#[test]
fn ndjson_encoder_rejects_invalid_receipt() {
    let mut receipt = candidate(1, 91, CandidateVerdict::Pass, true);
    assert!(encode_candidate_receipt_ndjson(&receipt)
        .expect("test value should be present")
        .starts_with("[1,"));
    receipt.proof_hash ^= 1;
    assert!(encode_candidate_receipt_ndjson(&receipt).is_none());
}

#[test]
fn selection_rejects_an_empty_candidate_list() {
    assert!(SelectionRecord::select_winner(&[]).is_none());
}
