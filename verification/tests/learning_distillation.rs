use canon_agent::capability::learning::promote::{
    distillation_export_plan, DistillationExportError, DistillationExportInput, PolicyPromotion,
};
use canon_agent::kernel::{
    Cause, ControlEvent, Decision, EventKind, Evidence, GateState, GateStatus, Phase, StateAfter,
};

fn event(seq: u64, from: Phase, to: Phase, kind: EventKind, evidence: Evidence) -> ControlEvent {
    let gate = GateState { status: GateStatus::Pass, evidence };
    ControlEvent {
        seq,
        self_hash: 0x5e1f_0000 + seq,
        api_command_hash: 0,
        from,
        to,
        kind,
        cause: Cause::EvidenceSubmitted,
        evidence,
        decision: Decision::Continue,
        failure: None,
        recovery_action: None,
        affected_gate: None,
        state_after: StateAfter {
            judgment: gate,
            eval: gate,
            objective_complete: true,
            lineage_valid: true,
        },
    }
}

fn completed_cycle() -> Vec<ControlEvent> {
    vec![
        event(1, Phase::Analysis, Phase::Judgment, EventKind::Advanced, Evidence::AnalysisReport),
        event(2, Phase::Judgment, Phase::Plan, EventKind::Advanced, Evidence::JudgmentRecord),
        event(3, Phase::Eval, Phase::Persist, EventKind::Advanced, Evidence::EvalScore),
        event(4, Phase::Persist, Phase::Persist, EventKind::Completed, Evidence::EvalScore),
    ]
}

fn input_for(promotion: &PolicyPromotion) -> DistillationExportInput {
    DistillationExportInput {
        promoted_policy_version: promotion.promoted_policy_version,
        instruction_hash: 11,
        input_state_hash: 12,
        action_hash: 13,
        output_hash: 14,
        score: 90,
        proof_hash: promotion.promoted_policy_hash,
        minimum_score: 80,
    }
}

#[test]
fn distillation_export_builds_the_row_of_the_promotion_and_input() {
    let tlog = completed_cycle();
    let promotion = PolicyPromotion::from_tlog(&tlog, 1).unwrap();
    let input = input_for(&promotion);

    let (row, line, receipt) = distillation_export_plan(&tlog, true, input).unwrap();

    assert_eq!(row.instruction_hash, 11);
    assert_eq!(row.input_state_hash, 12);
    assert_eq!(row.action_hash, 13);
    assert_eq!(row.output_hash, 14);
    assert_eq!(row.score, 90);
    assert_eq!(row.proof_hash, promotion.promoted_policy_hash);
    assert_eq!(row.source_event, promotion.source_seq);
    assert!(row.is_valid_for(&promotion));
    assert_eq!(Some(line.clone()), row.encode_ndjson());
    assert!(line.ends_with('\n'));
    assert_eq!(receipt.row_count, 1);
    assert_eq!(receipt.output_hash, row.row_hash);
    assert!(receipt.is_valid_for(&row));
}

#[test]
fn distillation_export_refuses_incomplete_input_as_invalid_row() {
    let tlog = completed_cycle();
    let promotion = PolicyPromotion::from_tlog(&tlog, 1).unwrap();
    let mut input = input_for(&promotion);
    input.output_hash = 0;

    assert_eq!(
        distillation_export_plan(&tlog, true, input),
        Err(DistillationExportError::InvalidRow)
    );
    assert_eq!(
        distillation_export_plan(&tlog, false, input),
        Err(DistillationExportError::InvalidRow)
    );
}

#[test]
fn distillation_export_refuses_an_unverified_log() {
    let tlog = completed_cycle();
    let promotion = PolicyPromotion::from_tlog(&tlog, 1).unwrap();
    let input = input_for(&promotion);

    assert_eq!(
        distillation_export_plan(&tlog, false, input),
        Err(DistillationExportError::InvalidTlog)
    );
}

#[test]
fn distillation_export_refuses_what_the_log_does_not_back() {
    let tlog = completed_cycle();
    let promotion = PolicyPromotion::from_tlog(&tlog, 1).unwrap();

    let mut low = input_for(&promotion);
    low.score = 70;
    assert_eq!(
        distillation_export_plan(&tlog, true, low),
        Err(DistillationExportError::NoVerifiedPromotion)
    );

    let mut other_proof = input_for(&promotion);
    other_proof.proof_hash ^= 1;
    assert_eq!(
        distillation_export_plan(&tlog, true, other_proof),
        Err(DistillationExportError::NoVerifiedPromotion)
    );

    let input = input_for(&promotion);
    assert_eq!(
        distillation_export_plan(&[], true, input),
        Err(DistillationExportError::NoVerifiedPromotion)
    );
}
