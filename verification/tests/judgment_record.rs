use canon_agent::capability::context::record::ContextRecord;
use canon_agent::capability::judgment::record::{
    PolicyJudgmentDecision, PolicyJudgmentRecord, PolicyReuseCostCatalogReceipt,
    PolicyReuseLedgerSummaryReceipt, PolicyReusePerformanceCostTrendReceipt, PolicyReuseReceipt,
    PolicyReuseScaleTraceReceipt, PolicyReuseTrendReceipt,
};
use canon_agent::capability::learning::promote::PolicyPromotion;
use canon_agent::capability::memory::store::{MemoryFact, MemoryIndex};
use canon_agent::capability::policy::store::PolicyStore;
use canon_agent::kernel::{
    Cause, ControlEvent, Decision, EventKind, Evidence, GateId, GateState, GateStatus, Packet,
    Phase, StateAfter,
};

fn context() -> ContextRecord {
    let packet = Packet {
        objective_id: 42,
        objective_required_tasks: 2,
        revision: 1,
        ..Packet::empty()
    };
    let mut memory = MemoryIndex::default();
    assert!(memory.insert(MemoryFact::new(packet.objective_id, 0xfeed, 7, 1)));
    let (lookup, receipt) = memory.lookup_with_receipt(packet.objective_id, 8);
    ContextRecord::from_packet_memory_receipt(packet, 0xabc, &lookup, Some(&receipt))
}

fn event(seq: u64, from: Phase, to: Phase, kind: EventKind, evidence: Evidence) -> ControlEvent {
    let gate = GateState { status: GateStatus::Pass, evidence };
    ControlEvent {
        seq,
        self_hash: 0x5e1f_0000 + seq,
        api_command_hash: 0,
        from,
        to,
        kind,
        cause: Cause::EvidenceSubmitted,
        evidence,
        decision: Decision::Continue,
        failure: None,
        recovery_action: None,
        affected_gate: None,
        state_after: StateAfter {
            judgment: gate,
            eval: gate,
            objective_complete: true,
            lineage_valid: true,
        },
    }
}

/// The log of one completed cycle: a judgment, a persisted evaluation,
/// and the completion.
fn completed_cycle() -> Vec<ControlEvent> {
    vec![
        event(1, Phase::Analysis, Phase::Judgment, EventKind::Advanced, Evidence::AnalysisReport),
        event(2, Phase::Judgment, Phase::Plan, EventKind::Advanced, Evidence::JudgmentRecord),
        event(3, Phase::Eval, Phase::Persist, EventKind::Advanced, Evidence::EvalScore),
        event(4, Phase::Persist, Phase::Persist, EventKind::Completed, Evidence::EvalScore),
    ]
}

fn promoted_policy() -> PolicyStore {
    let tlog = completed_cycle();
    let promotion = PolicyPromotion::from_tlog(&tlog, 1).unwrap();
    let mut policy = PolicyStore::default();
    policy.promote_feedback(promotion).unwrap();
    policy
}

#[test]
fn policy_judgment_hit_produces_kernel_judgment_without_llm_record() {
    let context = context();
    let policy = promoted_policy();

    let record = PolicyJudgmentRecord::from_context_policy(&context, &policy);
    let judgment = record.judgment_record();
    let submission = record.submission();

    assert_eq!(record.decision(), PolicyJudgmentDecision::PolicyHit);
    assert!(record.is_valid());
    assert_eq!(record.context_hash, context.context_hash);
    assert_eq!(record.policy_hash, policy.fingerprint());
    let (_, receipt) = policy.feedback_lookup_with_receipt();
    assert_eq!(record.policy_feedback_hash, policy.feedback_hash());
    assert_eq!(record.policy_lookup_receipt_hash, receipt.receipt_hash);
    assert!(judgment.is_valid());
    assert_eq!(judgment.policy_version, policy.latest_version());
    assert_eq!(submission.gate, GateId::Judgment);
    assert_eq!(submission.evidence, Evidence::JudgmentRecord);
    assert!(submission.passed);
}

#[test]
fn empty_policy_is_policy_miss_and_does_not_pass_judgment() {
    let context = context();
    let policy = PolicyStore::default();

    let record = PolicyJudgmentRecord::from_context_policy(&context, &policy);
    let submission = record.submission();

    assert_eq!(record.decision(), PolicyJudgmentDecision::PolicyMiss);
    assert!(!record.is_valid());
    assert_eq!(record.policy_feedback_hash, 0);
    assert_ne!(record.policy_lookup_receipt_hash, 0);
    assert_eq!(submission.gate, GateId::Judgment);
    assert_eq!(submission.evidence, Evidence::JudgmentRecord);
    assert!(!submission.passed);
}

#[test]
fn policy_judgment_rejects_record_hash_tampering() {
    let context = context();
    let policy = promoted_policy();
    let mut record = PolicyJudgmentRecord::from_context_policy(&context, &policy);

    record.record_hash ^= 1;

    assert_eq!(record.decision(), PolicyJudgmentDecision::PolicyMiss);
    assert!(!record.is_valid());
    assert!(!record.submission().passed);
}

#[test]
fn policy_judgment_rejects_tampered_policy_lookup_receipt() {
    let context = context();
    let policy = promoted_policy();
    let (_, mut receipt) = policy.feedback_lookup_with_receipt();
    receipt.found_value ^= 1;

    let record =
        PolicyJudgmentRecord::from_context_policy_lookup_receipt(&context, &policy, &receipt);

    assert_eq!(record.decision(), PolicyJudgmentDecision::PolicyMiss);
    assert_eq!(record.policy_feedback_hash, 0);
    assert_eq!(record.policy_lookup_receipt_hash, 0);
    assert!(!record.submission().passed);
}

#[test]
fn policy_reuse_receipt_counts_policy_hits_as_avoided_llm_calls() {
    let context = context();
    let policy = promoted_policy();
    let hit = PolicyJudgmentRecord::from_context_policy(&context, &policy);
    let miss = PolicyJudgmentRecord::from_context_policy(&context, &PolicyStore::default());

    let receipt = PolicyReuseReceipt::from_policy_judgments(&[hit, miss]);

    assert_eq!(receipt.schema_version, 1);
    assert_eq!(receipt.record_type, "policy_reuse");
    assert_eq!(receipt.retained_record_count, 2);
    assert_eq!(receipt.policy_hit_count, 1);
    assert_eq!(receipt.policy_miss_count, 1);
    assert_eq!(receipt.avoided_llm_call_count, 1);
    assert_eq!(receipt.hit_rate_bps, 5_000);
    assert_eq!(receipt.verdict, "pass");
    assert!(receipt.passed());
}

#[test]
fn policy_reuse_receipt_rejects_empty_or_tampered_aggregates() {
    let empty = PolicyReuseReceipt::from_policy_judgments(&[]);
    assert_eq!(empty.retained_record_count, 0);
    assert_eq!(empty.verdict, "fail");
    assert!(!empty.passed());

    let context = context();
    let policy = promoted_policy();
    let hit = PolicyJudgmentRecord::from_context_policy(&context, &policy);
    let mut receipt = PolicyReuseReceipt::from_policy_judgments(&[hit]);
    assert!(receipt.passed());

    receipt.avoided_llm_call_count += 1;
    assert!(!receipt.is_valid());
    assert!(!receipt.passed());
}

#[test]
fn policy_reuse_trend_receipt_passes_when_policy_coverage_improves() {
    let context = context();
    let policy = promoted_policy();
    let hit = PolicyJudgmentRecord::from_context_policy(&context, &policy);
    let miss = PolicyJudgmentRecord::from_context_policy(&context, &PolicyStore::default());
    let baseline = PolicyReuseReceipt::from_policy_judgments(&[hit.clone(), miss.clone()]);
    let current = PolicyReuseReceipt::from_policy_judgments(&[hit.clone(), hit]);

    let trend = PolicyReuseTrendReceipt::compare(&baseline, &current);

    assert_eq!(trend.record_type, "policy_reuse_trend");
    assert_eq!(trend.baseline_hit_rate_bps, 5_000);
    assert_eq!(trend.current_hit_rate_bps, 10_000);
    assert_eq!(trend.hit_rate_delta_bps, 5_000);
    assert_eq!(trend.avoided_llm_call_delta, 1);
    assert_eq!(trend.trend_status, "improved_or_stable");
    assert!(trend.passed());
}

#[test]
fn policy_reuse_trend_receipt_rejects_regression_or_tampering() {
    let context = context();
    let policy = promoted_policy();
    let hit = PolicyJudgmentRecord::from_context_policy(&context, &policy);
    let miss = PolicyJudgmentRecord::from_context_policy(&context, &PolicyStore::default());
    let baseline = PolicyReuseReceipt::from_policy_judgments(&[hit.clone(), hit.clone()]);
    let current = PolicyReuseReceipt::from_policy_judgments(&[hit, miss]);

    let mut trend = PolicyReuseTrendReceipt::compare(&baseline, &current);

    assert_eq!(trend.trend_status, "regressed");
    assert_eq!(trend.verdict, "fail");
    assert!(!trend.passed());
    assert!(trend.is_valid());

    trend.current_hit_rate_bps += 1;
    assert!(!trend.is_valid());
}

#[test]
fn policy_reuse_ledger_summary_accepts_empty_zero_baseline() {
    let summary = PolicyReuseLedgerSummaryReceipt::empty();

    assert_eq!(summary.policy_hits, 0);
    assert_eq!(summary.policy_misses, 0);
    assert_eq!(summary.llm_fallbacks, 0);
    assert_eq!(summary.validation_passes, 0);
    assert_eq!(summary.validation_failures, 0);
    assert_eq!(summary.reuse_rate_bps, 0);
    assert!(!summary.regression_flag);
    assert!(summary.is_valid());
    assert!(summary.passed());
    assert!(summary.to_json().contains("policy_reuse_ledger_summary"));
}

#[test]
fn policy_reuse_ledger_summary_counts_mixed_hit_miss_ledger() {
    let context = context();
    let policy = promoted_policy();
    let hit = PolicyJudgmentRecord::from_context_policy(&context, &policy);
    let miss = PolicyJudgmentRecord::from_context_policy(&context, &PolicyStore::default());
    let reuse = PolicyReuseReceipt::from_policy_judgments(&[hit, miss]);

    let summary = PolicyReuseLedgerSummaryReceipt::from_reuse_validation_counts(&reuse, 3, 0);

    assert_eq!(summary.policy_hits, 1);
    assert_eq!(summary.policy_misses, 1);
    assert_eq!(summary.llm_fallbacks, 1);
    assert_eq!(summary.validation_passes, 3);
    assert_eq!(summary.validation_failures, 0);
    assert_eq!(summary.reuse_rate_bps, 5_000);
    assert_eq!(summary.source_receipt_hash, reuse.receipt_hash);
    assert!(!summary.regression_flag);
    assert!(summary.passed());
}

#[test]
fn policy_reuse_ledger_summary_flags_validation_regression() {
    let context = context();
    let policy = promoted_policy();
    let hit = PolicyJudgmentRecord::from_context_policy(&context, &policy);
    let reuse = PolicyReuseReceipt::from_policy_judgments(&[hit]);

    let summary = PolicyReuseLedgerSummaryReceipt::from_reuse_validation_counts(&reuse, 2, 1);

    assert_eq!(summary.policy_hits, 1);
    assert_eq!(summary.policy_misses, 0);
    assert_eq!(summary.llm_fallbacks, 0);
    assert_eq!(summary.validation_passes, 2);
    assert_eq!(summary.validation_failures, 1);
    assert_eq!(summary.reuse_rate_bps, 10_000);
    assert!(summary.regression_flag);
    assert!(summary.is_valid());
    assert!(!summary.passed());
}

#[test]
fn policy_reuse_ledger_summary_rejects_tampered_counts_or_sequence_binding() {
    let context = context();
    let policy = promoted_policy();
    let hit = PolicyJudgmentRecord::from_context_policy(&context, &policy);
    let reuse = PolicyReuseReceipt::from_policy_judgments(&[hit]);
    let mut summary =
        PolicyReuseLedgerSummaryReceipt::from_reuse_validation_counts(&reuse, 1, 0);
    assert!(summary.passed());

    summary.llm_fallbacks += 1;
    assert!(!summary.is_valid());

    let mut rebound =
        PolicyReuseLedgerSummaryReceipt::from_reuse_validation_counts(&reuse, 1, 0);
    rebound.source_receipt_hash ^= 1;
    assert!(!rebound.is_valid());
}

#[test]
fn policy_reuse_scale_trace_counts_larger_batch_avoided_calls() {
    let context = context();
    let policy = promoted_policy();
    let hit = PolicyJudgmentRecord::from_context_policy(&context, &policy);
    let miss = PolicyJudgmentRecord::from_context_policy(&context, &PolicyStore::default());
    let reuse = PolicyReuseReceipt::from_policy_judgments(&[
        hit.clone(),
        hit.clone(),
        hit.clone(),
        hit,
        miss.clone(),
        miss,
    ]);

    let trace = PolicyReuseScaleTraceReceipt::from_reuse_validation_counts(&reuse, 6, 6, 0);

    assert_eq!(trace.record_type, "policy_reuse_scale_trace");
    assert_eq!(trace.batch_size, 6);
    assert_eq!(trace.policy_hits, 4);
    assert_eq!(trace.policy_misses, 2);
    assert_eq!(trace.llm_fallbacks, 2);
    assert_eq!(trace.avoided_llm_calls_per_batch, 4);
    assert_eq!(trace.reuse_rate_bps, 6_666);
    assert!(!trace.regression_flag);
    assert!(trace.passed());
}

#[test]
fn policy_reuse_scale_trace_rejects_regression_or_tampering() {
    let context = context();
    let policy = promoted_policy();
    let hit = PolicyJudgmentRecord::from_context_policy(&context, &policy);
    let miss = PolicyJudgmentRecord::from_context_policy(&context, &PolicyStore::default());
    let reuse = PolicyReuseReceipt::from_policy_judgments(&[hit.clone(), hit, miss]);

    let mut trace = PolicyReuseScaleTraceReceipt::from_reuse_validation_counts(&reuse, 3, 2, 1);

    assert!(trace.regression_flag);
    assert!(trace.is_valid());
    assert!(!trace.passed());

    trace.avoided_llm_calls_per_batch += 1;
    assert!(!trace.is_valid());
}

#[test]
fn policy_reuse_performance_cost_trend_binds_scale_and_cost_sources() {
    let context = context();
    let policy = promoted_policy();
    let hit = PolicyJudgmentRecord::from_context_policy(&context, &policy);
    let miss = PolicyJudgmentRecord::from_context_policy(&context, &PolicyStore::default());
    let reuse = PolicyReuseReceipt::from_policy_judgments(&[
        hit.clone(),
        hit.clone(),
        hit.clone(),
        hit,
        miss.clone(),
        miss,
    ]);
    let scale = PolicyReuseScaleTraceReceipt::from_reuse_validation_counts(&reuse, 6, 6, 0);

    let mut receipt = PolicyReusePerformanceCostTrendReceipt::from_scale_and_cost_sources(
        &scale, 146, 20, "pass", "pass", 0x101, 0x202,
    );

    assert_eq!(receipt.record_type, "policy_reuse_performance_cost_trend");
    assert_eq!(receipt.batch_size, 6);
    assert_eq!(receipt.avoided_llm_calls_per_batch, 4);
    assert_eq!(receipt.reuse_rate_bps, 6_666);
    assert_eq!(receipt.validation_expected_count_guarded_tests, 146);
    assert_eq!(receipt.estimated_ms_per_guarded_test, 20);
    assert_eq!(receipt.runtime_budget_status, "pass");
    assert_eq!(receipt.validation_cost_verdict, "pass");
    assert!(!receipt.cost_regression_flag);
    assert_eq!(receipt.source_scale_trace_hash, scale.receipt_hash);
    assert!(receipt.passed());

    receipt.source_runtime_performance_hash ^= 1;
    assert!(!receipt.is_valid());
}

#[test]
fn policy_reuse_performance_cost_trend_flags_cost_regressions() {
    let context = context();
    let policy = promoted_policy();
    let hit = PolicyJudgmentRecord::from_context_policy(&context, &policy);
    let miss = PolicyJudgmentRecord::from_context_policy(&context, &PolicyStore::default());
    let reuse = PolicyReuseReceipt::from_policy_judgments(&[hit.clone(), hit, miss]);
    let scale = PolicyReuseScaleTraceReceipt::from_reuse_validation_counts(&reuse, 3, 3, 0);

    let receipt = PolicyReusePerformanceCostTrendReceipt::from_scale_and_cost_sources(
        &scale, 146, 22, "pass", "fail", 0x303, 0x404,
    );

    assert!(receipt.cost_regression_flag);
    assert!(receipt.is_valid());
    assert!(!receipt.passed());
}

#[test]
fn policy_reuse_cost_catalog_binds_required_source_hashes() {
    let receipt = PolicyReuseCostCatalogReceipt::from_source_hashes(
        6, 4, 4, 6, true, true, "none", 0x101, 0x202, 0x303, 0x404, 0x505, 0x606,
    );

    assert_eq!(receipt.record_type, "policy_reuse_cost_catalog");
    assert_eq!(receipt.catalog_version, 1);
    assert_eq!(receipt.evidence_family_count, 6);
    assert_eq!(receipt.healthy_mode_count, 4);
    assert_eq!(receipt.regression_mode_count, 4);
    assert_eq!(receipt.retained_fixture_count, 6);
    assert!(receipt.required_healthy_modes_present);
    assert!(receipt.required_regression_modes_present);
    assert!(receipt.summary_complete);
    assert_eq!(receipt.missing_required_modes, "none");
    assert_ne!(receipt.catalog_hash, 0);
    assert!(receipt.passed());

    let mut tampered = receipt.clone();
    tampered.source_runtime_performance_hash ^= 1;
    assert!(!tampered.is_valid());
}

#[test]
fn policy_reuse_cost_catalog_flags_incomplete_coverage() {
    let receipt = PolicyReuseCostCatalogReceipt::from_source_hashes(
        6,
        4,
        3,
        6,
        true,
        false,
        "required_regression_modes",
        0x101,
        0x202,
        0x303,
        0x404,
        0x505,
        0x606,
    );

    assert!(receipt.is_valid());
    assert!(!receipt.summary_complete);
    assert!(!receipt.required_regression_modes_present);
    assert_eq!(receipt.missing_required_modes, "required_regression_modes");
    assert!(!receipt.passed());
}

