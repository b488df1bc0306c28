use canon_agent::capability::learning::artifact::{
    artifact_string_hash, decision_id, ArchDecisionOutcome, ArchDecisionOutcomeRecord,
    ArchDecisionProposedRecord, LearningArtifactKind, RefactorCost, SymbolMutationRecord,
    TaskSymbolIndexRecord, TouchedSymbol, ARCH_DECISION_OUTCOME_SCHEMA,
    ARCH_DECISION_PROPOSED_SCHEMA, SYMBOL_MUTATION_SCHEMA, TASK_SYMBOL_INDEX_SCHEMA,
};

#[test]
fn symbol_mutation_record_hash_is_stable() {
    let r = SymbolMutationRecord::new(
        1_000_000,
        1,
        0xDEAD_BEEF,
        0xCAFE_BABE,
        "ai/src/lib.rs".to_string(),
        vec!["ai::lib::foo".to_string()],
        true,
        0,
        0xA11C_E001,
    );
    assert!(r.is_valid());
    assert_eq!(r.record_hash, r.compute_hash());
}

#[test]
fn arch_decision_proposed_decision_id_is_stable() {
    let id1 = decision_id("ai::service::Foo", 1_000, 42);
    let id2 = decision_id("ai::service::Foo", 1_000, 42);
    assert_eq!(id1, id2);
    assert_ne!(id1, decision_id("ai::service::Bar", 1_000, 42));
}

#[test]
fn arch_decision_outcome_record_is_valid() {
    let did = decision_id("ai::service::Foo", 1_000, 1);
    let r = ArchDecisionOutcomeRecord::new(2_000, did, ArchDecisionOutcome::Succeeded, 0xBEEF);
    assert!(r.is_valid());
    assert_eq!(r.outcome, "succeeded");
}

#[test]
fn task_symbol_index_record_is_valid() {
    let r = TaskSymbolIndexRecord::new(
        3_000,
        5,
        0xABCD_1234,
        "fix hir deserialization".to_string(),
        "done".to_string(),
        vec![TouchedSymbol {
            def_path: "ai::codec::hir::HirRecord".to_string(),
            layer: "codec".to_string(),
            mutation_count: 3,
        }],
        vec!["ai/src/codec/hir.rs".to_string()],
        vec!["apply_patch".to_string(), "cargo_check".to_string()],
    );
    assert!(r.is_valid());
}

#[test]
fn artifact_string_hash_exact_values() {
    assert_eq!(artifact_string_hash("a"), 0x8bcf_4832_4253_1959);
    assert_eq!(artifact_string_hash(""), 0x4265_2014_12d6_64a5);
    assert_eq!(decision_id("ai::service::Foo", 1_000, 42), 0x91a0_0769_d771_326e);
}

#[test]
fn decision_id_depends_on_ts_and_candidate() {
    let base = decision_id("ai::service::Foo", 1_000, 42);
    assert_ne!(base, decision_id("ai::service::Foo", 1_001, 42));
    assert_ne!(base, decision_id("ai::service::Foo", 1_000, 43));
    assert_ne!(base, 0);
}

#[test]
fn symbol_mutation_with_empty_file_is_invalid() {
    let r = SymbolMutationRecord::new(1, 1, 2, 3, String::new(), vec![], false, 1, 4);
    assert!(!r.is_valid());
    assert_eq!(r.schema, SYMBOL_MUTATION_SCHEMA);
    assert_ne!(r.record_hash, 0);
}

#[test]
fn symbol_mutation_tampering_breaks_validity() {
    let mut r = SymbolMutationRecord::new(
        1,
        1,
        2,
        3,
        "a.rs".to_string(),
        vec!["x::y".to_string(), "x::z".to_string()],
        true,
        0,
        4,
    );
    assert!(r.is_valid());
    r.def_paths.reverse();
    assert!(!r.is_valid());
    r.def_paths.reverse();
    assert!(r.is_valid());
    r.edit_succeeded = false;
    assert!(!r.is_valid());
}

#[test]
fn arch_decision_proposed_record_validity() {
    let cost = RefactorCost {
        fan_in: 3,
        fan_out: 2,
        dependence_penalty: 1,
        api_churn_risk_bits: 0.25f32.to_bits(),
        score_bits: 1.5f32.to_bits(),
    };
    let r = ArchDecisionProposedRecord::new(
        1_000,
        42,
        "ai::service::Foo".to_string(),
        "Foo".to_string(),
        "service".to_string(),
        "kernel".to_string(),
        0.75f32.to_bits(),
        vec!["kernel".to_string()],
        cost,
    );
    assert!(r.is_valid());
    assert_eq!(r.decision_id, decision_id("ai::service::Foo", 1_000, 42));
    assert_eq!(r.schema, ARCH_DECISION_PROPOSED_SCHEMA);
    let mut changed = r.clone();
    changed.confidence_bits = 0.5f32.to_bits();
    assert!(!changed.is_valid());
    let empty = ArchDecisionProposedRecord::new(
        1_000,
        42,
        "ai::service::Foo".to_string(),
        "Foo".to_string(),
        "service".to_string(),
        String::new(),
        0.75f32.to_bits(),
        vec![],
        cost,
    );
    assert!(!empty.is_valid());
}

#[test]
fn arch_decision_outcome_words_and_zero_id() {
    assert_eq!(ArchDecisionOutcome::Succeeded.as_str(), "succeeded");
    assert_eq!(ArchDecisionOutcome::Reverted.as_str(), "reverted");
    assert_eq!(ArchDecisionOutcome::Failed.as_str(), "failed");
    let r = ArchDecisionOutcomeRecord::new(2_000, 0, ArchDecisionOutcome::Failed, 1);
    assert!(!r.is_valid());
    assert_eq!(r.outcome, "failed");
    assert_eq!(r.schema, ARCH_DECISION_OUTCOME_SCHEMA);
}

#[test]
fn task_symbol_index_needs_node_and_title() {
    let r = TaskSymbolIndexRecord::new(1, 1, 0, "t".to_string(), "done".to_string(), vec![], vec![], vec![]);
    assert!(!r.is_valid());
    let r = TaskSymbolIndexRecord::new(1, 1, 9, String::new(), "done".to_string(), vec![], vec![], vec![]);
    assert!(!r.is_valid());
    assert_eq!(r.schema, TASK_SYMBOL_INDEX_SCHEMA);
}

#[test]
fn learning_artifact_kind_codes() {
    assert_eq!(LearningArtifactKind::SymbolMutation.code(), 1);
    assert_eq!(LearningArtifactKind::ArchDecisionProposed.code(), 2);
    assert_eq!(LearningArtifactKind::ArchDecisionOutcome.code(), 3);
    assert_eq!(LearningArtifactKind::TaskSymbolIndex.code(), 4);
}
