use canon_agent::capability::orchestration::record::{
    expected_effect, expected_evidence, route_hash, route_payload_hash, route_resource_units,
    selected_parallel_run_count, CapabilityRoute, OrchestrationBatchDecision,
    OrchestrationBatchRecord, OrchestrationBudget, OrchestrationDecision, OrchestrationRecord,
    ORCHESTRATION_ROUTE_VERSION,
};
use canon_agent::kernel::{Evidence, GateId, PacketEffect};

fn route(ordinal: u8, priority: u8, gate: GateId, ready: bool) -> CapabilityRoute {
    CapabilityRoute {
        ordinal,
        priority,
        gate,
        evidence: expected_evidence(gate),
        ready,
        effect: expected_effect(gate),
    }
}

fn record(objective_id: u64, priority: u8, routes: Vec<CapabilityRoute>) -> OrchestrationRecord {
    let hash = route_hash(objective_id, ORCHESTRATION_ROUTE_VERSION, priority, &routes);
    OrchestrationRecord {
        objective_id,
        route_version: ORCHESTRATION_ROUTE_VERSION,
        priority,
        route_hash: hash,
        routes,
    }
}

#[test]
fn budget_validity_needs_every_limit() {
    assert!(OrchestrationBudget::new(1, 1, 1).is_valid());
    assert!(!OrchestrationBudget::new(0, 1, 1).is_valid());
    assert!(!OrchestrationBudget::new(1, 0, 1).is_valid());
    assert!(!OrchestrationBudget::new(1, 1, 0).is_valid());
}

#[test]
fn gate_tables() {
    assert_eq!(expected_evidence(GateId::Plan), Evidence::TaskReady);
    assert_eq!(expected_effect(GateId::Plan), PacketEffect::BindReadyTask);
    assert_eq!(expected_effect(GateId::Judgment), PacketEffect::Noop);
    assert_eq!(route_resource_units(route(1, 1, GateId::Execution, true)), 5);
    assert_eq!(route_resource_units(route(1, 1, GateId::Learning, true)), 4);
    assert_eq!(route_resource_units(route(1, 1, GateId::Invariant, true)), 1);
}

#[test]
fn route_validity() {
    assert!(route(1, 1, GateId::Plan, true).is_valid());
    assert!(!route(0, 1, GateId::Plan, true).is_valid());
    assert!(!route(1, 0, GateId::Plan, true).is_valid());
    let mut wrong = route(1, 1, GateId::Plan, true);
    wrong.evidence = Evidence::EvalScore;
    assert!(!wrong.is_valid());
}

#[test]
fn record_routes_when_a_route_is_ready() {
    let r = record(
        7,
        3,
        vec![route(1, 3, GateId::Invariant, true), route(2, 3, GateId::Learning, false)],
    );
    assert!(r.is_valid());
    assert_eq!(r.decision(), OrchestrationDecision::Routed);
    let subs = r.ordered_submissions();
    assert_eq!(subs.len(), 1);
    assert_eq!(subs[0].gate, GateId::Invariant);
    assert!(subs[0].passed);
    assert_eq!(
        subs[0].payload_hash,
        route_payload_hash(r.route_hash, route(1, 3, GateId::Invariant, true))
    );
}

#[test]
fn record_without_ready_route_is_empty() {
    let r = record(7, 3, vec![route(1, 3, GateId::Learning, false)]);
    assert!(r.is_valid());
    assert_eq!(r.decision(), OrchestrationDecision::Empty);
    assert!(r.ordered_submissions().is_empty());
}

#[test]
fn record_rejects_tampering_and_disorder() {
    let mut r = record(7, 3, vec![route(1, 3, GateId::Invariant, true)]);
    r.route_hash ^= 1;
    assert!(!r.is_valid());
    let r = record(
        7,
        3,
        vec![route(2, 3, GateId::Invariant, true), route(1, 3, GateId::Analysis, true)],
    );
    assert!(!r.is_valid());
    let r = record(0, 3, vec![route(1, 3, GateId::Invariant, true)]);
    assert!(!r.is_valid());
    let r = record(7, 3, vec![]);
    assert!(!r.is_valid());
}

#[test]
fn record_submissions_go_highest_priority_first() {
    let r = record(
        7,
        3,
        vec![
            route(1, 1, GateId::Invariant, true),
            route(2, 9, GateId::Analysis, true),
            route(3, 9, GateId::Judgment, true),
            route(4, 5, GateId::Plan, true),
        ],
    );
    assert!(r.is_valid());
    let gates: Vec<GateId> = r.ordered_submissions().iter().map(|s| s.gate).collect();
    assert_eq!(
        gates,
        vec![GateId::Analysis, GateId::Judgment, GateId::Plan, GateId::Invariant]
    );
}

#[test]
fn batch_selects_within_budget() {
    let a = record(
        11,
        2,
        vec![route(1, 2, GateId::Invariant, true), route(2, 2, GateId::Execution, true)],
    );
    let b = record(12, 2, vec![route(1, 4, GateId::Analysis, true)]);
    let budget = OrchestrationBudget::new(2, 2, 10);
    let batch = OrchestrationBatchRecord::from_records(&[a.clone(), b.clone()], budget);
    assert!(batch.is_valid());
    assert_eq!(batch.candidate_count, 2);
    assert_eq!(batch.decision(), OrchestrationBatchDecision::Selected);
    assert_eq!(batch.selected.len(), 2);
    // Priority 4 from the second record first, then the first record's first route.
    assert_eq!(batch.selected[0].objective_id, 12);
    assert_eq!(batch.selected[0].run_ordinal, 2);
    assert_eq!(batch.selected[1].objective_id, 11);
    assert_eq!(batch.selected[1].route.gate, GateId::Invariant);
    assert_eq!(batch.consumed_resource_units, 2);
    assert_eq!(selected_parallel_run_count(&batch.selected), 2);
    let subs = batch.ordered_submissions();
    assert_eq!(subs.len(), 2);
    assert_eq!(subs[0].gate, GateId::Analysis);
}

#[test]
fn batch_respects_parallel_runs_and_units() {
    let a = record(
        11,
        2,
        vec![route(1, 2, GateId::Invariant, true), route(2, 2, GateId::Execution, true)],
    );
    let b = record(12, 2, vec![route(1, 1, GateId::Analysis, true)]);
    // One run at a time: both routes of the first record, none of the second.
    let batch = OrchestrationBatchRecord::from_records(&[a.clone(), b.clone()], OrchestrationBudget::new(1, 5, 100));
    assert!(batch.is_valid());
    assert_eq!(batch.selected.len(), 2);
    assert!(batch.selected.iter().all(|s| s.objective_id == 11));
    assert_eq!(batch.consumed_resource_units, 6);
    // Five units: the execution route (5) does not fit after the invariant route (1).
    let batch = OrchestrationBatchRecord::from_records(&[a, b], OrchestrationBudget::new(2, 5, 5));
    assert!(batch.is_valid());
    let gates: Vec<GateId> = batch.selected.iter().map(|s| s.route.gate).collect();
    assert_eq!(gates, vec![GateId::Invariant, GateId::Analysis]);
    assert_eq!(batch.consumed_resource_units, 2);
}

#[test]
fn batch_with_invalid_budget_or_no_records() {
    let a = record(11, 2, vec![route(1, 2, GateId::Invariant, true)]);
    let batch = OrchestrationBatchRecord::from_records(&[a], OrchestrationBudget::new(0, 1, 1));
    assert!(batch.selected.is_empty());
    assert!(!batch.is_valid());
    assert_eq!(batch.decision(), OrchestrationBatchDecision::Empty);
    assert!(batch.ordered_submissions().is_empty());
    let batch = OrchestrationBatchRecord::from_records(&[], OrchestrationBudget::new(1, 1, 1));
    assert_eq!(batch.candidate_count, 0);
    assert!(!batch.is_valid());
}

#[test]
fn batch_merge_hash_detects_tampering() {
    let a = record(11, 2, vec![route(1, 2, GateId::Invariant, true)]);
    let mut batch = OrchestrationBatchRecord::from_records(&[a], OrchestrationBudget::new(1, 1, 1));
    assert!(batch.is_valid());
    assert_eq!(batch.merge_hash, batch.expected_merge_hash());
    batch.consumed_resource_units = 0;
    assert!(!batch.is_valid());
}
