use canon_agent::capability::execution::graph::artifacts::{
    graph_artifact_hash_matches, is_graph_artifact_fresh, GraphArtifactMeta,
};
use canon_agent::kernel::{
    Cause, ControlEvent, Decision, EventKind, Evidence, GateState, GateStatus, Phase, StateAfter,
};

fn make_event(seq: u64) -> ControlEvent {
    let gate = GateState { status: GateStatus::Pending, evidence: Evidence::DeltaComputed };
    ControlEvent {
        seq,
        self_hash: seq,
        api_command_hash: 0,
        from: Phase::Delta,
        to: Phase::Invariant,
        kind: EventKind::Advanced,
        cause: Cause::Start,
        evidence: Evidence::DeltaComputed,
        decision: Decision::Continue,
        failure: None,
        recovery_action: None,
        affected_gate: None,
        state_after: StateAfter {
            judgment: gate,
            eval: gate,
            objective_complete: false,
            lineage_valid: false,
        },
    }
}

#[test]
fn fresh_when_tlog_empty() {
    let meta = GraphArtifactMeta { tlog_seq: 0, graph_hash: 1, node_count: 0, edge_count: 0, created_at: 0 };
    assert!(is_graph_artifact_fresh(&meta, &[]));
}

#[test]
fn fresh_when_meta_seq_covers_tlog() {
    let meta = GraphArtifactMeta { tlog_seq: 5, graph_hash: 1, node_count: 0, edge_count: 0, created_at: 0 };
    let tlog = vec![make_event(3), make_event(5)];
    assert!(is_graph_artifact_fresh(&meta, &tlog));
}

#[test]
fn stale_when_tlog_advanced_past_meta() {
    let meta = GraphArtifactMeta { tlog_seq: 3, graph_hash: 1, node_count: 0, edge_count: 0, created_at: 0 };
    let tlog = vec![make_event(3), make_event(7)];
    assert!(!is_graph_artifact_fresh(&meta, &tlog));
}

#[test]
fn hash_matches_correct_hash() {
    let meta = GraphArtifactMeta {
        tlog_seq: 1,
        graph_hash: 0xabcd,
        node_count: 10,
        edge_count: 20,
        created_at: 0,
    };
    assert!(graph_artifact_hash_matches(&meta, 0xabcd));
    assert!(!graph_artifact_hash_matches(&meta, 0xdead));
}

#[test]
fn freshness_reads_only_the_last_event() {
    let meta = GraphArtifactMeta { tlog_seq: 4, graph_hash: 1, node_count: 0, edge_count: 0, created_at: 0 };
    let tlog = vec![make_event(9), make_event(4)];
    assert!(is_graph_artifact_fresh(&meta, &tlog));
}
