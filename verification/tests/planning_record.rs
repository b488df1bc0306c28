use canon_agent::capability::planning::record::{
    fold_ordered_plan_hash, lineage_hash, objective_hash, plan_patch_contract_hash,
    plan_payload_hash, ready_set_hash, PlanAssigneeChangePatch, PlanDecision, PlanEdgePatch,
    PlanEvidenceAppendPatch, PlanFullImportPatch, PlanNodeRemovePatch, PlanNodeStatus,
    PlanNodeUpsertPatch, PlanPatchPayload, PlanPatchRecord, PlanReceipt, PlanRecord,
    PlanStatusChangePatch, PlanTask,
};
use canon_agent::kernel::{GateId, Packet, PacketEffect};

fn packet(required: u8, completed: u8) -> Packet {
    let mut packet = Packet::empty();
    packet.objective_id = 42;
    packet.objective_required_tasks = required;
    packet.objective_done_tasks = completed;
    packet.revision = 9;
    packet
}

#[test]
fn plan_receipt_binds_lineage_and_payload() {
    let record = PlanRecord::from_packet(packet(4, 1));
    let receipt = record.receipt();

    assert!(receipt.is_self_consistent());
    assert!(receipt.is_valid_for(&record));
    assert_eq!(receipt.verdict, PlanDecision::Ready);
    assert_eq!(receipt.task_id, 4202);
    assert_eq!(receipt.task_count, 4);
    assert_eq!(receipt.completed_tasks, 1);
    assert_eq!(receipt.ready_tasks, 1);
    assert_eq!(receipt.payload_hash, plan_payload_hash(&record));
    assert_eq!(receipt.submission().gate, GateId::Plan);
    assert!(receipt.submission().passed);
}

#[test]
fn planning_hash_fold_helper_preserves_objective_lineage_and_payload_boundaries() {
    let record = PlanRecord::from_packet(packet(4, 1));
    let receipt = PlanReceipt::from_record(&record);
    let objective_hash = objective_hash(packet(4, 1));
    let lineage_hash_value = record.lineage_hash;
    let payload_hash = plan_payload_hash(&record);
    let receipt_hash = receipt.expected_receipt_hash();

    assert_eq!(record.objective_hash, objective_hash);
    assert_eq!(record.submission().payload_hash, payload_hash);
    assert_eq!(receipt.payload_hash, payload_hash);
    assert_eq!(receipt.receipt_hash, receipt_hash);

    assert_ne!(objective_hash, 0);
    assert_ne!(lineage_hash_value, 0);
    assert_ne!(payload_hash, 0);
    assert_ne!(receipt_hash, 0);
    assert_ne!(objective_hash, lineage_hash_value);
    assert_ne!(objective_hash, payload_hash);
    assert_ne!(objective_hash, receipt_hash);
    assert_ne!(lineage_hash_value, payload_hash);
    assert_ne!(lineage_hash_value, receipt_hash);
    assert_ne!(payload_hash, receipt_hash);

    let required_changed = PlanRecord::from_packet(packet(5, 1));
    assert_ne!(objective_hash, required_changed.objective_hash);
    assert_ne!(payload_hash, plan_payload_hash(&required_changed));

    let mut revision_packet = packet(4, 1);
    revision_packet.revision += 1;
    let revision_changed = PlanRecord::from_packet(revision_packet);
    assert_ne!(objective_hash, revision_changed.objective_hash);
    assert_ne!(payload_hash, plan_payload_hash(&revision_changed));

    let completed_changed = PlanRecord::from_packet(packet(4, 2));
    assert_eq!(objective_hash, completed_changed.objective_hash);
    assert_ne!(lineage_hash_value, completed_changed.lineage_hash);
    assert_ne!(payload_hash, plan_payload_hash(&completed_changed));

    let mut ready_task_id_changed = record.clone();
    ready_task_id_changed.task_id = record.tasks[2].task_id;
    assert_eq!(objective_hash, ready_task_id_changed.objective_hash);
    assert_ne!(payload_hash, plan_payload_hash(&ready_task_id_changed));

    let mut readiness_changed = record.clone();
    readiness_changed.tasks[0].ready = true;
    readiness_changed.ready_tasks = 2;
    readiness_changed.ready_set_hash = ready_set_hash(&readiness_changed.tasks);
    readiness_changed.lineage_hash = lineage_hash(
        readiness_changed.objective_hash,
        readiness_changed.dependency_hash,
        readiness_changed.ready_set_hash,
        readiness_changed.plan_revision,
        readiness_changed.completed_tasks,
    );
    assert_eq!(objective_hash, readiness_changed.objective_hash);
    assert_ne!(payload_hash, plan_payload_hash(&readiness_changed));
}

#[test]
fn plan_receipt_rejects_tampered_lineage() {
    let record = PlanRecord::from_packet(packet(3, 0));
    let mut receipt = record.receipt();
    receipt.lineage_hash ^= 1;

    assert!(!receipt.is_self_consistent());
    assert!(!receipt.is_valid_for(&record));
    assert!(!receipt.submission().passed);
}

#[test]
fn plan_receipt_blocks_completed_plan() {
    let record = PlanRecord::from_packet(packet(2, 2));
    let receipt = record.receipt();

    assert_eq!(receipt.verdict, PlanDecision::Blocked);
    assert!(receipt.is_self_consistent());
    assert!(receipt.is_valid_for(&record));
    assert!(!receipt.submission().passed);
}

#[test]
fn plan_patch_records_cover_mutation_variants_with_stable_hashes() {
    let source_hash = fold_ordered_plan_hash(0x5352_4301, &[11]);
    let node_hash = fold_ordered_plan_hash(0x4e4f_4445, &[1]);
    let other_node_hash = fold_ordered_plan_hash(0x4e4f_4445, &[2]);
    let text_hash = fold_ordered_plan_hash(0x5445_5854, &[3]);

    let payloads = [
        PlanPatchPayload::NodeUpsert(PlanNodeUpsertPatch {
            node_id_hash: node_hash,
            title_hash: text_hash,
            description_hash: 0,
            status: PlanNodeStatus::Pending,
            assignee_hash: 0,
            score_axes_hash: 0,
            files_hash: 0,
        }),
        PlanPatchPayload::EdgeAdd(PlanEdgePatch {
            from_node_hash: node_hash,
            to_node_hash: other_node_hash,
        }),
        PlanPatchPayload::EdgeRemove(PlanEdgePatch {
            from_node_hash: node_hash,
            to_node_hash: other_node_hash,
        }),
        PlanPatchPayload::NodeRemove(PlanNodeRemovePatch { node_id_hash: node_hash }),
        PlanPatchPayload::StatusChange(PlanStatusChangePatch {
            node_id_hash: node_hash,
            status: PlanNodeStatus::Done,
        }),
        PlanPatchPayload::AssigneeChange(PlanAssigneeChangePatch {
            node_id_hash: node_hash,
            assignee_hash: text_hash,
        }),
        PlanPatchPayload::EvidenceAppend(PlanEvidenceAppendPatch {
            node_id_hash: node_hash,
            path_hash: text_hash,
            kind_hash: text_hash,
            summary_hash: text_hash,
        }),
        PlanPatchPayload::FullImport(PlanFullImportPatch {
            node_count: 2,
            edge_count: 1,
            nodes_hash: node_hash,
            edges_hash: other_node_hash,
        }),
    ];

    for (idx, payload) in payloads.iter().copied().enumerate() {
        let patch = PlanPatchRecord::new(source_hash, 7, idx as u64 + 1, payload);
        assert!(patch.is_self_consistent());
        assert_eq!(patch.contract_hash, plan_patch_contract_hash());
        assert_eq!(patch.payload_hash, payload.canonical_hash());
        assert_eq!(patch.patch_hash, patch.expected_patch_hash());

        let accepted = patch.accepted(9);
        assert!(accepted.is_self_consistent());
        assert_eq!(accepted.patch_hash, patch.patch_hash);

        let rejected = patch.rejected(text_hash);
        assert!(rejected.is_self_consistent());
        assert_eq!(rejected.patch_hash, patch.patch_hash);
    }
}

#[test]
fn plan_patch_records_reject_tampered_bindings() {
    let payload = PlanPatchPayload::StatusChange(PlanStatusChangePatch {
        node_id_hash: 99,
        status: PlanNodeStatus::Running,
    });
    let mut patch = PlanPatchRecord::new(11, 12, 13, payload);
    assert!(patch.is_self_consistent());

    patch.payload_hash ^= 1;
    assert!(!patch.is_self_consistent());

    let mut accepted = PlanPatchRecord::new(11, 12, 13, payload).accepted(1);
    accepted.contract_hash ^= 1;
    assert!(!accepted.is_self_consistent());

    let mut rejected = PlanPatchRecord::new(11, 12, 13, payload).rejected(14);
    rejected.reason_hash = 0;
    assert!(!rejected.is_self_consistent());
}

#[test]
fn plan_from_packet_builds_chained_tasks() {
    let record = PlanRecord::from_packet(packet(3, 1));
    assert!(record.is_valid());
    assert_eq!(record.task_count, 3);
    assert_eq!(
        record.tasks,
        vec![
            PlanTask { task_id: 4201, depends_on: 0, ordinal: 1, ready: false },
            PlanTask { task_id: 4202, depends_on: 4201, ordinal: 2, ready: true },
            PlanTask { task_id: 4203, depends_on: 4202, ordinal: 3, ready: false },
        ]
    );
    assert_eq!(record.decision(), PlanDecision::Ready);
    assert_eq!(record.submission().effect, PacketEffect::BindReadyTask);
}

#[test]
fn plan_from_packet_clamps_required_tasks() {
    let none_asked = PlanRecord::from_packet(packet(0, 0));
    assert_eq!(none_asked.task_count, 1);
    assert_eq!(none_asked.task_id, 4201);
    let many_asked = PlanRecord::from_packet(packet(20, 3));
    assert_eq!(many_asked.task_count, 8);
    assert_eq!(many_asked.completed_tasks, 3);
    assert_eq!(many_asked.task_id, 4204);
}

#[test]
fn plan_from_packet_without_objective_is_blocked() {
    let mut empty = packet(3, 0);
    empty.objective_id = 0;
    let record = PlanRecord::from_packet(empty);
    assert!(!record.is_valid());
    assert_eq!(record.decision(), PlanDecision::Blocked);
    assert_eq!(record.submission().effect, PacketEffect::Noop);
    assert!(!record.receipt().is_self_consistent());
}

#[test]
fn plan_from_packet_with_overflowing_objective_is_blocked() {
    let mut huge = packet(3, 0);
    huge.objective_id = u64::MAX / 10;
    let record = PlanRecord::from_packet(huge);
    assert!(!record.is_valid());
    assert_eq!(record.decision(), PlanDecision::Blocked);
    assert_eq!(record.ready_tasks, 1);
    assert!(!record.receipt().is_self_consistent());
}

#[test]
fn plan_record_with_reordered_tasks_is_invalid() {
    let mut record = PlanRecord::from_packet(packet(3, 0));
    record.tasks.swap(1, 2);
    assert!(!record.is_valid());
}
