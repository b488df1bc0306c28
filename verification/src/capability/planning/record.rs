//! Durable planning payload owned by the planning capability: the ordered
//! task graph derived from an objective packet, its receipt, and the plan
//! patch records that change the plan state.
use vstd::prelude::*;
use crate::capability::EvidenceProducer;
use crate::kernel::{
    fold_mix, mix, nonzero, nz, spec_fold_mix, spec_mix, spec_sat_u64, Evidence, EvidenceSubmission, GateId,
    Packet, PacketEffect, PlanEdgeProjection, PlanEvidenceProjection, PlanStatePatch,
};

verus! {

pub const PLAN_SCHEMA_VERSION: u64 = 2;

pub const MAX_PLAN_TASKS: u8 = 8;

pub const PLAN_RECEIPT_SCHEMA_VERSION: u64 = 1;

pub const PLAN_RECEIPT_RECORD: u64 = 0x91a0_0001;

pub const PLAN_PATCH_SCHEMA_VERSION: u64 = 1;

pub const PLAN_PATCH_RECORD: u64 = 0x91a0_1001;

pub const PLAN_PATCH_ACCEPTED_RECORD: u64 = 0x91a0_1002;

pub const PLAN_PATCH_REJECTED_RECORD: u64 = 0x91a0_1003;

/// `fold_mix` clamped away from zero: the fold every plan hash uses.
pub open spec fn spec_plan_fold(seed: u64, fields: Seq<u64>) -> u64 {
    nz(spec_fold_mix(seed, fields))
}

pub fn fold_ordered_plan_hash(seed: u64, fields: &[u64]) -> (r: u64)
    ensures
        r == spec_plan_fold(seed, fields@),
{
    nonzero(fold_mix(seed, fields))
}

#[derive(Clone, Copy, Debug, PartialEq, Eq, Structural)]
pub enum PlanDecision {
    Ready,
    Blocked,
}

impl PlanDecision {
    pub open spec fn spec_code(self) -> u64 {
        match self {
            PlanDecision::Ready => 0,
            PlanDecision::Blocked => 1,
        }
    }

    /// The number a receipt hash folds for the decision.
    pub fn code(self) -> (r: u64)
        ensures
            r == self.spec_code(),
    {
        match self {
            PlanDecision::Ready => 0,
            PlanDecision::Blocked => 1,
        }
    }
}

#[derive(Clone, Copy, Debug, PartialEq, Eq, Structural)]
pub enum PlanNodeStatus {
    Pending,
    Running,
    Done,
    Failed,
    Skipped,
}

impl PlanNodeStatus {
    pub open spec fn spec_code(self) -> u64 {
        match self {
            PlanNodeStatus::Pending => 1,
            PlanNodeStatus::Running => 2,
            PlanNodeStatus::Done => 3,
            PlanNodeStatus::Failed => 4,
            PlanNodeStatus::Skipped => 5,
        }
    }

    /// The status number of the plan format.
    pub fn code(self) -> (r: u64)
        ensures
            r == self.spec_code(),
    {
        match self {
            PlanNodeStatus::Pending => 1,
            PlanNodeStatus::Running => 2,
            PlanNodeStatus::Done => 3,
            PlanNodeStatus::Failed => 4,
            PlanNodeStatus::Skipped => 5,
        }
    }
}

#[derive(Clone, Copy, Debug, PartialEq, Eq, Structural)]
pub enum PlanPatchKind {
    NodeUpsert,
    EdgeAdd,
    EdgeRemove,
    NodeRemove,
    StatusChange,
    AssigneeChange,
    EvidenceAppend,
    FullImport,
}

impl PlanPatchKind {
    pub open spec fn spec_code(self) -> u64 {
        match self {
            PlanPatchKind::NodeUpsert => 1,
            PlanPatchKind::EdgeAdd => 2,
            PlanPatchKind::EdgeRemove => 3,
            PlanPatchKind::NodeRemove => 4,
            PlanPatchKind::StatusChange => 5,
            PlanPatchKind::AssigneeChange => 6,
            PlanPatchKind::EvidenceAppend => 7,
            PlanPatchKind::FullImport => 8,
        }
    }

    /// The patch kind number of the plan format.
    pub fn code(self) -> (r: u64)
        ensures
            r == self.spec_code(),
    {
        match self {
            PlanPatchKind::NodeUpsert => 1,
            PlanPatchKind::EdgeAdd => 2,
            PlanPatchKind::EdgeRemove => 3,
            PlanPatchKind::NodeRemove => 4,
            PlanPatchKind::StatusChange => 5,
            PlanPatchKind::AssigneeChange => 6,
            PlanPatchKind::EvidenceAppend => 7,
            PlanPatchKind::FullImport => 8,
        }
    }
}

#[derive(Clone, Copy, Debug, PartialEq, Eq, Structural)]
pub struct PlanNodeUpsertPatch {
    pub node_id_hash: u64,
    pub title_hash: u64,
    pub description_hash: u64,
    pub status: PlanNodeStatus,
    pub assignee_hash: u64,
    pub score_axes_hash: u64,
    pub files_hash: u64,
}

#[derive(Clone, Copy, Debug, PartialEq, Eq, Structural)]
pub struct PlanEdgePatch {
    pub from_node_hash: u64,
    pub to_node_hash: u64,
}

#[derive(Clone, Copy, Debug, PartialEq, Eq, Structural)]
pub struct PlanNodeRemovePatch {
    pub node_id_hash: u64,
}

#[derive(Clone, Copy, Debug, PartialEq, Eq, Structural)]
pub struct PlanStatusChangePatch {
    pub node_id_hash: u64,
    pub status: PlanNodeStatus,
}

#[derive(Clone, Copy, Debug, PartialEq, Eq, Structural)]
pub struct PlanAssigneeChangePatch {
    pub node_id_hash: u64,
    pub assignee_hash: u64,
}

#[derive(Clone, Copy, Debug, PartialEq, Eq, Structural)]
pub struct PlanEvidenceAppendPatch {
    pub node_id_hash: u64,
    pub path_hash: u64,
    pub kind_hash: u64,
    pub summary_hash: u64,
}

#[derive(Clone, Copy, Debug, PartialEq, Eq, Structural)]
pub struct PlanFullImportPatch {
    pub node_count: u64,
    pub edge_count: u64,
    pub nodes_hash: u64,
    pub edges_hash: u64,
}

#[derive(Clone, Copy, Debug, PartialEq, Eq, Structural)]
pub enum PlanPatchPayload {
    NodeUpsert(PlanNodeUpsertPatch),
    EdgeAdd(PlanEdgePatch),
    EdgeRemove(PlanEdgePatch),
    NodeRemove(PlanNodeRemovePatch),
    StatusChange(PlanStatusChangePatch),
    AssigneeChange(PlanAssigneeChangePatch),
    EvidenceAppend(PlanEvidenceAppendPatch),
    FullImport(PlanFullImportPatch),
}

#[derive(Clone, Copy, Debug, PartialEq, Eq, Structural)]
pub struct PlanPatchRecord {
    pub schema_version: u64,
    pub record_type: u64,
    pub source_hash: u64,
    pub cycle_id: u64,
    pub patch_seq: u64,
    pub contract_hash: u64,
    pub payload: PlanPatchPayload,
    pub payload_hash: u64,
    pub patch_hash: u64,
}

#[derive(Clone, Copy, Debug, PartialEq, Eq, Structural)]
pub struct AcceptedPlanPatchRecord {
    pub schema_version: u64,
    pub record_type: u64,
    pub source_hash: u64,
    pub cycle_id: u64,
    pub patch_seq: u64,
    pub contract_hash: u64,
    pub patch_hash: u64,
    pub applied_revision: u64,
    pub acceptance_hash: u64,
}

#[derive(Clone, Copy, Debug, PartialEq, Eq, Structural)]
pub struct RejectedPlanPatchRecord {
    pub schema_version: u64,
    pub record_type: u64,
    pub source_hash: u64,
    pub cycle_id: u64,
    pub patch_seq: u64,
    pub contract_hash: u64,
    pub patch_hash: u64,
    pub reason_hash: u64,
    pub rejection_hash: u64,
}

/// The patches a plan import produced, with the counts and hashes of the
/// imported nodes and edges.
#[derive(Clone, Debug, PartialEq, Eq)]
pub struct PlanJsonImportEvent {
    pub source_hash: u64,
    pub cycle_id: u64,
    pub first_patch_seq: u64,
    pub patches: Vec<PlanPatchRecord>,
    pub node_count: u64,
    pub edge_count: u64,
    pub nodes_hash: u64,
    pub edges_hash: u64,
}

#[derive(Clone, Copy, Debug, PartialEq, Eq, Structural)]
pub enum PlanJsonImportError {
    InvalidJson,
    MissingNodeId,
    MissingNodeTitle,
    MissingEdgeEndpoint,
    InvalidStatus,
    EmptyImport,
    ReplayRejected,
}

impl PlanPatchPayload {
    pub open spec fn spec_kind(self) -> PlanPatchKind {
        match self {
            PlanPatchPayload::NodeUpsert(_) => PlanPatchKind::NodeUpsert,
            PlanPatchPayload::EdgeAdd(_) => PlanPatchKind::EdgeAdd,
            PlanPatchPayload::EdgeRemove(_) => PlanPatchKind::EdgeRemove,
            PlanPatchPayload::NodeRemove(_) => PlanPatchKind::NodeRemove,
            PlanPatchPayload::StatusChange(_) => PlanPatchKind::StatusChange,
            PlanPatchPayload::AssigneeChange(_) => PlanPatchKind::AssigneeChange,
            PlanPatchPayload::EvidenceAppend(_) => PlanPatchKind::EvidenceAppend,
            PlanPatchPayload::FullImport(_) => PlanPatchKind::FullImport,
        }
    }

    pub fn kind(self) -> (r: PlanPatchKind)
        ensures
            r == self.spec_kind(),
    {
        match self {
            PlanPatchPayload::NodeUpsert(_) => PlanPatchKind::NodeUpsert,
            PlanPatchPayload::EdgeAdd(_) => PlanPatchKind::EdgeAdd,
            PlanPatchPayload::EdgeRemove(_) => PlanPatchKind::EdgeRemove,
            PlanPatchPayload::NodeRemove(_) => PlanPatchKind::NodeRemove,
            PlanPatchPayload::StatusChange(_) => PlanPatchKind::StatusChange,
            PlanPatchPayload::AssigneeChange(_) => PlanPatchKind::AssigneeChange,
            PlanPatchPayload::EvidenceAppend(_) => PlanPatchKind::EvidenceAppend,
            PlanPatchPayload::FullImport(_) => PlanPatchKind::FullImport,
        }
    }

    /// The seed and the fields the payload's canonical hash folds.
    pub open spec fn spec_hash_input(self) -> (u64, Seq<u64>) {
        match self {
            PlanPatchPayload::NodeUpsert(p) => (
                0x504c_414e_5550_0001u64,
                seq![
                    1u64,
                    p.node_id_hash,
                    p.title_hash,
                    p.description_hash,
                    p.status.spec_code(),
                    p.assignee_hash,
                    p.score_axes_hash,
                    p.files_hash,
                ],
            ),
            PlanPatchPayload::EdgeAdd(p) => (
                0x504c_414e_4541_0001u64,
                seq![2u64, p.from_node_hash, p.to_node_hash],
            ),
            PlanPatchPayload::EdgeRemove(p) => (
                0x504c_414e_4552_0001u64,
                seq![3u64, p.from_node_hash, p.to_node_hash],
            ),
            PlanPatchPayload::NodeRemove(p) => (0x504c_414e_4e52_0001u64, seq![4u64, p.node_id_hash]),
            PlanPatchPayload::StatusChange(p) => (
                0x504c_414e_5354_0001u64,
                seq![5u64, p.node_id_hash, p.status.spec_code()],
            ),
            PlanPatchPayload::AssigneeChange(p) => (
                0x504c_414e_4153_0001u64,
                seq![6u64, p.node_id_hash, p.assignee_hash],
            ),
            PlanPatchPayload::EvidenceAppend(p) => (
                0x504c_414e_4556_0001u64,
                seq![7u64, p.node_id_hash, p.path_hash, p.kind_hash, p.summary_hash],
            ),
            PlanPatchPayload::FullImport(p) => (
                0x504c_414e_494d_0001u64,
                seq![8u64, p.node_count, p.edge_count, p.nodes_hash, p.edges_hash],
            ),
        }
    }

    pub open spec fn spec_canonical_hash(self) -> u64 {
        spec_plan_fold(self.spec_hash_input().0, self.spec_hash_input().1)
    }

    /// The canonical hash of the payload: its kind and fields, folded under
    /// a seed of its kind.
    pub fn canonical_hash(self) -> (r: u64)
        ensures
            r == self.spec_canonical_hash(),
    {
        match self {
            PlanPatchPayload::NodeUpsert(p) => {
                let f = [
                    1u64,
                    p.node_id_hash,
                    p.title_hash,
                    p.description_hash,
                    p.status.code(),
                    p.assignee_hash,
                    p.score_axes_hash,
                    p.files_hash,
                ];
                assert(f@ =~= self.spec_hash_input().1);
                fold_ordered_plan_hash(0x504c_414e_5550_0001u64, &f)
            },
            PlanPatchPayload::EdgeAdd(p) => {
                let f = [2u64, p.from_node_hash, p.to_node_hash];
                assert(f@ =~= self.spec_hash_input().1);
                fold_ordered_plan_hash(0x504c_414e_4541_0001u64, &f)
            },
            PlanPatchPayload::EdgeRemove(p) => {
                let f = [3u64, p.from_node_hash, p.to_node_hash];
                assert(f@ =~= self.spec_hash_input().1);
                fold_ordered_plan_hash(0x504c_414e_4552_0001u64, &f)
            },
            PlanPatchPayload::NodeRemove(p) => {
                let f = [4u64, p.node_id_hash];
                assert(f@ =~= self.spec_hash_input().1);
                fold_ordered_plan_hash(0x504c_414e_4e52_0001u64, &f)
            },
            PlanPatchPayload::StatusChange(p) => {
                let f = [5u64, p.node_id_hash, p.status.code()];
                assert(f@ =~= self.spec_hash_input().1);
                fold_ordered_plan_hash(0x504c_414e_5354_0001u64, &f)
            },
            PlanPatchPayload::AssigneeChange(p) => {
                let f = [6u64, p.node_id_hash, p.assignee_hash];
                assert(f@ =~= self.spec_hash_input().1);
                fold_ordered_plan_hash(0x504c_414e_4153_0001u64, &f)
            },
            PlanPatchPayload::EvidenceAppend(p) => {
                let f = [7u64, p.node_id_hash, p.path_hash, p.kind_hash, p.summary_hash];
                assert(f@ =~= self.spec_hash_input().1);
                fold_ordered_plan_hash(0x504c_414e_4556_0001u64, &f)
            },
            PlanPatchPayload::FullImport(p) => {
                let f = [8u64, p.node_count, p.edge_count, p.nodes_hash, p.edges_hash];
                assert(f@ =~= self.spec_hash_input().1);
                fold_ordered_plan_hash(0x504c_414e_494d_0001u64, &f)
            },
        }
    }

    pub open spec fn spec_is_valid(self) -> bool {
        match self {
            PlanPatchPayload::NodeUpsert(p) => p.node_id_hash != 0 && p.title_hash != 0,
            PlanPatchPayload::EdgeAdd(p) => p.from_node_hash != 0 && p.to_node_hash != 0
                && p.from_node_hash != p.to_node_hash,
            PlanPatchPayload::EdgeRemove(p) => p.from_node_hash != 0 && p.to_node_hash != 0
                && p.from_node_hash != p.to_node_hash,
            PlanPatchPayload::NodeRemove(p) => p.node_id_hash != 0,
            PlanPatchPayload::StatusChange(p) => p.node_id_hash != 0,
            PlanPatchPayload::AssigneeChange(p) => p.node_id_hash != 0,
            PlanPatchPayload::EvidenceAppend(p) => p.node_id_hash != 0 && p.path_hash != 0
                && p.kind_hash != 0 && p.summary_hash != 0,
            PlanPatchPayload::FullImport(p) => p.nodes_hash != 0 && p.edges_hash != 0 && (
            p.node_count != 0 || p.edge_count == 0),
        }
    }

    /// Whether the payload names what it changes: nodes by nonzero hashes,
    /// edges between two different nodes, an import with nodes for its edges.
    pub fn is_valid(self) -> (r: bool)
        ensures
            r == self.spec_is_valid(),
    {
        match self {
            PlanPatchPayload::NodeUpsert(p) => p.node_id_hash != 0 && p.title_hash != 0,
            PlanPatchPayload::EdgeAdd(p) => p.from_node_hash != 0 && p.to_node_hash != 0
                && p.from_node_hash != p.to_node_hash,
            PlanPatchPayload::EdgeRemove(p) => p.from_node_hash != 0 && p.to_node_hash != 0
                && p.from_node_hash != p.to_node_hash,
            PlanPatchPayload::NodeRemove(p) => p.node_id_hash != 0,
            PlanPatchPayload::StatusChange(p) => p.node_id_hash != 0,
            PlanPatchPayload::AssigneeChange(p) => p.node_id_hash != 0,
            PlanPatchPayload::EvidenceAppend(p) => p.node_id_hash != 0 && p.path_hash != 0
                && p.kind_hash != 0 && p.summary_hash != 0,
            PlanPatchPayload::FullImport(p) => p.nodes_hash != 0 && p.edges_hash != 0 && (
            p.node_count != 0 || p.edge_count == 0),
        }
    }

    pub open spec fn spec_plan_state_patch(self) -> PlanStatePatch {
        match self {
            PlanPatchPayload::NodeUpsert(p) => PlanStatePatch::NodeUpsert {
                node_id_hash: p.node_id_hash,
                title_hash: p.title_hash,
                description_hash: p.description_hash,
                status: p.status.spec_code(),
                assignee_hash: p.assignee_hash,
                score_axes_hash: p.score_axes_hash,
                files_hash: p.files_hash,
            },
            PlanPatchPayload::EdgeAdd(p) => PlanStatePatch::EdgeAdd(
                PlanEdgeProjection { from_node_hash: p.from_node_hash, to_node_hash: p.to_node_hash },
            ),
            PlanPatchPayload::EdgeRemove(p) => PlanStatePatch::EdgeRemove(
                PlanEdgeProjection { from_node_hash: p.from_node_hash, to_node_hash: p.to_node_hash },
            ),
            PlanPatchPayload::NodeRemove(p) => PlanStatePatch::NodeRemove {
                node_id_hash: p.node_id_hash,
            },
            PlanPatchPayload::StatusChange(p) => PlanStatePatch::StatusChange {
                node_id_hash: p.node_id_hash,
                status: p.status.spec_code(),
            },
            PlanPatchPayload::AssigneeChange(p) => PlanStatePatch::AssigneeChange {
                node_id_hash: p.node_id_hash,
                assignee_hash: p.assignee_hash,
            },
            PlanPatchPayload::EvidenceAppend(p) => PlanStatePatch::EvidenceAppend {
                node_id_hash: p.node_id_hash,
                evidence: PlanEvidenceProjection {
                    path_hash: p.path_hash,
                    kind_hash: p.kind_hash,
                    summary_hash: p.summary_hash,
                },
            },
            PlanPatchPayload::FullImport(p) => PlanStatePatch::FullImport {
                node_count: p.node_count,
                edge_count: p.edge_count,
                nodes_hash: p.nodes_hash,
                edges_hash: p.edges_hash,
            },
        }
    }

    /// The change the kernel applies to the plan state for this payload.
    pub fn plan_state_patch(self) -> (r: PlanStatePatch)
        ensures
            r == self.spec_plan_state_patch(),
    {
        match self {
            PlanPatchPayload::NodeUpsert(p) => PlanStatePatch::NodeUpsert {
                node_id_hash: p.node_id_hash,
                title_hash: p.title_hash,
                description_hash: p.description_hash,
                status: p.status.code(),
                assignee_hash: p.assignee_hash,
                score_axes_hash: p.score_axes_hash,
                files_hash: p.files_hash,
            },
            PlanPatchPayload::EdgeAdd(p) => PlanStatePatch::EdgeAdd(
                PlanEdgeProjection { from_node_hash: p.from_node_hash, to_node_hash: p.to_node_hash },
            ),
            PlanPatchPayload::EdgeRemove(p) => PlanStatePatch::EdgeRemove(
                PlanEdgeProjection { from_node_hash: p.from_node_hash, to_node_hash: p.to_node_hash },
            ),
            PlanPatchPayload::NodeRemove(p) => PlanStatePatch::NodeRemove {
                node_id_hash: p.node_id_hash,
            },
            PlanPatchPayload::StatusChange(p) => PlanStatePatch::StatusChange {
                node_id_hash: p.node_id_hash,
                status: p.status.code(),
            },
            PlanPatchPayload::AssigneeChange(p) => PlanStatePatch::AssigneeChange {
                node_id_hash: p.node_id_hash,
                assignee_hash: p.assignee_hash,
            },
            PlanPatchPayload::EvidenceAppend(p) => PlanStatePatch::EvidenceAppend {
                node_id_hash: p.node_id_hash,
                evidence: PlanEvidenceProjection {
                    path_hash: p.path_hash,
                    kind_hash: p.kind_hash,
                    summary_hash: p.summary_hash,
                },
            },
            PlanPatchPayload::FullImport(p) => PlanStatePatch::FullImport {
                node_count: p.node_count,
                edge_count: p.edge_count,
                nodes_hash: p.nodes_hash,
                edges_hash: p.edges_hash,
            },
        }
    }
}

pub open spec fn contract_fields() -> Seq<u64> {
    seq![
        PLAN_PATCH_SCHEMA_VERSION,
        PLAN_PATCH_RECORD,
        PLAN_PATCH_ACCEPTED_RECORD,
        PLAN_PATCH_REJECTED_RECORD,
        1u64,
        2u64,
        3u64,
        4u64,
        5u64,
        6u64,
        7u64,
        8u64,
    ]
}

pub open spec fn spec_plan_patch_contract_hash() -> u64 {
    spec_plan_fold(0x504c_414e_5041_5443u64, contract_fields())
}

/// The hash of the patch contract: the record schema, its record types and
/// every patch kind.
pub fn plan_patch_contract_hash() -> (r: u64)
    ensures
        r == spec_plan_patch_contract_hash(),
{
    let f = [
        PLAN_PATCH_SCHEMA_VERSION,
        PLAN_PATCH_RECORD,
        PLAN_PATCH_ACCEPTED_RECORD,
        PLAN_PATCH_REJECTED_RECORD,
        PlanPatchKind::NodeUpsert.code(),
        PlanPatchKind::EdgeAdd.code(),
        PlanPatchKind::EdgeRemove.code(),
        PlanPatchKind::NodeRemove.code(),
        PlanPatchKind::StatusChange.code(),
        PlanPatchKind::AssigneeChange.code(),
        PlanPatchKind::EvidenceAppend.code(),
        PlanPatchKind::FullImport.code(),
    ];
    assert(f@ =~= contract_fields());
    fold_ordered_plan_hash(0x504c_414e_5041_5443u64, &f)
}

impl PlanPatchRecord {
    pub open spec fn patch_fields(self) -> Seq<u64> {
        seq![
            self.schema_version,
            self.record_type,
            self.source_hash,
            self.cycle_id,
            self.patch_seq,
            self.contract_hash,
            self.payload.spec_kind().spec_code(),
            self.payload_hash,
        ]
    }

    pub open spec fn spec_expected_patch_hash(self) -> u64 {
        spec_plan_fold(0x91a0_1001_5eed_0001u64, self.patch_fields())
    }

    pub open spec fn spec_new(source_hash: u64, cycle_id: u64, patch_seq: u64, payload: PlanPatchPayload) -> Self {
        let unsealed = PlanPatchRecord {
            schema_version: PLAN_PATCH_SCHEMA_VERSION,
            record_type: PLAN_PATCH_RECORD,
            source_hash,
            cycle_id,
            patch_seq,
            contract_hash: spec_plan_patch_contract_hash(),
            payload,
            payload_hash: payload.spec_canonical_hash(),
            patch_hash: 0,
        };
        PlanPatchRecord { patch_hash: unsealed.spec_expected_patch_hash(), ..unsealed }
    }

    /// A patch record of this source, cycle and sequence number, sealed by its hash.
    pub fn new(source_hash: u64, cycle_id: u64, patch_seq: u64, payload: PlanPatchPayload) -> (r:
        Self)
        ensures
            r == Self::spec_new(source_hash, cycle_id, patch_seq, payload),
    {
        let contract_hash = plan_patch_contract_hash();
        let payload_hash = payload.canonical_hash();
        let mut record = PlanPatchRecord {
            schema_version: PLAN_PATCH_SCHEMA_VERSION,
            record_type: PLAN_PATCH_RECORD,
            source_hash,
            cycle_id,
            patch_seq,
            contract_hash,
            payload,
            payload_hash,
            patch_hash: 0,
        };
        record.patch_hash = record.expected_patch_hash();
        record
    }

    pub fn accepted(self, applied_revision: u64) -> (r: AcceptedPlanPatchRecord)
        ensures
            r == AcceptedPlanPatchRecord::spec_from_patch(self, applied_revision),
    {
        AcceptedPlanPatchRecord::from_patch(self, applied_revision)
    }

    pub fn rejected(self, reason_hash: u64) -> (r: RejectedPlanPatchRecord)
        ensures
            r == RejectedPlanPatchRecord::spec_from_patch(self, reason_hash),
    {
        RejectedPlanPatchRecord::from_patch(self, reason_hash)
    }

    pub fn expected_patch_hash(self) -> (r: u64)
        ensures
            r == self.spec_expected_patch_hash(),
    {
        let f = [
            self.schema_version,
            self.record_type,
            self.source_hash,
            self.cycle_id,
            self.patch_seq,
            self.contract_hash,
            self.payload.kind().code(),
            self.payload_hash,
        ];
        assert(f@ =~= self.patch_fields());
        fold_ordered_plan_hash(0x91a0_1001_5eed_0001u64, &f)
    }

    pub open spec fn spec_is_self_consistent(self) -> bool {
        &&& self.schema_version == PLAN_PATCH_SCHEMA_VERSION
        &&& self.record_type == PLAN_PATCH_RECORD
        &&& self.source_hash != 0
        &&& self.cycle_id != 0
        &&& self.patch_seq != 0
        &&& self.contract_hash == spec_plan_patch_contract_hash()
        &&& self.payload.spec_is_valid()
        &&& self.payload_hash == self.payload.spec_canonical_hash()
        &&& self.patch_hash == self.spec_expected_patch_hash()
    }

    pub fn is_self_consistent(self) -> (r: bool)
        ensures
            r == self.spec_is_self_consistent(),
    {
        self.schema_version == PLAN_PATCH_SCHEMA_VERSION && self.record_type == PLAN_PATCH_RECORD
            && self.source_hash != 0 && self.cycle_id != 0 && self.patch_seq != 0
            && self.contract_hash == plan_patch_contract_hash() && self.payload.is_valid()
            && self.payload_hash == self.payload.canonical_hash() && self.patch_hash
            == self.expected_patch_hash()
    }
}

impl AcceptedPlanPatchRecord {
    pub open spec fn acceptance_fields(self) -> Seq<u64> {
        seq![
            self.schema_version,
            self.record_type,
            self.source_hash,
            self.cycle_id,
            self.patch_seq,
            self.contract_hash,
            self.patch_hash,
            self.applied_revision,
        ]
    }

    pub open spec fn spec_expected_acceptance_hash(self) -> u64 {
        spec_plan_fold(0x91a0_1002_5eed_0001u64, self.acceptance_fields())
    }

    pub open spec fn spec_from_patch(patch: PlanPatchRecord, applied_revision: u64) -> Self {
        let unsealed = AcceptedPlanPatchRecord {
            schema_version: PLAN_PATCH_SCHEMA_VERSION,
            record_type: PLAN_PATCH_ACCEPTED_RECORD,
            source_hash: patch.source_hash,
            cycle_id: patch.cycle_id,
            patch_seq: patch.patch_seq,
            contract_hash: patch.contract_hash,
            patch_hash: patch.patch_hash,
            applied_revision,
            acceptance_hash: 0,
        };
        AcceptedPlanPatchRecord {
            acceptance_hash: unsealed.spec_expected_acceptance_hash(),
            ..unsealed
        }
    }

    /// The record that a patch was applied at a plan revision.
    pub fn from_patch(patch: PlanPatchRecord, applied_revision: u64) -> (r: Self)
        ensures
            r == Self::spec_from_patch(patch, applied_revision),
    {
        let mut record = AcceptedPlanPatchRecord {
            schema_version: PLAN_PATCH_SCHEMA_VERSION,
            record_type: PLAN_PATCH_ACCEPTED_RECORD,
            source_hash: patch.source_hash,
            cycle_id: patch.cycle_id,
            patch_seq: patch.patch_seq,
            contract_hash: patch.contract_hash,
            patch_hash: patch.patch_hash,
            applied_revision,
            acceptance_hash: 0,
        };
        record.acceptance_hash = record.expected_acceptance_hash();
        record
    }

    pub fn expected_acceptance_hash(self) -> (r: u64)
        ensures
            r == self.spec_expected_acceptance_hash(),
    {
        let f = [
            self.schema_version,
            self.record_type,
            self.source_hash,
            self.cycle_id,
            self.patch_seq,
            self.contract_hash,
            self.patch_hash,
            self.applied_revision,
        ];
        assert(f@ =~= self.acceptance_fields());
        fold_ordered_plan_hash(0x91a0_1002_5eed_0001u64, &f)
    }

    pub open spec fn spec_is_self_consistent(self) -> bool {
        &&& self.schema_version == PLAN_PATCH_SCHEMA_VERSION
        &&& self.record_type == PLAN_PATCH_ACCEPTED_RECORD
        &&& self.source_hash != 0
        &&& self.cycle_id != 0
        &&& self.patch_seq != 0
        &&& self.contract_hash == spec_plan_patch_contract_hash()
        &&& self.patch_hash != 0
        &&& self.applied_revision != 0
        &&& self.acceptance_hash == self.spec_expected_acceptance_hash()
    }

    pub fn is_self_consistent(self) -> (r: bool)
        ensures
            r == self.spec_is_self_consistent(),
    {
        self.schema_version == PLAN_PATCH_SCHEMA_VERSION && self.record_type
            == PLAN_PATCH_ACCEPTED_RECORD && self.source_hash != 0 && self.cycle_id != 0
            && self.patch_seq != 0 && self.contract_hash == plan_patch_contract_hash()
            && self.patch_hash != 0 && self.applied_revision != 0 && self.acceptance_hash
            == self.expected_acceptance_hash()
    }
}

impl RejectedPlanPatchRecord {
    pub open spec fn rejection_fields(self) -> Seq<u64> {
        seq![
            self.schema_version,
            self.record_type,
            self.source_hash,
            self.cycle_id,
            self.patch_seq,
            self.contract_hash,
            self.patch_hash,
            self.reason_hash,
        ]
    }

    pub open spec fn spec_expected_rejection_hash(self) -> u64 {
        spec_plan_fold(0x91a0_1003_5eed_0001u64, self.rejection_fields())
    }

    pub open spec fn spec_from_patch(patch: PlanPatchRecord, reason_hash: u64) -> Self {
        let unsealed = RejectedPlanPatchRecord {
            schema_version: PLAN_PATCH_SCHEMA_VERSION,
            record_type: PLAN_PATCH_REJECTED_RECORD,
            source_hash: patch.source_hash,
            cycle_id: patch.cycle_id,
            patch_seq: patch.patch_seq,
            contract_hash: patch.contract_hash,
            patch_hash: patch.patch_hash,
            reason_hash,
            rejection_hash: 0,
        };
        RejectedPlanPatchRecord {
            rejection_hash: unsealed.spec_expected_rejection_hash(),
            ..unsealed
        }
    }

    /// The record that a patch was refused, and why.
    pub fn from_patch(patch: PlanPatchRecord, reason_hash: u64) -> (r: Self)
        ensures
            r == Self::spec_from_patch(patch, reason_hash),
    {
        let mut record = RejectedPlanPatchRecord {
            schema_version: PLAN_PATCH_SCHEMA_VERSION,
            record_type: PLAN_PATCH_REJECTED_RECORD,
            source_hash: patch.source_hash,
            cycle_id: patch.cycle_id,
            patch_seq: patch.patch_seq,
            contract_hash: patch.contract_hash,
            patch_hash: patch.patch_hash,
            reason_hash,
            rejection_hash: 0,
        };
        record.rejection_hash = record.expected_rejection_hash();
        record
    }

    pub fn expected_rejection_hash(self) -> (r: u64)
        ensures
            r == self.spec_expected_rejection_hash(),
    {
        let f = [
            self.schema_version,
            self.record_type,
            self.source_hash,
            self.cycle_id,
            self.patch_seq,
            self.contract_hash,
            self.patch_hash,
            self.reason_hash,
        ];
        assert(f@ =~= self.rejection_fields());
        fold_ordered_plan_hash(0x91a0_1003_5eed_0001u64, &f)
    }

    pub open spec fn spec_is_self_consistent(self) -> bool {
        &&& self.schema_version == PLAN_PATCH_SCHEMA_VERSION
        &&& self.record_type == PLAN_PATCH_REJECTED_RECORD
        &&& self.source_hash != 0
        &&& self.cycle_id != 0
        &&& self.patch_seq != 0
        &&& self.contract_hash == spec_plan_patch_contract_hash()
        &&& self.patch_hash != 0
        &&& self.reason_hash != 0
        &&& self.rejection_hash == self.spec_expected_rejection_hash()
    }

    pub fn is_self_consistent(self) -> (r: bool)
        ensures
            r == self.spec_is_self_consistent(),
    {
        self.schema_version == PLAN_PATCH_SCHEMA_VERSION && self.record_type
            == PLAN_PATCH_REJECTED_RECORD && self.source_hash != 0 && self.cycle_id != 0
            && self.patch_seq != 0 && self.contract_hash == plan_patch_contract_hash()
            && self.patch_hash != 0 && self.reason_hash != 0 && self.rejection_hash
            == self.expected_rejection_hash()
    }
}

/// A patch record built from a valid payload with nonzero source, cycle and
/// sequence number is self-consistent, and so are its acceptance at a nonzero
/// revision and its rejection for a nonzero reason.
pub proof fn lemma_plan_patch_records_self_consistent(
    source_hash: u64,
    cycle_id: u64,
    patch_seq: u64,
    payload: PlanPatchPayload,
    applied_revision: u64,
    reason_hash: u64,
)
    requires
        source_hash != 0,
        cycle_id != 0,
        patch_seq != 0,
        payload.spec_is_valid(),
    ensures
        PlanPatchRecord::spec_new(source_hash, cycle_id, patch_seq, payload).spec_is_self_consistent(),
        applied_revision != 0 ==> AcceptedPlanPatchRecord::spec_from_patch(
            PlanPatchRecord::spec_new(source_hash, cycle_id, patch_seq, payload),
            applied_revision,
        ).spec_is_self_consistent(),
        reason_hash != 0 ==> RejectedPlanPatchRecord::spec_from_patch(
            PlanPatchRecord::spec_new(source_hash, cycle_id, patch_seq, payload),
            reason_hash,
        ).spec_is_self_consistent(),
{
}

} // verus!

verus! {

/// One step of the objective's task chain.
#[derive(Clone, Copy, Debug, PartialEq, Eq, Structural)]
pub struct PlanTask {
    pub task_id: u64,
    pub depends_on: u64,
    pub ordinal: u8,
    pub ready: bool,
}

pub open spec fn spec_bool_word(b: bool) -> u64 {
    if b {
        1
    } else {
        0
    }
}

impl PlanTask {
    pub open spec fn spec_is_valid(self, objective_id: u64) -> bool {
        &&& self.task_id != 0
        &&& self.ordinal != 0
        &&& self.task_id / 100 == objective_id
        &&& (self.depends_on == 0 || self.depends_on / 100 == objective_id)
    }

    /// Whether the task, and the task it waits on, lie in the objective's
    /// block of a hundred ids.
    pub fn is_valid(self, objective_id: u64) -> (r: bool)
        ensures
            r == self.spec_is_valid(objective_id),
    {
        self.task_id != 0 && self.ordinal != 0 && self.task_id / 100 == objective_id && (
        self.depends_on == 0 || self.depends_on / 100 == objective_id)
    }

    pub open spec fn hash_fields(self) -> Seq<u64> {
        seq![self.task_id, self.depends_on, self.ordinal as u64, spec_bool_word(self.ready)]
    }

    pub open spec fn spec_hash(self) -> u64 {
        spec_plan_fold(0x5441_534b_504c_414eu64, self.hash_fields())
    }

    pub fn hash(self) -> (r: u64)
        ensures
            r == self.spec_hash(),
    {
        let ready: u64 = if self.ready {
            1
        } else {
            0
        };
        let f = [self.task_id, self.depends_on, self.ordinal as u64, ready];
        assert(f@ =~= self.hash_fields());
        fold_ordered_plan_hash(0x5441_534b_504c_414eu64, &f)
    }
}

/// The first id of the objective's block, `objective_id * 100`, saturated.
pub open spec fn spec_task_base(objective_id: u64) -> u64 {
    spec_sat_u64(objective_id * 100)
}

/// The task at position `idx` of the chain: ordinal `idx + 1`, waiting on
/// the one before it, ready exactly when `idx` is the number completed.
pub open spec fn spec_plan_task(objective_id: u64, completed: u8, idx: int) -> PlanTask {
    PlanTask {
        task_id: spec_sat_u64(spec_task_base(objective_id) + idx + 1),
        depends_on: if idx == 0 {
            0
        } else {
            spec_sat_u64(spec_task_base(objective_id) + idx)
        },
        ordinal: (idx + 1) as u8,
        ready: idx == completed,
    }
}

pub open spec fn spec_plan_tasks(objective_id: u64, count: nat, completed: u8) -> Seq<PlanTask> {
    Seq::new(count, |i: int| spec_plan_task(objective_id, completed, i))
}

fn plan_tasks(objective_id: u64, required: u8, completed: u8) -> (r: Vec<PlanTask>)
    requires
        required <= MAX_PLAN_TASKS,
    ensures
        r@ == spec_plan_tasks(objective_id, required as nat, completed),
{
    let base: u64 = match objective_id.checked_mul(100) {
        Some(v) => v,
        None => u64::MAX,
    };
    let mut tasks: Vec<PlanTask> = Vec::new();
    let mut idx: u8 = 0;
    while idx < required
        invariant
            idx <= required,
            required <= MAX_PLAN_TASKS,
            base == spec_task_base(objective_id),
            tasks@ == spec_plan_tasks(objective_id, idx as nat, completed),
        decreases required - idx,
    {
        let ordinal: u8 = idx + 1;
        let task_id = base.saturating_add(ordinal as u64);
        let depends_on = if ordinal == 1 {
            0
        } else {
            base.saturating_add((ordinal - 1) as u64)
        };
        let task = PlanTask { task_id, depends_on, ordinal, ready: idx == completed };
        assert(task == spec_plan_task(objective_id, completed, idx as int));
        tasks.push(task);
        idx = idx + 1;
        assert(tasks@ =~= spec_plan_tasks(objective_id, idx as nat, completed));
    }
    tasks
}

pub open spec fn dependency_fold(h: u64, tasks: Seq<PlanTask>) -> u64
    decreases tasks.len(),
{
    if tasks.len() == 0 {
        h
    } else {
        let t = tasks.last();
        spec_mix(
            spec_mix(spec_mix(dependency_fold(h, tasks.drop_last()), t.task_id), t.depends_on),
            t.ordinal as u64,
        )
    }
}

/// The hash of the task chain's shape: ids, dependencies and ordinals in order.
pub open spec fn spec_dependency_hash(tasks: Seq<PlanTask>) -> u64 {
    nz(dependency_fold(0x4445_5053_504c_414eu64, tasks))
}

pub fn dependency_hash(tasks: &[PlanTask]) -> (r: u64)
    ensures
        r == spec_dependency_hash(tasks@),
{
    let mut h: u64 = 0x4445_5053_504c_414eu64;
    let mut i: usize = 0;
    while i < tasks.len()
        invariant
            i <= tasks@.len(),
            h == dependency_fold(0x4445_5053_504c_414eu64, tasks@.take(i as int)),
        decreases tasks@.len() - i,
    {
        assert(tasks@.take(i as int + 1).drop_last() =~= tasks@.take(i as int));
        let t = tasks[i];
        h = mix(h, t.task_id);
        h = mix(h, t.depends_on);
        h = mix(h, t.ordinal as u64);
        i = i + 1;
    }
    assert(tasks@.take(i as int) =~= tasks@);
    nonzero(h)
}

pub open spec fn ready_fold(h: u64, tasks: Seq<PlanTask>) -> u64
    decreases tasks.len(),
{
    if tasks.len() == 0 {
        h
    } else {
        let p = ready_fold(h, tasks.drop_last());
        if tasks.last().ready {
            spec_mix(p, tasks.last().spec_hash())
        } else {
            p
        }
    }
}

/// The hash of the ready tasks, in order.
pub open spec fn spec_ready_set_hash(tasks: Seq<PlanTask>) -> u64 {
    nz(ready_fold(0x5245_4144_595f_5345u64, tasks))
}

pub fn ready_set_hash(tasks: &[PlanTask]) -> (r: u64)
    ensures
        r == spec_ready_set_hash(tasks@),
{
    let mut h: u64 = 0x5245_4144_595f_5345u64;
    let mut i: usize = 0;
    while i < tasks.len()
        invariant
            i <= tasks@.len(),
            h == ready_fold(0x5245_4144_595f_5345u64, tasks@.take(i as int)),
        decreases tasks@.len() - i,
    {
        assert(tasks@.take(i as int + 1).drop_last() =~= tasks@.take(i as int));
        let t = tasks[i];
        if t.ready {
            h = mix(h, t.hash());
        }
        i = i + 1;
    }
    assert(tasks@.take(i as int) =~= tasks@);
    nonzero(h)
}

pub open spec fn spec_count_ready(tasks: Seq<PlanTask>) -> nat
    decreases tasks.len(),
{
    if tasks.len() == 0 {
        0
    } else {
        spec_count_ready(tasks.drop_last()) + if tasks.last().ready {
            1nat
        } else {
            0nat
        }
    }
}

pub proof fn lemma_count_ready_bound(tasks: Seq<PlanTask>)
    ensures
        spec_count_ready(tasks) <= tasks.len(),
    decreases tasks.len(),
{
    if tasks.len() > 0 {
        lemma_count_ready_bound(tasks.drop_last());
    }
}

fn count_ready(tasks: &[PlanTask]) -> (r: usize)
    ensures
        r == spec_count_ready(tasks@),
{
    let mut n: usize = 0;
    let mut i: usize = 0;
    while i < tasks.len()
        invariant
            i <= tasks@.len(),
            n == spec_count_ready(tasks@.take(i as int)),
        decreases tasks@.len() - i,
    {
        assert(tasks@.take(i as int + 1).drop_last() =~= tasks@.take(i as int));
        proof {
            lemma_count_ready_bound(tasks@.take(i as int));
        }
        if tasks[i].ready {
            n = n + 1;
        }
        i = i + 1;
    }
    assert(tasks@.take(i as int) =~= tasks@);
    n
}

/// The first ready task, if any.
pub open spec fn spec_first_ready(tasks: Seq<PlanTask>) -> Option<PlanTask>
    decreases tasks.len(),
{
    if tasks.len() == 0 {
        None
    } else {
        match spec_first_ready(tasks.drop_last()) {
            Some(t) => Some(t),
            None => if tasks.last().ready {
                Some(tasks.last())
            } else {
                None
            },
        }
    }
}

pub open spec fn spec_first_ready_id(tasks: Seq<PlanTask>) -> u64 {
    match spec_first_ready(tasks) {
        Some(t) => t.task_id,
        None => 0,
    }
}

fn first_ready_id(tasks: &[PlanTask]) -> (r: u64)
    ensures
        r == spec_first_ready_id(tasks@),
{
    let mut found: Option<PlanTask> = None;
    let mut i: usize = 0;
    while i < tasks.len()
        invariant
            i <= tasks@.len(),
            found == spec_first_ready(tasks@.take(i as int)),
        decreases tasks@.len() - i,
    {
        assert(tasks@.take(i as int + 1).drop_last() =~= tasks@.take(i as int));
        if found.is_none() && tasks[i].ready {
            found = Some(tasks[i]);
        }
        i = i + 1;
    }
    assert(tasks@.take(i as int) =~= tasks@);
    match found {
        Some(t) => t.task_id,
        None => 0,
    }
}


pub open spec fn spec_clamp_required(required: u8) -> u8 {
    if required < 1 {
        1
    } else if required > MAX_PLAN_TASKS {
        MAX_PLAN_TASKS
    } else {
        required
    }
}

pub open spec fn spec_min_u8(a: u8, b: u8) -> u8 {
    if a <= b {
        a
    } else {
        b
    }
}

/// A revision of at least one.
pub open spec fn spec_plan_revision(revision: u64) -> u64 {
    if revision < 1 {
        1
    } else {
        revision
    }
}

/// A count cut down to a `u8`.
pub open spec fn spec_count_u8(n: nat) -> u8 {
    if n > u8::MAX {
        u8::MAX
    } else {
        n as u8
    }
}

pub open spec fn objective_fields(packet: Packet) -> Seq<u64> {
    seq![
        packet.objective_id,
        packet.objective_required_tasks as u64,
        spec_plan_revision(packet.revision),
    ]
}

pub open spec fn spec_objective_hash(packet: Packet) -> u64 {
    spec_plan_fold(0x4f42_4a45_4354_0001u64, objective_fields(packet))
}

/// The hash of the objective a plan is for: its id, the number of tasks it
/// asks for, and the packet revision.
pub fn objective_hash(packet: Packet) -> (r: u64)
    ensures
        r == spec_objective_hash(packet),
{
    let revision: u64 = if packet.revision < 1 {
        1
    } else {
        packet.revision
    };
    let f = [packet.objective_id, packet.objective_required_tasks as u64, revision];
    assert(f@ =~= objective_fields(packet));
    fold_ordered_plan_hash(0x4f42_4a45_4354_0001u64, &f)
}

pub open spec fn lineage_fields(
    objective_hash: u64,
    dependency_hash: u64,
    ready_set_hash: u64,
    plan_revision: u64,
    completed_tasks: u8,
) -> Seq<u64> {
    seq![
        PLAN_SCHEMA_VERSION,
        objective_hash,
        dependency_hash,
        ready_set_hash,
        plan_revision,
        completed_tasks as u64,
    ]
}

pub open spec fn spec_lineage_hash(
    objective_hash: u64,
    dependency_hash: u64,
    ready_set_hash: u64,
    plan_revision: u64,
    completed_tasks: u8,
) -> u64 {
    spec_plan_fold(
        0x4c49_4e45_4147_4501u64,
        lineage_fields(objective_hash, dependency_hash, ready_set_hash, plan_revision, completed_tasks),
    )
}

/// The hash that chains a plan to its objective, shape, ready set, revision
/// and progress.
pub fn lineage_hash(
    objective_hash: u64,
    dependency_hash: u64,
    ready_set_hash: u64,
    plan_revision: u64,
    completed_tasks: u8,
) -> (r: u64)
    ensures
        r == spec_lineage_hash(
            objective_hash,
            dependency_hash,
            ready_set_hash,
            plan_revision,
            completed_tasks,
        ),
{
    let f = [
        PLAN_SCHEMA_VERSION,
        objective_hash,
        dependency_hash,
        ready_set_hash,
        plan_revision,
        completed_tasks as u64,
    ];
    assert(f@ =~= lineage_fields(
        objective_hash,
        dependency_hash,
        ready_set_hash,
        plan_revision,
        completed_tasks,
    ));
    fold_ordered_plan_hash(0x4c49_4e45_4147_4501u64, &f)
}


/// The plan derived from an objective packet: the ordered task chain, its
/// ready task, and the hashes that bind the chain to the objective.
#[derive(Clone, Debug, PartialEq, Eq)]
pub struct PlanRecord {
    pub objective_id: u64,
    pub task_id: u64,
    pub ready_tasks: u8,
    pub dependency_hash: u64,
    pub objective_hash: u64,
    pub plan_version: u64,
    pub plan_revision: u64,
    pub task_count: u8,
    pub completed_tasks: u8,
    pub ready_set_hash: u64,
    pub lineage_hash: u64,
    pub tasks: Vec<PlanTask>,
}

pub open spec fn payload_fields(record: PlanRecord) -> Seq<u64> {
    seq![
        record.objective_id,
        record.task_id,
        record.ready_tasks as u64,
        record.dependency_hash,
        record.objective_hash,
        record.ready_set_hash,
        record.lineage_hash,
    ]
}

pub open spec fn spec_plan_payload_hash(record: PlanRecord) -> u64 {
    spec_plan_fold(0x9e37_79b9_7f4a_7c15u64, payload_fields(record))
}

/// The hash a plan submits as its evidence payload.
pub fn plan_payload_hash(record: &PlanRecord) -> (r: u64)
    ensures
        r == spec_plan_payload_hash(*record),
{
    let f = [
        record.objective_id,
        record.task_id,
        record.ready_tasks as u64,
        record.dependency_hash,
        record.objective_hash,
        record.ready_set_hash,
        record.lineage_hash,
    ];
    assert(f@ =~= payload_fields(*record));
    fold_ordered_plan_hash(0x9e37_79b9_7f4a_7c15u64, &f)
}

pub open spec fn all_tasks_valid(tasks: Seq<PlanTask>, objective_id: u64) -> bool {
    forall|i: int| 0 <= i < tasks.len() ==> (#[trigger] tasks[i]).spec_is_valid(objective_id)
}

pub open spec fn ordinals_increase(tasks: Seq<PlanTask>) -> bool {
    forall|i: int, j: int|
        #![trigger tasks[i], tasks[j]]
        0 <= i && j == i + 1 && j < tasks.len() ==> tasks[i].ordinal < tasks[j].ordinal
}

pub open spec fn has_ready_task(tasks: Seq<PlanTask>, task_id: u64) -> bool {
    exists|i: int| 0 <= i < tasks.len() && (#[trigger] tasks[i]).ready && tasks[i].task_id == task_id
}

fn tasks_valid(tasks: &[PlanTask], objective_id: u64) -> (r: bool)
    ensures
        r == all_tasks_valid(tasks@, objective_id),
{
    let mut i: usize = 0;
    while i < tasks.len()
        invariant
            i <= tasks@.len(),
            forall|k: int| 0 <= k < i ==> (#[trigger] tasks@[k]).spec_is_valid(objective_id),
        decreases tasks@.len() - i,
    {
        if !tasks[i].is_valid(objective_id) {
            return false;
        }
        i = i + 1;
    }
    true
}

fn tasks_ordered(tasks: &[PlanTask]) -> (r: bool)
    ensures
        r == ordinals_increase(tasks@),
{
    let mut i: usize = 1;
    while i < tasks.len()
        invariant
            1 <= i,
            i <= tasks@.len() || tasks@.len() == 0,
            forall|a: int, b: int|
                #![trigger tasks@[a], tasks@[b]]
                0 <= a && b == a + 1 && b < i && b < tasks@.len() ==> tasks@[a].ordinal
                    < tasks@[b].ordinal,
        decreases tasks@.len() - i,
    {
        if !(tasks[i - 1].ordinal < tasks[i].ordinal) {
            assert(!(tasks@[i - 1].ordinal < tasks@[i as int].ordinal));
            return false;
        }
        i = i + 1;
    }
    true
}

fn ready_task_present(tasks: &[PlanTask], task_id: u64) -> (r: bool)
    ensures
        r == has_ready_task(tasks@, task_id),
{
    let mut i: usize = 0;
    while i < tasks.len()
        invariant
            i <= tasks@.len(),
            forall|k: int|
                0 <= k < i ==> !((#[trigger] tasks@[k]).ready && tasks@[k].task_id == task_id),
        decreases tasks@.len() - i,
    {
        if tasks[i].ready && tasks[i].task_id == task_id {
            return true;
        }
        i = i + 1;
    }
    false
}

impl PlanRecord {
    /// The plan is what `from_packet` builds from `packet`.
    pub open spec fn built_from(self, packet: Packet) -> bool {
        let required = spec_clamp_required(packet.objective_required_tasks);
        let completed = spec_min_u8(packet.objective_done_tasks, required);
        let tasks = spec_plan_tasks(packet.objective_id, required as nat, completed);
        let revision = spec_plan_revision(packet.revision);
        let dependency_hash = spec_dependency_hash(tasks);
        let ready_set_hash = spec_ready_set_hash(tasks);
        let objective_hash = spec_objective_hash(packet);
        &&& self.tasks@ == tasks
        &&& self.objective_id == packet.objective_id
        &&& self.task_id == spec_first_ready_id(tasks)
        &&& self.ready_tasks == spec_count_u8(spec_count_ready(tasks))
        &&& self.dependency_hash == dependency_hash
        &&& self.objective_hash == objective_hash
        &&& self.plan_version == PLAN_SCHEMA_VERSION
        &&& self.plan_revision == revision
        &&& self.task_count == spec_count_u8(tasks.len())
        &&& self.completed_tasks == completed
        &&& self.ready_set_hash == ready_set_hash
        &&& self.lineage_hash == spec_lineage_hash(
            objective_hash,
            dependency_hash,
            ready_set_hash,
            revision,
            packet.objective_done_tasks,
        )
    }

    /// The chain of at most eight tasks for the packet's objective, with the
    /// first not yet completed task ready.
    pub fn from_packet(packet: Packet) -> (r: Self)
        ensures
            r.built_from(packet),
    {
        let objective_id = packet.objective_id;
        let required: u8 = if packet.objective_required_tasks < 1 {
            1
        } else if packet.objective_required_tasks > MAX_PLAN_TASKS {
            MAX_PLAN_TASKS
        } else {
            packet.objective_required_tasks
        };
        let completed: u8 = if packet.objective_done_tasks <= required {
            packet.objective_done_tasks
        } else {
            required
        };
        let tasks = plan_tasks(objective_id, required, completed);
        let ready_count = count_ready(tasks.as_slice());
        let ready_tasks: u8 = if ready_count > 255 {
            255
        } else {
            ready_count as u8
        };
        let task_id = first_ready_id(tasks.as_slice());
        let objective_hash = objective_hash(packet);
        let dependency_hash = dependency_hash(tasks.as_slice());
        let ready_set_hash = ready_set_hash(tasks.as_slice());
        let plan_revision: u64 = if packet.revision < 1 {
            1
        } else {
            packet.revision
        };
        let lineage_hash = lineage_hash(
            objective_hash,
            dependency_hash,
            ready_set_hash,
            plan_revision,
            packet.objective_done_tasks,
        );
        let task_count: u8 = if tasks.len() > 255 {
            255
        } else {
            tasks.len() as u8
        };
        PlanRecord {
            objective_id,
            task_id,
            ready_tasks,
            dependency_hash,
            objective_hash,
            plan_version: PLAN_SCHEMA_VERSION,
            plan_revision,
            task_count,
            completed_tasks: completed,
            ready_set_hash,
            lineage_hash,
            tasks,
        }
    }

    pub open spec fn spec_is_valid(self) -> bool {
        &&& self.objective_id != 0
        &&& self.plan_version == PLAN_SCHEMA_VERSION
        &&& self.plan_revision != 0
        &&& self.task_count != 0
        &&& self.task_count == self.tasks@.len()
        &&& self.completed_tasks <= self.task_count
        &&& self.task_id != 0
        &&& self.ready_tasks != 0
        &&& self.dependency_hash == spec_dependency_hash(self.tasks@)
        &&& self.ready_set_hash == spec_ready_set_hash(self.tasks@)
        &&& self.objective_hash != 0
        &&& self.lineage_hash == spec_lineage_hash(
            self.objective_hash,
            self.dependency_hash,
            self.ready_set_hash,
            self.plan_revision,
            self.completed_tasks,
        )
        &&& all_tasks_valid(self.tasks@, self.objective_id)
        &&& ordinals_increase(self.tasks@)
        &&& spec_count_ready(self.tasks@) == self.ready_tasks
        &&& has_ready_task(self.tasks@, self.task_id)
    }

    /// Whether every field agrees with the task chain it carries.
    pub fn is_valid(&self) -> (r: bool)
        ensures
            r == self.spec_is_valid(),
    {
        self.objective_id != 0 && self.plan_version == PLAN_SCHEMA_VERSION && self.plan_revision
            != 0 && self.task_count != 0 && self.task_count as usize == self.tasks.len()
            && self.completed_tasks <= self.task_count && self.task_id != 0 && self.ready_tasks
            != 0 && self.dependency_hash == dependency_hash(self.tasks.as_slice())
            && self.ready_set_hash == ready_set_hash(self.tasks.as_slice()) && self.objective_hash
            != 0 && self.lineage_hash == lineage_hash(
            self.objective_hash,
            self.dependency_hash,
            self.ready_set_hash,
            self.plan_revision,
            self.completed_tasks,
        ) && tasks_valid(self.tasks.as_slice(), self.objective_id) && tasks_ordered(
            self.tasks.as_slice(),
        ) && count_ready(self.tasks.as_slice()) == self.ready_tasks as usize
            && ready_task_present(self.tasks.as_slice(), self.task_id)
    }

    pub open spec fn spec_decision(self) -> PlanDecision {
        if self.spec_is_valid() && self.ready_tasks != 0 {
            PlanDecision::Ready
        } else {
            PlanDecision::Blocked
        }
    }

    /// `Ready` for a valid plan with a ready task, else `Blocked`.
    pub fn decision(&self) -> (r: PlanDecision)
        ensures
            r == self.spec_decision(),
    {
        if self.is_valid() && self.ready_tasks != 0 {
            PlanDecision::Ready
        } else {
            PlanDecision::Blocked
        }
    }

    pub open spec fn spec_submission(self) -> EvidenceSubmission {
        let passed = self.spec_decision() == PlanDecision::Ready;
        EvidenceSubmission {
            gate: GateId::Plan,
            evidence: Evidence::TaskReady,
            passed,
            payload_hash: spec_plan_payload_hash(self),
            effect: if passed {
                PacketEffect::BindReadyTask
            } else {
                PacketEffect::Noop
            },
        }
    }

    /// The `TaskReady` evidence of the plan gate; a ready plan binds its task.
    pub fn submission(&self) -> (r: EvidenceSubmission)
        ensures
            r == self.spec_submission(),
    {
        let passed = match self.decision() {
            PlanDecision::Ready => true,
            PlanDecision::Blocked => false,
        };
        EvidenceSubmission::with_effect_payload(
            GateId::Plan,
            Evidence::TaskReady,
            passed,
            if passed {
                PacketEffect::BindReadyTask
            } else {
                PacketEffect::Noop
            },
            plan_payload_hash(self),
        )
    }

    pub fn receipt(&self) -> (r: PlanReceipt)
        ensures
            r == PlanReceipt::spec_from_record(*self),
    {
        PlanReceipt::from_record(self)
    }
}

/// The sealed summary of a plan that the ledger keeps.
#[derive(Clone, Copy, Debug, PartialEq, Eq, Structural)]
pub struct PlanReceipt {
    pub schema_version: u64,
    pub record_type: u64,
    pub objective_id: u64,
    pub task_id: u64,
    pub task_count: u64,
    pub completed_tasks: u64,
    pub ready_tasks: u64,
    pub plan_version: u64,
    pub plan_revision: u64,
    pub objective_hash: u64,
    pub dependency_hash: u64,
    pub ready_set_hash: u64,
    pub lineage_hash: u64,
    pub payload_hash: u64,
    pub verdict: PlanDecision,
    pub receipt_hash: u64,
}

impl PlanReceipt {
    pub open spec fn receipt_fields(self) -> Seq<u64> {
        seq![
            self.schema_version,
            self.record_type,
            self.objective_id,
            self.task_id,
            self.task_count,
            self.completed_tasks,
            self.ready_tasks,
            self.plan_version,
            self.plan_revision,
            self.objective_hash,
            self.dependency_hash,
            self.ready_set_hash,
            self.lineage_hash,
            self.payload_hash,
            self.verdict.spec_code(),
        ]
    }

    pub open spec fn spec_expected_receipt_hash(self) -> u64 {
        spec_plan_fold(0x91a0_0001_5eed_0001u64, self.receipt_fields())
    }

    pub fn expected_receipt_hash(self) -> (r: u64)
        ensures
            r == self.spec_expected_receipt_hash(),
    {
        let f = [
            self.schema_version,
            self.record_type,
            self.objective_id,
            self.task_id,
            self.task_count,
            self.completed_tasks,
            self.ready_tasks,
            self.plan_version,
            self.plan_revision,
            self.objective_hash,
            self.dependency_hash,
            self.ready_set_hash,
            self.lineage_hash,
            self.payload_hash,
            self.verdict.code(),
        ];
        assert(f@ =~= self.receipt_fields());
        fold_ordered_plan_hash(0x91a0_0001_5eed_0001u64, &f)
    }

    pub open spec fn spec_from_record(record: PlanRecord) -> Self {
        let unsealed = PlanReceipt {
            schema_version: PLAN_RECEIPT_SCHEMA_VERSION,
            record_type: PLAN_RECEIPT_RECORD,
            objective_id: record.objective_id,
            task_id: record.task_id,
            task_count: record.task_count as u64,
            completed_tasks: record.completed_tasks as u64,
            ready_tasks: record.ready_tasks as u64,
            plan_version: record.plan_version,
            plan_revision: record.plan_revision,
            objective_hash: record.objective_hash,
            dependency_hash: record.dependency_hash,
            ready_set_hash: record.ready_set_hash,
            lineage_hash: record.lineage_hash,
            payload_hash: spec_plan_payload_hash(record),
            verdict: record.spec_decision(),
            receipt_hash: 0,
        };
        PlanReceipt { receipt_hash: unsealed.spec_expected_receipt_hash(), ..unsealed }
    }

    /// The receipt of a plan, sealed by its hash.
    pub fn from_record(record: &PlanRecord) -> (r: Self)
        ensures
            r == Self::spec_from_record(*record),
    {
        let mut receipt = PlanReceipt {
            schema_version: PLAN_RECEIPT_SCHEMA_VERSION,
            record_type: PLAN_RECEIPT_RECORD,
            objective_id: record.objective_id,
            task_id: record.task_id,
            task_count: record.task_count as u64,
            completed_tasks: record.completed_tasks as u64,
            ready_tasks: record.ready_tasks as u64,
            plan_version: record.plan_version,
            plan_revision: record.plan_revision,
            objective_hash: record.objective_hash,
            dependency_hash: record.dependency_hash,
            ready_set_hash: record.ready_set_hash,
            lineage_hash: record.lineage_hash,
            payload_hash: plan_payload_hash(record),
            verdict: record.decision(),
            receipt_hash: 0,
        };
        receipt.receipt_hash = receipt.expected_receipt_hash();
        receipt
    }

    pub open spec fn spec_is_self_consistent(self) -> bool {
        &&& self.schema_version == PLAN_RECEIPT_SCHEMA_VERSION
        &&& self.record_type == PLAN_RECEIPT_RECORD
        &&& self.objective_id != 0
        &&& self.task_count != 0
        &&& self.completed_tasks <= self.task_count
        &&& self.plan_version == PLAN_SCHEMA_VERSION
        &&& self.plan_revision != 0
        &&& self.objective_hash != 0
        &&& self.dependency_hash != 0
        &&& self.ready_set_hash != 0
        &&& self.lineage_hash != 0
        &&& self.payload_hash != 0
        &&& self.receipt_hash == self.spec_expected_receipt_hash()
        &&& match self.verdict {
            PlanDecision::Ready => self.task_id != 0 && self.ready_tasks != 0,
            PlanDecision::Blocked => self.ready_tasks == 0,
        }
    }

    /// Whether the receipt's fields fit together and its hash seals them.
    pub fn is_self_consistent(self) -> (r: bool)
        ensures
            r == self.spec_is_self_consistent(),
    {
        self.schema_version == PLAN_RECEIPT_SCHEMA_VERSION && self.record_type
            == PLAN_RECEIPT_RECORD && self.objective_id != 0 && self.task_count != 0
            && self.completed_tasks <= self.task_count && self.plan_version == PLAN_SCHEMA_VERSION
            && self.plan_revision != 0 && self.objective_hash != 0 && self.dependency_hash != 0
            && self.ready_set_hash != 0 && self.lineage_hash != 0 && self.payload_hash != 0
            && self.receipt_hash == self.expected_receipt_hash() && match self.verdict {
            PlanDecision::Ready => self.task_id != 0 && self.ready_tasks != 0,
            PlanDecision::Blocked => self.ready_tasks == 0,
        }
    }

    pub open spec fn spec_is_valid_for(self, record: PlanRecord) -> bool {
        self == Self::spec_from_record(record) && self.spec_is_self_consistent()
    }

    /// Whether the receipt is exactly the one the plan produces, and sound.
    pub fn is_valid_for(self, record: &PlanRecord) -> (r: bool)
        ensures
            r == self.spec_is_valid_for(*record),
    {
        let expected = PlanReceipt::from_record(record);
        self == expected && self.is_self_consistent()
    }

    pub open spec fn spec_submission(self) -> EvidenceSubmission {
        let passed = self.spec_is_self_consistent() && self.verdict == PlanDecision::Ready;
        EvidenceSubmission {
            gate: GateId::Plan,
            evidence: Evidence::TaskReady,
            passed,
            payload_hash: self.receipt_hash,
            effect: if passed {
                PacketEffect::BindReadyTask
            } else {
                PacketEffect::Noop
            },
        }
    }

    /// The plan gate's evidence as carried by the receipt alone.
    pub fn submission(self) -> (r: EvidenceSubmission)
        ensures
            r == self.spec_submission(),
    {
        let ready = match self.verdict {
            PlanDecision::Ready => true,
            PlanDecision::Blocked => false,
        };
        let passed = self.is_self_consistent() && ready;
        EvidenceSubmission::with_effect_payload(
            GateId::Plan,
            Evidence::TaskReady,
            passed,
            if passed {
                PacketEffect::BindReadyTask
            } else {
                PacketEffect::Noop
            },
            self.receipt_hash,
        )
    }
}


proof fn lemma_plan_tasks_ready(objective_id: u64, n: nat, completed: u8)
    ensures
        spec_count_ready(spec_plan_tasks(objective_id, n, completed)) == if completed < n {
            1nat
        } else {
            0nat
        },
        spec_first_ready(spec_plan_tasks(objective_id, n, completed)) == if completed < n {
            Some(spec_plan_task(objective_id, completed, completed as int))
        } else {
            None
        },
    decreases n,
{
    if n > 0 {
        lemma_plan_tasks_ready(objective_id, (n - 1) as nat, completed);
        assert(spec_plan_tasks(objective_id, n, completed).drop_last() =~= spec_plan_tasks(
            objective_id,
            (n - 1) as nat,
            completed,
        ));
    }
}

proof fn lemma_task_in_block(objective_id: u64, k: int)
    requires
        objective_id * 100 <= u64::MAX,
        1 <= k <= 9,
    ensures
        objective_id * 100 + k <= u64::MAX,
        (objective_id * 100 + k) / 100 == objective_id,
{
    assert(objective_id <= 184467440737095516u64);
    vstd::arithmetic::div_mod::lemma_fundamental_div_mod_converse_div(
        objective_id * 100 + k,
        100,
        objective_id as int,
        k,
    );
}

proof fn lemma_plan_tasks_valid(objective_id: u64, n: nat, completed: u8)
    requires
        1 <= n <= MAX_PLAN_TASKS,
    ensures
        all_tasks_valid(spec_plan_tasks(objective_id, n, completed), objective_id) <==> objective_id
            * 100 <= u64::MAX,
        ordinals_increase(spec_plan_tasks(objective_id, n, completed)),
{
    let tasks = spec_plan_tasks(objective_id, n, completed);
    if objective_id * 100 <= u64::MAX {
        assert forall|i: int| 0 <= i < tasks.len() implies (#[trigger] tasks[i]).spec_is_valid(
            objective_id,
        ) by {
            lemma_task_in_block(objective_id, i + 1);
            if i > 0 {
                lemma_task_in_block(objective_id, i);
            }
        }
    } else {
        assert(objective_id > 184467440737095516u64);
        assert(!tasks[0].spec_is_valid(objective_id));
    }
}

/// A plan built from a packet is valid exactly when the objective id is
/// nonzero, the objective's block of task ids fits in a `u64`, and fewer tasks
/// are done than the plan holds; it holds the requested number of tasks,
/// clamped to one through eight, with the first not yet done one ready; and
/// its decision is `Ready` exactly when it is valid.
pub proof fn lemma_plan_from_packet(packet: Packet, record: PlanRecord)
    requires
        record.built_from(packet),
    ensures
        record.task_count == spec_clamp_required(packet.objective_required_tasks),
        packet.objective_done_tasks < spec_clamp_required(packet.objective_required_tasks) ==> {
            &&& record.ready_tasks == 1
            &&& record.task_id == spec_plan_task(
                packet.objective_id,
                packet.objective_done_tasks,
                packet.objective_done_tasks as int,
            ).task_id
        },
        packet.objective_done_tasks >= spec_clamp_required(packet.objective_required_tasks) ==> {
            &&& record.ready_tasks == 0
            &&& record.task_id == 0
        },
        record.spec_is_valid() <==> {
            &&& packet.objective_id != 0
            &&& packet.objective_id * 100 <= u64::MAX
            &&& packet.objective_done_tasks < spec_clamp_required(packet.objective_required_tasks)
        },
        record.spec_decision() == if record.spec_is_valid() {
            PlanDecision::Ready
        } else {
            PlanDecision::Blocked
        },
{
    let required = spec_clamp_required(packet.objective_required_tasks);
    let completed = spec_min_u8(packet.objective_done_tasks, required);
    let oid = packet.objective_id;
    lemma_plan_tasks_ready(oid, required as nat, completed);
    lemma_plan_tasks_valid(oid, required as nat, completed);
    let tasks = record.tasks@;
    if completed < required {
        let t = tasks[completed as int];
        assert(t.ready && t.task_id == record.task_id);
    }
}

/// The receipt of a plan built from a packet with a nonzero objective id is
/// self-consistent and valid for that plan, unless the plan has a ready task
/// whose ids overflow the objective's block; its submission passes exactly
/// when a task is still to be done.
pub proof fn lemma_plan_receipt_binds_plan(packet: Packet, record: PlanRecord)
    requires
        record.built_from(packet),
        packet.objective_id != 0,
        packet.objective_id * 100 <= u64::MAX || packet.objective_done_tasks
            >= spec_clamp_required(packet.objective_required_tasks),
    ensures
        PlanReceipt::spec_from_record(record).spec_is_self_consistent(),
        PlanReceipt::spec_from_record(record).spec_is_valid_for(record),
        PlanReceipt::spec_from_record(record).spec_submission().passed == (
        packet.objective_done_tasks < spec_clamp_required(packet.objective_required_tasks)),
{
    lemma_plan_from_packet(packet, record);
}

impl EvidenceProducer for PlanRecord {
    type Record = PlanRecord;

    fn record(&self) -> (r: &PlanRecord)
        ensures
            r == self,
    {
        self
    }

    fn submission(&self) -> (r: EvidenceSubmission)
        ensures
            r == self.spec_submission(),
    {
        PlanRecord::submission(self)
    }
}

} // verus!
