//! The kernel's gate and evidence identifiers, the transition log events
//! that capabilities read, the 64-bit mixing step behind every receipt
//! hash, and the FNV text hashes.
use vstd::prelude::*;
use vstd::string::StringSliceAdditionalSpecFns;

verus! {

/// Record type of a transition-log event line: `[schema, 1, seq, ...]`.
pub const TLOG_RECORD_EVENT: u64 = 1;

/// Multiplier of the mixing step.
pub const MIX_MULTIPLIER: u64 = 0x9e37_79b9_7f4a_7c15;

/// Offset basis of 64-bit FNV-1a.
pub const FNV_OFFSET_BASIS: u64 = 0xcbf2_9ce4_8422_2325;

/// Prime of 64-bit FNV-1a.
pub const FNV_PRIME: u64 = 0x0000_0100_0000_01b3;

/// One mixing step: the folded state `h` absorbs the word `v`.
pub open spec fn spec_mix(h: u64, v: u64) -> u64 {
    let x = vstd::wrapping::u64_specs::wrapping_mul(h ^ v, MIX_MULTIPLIER);
    x ^ (x >> 29u64)
}

pub fn mix(h: u64, v: u64) -> (r: u64)
    ensures
        r == spec_mix(h, v),
{
    let x = (h ^ v).wrapping_mul(MIX_MULTIPLIER);
    x ^ (x >> 29u64)
}

/// `x` saturated into a `u64`.
pub open spec fn spec_sat_u64(x: int) -> u64 {
    if x > u64::MAX {
        u64::MAX
    } else {
        x as u64
    }
}

/// A hash never reports zero: zero is reserved for "absent".
pub open spec fn nz(h: u64) -> u64 {
    if h == 0 {
        1
    } else {
        h
    }
}

pub fn nonzero(h: u64) -> (r: u64)
    ensures
        r == nz(h),
        r != 0,
{
    if h == 0 {
        1
    } else {
        h
    }
}

/// Left fold of the mixing step over a sequence of words.
pub open spec fn spec_fold_mix(seed: u64, fields: Seq<u64>) -> u64
    decreases fields.len(),
{
    if fields.len() == 0 {
        seed
    } else {
        spec_mix(spec_fold_mix(seed, fields.drop_last()), fields.last())
    }
}

pub fn fold_mix(seed: u64, fields: &[u64]) -> (r: u64)
    ensures
        r == spec_fold_mix(seed, fields@),
{
    let mut h = seed;
    let mut i: usize = 0;
    while i < fields.len()
        invariant
            i <= fields@.len(),
            h == spec_fold_mix(seed, fields@.take(i as int)),
        decreases fields@.len() - i,
    {
        assert(fields@.take(i as int + 1).drop_last() =~= fields@.take(i as int));
        h = mix(h, fields[i]);
        i = i + 1;
    }
    assert(fields@.take(i as int) =~= fields@);
    h
}

/// One FNV-1a step over a byte.
pub open spec fn fnv_step(h: u64, b: u8) -> u64 {
    vstd::wrapping::u64_specs::wrapping_mul(h ^ (b as u64), FNV_PRIME)
}

pub open spec fn spec_fnv_fold(h: u64, bytes: Seq<u8>) -> u64
    decreases bytes.len(),
{
    if bytes.len() == 0 {
        h
    } else {
        fnv_step(spec_fnv_fold(h, bytes.drop_last()), bytes.last())
    }
}

/// FNV-1a over the UTF-8 bytes of a text, never zero.
pub open spec fn spec_text_hash(bytes: Seq<u8>) -> u64 {
    nz(spec_fnv_fold(FNV_OFFSET_BASIS, bytes))
}

pub fn fnv_bytes(seed: u64, bytes: &[u8]) -> (r: u64)
    ensures
        r == spec_fnv_fold(seed, bytes@),
{
    let mut h = seed;
    let mut i: usize = 0;
    while i < bytes.len()
        invariant
            i <= bytes@.len(),
            h == spec_fnv_fold(seed, bytes@.take(i as int)),
        decreases bytes@.len() - i,
    {
        assert(bytes@.take(i as int + 1).drop_last() =~= bytes@.take(i as int));
        h = (h ^ (bytes[i] as u64)).wrapping_mul(FNV_PRIME);
        i = i + 1;
    }
    assert(bytes@.take(i as int) =~= bytes@);
    h
}

/// FNV-1a hash of a text, clamped away from zero.
pub fn text_hash(value: &str) -> (r: u64)
    ensures
        r == spec_text_hash(value.spec_bytes()),
        r != 0,
{
    nonzero(fnv_bytes(FNV_OFFSET_BASIS, value.as_bytes()))
}

/// The kernel gates, in execution order.
#[derive(Clone, Copy, Debug, PartialEq, Eq, Structural)]
pub enum GateId {
    Invariant,
    Analysis,
    Judgment,
    Plan,
    Execution,
    Verification,
    Eval,
    Learning,
}

impl GateId {
    pub open spec fn spec_as_u64(self) -> u64 {
        match self {
            GateId::Invariant => 0,
            GateId::Analysis => 1,
            GateId::Judgment => 2,
            GateId::Plan => 3,
            GateId::Execution => 4,
            GateId::Verification => 5,
            GateId::Eval => 6,
            GateId::Learning => 7,
        }
    }

    pub fn as_u64(self) -> (r: u64)
        ensures
            r == self.spec_as_u64(),
    {
        match self {
            GateId::Invariant => 0,
            GateId::Analysis => 1,
            GateId::Judgment => 2,
            GateId::Plan => 3,
            GateId::Execution => 4,
            GateId::Verification => 5,
            GateId::Eval => 6,
            GateId::Learning => 7,
        }
    }
}

/// The evidence tokens a gate accepts.
#[derive(Clone, Copy, Debug, PartialEq, Eq, Structural)]
pub enum Evidence {
    InvariantProof,
    AnalysisReport,
    JudgmentRecord,
    TaskReady,
    ArtifactReceipt,
    LineageProof,
    EvalScore,
    PolicyPromotion,
    ExecutionReceipt,
    DeltaComputed,
}

impl Evidence {
    pub open spec fn spec_as_u64(self) -> u64 {
        match self {
            Evidence::InvariantProof => 0,
            Evidence::AnalysisReport => 1,
            Evidence::JudgmentRecord => 2,
            Evidence::TaskReady => 3,
            Evidence::ArtifactReceipt => 4,
            Evidence::LineageProof => 5,
            Evidence::EvalScore => 6,
            Evidence::PolicyPromotion => 7,
            Evidence::ExecutionReceipt => 8,
            Evidence::DeltaComputed => 9,
        }
    }

    pub fn as_u64(self) -> (r: u64)
        ensures
            r == self.spec_as_u64(),
    {
        match self {
            Evidence::InvariantProof => 0,
            Evidence::AnalysisReport => 1,
            Evidence::JudgmentRecord => 2,
            Evidence::TaskReady => 3,
            Evidence::ArtifactReceipt => 4,
            Evidence::LineageProof => 5,
            Evidence::EvalScore => 6,
            Evidence::PolicyPromotion => 7,
            Evidence::ExecutionReceipt => 8,
            Evidence::DeltaComputed => 9,
        }
    }
}

/// The packet effect that accompanies a passing submission.
#[derive(Clone, Copy, Debug, PartialEq, Eq, Structural)]
pub enum PacketEffect {
    Noop,
    BindReadyTask,
    MaterializeArtifact,
    RepairLineage,
    CompleteObjective,
}

impl PacketEffect {
    pub open spec fn spec_id(self) -> u64 {
        match self {
            PacketEffect::Noop => 0,
            PacketEffect::BindReadyTask => 1,
            PacketEffect::MaterializeArtifact => 2,
            PacketEffect::RepairLineage => 3,
            PacketEffect::CompleteObjective => 4,
        }
    }

    pub fn id(self) -> (r: u64)
        ensures
            r == self.spec_id(),
    {
        match self {
            PacketEffect::Noop => 0,
            PacketEffect::BindReadyTask => 1,
            PacketEffect::MaterializeArtifact => 2,
            PacketEffect::RepairLineage => 3,
            PacketEffect::CompleteObjective => 4,
        }
    }
}

/// A kernel-visible evidence token submitted by a capability.
#[derive(Clone, Copy, Debug, PartialEq, Eq, Structural)]
pub struct EvidenceSubmission {
    pub gate: GateId,
    pub evidence: Evidence,
    pub passed: bool,
    pub payload_hash: u64,
    pub effect: PacketEffect,
}

impl EvidenceSubmission {
    pub fn with_payload(gate: GateId, evidence: Evidence, passed: bool, payload_hash: u64) -> (r:
        Self)
        ensures
            r == (EvidenceSubmission {
                gate,
                evidence,
                passed,
                payload_hash,
                effect: PacketEffect::Noop,
            }),
    {
        EvidenceSubmission { gate, evidence, passed, payload_hash, effect: PacketEffect::Noop }
    }

    pub fn with_effect_payload(
        gate: GateId,
        evidence: Evidence,
        passed: bool,
        effect: PacketEffect,
        payload_hash: u64,
    ) -> (r: Self)
        ensures
            r == (EvidenceSubmission { gate, evidence, passed, payload_hash, effect }),
    {
        EvidenceSubmission { gate, evidence, passed, payload_hash, effect }
    }
}

/// The objective fields of the kernel packet that capabilities read.
#[derive(Clone, Copy, Debug, PartialEq, Eq, Structural)]
pub struct Packet {
    pub objective_id: u64,
    pub objective_required_tasks: u8,
    pub objective_done_tasks: u8,
    pub revision: u64,
}

impl Packet {
    pub fn empty() -> (r: Self)
        ensures
            r == (Packet {
                objective_id: 0,
                objective_required_tasks: 0,
                objective_done_tasks: 0,
                revision: 0,
            }),
    {
        Packet {
            objective_id: 0,
            objective_required_tasks: 0,
            objective_done_tasks: 0,
            revision: 0,
        }
    }
}

} // verus!

verus! {

/// One FNV-1 step: multiply first, then fold the byte in.
pub open spec fn fnv1_step(h: u64, b: u8) -> u64 {
    vstd::wrapping::u64_specs::wrapping_mul(h, FNV_PRIME) ^ (b as u64)
}

pub open spec fn spec_fnv1_fold(h: u64, bytes: Seq<u8>) -> u64
    decreases bytes.len(),
{
    if bytes.len() == 0 {
        h
    } else {
        fnv1_step(spec_fnv1_fold(h, bytes.drop_last()), bytes.last())
    }
}

/// FNV-1 (multiply, then xor) over the UTF-8 bytes of a text, never zero.
pub open spec fn spec_fnv1_text_hash(bytes: Seq<u8>) -> u64 {
    nz(spec_fnv1_fold(FNV_OFFSET_BASIS, bytes))
}

pub fn fnv1_text_hash(value: &str) -> (r: u64)
    ensures
        r == spec_fnv1_text_hash(value.spec_bytes()),
        r != 0,
{
    let bytes = value.as_bytes();
    let mut h = FNV_OFFSET_BASIS;
    let mut i: usize = 0;
    while i < bytes.len()
        invariant
            i <= bytes@.len(),
            h == spec_fnv1_fold(FNV_OFFSET_BASIS, bytes@.take(i as int)),
        decreases bytes@.len() - i,
    {
        assert(bytes@.take(i as int + 1).drop_last() =~= bytes@.take(i as int));
        h = h.wrapping_mul(FNV_PRIME) ^ (bytes[i] as u64);
        i = i + 1;
    }
    assert(bytes@.take(i as int) =~= bytes@);
    nonzero(h)
}


/// The phases of one control cycle.
#[derive(Clone, Copy, Debug, PartialEq, Eq, Structural)]
pub enum Phase {
    Invariant,
    Analysis,
    Judgment,
    Plan,
    Execution,
    Verification,
    Eval,
    Learning,
    Delta,
    Persist,
}

/// What a control event records.
#[derive(Clone, Copy, Debug, PartialEq, Eq, Structural)]
pub enum EventKind {
    Advanced,
    Persisted,
    Learned,
    Completed,
}

/// Why a control event happened.
#[derive(Clone, Copy, Debug, PartialEq, Eq, Structural)]
pub enum Cause {
    Start,
    EvidenceSubmitted,
}

/// The kernel's decision after an event.
#[derive(Clone, Copy, Debug, PartialEq, Eq, Structural)]
pub enum Decision {
    Continue,
    Halt,
}

/// The status of one gate.
#[derive(Clone, Copy, Debug, PartialEq, Eq, Structural)]
pub enum GateStatus {
    Pending,
    Pass,
    Fail,
}

/// One gate of the state after an event.
#[derive(Clone, Copy, Debug, PartialEq, Eq, Structural)]
pub struct GateState {
    pub status: GateStatus,
    pub evidence: Evidence,
}

/// The part of the kernel state after an event that capabilities read.
#[derive(Clone, Copy, Debug, PartialEq, Eq, Structural)]
pub struct StateAfter {
    pub judgment: GateState,
    pub eval: GateState,
    pub objective_complete: bool,
    pub lineage_valid: bool,
}

/// One event of the transition log, as capabilities read it.
#[derive(Clone, Copy, Debug, PartialEq, Eq, Structural)]
pub struct ControlEvent {
    pub seq: u64,
    pub self_hash: u64,
    pub api_command_hash: u64,
    pub from: Phase,
    pub to: Phase,
    pub kind: EventKind,
    pub cause: Cause,
    pub evidence: Evidence,
    pub decision: Decision,
    pub failure: Option<u64>,
    pub recovery_action: Option<u64>,
    pub affected_gate: Option<GateId>,
    pub state_after: StateAfter,
}

/// An edge of the plan state.
#[derive(Clone, Copy, Debug, PartialEq, Eq, Structural)]
pub struct PlanEdgeProjection {
    pub from_node_hash: u64,
    pub to_node_hash: u64,
}

/// A piece of evidence attached to a plan node.
#[derive(Clone, Copy, Debug, PartialEq, Eq, Structural)]
pub struct PlanEvidenceProjection {
    pub path_hash: u64,
    pub kind_hash: u64,
    pub summary_hash: u64,
}

/// One change to the plan state, as the kernel applies it.
#[derive(Clone, Copy, Debug, PartialEq, Eq, Structural)]
pub enum PlanStatePatch {
    NodeUpsert {
        node_id_hash: u64,
        title_hash: u64,
        description_hash: u64,
        status: u64,
        assignee_hash: u64,
        score_axes_hash: u64,
        files_hash: u64,
    },
    EdgeAdd(PlanEdgeProjection),
    EdgeRemove(PlanEdgeProjection),
    NodeRemove { node_id_hash: u64 },
    StatusChange { node_id_hash: u64, status: u64 },
    AssigneeChange { node_id_hash: u64, assignee_hash: u64 },
    EvidenceAppend { node_id_hash: u64, evidence: PlanEvidenceProjection },
    FullImport { node_count: u64, edge_count: u64, nodes_hash: u64, edges_hash: u64 },
}

} // verus!
