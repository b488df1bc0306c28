//! Task lifecycle receipts: durable task ownership as typed execution
//! receipts.
use vstd::prelude::*;
use vstd::string::StringSliceAdditionalSpecFns;
use crate::kernel::{
    mix, nonzero, nz, spec_mix, spec_text_hash, text_hash, Evidence, EvidenceSubmission, GateId,
    PacketEffect,
};

verus! {

pub const TASK_LIFECYCLE_SCHEMA_VERSION: u64 = 1;

#[derive(Clone, Copy, Debug, PartialEq, Eq, Structural)]
pub enum TaskLifecycleKind {
    Claimed,
    Heartbeated,
    Completed,
    Failed,
}

impl TaskLifecycleKind {
    pub open spec fn spec_code(self) -> u64 {
        match self {
            TaskLifecycleKind::Claimed => 1,
            TaskLifecycleKind::Heartbeated => 2,
            TaskLifecycleKind::Completed => 3,
            TaskLifecycleKind::Failed => 4,
        }
    }

    pub fn code(self) -> (r: u64)
        ensures
            r == self.spec_code(),
    {
        match self {
            TaskLifecycleKind::Claimed => 1,
            TaskLifecycleKind::Heartbeated => 2,
            TaskLifecycleKind::Completed => 3,
            TaskLifecycleKind::Failed => 4,
        }
    }
}

#[derive(Clone, Copy, Debug, PartialEq, Eq, Structural)]
pub struct TaskLifecycleReceipt {
    pub schema_version: u64,
    pub kind: TaskLifecycleKind,
    pub node_id_hash: u64,
    pub worker_id_hash: u64,
    pub claim_id: u64,
    pub idempotency_key: u64,
    pub lease_expires_at_ms: u64,
    pub event_at_ms: u64,
    pub evidence_hash: u64,
    pub retry_after_ms: u64,
    pub receipt_hash: u64,
}

/// The receipt hash binding every field of a lifecycle receipt.
pub open spec fn spec_lifecycle_hash(
    kind: TaskLifecycleKind,
    node_id_hash: u64,
    worker_id_hash: u64,
    claim_id: u64,
    idempotency_key: u64,
    lease_expires_at_ms: u64,
    event_at_ms: u64,
    evidence_hash: u64,
    retry_after_ms: u64,
) -> u64 {
    let h = spec_mix(0x24cf_e71d_81b5_7789u64, TASK_LIFECYCLE_SCHEMA_VERSION);
    let h = spec_mix(h, kind.spec_code());
    let h = spec_mix(h, node_id_hash);
    let h = spec_mix(h, worker_id_hash);
    let h = spec_mix(h, claim_id);
    let h = spec_mix(h, idempotency_key);
    let h = spec_mix(h, lease_expires_at_ms);
    let h = spec_mix(h, event_at_ms);
    let h = spec_mix(h, evidence_hash);
    let h = spec_mix(h, retry_after_ms);
    nz(h)
}

#[allow(clippy::too_many_arguments)]
fn expected_receipt_hash(
    kind: TaskLifecycleKind,
    node_id_hash: u64,
    worker_id_hash: u64,
    claim_id: u64,
    idempotency_key: u64,
    lease_expires_at_ms: u64,
    event_at_ms: u64,
    evidence_hash: u64,
    retry_after_ms: u64,
) -> (r: u64)
    ensures
        r == spec_lifecycle_hash(
            kind,
            node_id_hash,
            worker_id_hash,
            claim_id,
            idempotency_key,
            lease_expires_at_ms,
            event_at_ms,
            evidence_hash,
            retry_after_ms,
        ),
{
    let mut h = mix(0x24cf_e71d_81b5_7789u64, TASK_LIFECYCLE_SCHEMA_VERSION);
    h = mix(h, kind.code());
    h = mix(h, node_id_hash);
    h = mix(h, worker_id_hash);
    h = mix(h, claim_id);
    h = mix(h, idempotency_key);
    h = mix(h, lease_expires_at_ms);
    h = mix(h, event_at_ms);
    h = mix(h, evidence_hash);
    h = mix(h, retry_after_ms);
    nonzero(h)
}

impl TaskLifecycleReceipt {
    /// The receipt a constructor builds from hashed identities.
    pub open spec fn spec_build(
        kind: TaskLifecycleKind,
        node_id_hash: u64,
        worker_id_hash: u64,
        claim_id: u64,
        idempotency_key: u64,
        lease_expires_at_ms: u64,
        event_at_ms: u64,
        evidence_hash: u64,
        retry_after_ms: u64,
    ) -> TaskLifecycleReceipt {
        TaskLifecycleReceipt {
            schema_version: TASK_LIFECYCLE_SCHEMA_VERSION,
            kind,
            node_id_hash,
            worker_id_hash,
            claim_id,
            idempotency_key,
            lease_expires_at_ms,
            event_at_ms,
            evidence_hash,
            retry_after_ms,
            receipt_hash: spec_lifecycle_hash(
                kind,
                node_id_hash,
                worker_id_hash,
                claim_id,
                idempotency_key,
                lease_expires_at_ms,
                event_at_ms,
                evidence_hash,
                retry_after_ms,
            ),
        }
    }

    /// Which fields each kind of receipt must or must not carry.
    pub open spec fn spec_kind_fields_valid(self) -> bool {
        match self.kind {
            TaskLifecycleKind::Claimed => self.lease_expires_at_ms != 0 && self.evidence_hash == 0
                && self.retry_after_ms == 0,
            TaskLifecycleKind::Heartbeated => self.idempotency_key == 0 && self.lease_expires_at_ms
                != 0 && self.evidence_hash == 0 && self.retry_after_ms == 0,
            TaskLifecycleKind::Completed => self.idempotency_key == 0 && self.lease_expires_at_ms
                != 0 && self.evidence_hash != 0 && self.retry_after_ms == 0,
            TaskLifecycleKind::Failed => self.idempotency_key == 0 && self.lease_expires_at_ms == 0
                && self.evidence_hash == 0,
        }
    }

    pub open spec fn spec_is_contract_valid(self) -> bool {
        &&& self.schema_version == TASK_LIFECYCLE_SCHEMA_VERSION
        &&& self.node_id_hash != 0
        &&& self.worker_id_hash != 0
        &&& self.claim_id != 0
        &&& self.event_at_ms != 0
        &&& self.receipt_hash != 0
        &&& self.receipt_hash == spec_lifecycle_hash(
            self.kind,
            self.node_id_hash,
            self.worker_id_hash,
            self.claim_id,
            self.idempotency_key,
            self.lease_expires_at_ms,
            self.event_at_ms,
            self.evidence_hash,
            self.retry_after_ms,
        )
        &&& self.spec_kind_fields_valid()
    }

    pub fn claim(
        node_id: &str,
        worker_id: &str,
        claim_id: u64,
        idempotency_key: u64,
        lease_expires_at_ms: u64,
        event_at_ms: u64,
    ) -> (r: Self)
        ensures
            r == Self::spec_build(
                TaskLifecycleKind::Claimed,
                spec_text_hash(node_id.spec_bytes()),
                spec_text_hash(worker_id.spec_bytes()),
                claim_id,
                idempotency_key,
                lease_expires_at_ms,
                event_at_ms,
                0,
                0,
            ),
            r.spec_is_contract_valid() <==> (claim_id != 0 && event_at_ms != 0
                && lease_expires_at_ms != 0),
    {
        Self::new(
            TaskLifecycleKind::Claimed,
            node_id,
            worker_id,
            claim_id,
            idempotency_key,
            lease_expires_at_ms,
            event_at_ms,
            0,
            0,
        )
    }

    pub fn heartbeat(
        node_id: &str,
        worker_id: &str,
        claim_id: u64,
        lease_expires_at_ms: u64,
        event_at_ms: u64,
    ) -> (r: Self)
        ensures
            r == Self::spec_build(
                TaskLifecycleKind::Heartbeated,
                spec_text_hash(node_id.spec_bytes()),
                spec_text_hash(worker_id.spec_bytes()),
                claim_id,
                0,
                lease_expires_at_ms,
                event_at_ms,
                0,
                0,
            ),
            r.spec_is_contract_valid() <==> (claim_id != 0 && event_at_ms != 0
                && lease_expires_at_ms != 0),
    {
        Self::new(
            TaskLifecycleKind::Heartbeated,
            node_id,
            worker_id,
            claim_id,
            0,
            lease_expires_at_ms,
            event_at_ms,
            0,
            0,
        )
    }

    pub fn complete(
        node_id: &str,
        worker_id: &str,
        claim_id: u64,
        lease_expires_at_ms: u64,
        event_at_ms: u64,
        evidence_hash: u64,
    ) -> (r: Self)
        ensures
            r == Self::spec_build(
                TaskLifecycleKind::Completed,
                spec_text_hash(node_id.spec_bytes()),
                spec_text_hash(worker_id.spec_bytes()),
                claim_id,
                0,
                lease_expires_at_ms,
                event_at_ms,
                evidence_hash,
                0,
            ),
            r.spec_is_contract_valid() <==> (claim_id != 0 && event_at_ms != 0
                && lease_expires_at_ms != 0 && evidence_hash != 0),
    {
        Self::new(
            TaskLifecycleKind::Completed,
            node_id,
            worker_id,
            claim_id,
            0,
            lease_expires_at_ms,
            event_at_ms,
            evidence_hash,
            0,
        )
    }

    pub fn fail(
        node_id: &str,
        worker_id: &str,
        claim_id: u64,
        event_at_ms: u64,
        retry_after_ms: u64,
    ) -> (r: Self)
        ensures
            r == Self::spec_build(
                TaskLifecycleKind::Failed,
                spec_text_hash(node_id.spec_bytes()),
                spec_text_hash(worker_id.spec_bytes()),
                claim_id,
                0,
                0,
                event_at_ms,
                0,
                retry_after_ms,
            ),
            r.spec_is_contract_valid() <==> (claim_id != 0 && event_at_ms != 0),
    {
        Self::new(
            TaskLifecycleKind::Failed,
            node_id,
            worker_id,
            claim_id,
            0,
            0,
            event_at_ms,
            0,
            retry_after_ms,
        )
    }

    #[allow(clippy::too_many_arguments)]
    fn new(
        kind: TaskLifecycleKind,
        node_id: &str,
        worker_id: &str,
        claim_id: u64,
        idempotency_key: u64,
        lease_expires_at_ms: u64,
        event_at_ms: u64,
        evidence_hash: u64,
        retry_after_ms: u64,
    ) -> (r: Self)
        ensures
            r == Self::spec_build(
                kind,
                spec_text_hash(node_id.spec_bytes()),
                spec_text_hash(worker_id.spec_bytes()),
                claim_id,
                idempotency_key,
                lease_expires_at_ms,
                event_at_ms,
                evidence_hash,
                retry_after_ms,
            ),
            r.node_id_hash != 0,
            r.worker_id_hash != 0,
    {
        let node_id_hash = text_hash(node_id);
        let worker_id_hash = text_hash(worker_id);
        let receipt_hash = expected_receipt_hash(
            kind,
            node_id_hash,
            worker_id_hash,
            claim_id,
            idempotency_key,
            lease_expires_at_ms,
            event_at_ms,
            evidence_hash,
            retry_after_ms,
        );
        TaskLifecycleReceipt {
            schema_version: TASK_LIFECYCLE_SCHEMA_VERSION,
            kind,
            node_id_hash,
            worker_id_hash,
            claim_id,
            idempotency_key,
            lease_expires_at_ms,
            event_at_ms,
            evidence_hash,
            retry_after_ms,
            receipt_hash,
        }
    }

    pub fn is_contract_valid(self) -> (r: bool)
        ensures
            r == self.spec_is_contract_valid(),
    {
        let kind_ok = match self.kind {
            TaskLifecycleKind::Claimed => self.lease_expires_at_ms != 0 && self.evidence_hash == 0
                && self.retry_after_ms == 0,
            TaskLifecycleKind::Heartbeated => self.idempotency_key == 0 && self.lease_expires_at_ms
                != 0 && self.evidence_hash == 0 && self.retry_after_ms == 0,
            TaskLifecycleKind::Completed => self.idempotency_key == 0 && self.lease_expires_at_ms
                != 0 && self.evidence_hash != 0 && self.retry_after_ms == 0,
            TaskLifecycleKind::Failed => self.idempotency_key == 0 && self.lease_expires_at_ms == 0
                && self.evidence_hash == 0,
        };
        self.schema_version == TASK_LIFECYCLE_SCHEMA_VERSION && self.node_id_hash != 0
            && self.worker_id_hash != 0 && self.claim_id != 0 && self.event_at_ms != 0
            && self.receipt_hash != 0 && self.receipt_hash == expected_receipt_hash(
            self.kind,
            self.node_id_hash,
            self.worker_id_hash,
            self.claim_id,
            self.idempotency_key,
            self.lease_expires_at_ms,
            self.event_at_ms,
            self.evidence_hash,
            self.retry_after_ms,
        ) && kind_ok
    }

    pub fn submission(self) -> (r: EvidenceSubmission)
        ensures
            r == (EvidenceSubmission {
                gate: GateId::Execution,
                evidence: Evidence::ExecutionReceipt,
                passed: self.spec_is_contract_valid(),
                payload_hash: self.receipt_hash,
                effect: PacketEffect::Noop,
            }),
    {
        EvidenceSubmission {
            gate: GateId::Execution,
            evidence: Evidence::ExecutionReceipt,
            passed: self.is_contract_valid(),
            payload_hash: self.receipt_hash,
            effect: PacketEffect::Noop,
        }
    }
}

} // verus!
