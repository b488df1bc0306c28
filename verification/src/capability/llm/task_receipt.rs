//! Typed LLM task context and turn receipt: a task context, the turns run
//! under it, and the receipt that binds a turn to the log event that
//! accepted it.
use vstd::prelude::*;
use vstd::string::StringSliceAdditionalSpecFns;
use crate::codec::{is_blank, trim};
use crate::kernel::{
    fnv1_text_hash, mix, nonzero, nz, spec_fnv1_text_hash, spec_mix, Evidence, EvidenceSubmission,
    GateId, PacketEffect,
};

verus! {

pub const LLM_TASK_RECEIPT_SCHEMA_VERSION: u64 = 1;

/// "LLMTASKR"
pub const LLM_TASK_RECEIPT_SEED: u64 = 0x4c4c_4d54_4153_4b52;

/// Task ownership context for an LLM capability run.
#[derive(Clone, Copy, Debug, PartialEq, Eq, Structural)]
pub struct LlmTaskContext {
    pub schema_version: u64,
    pub node_id_hash: u64,
    pub worker_id_hash: u64,
    pub claim_id: u64,
    pub model_hash: u64,
    pub idempotency_key: u64,
}

impl LlmTaskContext {
    /// A context, or `None` when an id is blank or the claim or model is zero.
    pub fn new(
        node_id: &str,
        worker_id: &str,
        claim_id: u64,
        model_hash: u64,
        idempotency_key: u64,
    ) -> (r: Option<Self>)
        ensures
            r is Some <==> (trim(node_id@).len() != 0 && trim(worker_id@).len() != 0 && claim_id
                != 0 && model_hash != 0),
            r matches Some(c) ==> c == (LlmTaskContext {
                schema_version: LLM_TASK_RECEIPT_SCHEMA_VERSION,
                node_id_hash: spec_fnv1_text_hash(node_id.spec_bytes()),
                worker_id_hash: spec_fnv1_text_hash(worker_id.spec_bytes()),
                claim_id,
                model_hash,
                idempotency_key,
            }),
    {
        if is_blank(node_id) || is_blank(worker_id) {
            return None;
        }
        let node_id_hash = fnv1_text_hash(node_id);
        let worker_id_hash = fnv1_text_hash(worker_id);
        if node_id_hash == 0 || worker_id_hash == 0 || claim_id == 0 || model_hash == 0 {
            return None;
        }
        Some(
            LlmTaskContext {
                schema_version: LLM_TASK_RECEIPT_SCHEMA_VERSION,
                node_id_hash,
                worker_id_hash,
                claim_id,
                model_hash,
                idempotency_key,
            },
        )
    }

    pub open spec fn spec_is_valid(&self) -> bool {
        &&& self.schema_version == LLM_TASK_RECEIPT_SCHEMA_VERSION
        &&& self.node_id_hash != 0
        &&& self.worker_id_hash != 0
        &&& self.claim_id != 0
        &&& self.model_hash != 0
    }

    pub fn is_valid(&self) -> (r: bool)
        ensures
            r == self.spec_is_valid(),
    {
        self.schema_version == LLM_TASK_RECEIPT_SCHEMA_VERSION && self.node_id_hash != 0
            && self.worker_id_hash != 0 && self.claim_id != 0 && self.model_hash != 0
    }

    pub open spec fn spec_context_hash(&self) -> u64 {
        let h = spec_mix(LLM_TASK_RECEIPT_SEED, self.schema_version);
        let h = spec_mix(h, self.node_id_hash);
        let h = spec_mix(h, self.worker_id_hash);
        let h = spec_mix(h, self.claim_id);
        let h = spec_mix(h, self.model_hash);
        let h = spec_mix(h, self.idempotency_key);
        nz(h)
    }

    /// Hash of this context, the foreign key of its turn records.
    pub fn context_hash(&self) -> (r: u64)
        ensures
            r == self.spec_context_hash(),
    {
        let mut h = mix(LLM_TASK_RECEIPT_SEED, self.schema_version);
        h = mix(h, self.node_id_hash);
        h = mix(h, self.worker_id_hash);
        h = mix(h, self.claim_id);
        h = mix(h, self.model_hash);
        h = mix(h, self.idempotency_key);
        nonzero(h)
    }
}

/// A single LLM turn: prompt in, response out, token cost.
#[derive(Clone, Copy, Debug, PartialEq, Eq, Structural)]
pub struct LlmTurnRecord {
    pub schema_version: u64,
    pub task_context_hash: u64,
    pub turn_seq: u32,
    pub prompt_hash: u64,
    pub response_hash: u64,
    pub token_count: u32,
    pub model_hash: u64,
    pub structured: bool,
}

impl LlmTurnRecord {
    /// A turn under a valid context, or `None` when a field is zero.
    pub fn new(
        context: &LlmTaskContext,
        turn_seq: u32,
        prompt_hash: u64,
        response_hash: u64,
        token_count: u32,
        structured: bool,
    ) -> (r: Option<Self>)
        ensures
            r is Some <==> (context.spec_is_valid() && turn_seq != 0 && prompt_hash != 0
                && response_hash != 0 && token_count != 0),
            r matches Some(t) ==> t == (LlmTurnRecord {
                schema_version: LLM_TASK_RECEIPT_SCHEMA_VERSION,
                task_context_hash: context.spec_context_hash(),
                turn_seq,
                prompt_hash,
                response_hash,
                token_count,
                model_hash: context.model_hash,
                structured,
            }),
    {
        if !context.is_valid() || turn_seq == 0 || prompt_hash == 0 || response_hash == 0
            || token_count == 0 {
            return None;
        }
        Some(
            LlmTurnRecord {
                schema_version: LLM_TASK_RECEIPT_SCHEMA_VERSION,
                task_context_hash: context.context_hash(),
                turn_seq,
                prompt_hash,
                response_hash,
                token_count,
                model_hash: context.model_hash,
                structured,
            },
        )
    }

    pub open spec fn spec_is_valid(&self) -> bool {
        &&& self.schema_version == LLM_TASK_RECEIPT_SCHEMA_VERSION
        &&& self.task_context_hash != 0
        &&& self.turn_seq != 0
        &&& self.prompt_hash != 0
        &&& self.response_hash != 0
        &&& self.token_count != 0
        &&& self.model_hash != 0
    }

    pub fn is_valid(&self) -> (r: bool)
        ensures
            r == self.spec_is_valid(),
    {
        self.schema_version == LLM_TASK_RECEIPT_SCHEMA_VERSION && self.task_context_hash != 0
            && self.turn_seq != 0 && self.prompt_hash != 0 && self.response_hash != 0
            && self.token_count != 0 && self.model_hash != 0
    }

    pub open spec fn spec_record_hash(&self) -> u64 {
        let h = spec_mix(LLM_TASK_RECEIPT_SEED, self.schema_version);
        let h = spec_mix(h, self.task_context_hash);
        let h = spec_mix(h, self.turn_seq as u64);
        let h = spec_mix(h, self.prompt_hash);
        let h = spec_mix(h, self.response_hash);
        let h = spec_mix(h, self.token_count as u64);
        let h = spec_mix(h, self.model_hash);
        let h = spec_mix(h, if self.structured {
            1u64
        } else {
            0u64
        });
        nz(h)
    }

    /// Hash of this turn, the foreign key of its receipt.
    pub fn record_hash(&self) -> (r: u64)
        ensures
            r == self.spec_record_hash(),
    {
        let mut h = mix(LLM_TASK_RECEIPT_SEED, self.schema_version);
        h = mix(h, self.task_context_hash);
        h = mix(h, self.turn_seq as u64);
        h = mix(h, self.prompt_hash);
        h = mix(h, self.response_hash);
        h = mix(h, self.token_count as u64);
        h = mix(h, self.model_hash);
        h = mix(h, if self.structured {
            1u64
        } else {
            0u64
        });
        nonzero(h)
    }
}

/// Receipt of a completed turn, bound to the log event that accepted it.
#[derive(Clone, Copy, Debug, PartialEq, Eq, Structural)]
pub struct LlmTurnReceipt {
    pub schema_version: u64,
    pub turn_record_hash: u64,
    pub event_seq: u64,
    pub event_hash: u64,
    pub claim_id: u64,
    pub replay_bound: bool,
    pub receipt_hash: u64,
}

impl LlmTurnReceipt {
    pub open spec fn spec_expected_receipt_hash(&self) -> u64 {
        let h = spec_mix(LLM_TASK_RECEIPT_SEED, self.schema_version);
        let h = spec_mix(h, self.turn_record_hash);
        let h = spec_mix(h, self.event_seq);
        let h = spec_mix(h, self.event_hash);
        let h = spec_mix(h, self.claim_id);
        let h = spec_mix(h, if self.replay_bound {
            1u64
        } else {
            0u64
        });
        nz(h)
    }

    pub fn expected_receipt_hash(&self) -> (r: u64)
        ensures
            r == self.spec_expected_receipt_hash(),
    {
        let mut h = mix(LLM_TASK_RECEIPT_SEED, self.schema_version);
        h = mix(h, self.turn_record_hash);
        h = mix(h, self.event_seq);
        h = mix(h, self.event_hash);
        h = mix(h, self.claim_id);
        h = mix(h, if self.replay_bound {
            1u64
        } else {
            0u64
        });
        nonzero(h)
    }

    /// The receipt of a valid turn whose evidence landed at a log event.
    pub fn from_turn_record(record: &LlmTurnRecord, event_seq: u64, event_hash: u64, claim_id: u64) -> (r:
        Option<Self>)
        ensures
            r is Some <==> (record.spec_is_valid() && event_seq != 0 && event_hash != 0 && claim_id
                != 0),
            r matches Some(rc) ==> {
                &&& rc.schema_version == LLM_TASK_RECEIPT_SCHEMA_VERSION
                &&& rc.turn_record_hash == record.spec_record_hash()
                &&& rc.event_seq == event_seq
                &&& rc.event_hash == event_hash
                &&& rc.claim_id == claim_id
                &&& rc.replay_bound
                &&& rc.receipt_hash == rc.spec_expected_receipt_hash()
                &&& rc.spec_is_valid()
            },
    {
        if !record.is_valid() || event_seq == 0 || event_hash == 0 || claim_id == 0 {
            return None;
        }
        let mut r = LlmTurnReceipt {
            schema_version: LLM_TASK_RECEIPT_SCHEMA_VERSION,
            turn_record_hash: record.record_hash(),
            event_seq,
            event_hash,
            claim_id,
            replay_bound: true,
            receipt_hash: 0,
        };
        r.receipt_hash = r.expected_receipt_hash();
        Some(r)
    }

    pub open spec fn spec_is_valid(&self) -> bool {
        &&& self.schema_version == LLM_TASK_RECEIPT_SCHEMA_VERSION
        &&& self.turn_record_hash != 0
        &&& self.event_seq != 0
        &&& self.event_hash != 0
        &&& self.claim_id != 0
        &&& self.receipt_hash != 0
        &&& self.receipt_hash == self.spec_expected_receipt_hash()
    }

    pub fn is_valid(&self) -> (r: bool)
        ensures
            r == self.spec_is_valid(),
    {
        self.schema_version == LLM_TASK_RECEIPT_SCHEMA_VERSION && self.turn_record_hash != 0
            && self.event_seq != 0 && self.event_hash != 0 && self.claim_id != 0
            && self.receipt_hash != 0 && self.receipt_hash == self.expected_receipt_hash()
    }

    pub fn submission(&self) -> (r: EvidenceSubmission)
        ensures
            r == (EvidenceSubmission {
                gate: GateId::Execution,
                evidence: Evidence::ExecutionReceipt,
                passed: self.spec_is_valid(),
                payload_hash: self.receipt_hash,
                effect: PacketEffect::Noop,
            }),
    {
        EvidenceSubmission::with_payload(
            GateId::Execution,
            Evidence::ExecutionReceipt,
            self.is_valid(),
            self.receipt_hash,
        )
    }
}

} // verus!
