//! Durable context payload owned by the context capability.
use vstd::prelude::*;
use crate::capability::EvidenceProducer;
use crate::capability::memory::store::{
    count_u8, MemoryLookupReceipt, MemoryLookupRecord,
};
use crate::kernel::{mix, nonzero, nz, spec_mix, Evidence, EvidenceSubmission, GateId, Packet, PacketEffect};

verus! {

pub const CONTEXT_ASSEMBLY_RECEIPT_SCHEMA_VERSION: u64 = 1;

pub const CONTEXT_ASSEMBLY_RECEIPT_RECORD: u64 = 0xc07e_1001;

#[derive(Clone, Copy, Debug, PartialEq, Eq, Structural)]
pub enum ContextDecision {
    Assembled,
    Insufficient,
}

impl ContextDecision {
    pub open spec fn spec_code(self) -> u64 {
        match self {
            ContextDecision::Assembled => 0,
            ContextDecision::Insufficient => 1,
        }
    }

    pub fn code(self) -> (r: u64)
        ensures
            r == self.spec_code(),
    {
        match self {
            ContextDecision::Assembled => 0,
            ContextDecision::Insufficient => 1,
        }
    }
}

#[derive(Clone, Copy, Debug, PartialEq, Eq, Structural)]
pub struct ContextRecord {
    pub objective_id: u64,
    pub objective_required_tasks: u8,
    pub revision: u64,
    pub observation_hash: u64,
    pub memory_aggregate_hash: u64,
    pub memory_receipt_hash: u64,
    pub prior_count: u8,
    pub context_hash: u64,
}

#[derive(Clone, Copy, Debug, PartialEq, Eq, Structural)]
pub struct ContextAssemblyReceipt {
    pub schema_version: u64,
    pub record_type: u64,
    pub objective_id: u64,
    pub objective_required_tasks: u64,
    pub revision: u64,
    pub observation_hash: u64,
    pub memory_aggregate_hash: u64,
    pub memory_receipt_hash: u64,
    pub prior_count: u64,
    pub context_hash: u64,
    pub verdict: ContextDecision,
    pub receipt_hash: u64,
}

pub open spec fn spec_context_hash(
    objective_id: u64,
    objective_required_tasks: u8,
    revision: u64,
    observation_hash: u64,
    memory_aggregate_hash: u64,
    memory_receipt_hash: u64,
    prior_count: u8,
) -> u64 {
    let h = spec_mix(0x1f83d9abfb41bd6bu64, objective_id);
    let h = spec_mix(h, objective_required_tasks as u64);
    let h = spec_mix(h, revision);
    let h = spec_mix(h, observation_hash);
    let h = spec_mix(h, memory_aggregate_hash);
    let h = spec_mix(h, memory_receipt_hash);
    let h = spec_mix(h, prior_count as u64);
    nz(h)
}

/// The context hash over the packet's objective fields and the memory inputs.
pub fn context_hash(
    packet: Packet,
    observation_hash: u64,
    memory_aggregate_hash: u64,
    memory_receipt_hash: u64,
    prior_count: u8,
) -> (r: u64)
    ensures
        r == spec_context_hash(
            packet.objective_id,
            packet.objective_required_tasks,
            packet.revision,
            observation_hash,
            memory_aggregate_hash,
            memory_receipt_hash,
            prior_count,
        ),
{
    let mut h = mix(0x1f83d9abfb41bd6bu64, packet.objective_id);
    h = mix(h, packet.objective_required_tasks as u64);
    h = mix(h, packet.revision);
    h = mix(h, observation_hash);
    h = mix(h, memory_aggregate_hash);
    h = mix(h, memory_receipt_hash);
    h = mix(h, prior_count as u64);
    nonzero(h)
}

pub open spec fn spec_legacy_memory_receipt_hash(memory: &MemoryLookupRecord) -> u64 {
    if !memory.spec_is_valid() {
        0
    } else {
        let h = spec_mix(0x434f_4e54_4558_4c45u64, memory.query_hash);
        let h = spec_mix(h, memory.aggregate_hash);
        let h = spec_mix(h, memory.spec_match_count() as u64);
        nz(h)
    }
}

fn legacy_memory_receipt_hash(memory: &MemoryLookupRecord) -> (r: u64)
    ensures
        r == spec_legacy_memory_receipt_hash(memory),
{
    if !memory.is_valid() {
        return 0;
    }
    let mut h = mix(0x434f_4e54_4558_4c45u64, memory.query_hash);
    h = mix(h, memory.aggregate_hash);
    h = mix(h, memory.match_count() as u64);
    nonzero(h)
}

impl ContextRecord {
    /// The record assembled from a packet, an observation hash, a memory
    /// lookup and the hash that binds the lookup.
    pub open spec fn spec_assemble(
        packet: Packet,
        observation_hash: u64,
        memory: &MemoryLookupRecord,
        memory_receipt_hash: u64,
    ) -> ContextRecord {
        let prior_count = count_u8(memory.matches@.len());
        ContextRecord {
            objective_id: packet.objective_id,
            objective_required_tasks: packet.objective_required_tasks,
            revision: packet.revision,
            observation_hash,
            memory_aggregate_hash: memory.aggregate_hash,
            memory_receipt_hash,
            prior_count,
            context_hash: spec_context_hash(
                packet.objective_id,
                packet.objective_required_tasks,
                packet.revision,
                observation_hash,
                memory.aggregate_hash,
                memory_receipt_hash,
                prior_count,
            ),
        }
    }

    pub fn from_packet_memory(packet: Packet, observation_hash: u64, memory: &MemoryLookupRecord) -> (r:
        Self)
        ensures
            r == Self::spec_assemble(
                packet,
                observation_hash,
                memory,
                spec_legacy_memory_receipt_hash(memory),
            ),
    {
        let prior_count = memory.match_count();
        let memory_aggregate_hash = memory.aggregate_hash;
        let memory_receipt_hash = legacy_memory_receipt_hash(memory);
        ContextRecord {
            objective_id: packet.objective_id,
            objective_required_tasks: packet.objective_required_tasks,
            revision: packet.revision,
            observation_hash,
            memory_aggregate_hash,
            memory_receipt_hash,
            prior_count,
            context_hash: context_hash(
                packet,
                observation_hash,
                memory_aggregate_hash,
                memory_receipt_hash,
                prior_count,
            ),
        }
    }

    /// Binds the receipt's hash only when the receipt is valid for the lookup.
    pub fn from_packet_memory_receipt(
        packet: Packet,
        observation_hash: u64,
        memory: &MemoryLookupRecord,
        memory_receipt: Option<&MemoryLookupReceipt>,
    ) -> (r: Self)
        ensures
            r == Self::spec_assemble(
                packet,
                observation_hash,
                memory,
                match memory_receipt {
                    Some(rc) => if rc.spec_is_valid_for(memory) {
                        rc.receipt_hash
                    } else {
                        0
                    },
                    None => 0,
                },
            ),
    {
        let prior_count = memory.match_count();
        let memory_aggregate_hash = memory.aggregate_hash;
        let memory_receipt_hash = match memory_receipt {
            Some(rc) => if rc.is_valid_for(memory) {
                rc.receipt_hash
            } else {
                0
            },
            None => 0,
        };
        ContextRecord {
            objective_id: packet.objective_id,
            objective_required_tasks: packet.objective_required_tasks,
            revision: packet.revision,
            observation_hash,
            memory_aggregate_hash,
            memory_receipt_hash,
            prior_count,
            context_hash: context_hash(
                packet,
                observation_hash,
                memory_aggregate_hash,
                memory_receipt_hash,
                prior_count,
            ),
        }
    }

    pub open spec fn spec_is_valid(&self) -> bool {
        &&& self.objective_id != 0
        &&& self.objective_required_tasks != 0
        &&& self.observation_hash != 0
        &&& self.memory_aggregate_hash != 0
        &&& self.memory_receipt_hash != 0
        &&& self.context_hash != 0
        &&& self.context_hash == spec_context_hash(
            self.objective_id,
            self.objective_required_tasks,
            self.revision,
            self.observation_hash,
            self.memory_aggregate_hash,
            self.memory_receipt_hash,
            self.prior_count,
        )
    }

    pub fn is_valid(&self) -> (r: bool)
        ensures
            r == self.spec_is_valid(),
    {
        let packet = Packet {
            objective_id: self.objective_id,
            objective_required_tasks: self.objective_required_tasks,
            objective_done_tasks: 0,
            revision: self.revision,
        };
        self.objective_id != 0 && self.objective_required_tasks != 0 && self.observation_hash != 0
            && self.memory_aggregate_hash != 0 && self.memory_receipt_hash != 0
            && self.context_hash != 0 && self.context_hash == context_hash(
            packet,
            self.observation_hash,
            self.memory_aggregate_hash,
            self.memory_receipt_hash,
            self.prior_count,
        )
    }

    pub open spec fn spec_decision(&self) -> ContextDecision {
        if self.spec_is_valid() {
            ContextDecision::Assembled
        } else {
            ContextDecision::Insufficient
        }
    }

    pub fn decision(&self) -> (r: ContextDecision)
        ensures
            r == self.spec_decision(),
    {
        if self.is_valid() {
            ContextDecision::Assembled
        } else {
            ContextDecision::Insufficient
        }
    }

    pub fn submission(&self) -> (r: EvidenceSubmission)
        ensures
            r == (EvidenceSubmission {
                gate: GateId::Analysis,
                evidence: Evidence::AnalysisReport,
                passed: self.spec_is_valid(),
                payload_hash: self.context_hash,
                effect: PacketEffect::Noop,
            }),
    {
        EvidenceSubmission::with_payload(
            GateId::Analysis,
            Evidence::AnalysisReport,
            self.decision() == ContextDecision::Assembled,
            self.context_hash,
        )
    }

    pub fn receipt(&self) -> (r: ContextAssemblyReceipt)
        ensures
            r == ContextAssemblyReceipt::spec_from_record(*self),
    {
        ContextAssemblyReceipt::from_record(self)
    }
}

impl ContextAssemblyReceipt {
    pub open spec fn spec_expected_receipt_hash(self) -> u64 {
        let h = spec_mix(0xc07e_1001_a55e_0001u64, self.schema_version);
        let h = spec_mix(h, self.record_type);
        let h = spec_mix(h, self.objective_id);
        let h = spec_mix(h, self.objective_required_tasks);
        let h = spec_mix(h, self.revision);
        let h = spec_mix(h, self.observation_hash);
        let h = spec_mix(h, self.memory_aggregate_hash);
        let h = spec_mix(h, self.memory_receipt_hash);
        let h = spec_mix(h, self.prior_count);
        let h = spec_mix(h, self.context_hash);
        let h = spec_mix(h, self.verdict.spec_code());
        nz(h)
    }

    pub fn expected_receipt_hash(self) -> (r: u64)
        ensures
            r == self.spec_expected_receipt_hash(),
    {
        let mut h = mix(0xc07e_1001_a55e_0001u64, self.schema_version);
        h = mix(h, self.record_type);
        h = mix(h, self.objective_id);
        h = mix(h, self.objective_required_tasks);
        h = mix(h, self.revision);
        h = mix(h, self.observation_hash);
        h = mix(h, self.memory_aggregate_hash);
        h = mix(h, self.memory_receipt_hash);
        h = mix(h, self.prior_count);
        h = mix(h, self.context_hash);
        h = mix(h, self.verdict.code());
        nonzero(h)
    }

    pub open spec fn spec_from_record(record: ContextRecord) -> ContextAssemblyReceipt {
        let base = ContextAssemblyReceipt {
            schema_version: CONTEXT_ASSEMBLY_RECEIPT_SCHEMA_VERSION,
            record_type: CONTEXT_ASSEMBLY_RECEIPT_RECORD,
            objective_id: record.objective_id,
            objective_required_tasks: record.objective_required_tasks as u64,
            revision: record.revision,
            observation_hash: record.observation_hash,
            memory_aggregate_hash: record.memory_aggregate_hash,
            memory_receipt_hash: record.memory_receipt_hash,
            prior_count: record.prior_count as u64,
            context_hash: record.context_hash,
            verdict: record.spec_decision(),
            receipt_hash: 0,
        };
        ContextAssemblyReceipt { receipt_hash: base.spec_expected_receipt_hash(), ..base }
    }

    pub fn from_record(record: &ContextRecord) -> (r: Self)
        ensures
            r == Self::spec_from_record(*record),
    {
        let mut receipt = ContextAssemblyReceipt {
            schema_version: CONTEXT_ASSEMBLY_RECEIPT_SCHEMA_VERSION,
            record_type: CONTEXT_ASSEMBLY_RECEIPT_RECORD,
            objective_id: record.objective_id,
            objective_required_tasks: record.objective_required_tasks as u64,
            revision: record.revision,
            observation_hash: record.observation_hash,
            memory_aggregate_hash: record.memory_aggregate_hash,
            memory_receipt_hash: record.memory_receipt_hash,
            prior_count: record.prior_count as u64,
            context_hash: record.context_hash,
            verdict: record.decision(),
            receipt_hash: 0,
        };
        receipt.receipt_hash = receipt.expected_receipt_hash();
        receipt
    }

    pub open spec fn spec_is_self_consistent(self) -> bool {
        &&& self.schema_version == CONTEXT_ASSEMBLY_RECEIPT_SCHEMA_VERSION
        &&& self.record_type == CONTEXT_ASSEMBLY_RECEIPT_RECORD
        &&& self.objective_id != 0
        &&& self.objective_required_tasks != 0
        &&& self.observation_hash != 0
        &&& self.memory_aggregate_hash != 0
        &&& self.context_hash != 0
        &&& self.receipt_hash == self.spec_expected_receipt_hash()
        &&& (self.verdict == ContextDecision::Assembled ==> self.memory_receipt_hash != 0)
    }

    pub fn is_self_consistent(self) -> (r: bool)
        ensures
            r == self.spec_is_self_consistent(),
    {
        self.schema_version == CONTEXT_ASSEMBLY_RECEIPT_SCHEMA_VERSION && self.record_type
            == CONTEXT_ASSEMBLY_RECEIPT_RECORD && self.objective_id != 0
            && self.objective_required_tasks != 0 && self.observation_hash != 0
            && self.memory_aggregate_hash != 0 && self.context_hash != 0 && self.receipt_hash
            == self.expected_receipt_hash() && match self.verdict {
            ContextDecision::Assembled => self.memory_receipt_hash != 0,
            ContextDecision::Insufficient => true,
        }
    }

    pub fn is_valid_for(self, record: &ContextRecord) -> (r: bool)
        ensures
            r == (self == Self::spec_from_record(*record) && self.spec_is_self_consistent()),
    {
        self == ContextAssemblyReceipt::from_record(record) && self.is_self_consistent()
    }

    pub fn submission(self) -> (r: EvidenceSubmission)
        ensures
            r == (EvidenceSubmission {
                gate: GateId::Analysis,
                evidence: Evidence::AnalysisReport,
                passed: self.spec_is_self_consistent() && self.verdict == ContextDecision::Assembled,
                payload_hash: self.receipt_hash,
                effect: PacketEffect::Noop,
            }),
    {
        EvidenceSubmission::with_payload(
            GateId::Analysis,
            Evidence::AnalysisReport,
            self.is_self_consistent() && self.verdict == ContextDecision::Assembled,
            self.receipt_hash,
        )
    }
}

/// Every receipt taken from a record agrees with that record, and a
/// receipt of an assembled record passes the analysis gate.
pub proof fn lemma_receipt_from_record_consistent(record: ContextRecord)
    ensures
        ({
            let rc = ContextAssemblyReceipt::spec_from_record(record);
            (record.spec_is_valid() ==> rc.spec_is_self_consistent()) && (record.spec_is_valid()
                ==> rc.verdict == ContextDecision::Assembled)
        }),
{
}

impl EvidenceProducer for ContextRecord {
    type Record = ContextRecord;

    fn record(&self) -> (r: &ContextRecord)
        ensures
            r == self,
    {
        self
    }

    fn submission(&self) -> (r: EvidenceSubmission)
        ensures
            r == (EvidenceSubmission {
                gate: GateId::Analysis,
                evidence: Evidence::AnalysisReport,
                passed: self.spec_is_valid(),
                payload_hash: self.context_hash,
                effect: PacketEffect::Noop,
            }),
    {
        ContextRecord::submission(self)
    }
}

} // verus!
