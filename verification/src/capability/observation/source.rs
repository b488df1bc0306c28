//! Bounded line-source observation ingress: the unseen lines of one
//! append-only source become a batch of observation records, with explicit
//! backpressure, and the cursor that records how far the source was read.
use vstd::prelude::*;
use crate::kernel::{
    fold_mix, mix, nonzero, nz, spec_fold_mix, spec_mix, spec_sat_u64, Evidence, EvidenceSubmission, GateId,
    PacketEffect,
};
use crate::codec::{
    encode_u64_list, encode_u64_list_exec, is_ws, last_nonblank, lemma_u64_list_round_trip,
    parse_u64_list, parse_u64_list_exec, split_lines, trim, trim_bounds, trim_end, trim_start,
};
use crate::text::{chars_of, push_char, string_from_chars};
use crate::capability::observation::record::{
    mix_bytes, spec_byte_fold, ObservationCursor, ObservationFrame, ObservationFrameKind,
    ObservationRecord, MAX_OBSERVATION_PAYLOAD_BYTES,
};

verus! {

pub const OBSERVATION_CURSOR_SCHEMA_VERSION: u64 = 1;

pub const OBSERVATION_CURSOR_RECORD: u64 = 0x0b5e_0001;

pub const OBSERVATION_INGRESS_RECEIPT_SCHEMA_VERSION: u64 = 1;

pub const OBSERVATION_INGRESS_RECEIPT_RECORD: u64 = 0x0b5e_1001;

pub const DEFAULT_OBSERVATION_BATCH_FRAMES: usize = 8;

pub const DEFAULT_OBSERVATION_BACKLOG_FRAMES: usize = 64;

#[derive(Clone, Copy, Debug, PartialEq, Eq, Structural)]
pub enum ObservationIngressDecision {
    Accepted,
    Empty,
    Backpressure,
    Rejected,
}

impl ObservationIngressDecision {
    pub open spec fn spec_code(self) -> u64 {
        match self {
            ObservationIngressDecision::Accepted => 1,
            ObservationIngressDecision::Empty => 2,
            ObservationIngressDecision::Backpressure => 3,
            ObservationIngressDecision::Rejected => 4,
        }
    }

    /// The number the receipt format gives the decision.
    pub fn code(self) -> (r: u64)
        ensures
            r == self.spec_code(),
    {
        match self {
            ObservationIngressDecision::Accepted => 1,
            ObservationIngressDecision::Empty => 2,
            ObservationIngressDecision::Backpressure => 3,
            ObservationIngressDecision::Rejected => 4,
        }
    }
}

#[derive(Clone, Copy, Debug, PartialEq, Eq, Structural)]
pub struct ObservationIngressConfig {
    pub source_id: u64,
    pub max_batch_frames: usize,
    pub max_backlog_frames: usize,
    pub received_at_tick: u64,
}

impl ObservationIngressConfig {
    pub fn new(
        source_id: u64,
        max_batch_frames: usize,
        max_backlog_frames: usize,
        received_at_tick: u64,
    ) -> (r: Self)
        ensures
            r == (ObservationIngressConfig {
                source_id,
                max_batch_frames,
                max_backlog_frames,
                received_at_tick,
            }),
    {
        ObservationIngressConfig { source_id, max_batch_frames, max_backlog_frames, received_at_tick }
    }

    /// The default batch of eight frames and backlog cap of sixty-four.
    pub fn default_for_source(source_id: u64, received_at_tick: u64) -> (r: Self)
        ensures
            r == (ObservationIngressConfig {
                source_id,
                max_batch_frames: DEFAULT_OBSERVATION_BATCH_FRAMES,
                max_backlog_frames: DEFAULT_OBSERVATION_BACKLOG_FRAMES,
                received_at_tick,
            }),
    {
        Self::new(
            source_id,
            DEFAULT_OBSERVATION_BATCH_FRAMES,
            DEFAULT_OBSERVATION_BACKLOG_FRAMES,
            received_at_tick,
        )
    }

    pub open spec fn spec_is_valid(self) -> bool {
        &&& self.source_id != 0
        &&& self.max_batch_frames != 0
        &&& self.max_backlog_frames != 0
        &&& self.max_batch_frames <= self.max_backlog_frames
        &&& self.received_at_tick != 0
    }

    pub fn is_valid(self) -> (r: bool)
        ensures
            r == self.spec_is_valid(),
    {
        self.source_id != 0 && self.max_batch_frames != 0 && self.max_backlog_frames != 0
            && self.max_batch_frames <= self.max_backlog_frames && self.received_at_tick != 0
    }
}

/// What one read of the source produced.
#[derive(Clone, Debug, PartialEq, Eq)]
pub struct ObservationIngressBatch {
    pub decision: ObservationIngressDecision,
    pub source_id: u64,
    pub source_hash: u64,
    pub cursor: ObservationCursor,
    pub backlog_len: usize,
    pub records: Vec<ObservationRecord>,
}

/// The sealed summary of a batch.
#[derive(Clone, Copy, Debug, PartialEq, Eq, Structural)]
pub struct ObservationIngressReceipt {
    pub schema_version: u64,
    pub record_type: u64,
    pub decision: ObservationIngressDecision,
    pub source_id: u64,
    pub source_hash: u64,
    pub cursor_source_id: u64,
    pub cursor_last_sequence: u64,
    pub cursor_last_observed_hash: u64,
    pub backlog_len: u64,
    pub record_count: u64,
    pub first_sequence: u64,
    pub last_sequence: u64,
    pub records_hash: u64,
    pub contract_hash: u64,
    pub contract_valid: bool,
    pub receipt_hash: u64,
}

/// Folds the four words of each record into `h`.
pub open spec fn records_fold(h: u64, records: Seq<ObservationRecord>) -> u64
    decreases records.len(),
{
    if records.len() == 0 {
        h
    } else {
        let r = records.last();
        spec_mix(
            spec_mix(
                spec_mix(spec_mix(records_fold(h, records.drop_last()), r.source_id), r.sequence),
                r.observed_hash,
            ),
            r.received_at_tick,
        )
    }
}

fn mix_records(h: u64, records: &[ObservationRecord]) -> (r: u64)
    ensures
        r == records_fold(h, records@),
{
    let mut acc = h;
    let mut i: usize = 0;
    while i < records.len()
        invariant
            i <= records@.len(),
            acc == records_fold(h, records@.take(i as int)),
        decreases records@.len() - i,
    {
        assert(records@.take(i as int + 1).drop_last() =~= records@.take(i as int));
        let r = records[i];
        acc = mix(acc, r.source_id);
        acc = mix(acc, r.sequence);
        acc = mix(acc, r.observed_hash);
        acc = mix(acc, r.received_at_tick);
        i = i + 1;
    }
    assert(records@.take(i as int) =~= records@);
    acc
}

pub open spec fn spec_observation_records_hash(records: Seq<ObservationRecord>) -> u64 {
    nz(records_fold(spec_mix(0x0b5e_0000_5eca_0001u64, records.len() as u64), records))
}

/// The hash of a run of records, their count first.
pub fn observation_records_hash(records: &[ObservationRecord]) -> (r: u64)
    ensures
        r == spec_observation_records_hash(records@),
{
    let h = mix(0x0b5e_0000_5eca_0001u64, records.len() as u64);
    nonzero(mix_records(h, records))
}

/// The number of leading bytes of a source that its hash reads.
pub open spec fn source_hash_window() -> int {
    MAX_OBSERVATION_PAYLOAD_BYTES * 16
}

pub open spec fn spec_observation_source_hash(bytes: Seq<u8>) -> u64 {
    if bytes.len() == 0 {
        0
    } else {
        let n = if bytes.len() < source_hash_window() {
            bytes.len() as int
        } else {
            source_hash_window()
        };
        nz(
            spec_byte_fold(
                spec_mix(0x6a09_e667_f3bc_c909u64, bytes.len() as u64),
                bytes.subrange(0, n),
            ),
        )
    }
}

/// The hash of a whole source: its length and its first 64 KiB.
pub fn observation_source_hash(bytes: &[u8]) -> (r: u64)
    ensures
        r == spec_observation_source_hash(bytes@),
{
    if bytes.len() == 0 {
        return 0;
    }
    let window = MAX_OBSERVATION_PAYLOAD_BYTES * 16;
    let n = if bytes.len() < window {
        bytes.len()
    } else {
        window
    };
    let h = mix(0x6a09_e667_f3bc_c909u64, bytes.len() as u64);
    nonzero(mix_bytes(h, bytes, 0, n))
}

pub open spec fn sequences_increase(records: Seq<ObservationRecord>) -> bool {
    forall|i: int, j: int|
        #![trigger records[i], records[j]]
        0 <= i && j == i + 1 && j < records.len() ==> records[i].sequence < records[j].sequence
}

impl ObservationIngressBatch {
    pub fn accepted(
        source_id: u64,
        source_hash: u64,
        cursor: ObservationCursor,
        backlog_len: usize,
        records: Vec<ObservationRecord>,
    ) -> (r: Self)
        ensures
            r.decision == ObservationIngressDecision::Accepted,
            r.source_id == source_id,
            r.source_hash == source_hash,
            r.cursor == cursor,
            r.backlog_len == backlog_len,
            r.records@ == records@,
    {
        ObservationIngressBatch {
            decision: ObservationIngressDecision::Accepted,
            source_id,
            source_hash,
            cursor,
            backlog_len,
            records,
        }
    }

    pub fn empty(source_id: u64, source_hash: u64, cursor: ObservationCursor) -> (r: Self)
        ensures
            r.decision == ObservationIngressDecision::Empty,
            r.source_id == source_id,
            r.source_hash == source_hash,
            r.cursor == cursor,
            r.backlog_len == 0,
            r.records@ == Seq::<ObservationRecord>::empty(),
    {
        ObservationIngressBatch {
            decision: ObservationIngressDecision::Empty,
            source_id,
            source_hash,
            cursor,
            backlog_len: 0,
            records: Vec::new(),
        }
    }

    pub fn backpressure(
        source_id: u64,
        source_hash: u64,
        cursor: ObservationCursor,
        backlog_len: usize,
    ) -> (r: Self)
        ensures
            r.decision == ObservationIngressDecision::Backpressure,
            r.source_id == source_id,
            r.source_hash == source_hash,
            r.cursor == cursor,
            r.backlog_len == backlog_len,
            r.records@ == Seq::<ObservationRecord>::empty(),
    {
        ObservationIngressBatch {
            decision: ObservationIngressDecision::Backpressure,
            source_id,
            source_hash,
            cursor,
            backlog_len,
            records: Vec::new(),
        }
    }

    pub fn rejected(source_id: u64, cursor: ObservationCursor) -> (r: Self)
        ensures
            r.decision == ObservationIngressDecision::Rejected,
            r.source_id == source_id,
            r.source_hash == 0,
            r.cursor == cursor,
            r.backlog_len == 0,
            r.records@ == Seq::<ObservationRecord>::empty(),
    {
        ObservationIngressBatch {
            decision: ObservationIngressDecision::Rejected,
            source_id,
            source_hash: 0,
            cursor,
            backlog_len: 0,
            records: Vec::new(),
        }
    }

    pub open spec fn spec_is_accepted(&self) -> bool {
        &&& self.decision == ObservationIngressDecision::Accepted
        &&& self.records@.len() > 0
        &&& self.cursor.last_sequence != 0
        &&& self.cursor.last_observed_hash != 0
    }

    pub fn is_accepted(&self) -> (r: bool)
        ensures
            r == self.spec_is_accepted(),
    {
        let accepted = match self.decision {
            ObservationIngressDecision::Accepted => true,
            _ => false,
        };
        accepted && self.records.len() != 0 && self.cursor.last_sequence != 0
            && self.cursor.last_observed_hash != 0
    }

    /// An accepted batch from a named source whose records are valid, from
    /// that source, strictly increasing, and end where the cursor stands.
    pub open spec fn spec_is_contract_valid(&self) -> bool {
        let rs = self.records@;
        &&& self.spec_is_accepted()
        &&& self.source_id != 0
        &&& self.source_hash != 0
        &&& self.cursor.source_id == self.source_id
        &&& forall|i: int|
            0 <= i < rs.len() ==> (#[trigger] rs[i]).spec_is_valid() && rs[i].source_id
                == self.source_id
        &&& sequences_increase(rs)
        &&& self.cursor.last_sequence == rs.last().sequence
        &&& self.cursor.last_observed_hash == rs.last().observed_hash
    }

    pub fn is_contract_valid(&self) -> (r: bool)
        ensures
            r == self.spec_is_contract_valid(),
    {
        if !self.is_accepted() || self.source_id == 0 || self.source_hash == 0
            || self.cursor.source_id != self.source_id {
            return false;
        }
        let ghost rs = self.records@;
        let mut previous: u64 = 0;
        let mut i: usize = 0;
        while i < self.records.len()
            invariant
                i <= rs.len(),
                rs == self.records@,
                rs.len() > 0,
                forall|k: int|
                    0 <= k < i ==> (#[trigger] rs[k]).spec_is_valid() && rs[k].source_id
                        == self.source_id,
                forall|a: int, b: int|
                    #![trigger rs[a], rs[b]]
                    0 <= a && b == a + 1 && b < i ==> rs[a].sequence < rs[b].sequence,
                i > 0 ==> previous == rs[i - 1].sequence,
                i == 0 ==> previous == 0,
            decreases rs.len() - i,
        {
            let record = self.records[i];
            if !record.is_valid() || record.source_id != self.source_id || record.sequence
                <= previous {
                proof {
                    assert(rs[i as int] == record);
                    if !record.spec_is_valid() || record.source_id != self.source_id {
                        assert(!self.spec_is_contract_valid());
                    } else if i > 0 {
                        assert(!(rs[i - 1].sequence < rs[i as int].sequence));
                        assert(!sequences_increase(rs));
                    }
                }
                return false;
            }
            previous = record.sequence;
            i = i + 1;
        }
        let last = self.records[self.records.len() - 1];
        self.cursor.last_sequence == last.sequence && self.cursor.last_observed_hash
            == last.observed_hash
    }

    pub open spec fn header_fields(&self) -> Seq<u64> {
        seq![
            self.decision.spec_code(),
            self.source_id,
            self.source_hash,
            self.cursor.source_id,
            self.cursor.last_sequence,
            self.cursor.last_observed_hash,
            self.backlog_len as u64,
            self.records@.len() as u64,
        ]
    }

    pub open spec fn spec_contract_hash(&self) -> u64 {
        nz(records_fold(spec_fold_mix(0x5f37_59df_6a09_e667u64, self.header_fields()), self.records@))
    }

    /// The hash that binds the decision, source, cursor, backlog and every
    /// record of the batch.
    pub fn contract_hash(&self) -> (r: u64)
        ensures
            r == self.spec_contract_hash(),
    {
        let f = [
            self.decision.code(),
            self.source_id,
            self.source_hash,
            self.cursor.source_id,
            self.cursor.last_sequence,
            self.cursor.last_observed_hash,
            self.backlog_len as u64,
            self.records.len() as u64,
        ];
        assert(f@ =~= self.header_fields());
        let h = fold_mix(0x5f37_59df_6a09_e667u64, &f);
        nonzero(mix_records(h, self.records.as_slice()))
    }

    pub open spec fn spec_submission(&self) -> EvidenceSubmission {
        EvidenceSubmission {
            gate: GateId::Invariant,
            evidence: Evidence::InvariantProof,
            passed: self.spec_is_contract_valid(),
            payload_hash: self.spec_contract_hash(),
            effect: PacketEffect::Noop,
        }
    }

    /// Invariant evidence that passes for a contract-valid batch.
    pub fn submission(&self) -> (r: EvidenceSubmission)
        ensures
            r == self.spec_submission(),
    {
        EvidenceSubmission::with_payload(
            GateId::Invariant,
            Evidence::InvariantProof,
            self.is_contract_valid(),
            self.contract_hash(),
        )
    }

    pub fn receipt(&self) -> (r: ObservationIngressReceipt)
        ensures
            r == ObservationIngressReceipt::spec_from_batch(*self),
    {
        ObservationIngressReceipt::from_batch(self)
    }
}

impl ObservationIngressReceipt {
    pub open spec fn receipt_fields(self) -> Seq<u64> {
        seq![
            self.schema_version,
            self.record_type,
            self.decision.spec_code(),
            self.source_id,
            self.source_hash,
            self.cursor_source_id,
            self.cursor_last_sequence,
            self.cursor_last_observed_hash,
            self.backlog_len,
            self.record_count,
            self.first_sequence,
            self.last_sequence,
            self.records_hash,
            self.contract_hash,
            if self.contract_valid {
                1u64
            } else {
                0u64
            },
        ]
    }

    pub open spec fn spec_expected_receipt_hash(self) -> u64 {
        nz(spec_fold_mix(0x0b5e_1001_fee1_0001u64, self.receipt_fields()))
    }

    pub fn expected_receipt_hash(self) -> (r: u64)
        ensures
            r == self.spec_expected_receipt_hash(),
    {
        let valid: u64 = if self.contract_valid {
            1
        } else {
            0
        };
        let f = [
            self.schema_version,
            self.record_type,
            self.decision.code(),
            self.source_id,
            self.source_hash,
            self.cursor_source_id,
            self.cursor_last_sequence,
            self.cursor_last_observed_hash,
            self.backlog_len,
            self.record_count,
            self.first_sequence,
            self.last_sequence,
            self.records_hash,
            self.contract_hash,
            valid,
        ];
        assert(f@ =~= self.receipt_fields());
        nonzero(fold_mix(0x0b5e_1001_fee1_0001u64, &f))
    }

    pub open spec fn spec_from_batch(batch: ObservationIngressBatch) -> Self {
        let rs = batch.records@;
        let unsealed = ObservationIngressReceipt {
            schema_version: OBSERVATION_INGRESS_RECEIPT_SCHEMA_VERSION,
            record_type: OBSERVATION_INGRESS_RECEIPT_RECORD,
            decision: batch.decision,
            source_id: batch.source_id,
            source_hash: batch.source_hash,
            cursor_source_id: batch.cursor.source_id,
            cursor_last_sequence: batch.cursor.last_sequence,
            cursor_last_observed_hash: batch.cursor.last_observed_hash,
            backlog_len: batch.backlog_len as u64,
            record_count: rs.len() as u64,
            first_sequence: if rs.len() > 0 {
                rs[0].sequence
            } else {
                0
            },
            last_sequence: if rs.len() > 0 {
                rs.last().sequence
            } else {
                0
            },
            records_hash: spec_observation_records_hash(rs),
            contract_hash: batch.spec_contract_hash(),
            contract_valid: batch.spec_is_contract_valid(),
            receipt_hash: 0,
        };
        ObservationIngressReceipt { receipt_hash: unsealed.spec_expected_receipt_hash(), ..unsealed }
    }

    /// The receipt of a batch, sealed by its hash.
    pub fn from_batch(batch: &ObservationIngressBatch) -> (r: Self)
        ensures
            r == Self::spec_from_batch(*batch),
    {
        let n = batch.records.len();
        let first_sequence = if n > 0 {
            batch.records[0].sequence
        } else {
            0
        };
        let last_sequence = if n > 0 {
            batch.records[n - 1].sequence
        } else {
            0
        };
        let mut receipt = ObservationIngressReceipt {
            schema_version: OBSERVATION_INGRESS_RECEIPT_SCHEMA_VERSION,
            record_type: OBSERVATION_INGRESS_RECEIPT_RECORD,
            decision: batch.decision,
            source_id: batch.source_id,
            source_hash: batch.source_hash,
            cursor_source_id: batch.cursor.source_id,
            cursor_last_sequence: batch.cursor.last_sequence,
            cursor_last_observed_hash: batch.cursor.last_observed_hash,
            backlog_len: batch.backlog_len as u64,
            record_count: n as u64,
            first_sequence,
            last_sequence,
            records_hash: observation_records_hash(batch.records.as_slice()),
            contract_hash: batch.contract_hash(),
            contract_valid: batch.is_contract_valid(),
            receipt_hash: 0,
        };
        receipt.receipt_hash = receipt.expected_receipt_hash();
        receipt
    }

    pub open spec fn spec_is_self_consistent(self) -> bool {
        &&& self.schema_version == OBSERVATION_INGRESS_RECEIPT_SCHEMA_VERSION
        &&& self.record_type == OBSERVATION_INGRESS_RECEIPT_RECORD
        &&& self.source_id != 0
        &&& self.cursor_source_id == self.source_id
        &&& self.contract_hash != 0
        &&& self.records_hash != 0
        &&& self.receipt_hash == self.spec_expected_receipt_hash()
        &&& match self.decision {
            ObservationIngressDecision::Accepted => {
                &&& self.source_hash != 0
                &&& self.contract_valid
                &&& self.record_count != 0
                &&& self.first_sequence != 0
                &&& self.last_sequence >= self.first_sequence
                &&& self.cursor_last_sequence == self.last_sequence
                &&& self.cursor_last_observed_hash != 0
            },
            ObservationIngressDecision::Empty => {
                &&& !self.contract_valid
                &&& self.source_hash != 0
                &&& self.record_count == 0
                &&& self.backlog_len == 0
                &&& self.first_sequence == 0
                &&& self.last_sequence == 0
            },
            ObservationIngressDecision::Backpressure => {
                &&& !self.contract_valid
                &&& self.source_hash != 0
                &&& self.record_count == 0
                &&& self.backlog_len != 0
                &&& self.first_sequence == 0
                &&& self.last_sequence == 0
            },
            ObservationIngressDecision::Rejected => {
                &&& !self.contract_valid
                &&& self.source_hash == 0
                &&& self.record_count == 0
                &&& self.first_sequence == 0
                &&& self.last_sequence == 0
            },
        }
    }

    /// Whether the receipt's fields fit its decision and its hash seals them.
    pub fn is_self_consistent(self) -> (r: bool)
        ensures
            r == self.spec_is_self_consistent(),
    {
        let common = self.schema_version == OBSERVATION_INGRESS_RECEIPT_SCHEMA_VERSION
            && self.record_type == OBSERVATION_INGRESS_RECEIPT_RECORD && self.source_id != 0
            && self.cursor_source_id == self.source_id && self.contract_hash != 0
            && self.records_hash != 0 && self.receipt_hash == self.expected_receipt_hash();
        common && match self.decision {
            ObservationIngressDecision::Accepted => self.source_hash != 0 && self.contract_valid
                && self.record_count != 0 && self.first_sequence != 0 && self.last_sequence
                >= self.first_sequence && self.cursor_last_sequence == self.last_sequence
                && self.cursor_last_observed_hash != 0,
            ObservationIngressDecision::Empty => !self.contract_valid && self.source_hash != 0
                && self.record_count == 0 && self.backlog_len == 0 && self.first_sequence == 0
                && self.last_sequence == 0,
            ObservationIngressDecision::Backpressure => !self.contract_valid && self.source_hash
                != 0 && self.record_count == 0 && self.backlog_len != 0 && self.first_sequence
                == 0 && self.last_sequence == 0,
            ObservationIngressDecision::Rejected => !self.contract_valid && self.source_hash == 0
                && self.record_count == 0 && self.first_sequence == 0 && self.last_sequence == 0,
        }
    }

    pub open spec fn spec_is_valid_for(self, batch: ObservationIngressBatch) -> bool {
        self == Self::spec_from_batch(batch) && self.spec_is_self_consistent()
    }

    /// Whether the receipt is exactly the one the batch produces, and sound.
    pub fn is_valid_for(self, batch: &ObservationIngressBatch) -> (r: bool)
        ensures
            r == self.spec_is_valid_for(*batch),
    {
        let expected = ObservationIngressReceipt::from_batch(batch);
        self == expected && self.is_self_consistent()
    }

    pub open spec fn spec_submission(self) -> EvidenceSubmission {
        EvidenceSubmission {
            gate: GateId::Invariant,
            evidence: Evidence::InvariantProof,
            passed: self.spec_is_self_consistent() && self.contract_valid && self.decision
                == ObservationIngressDecision::Accepted,
            payload_hash: self.receipt_hash,
            effect: PacketEffect::Noop,
        }
    }

    /// Invariant evidence that passes only for a sound receipt of a
    /// contract-valid accepted batch.
    pub fn submission(self) -> (r: EvidenceSubmission)
        ensures
            r == self.spec_submission(),
    {
        let accepted = match self.decision {
            ObservationIngressDecision::Accepted => true,
            _ => false,
        };
        EvidenceSubmission::with_payload(
            GateId::Invariant,
            Evidence::InvariantProof,
            self.is_self_consistent() && self.contract_valid && accepted,
            self.receipt_hash,
        )
    }
}

} // verus!

verus! {

pub open spec fn cursor_fields(cursor: ObservationCursor) -> Seq<u64> {
    seq![
        OBSERVATION_CURSOR_SCHEMA_VERSION,
        OBSERVATION_CURSOR_RECORD,
        cursor.source_id,
        cursor.last_sequence,
        cursor.last_observed_hash,
    ]
}

/// The line that stores a cursor: `[schema, record, source, sequence, hash]`.
pub open spec fn spec_encode_observation_cursor(cursor: ObservationCursor) -> Seq<char> {
    encode_u64_list(cursor_fields(cursor)).push('\n')
}

pub fn encode_observation_cursor_ndjson(cursor: ObservationCursor) -> (r: String)
    ensures
        r@ == spec_encode_observation_cursor(cursor),
{
    let f = [
        OBSERVATION_CURSOR_SCHEMA_VERSION,
        OBSERVATION_CURSOR_RECORD,
        cursor.source_id,
        cursor.last_sequence,
        cursor.last_observed_hash,
    ];
    assert(f@ =~= cursor_fields(cursor));
    let mut s = encode_u64_list_exec(&f);
    push_char(&mut s, '\n');
    s
}

/// The cursor a stored line holds, when it holds a valid one.
pub open spec fn spec_decode_observation_cursor(line: Seq<char>) -> Option<ObservationCursor> {
    match parse_u64_list(line) {
        Some(f) => if f.len() == 5 && f[0] == OBSERVATION_CURSOR_SCHEMA_VERSION && f[1]
            == OBSERVATION_CURSOR_RECORD && (ObservationCursor {
            source_id: f[2],
            last_sequence: f[3],
            last_observed_hash: f[4],
        }).spec_is_valid() {
            Some(ObservationCursor { source_id: f[2], last_sequence: f[3], last_observed_hash: f[4] })
        } else {
            None
        },
        None => None,
    }
}

pub fn decode_observation_cursor_ndjson(line: &str) -> (r: Option<ObservationCursor>)
    ensures
        r == spec_decode_observation_cursor(line@),
{
    let f = match parse_u64_list_exec(line) {
        Some(f) => f,
        None => {
            return None;
        },
    };
    if f.len() != 5 || f[0] != OBSERVATION_CURSOR_SCHEMA_VERSION || f[1]
        != OBSERVATION_CURSOR_RECORD {
        return None;
    }
    let cursor = ObservationCursor { source_id: f[2], last_sequence: f[3], last_observed_hash: f[4] };
    if cursor.is_valid() {
        Some(cursor)
    } else {
        None
    }
}

proof fn lemma_trim_trailing_newline(x: Seq<char>)
    requires
        x.len() > 0,
        !is_ws(x[0]),
        trim(x) == x,
    ensures
        trim(x.push('\n')) == x,
{
    assert(trim_start(x.push('\n')) == x.push('\n'));
    assert(x.push('\n').drop_last() =~= x);
    assert(trim_end(x.push('\n')) == trim_end(x));
    assert(trim_start(x) == x);
}

/// A stored cursor reads back as itself exactly when it is valid.
pub proof fn lemma_observation_cursor_round_trip(cursor: ObservationCursor)
    ensures
        spec_decode_observation_cursor(spec_encode_observation_cursor(cursor)) == if cursor.spec_is_valid() {
            Some(cursor)
        } else {
            None
        },
{
    let fs = cursor_fields(cursor);
    lemma_u64_list_round_trip(fs);
    let x = encode_u64_list(fs);
    assert(x[0] == '[');
    lemma_trim_trailing_newline(x);
    assert(trim(x.push('\n')) == trim(x));
    assert(parse_u64_list(x.push('\n')) == parse_u64_list(x));
}

/// Why stored cursor text could not be read.
#[derive(Clone, Copy, Debug, PartialEq, Eq, Structural)]
pub enum ObservationCursorError {
    InvalidCursor,
}

/// The cursor the last non-blank line of a cursor file holds: none for a
/// file without such a line, an error when that line is not a valid cursor.
pub open spec fn spec_cursor_from_text(text: Seq<char>) -> Result<
    Option<ObservationCursor>,
    ObservationCursorError,
> {
    match last_nonblank(split_lines(text)) {
        None => Ok(None),
        Some(line) => match spec_decode_observation_cursor(line) {
            Some(c) => Ok(Some(c)),
            None => Err(ObservationCursorError::InvalidCursor),
        },
    }
}

pub fn observation_cursor_from_text(text: &str) -> (r: Result<
    Option<ObservationCursor>,
    ObservationCursorError,
>)
    ensures
        r == spec_cursor_from_text(text@),
{
    let chars = chars_of(text);
    let ghost s = chars@;
    let mut found: Option<(usize, usize)> = None;
    let mut start: usize = 0;
    let mut k: usize = 0;
    let ghost mut gp: Seq<Seq<char>> = Seq::empty();
    assert(s.subrange(0, 0) =~= Seq::<char>::empty());
    assert(s.take(0) =~= Seq::<char>::empty());
    assert(split_lines(s.take(0)) =~~= gp.push(s.subrange(0, 0)));
    while k < chars.len()
        invariant
            s == chars@,
            start <= k <= s.len(),
            split_lines(s.take(k as int)) == gp.push(s.subrange(start as int, k as int)),
            match found {
                Some((a, b)) => a <= b <= s.len() && last_nonblank(gp) == Some(
                    s.subrange(a as int, b as int),
                ),
                None => last_nonblank(gp) is None,
            },
        decreases s.len() - k,
    {
        assert(s.take(k + 1).drop_last() =~= s.take(k as int));
        if chars[k] == '\n' {
            let (lo, hi) = trim_bounds(&chars, start, k);
            let ghost seg = s.subrange(start as int, k as int);
            assert(last_nonblank(gp.push(seg)) == if trim(seg).len() > 0 {
                Some(seg)
            } else {
                last_nonblank(gp)
            }) by {
                assert(gp.push(seg).drop_last() =~= gp);
            }
            if lo < hi {
                found = Some((start, k));
            }
            proof {
                gp = gp.push(seg);
            }
            start = k + 1;
            assert(s.take(k + 1).last() == '\n');
            assert(s.subrange(start as int, k + 1) =~= Seq::<char>::empty());
            assert(split_lines(s.take(k + 1)) =~~= gp.push(s.subrange(start as int, k + 1)));
        } else {
            assert(s.take(k + 1).last() == s[k as int]);
            assert(s.subrange(start as int, k + 1) =~= s.subrange(start as int, k as int).push(
                s[k as int],
            ));
            let ghost p = gp.push(s.subrange(start as int, k as int));
            assert(p.last() == s.subrange(start as int, k as int));
            assert(split_lines(s.take(k + 1)) == p.update(
                p.len() - 1,
                p.last().push(s[k as int]),
            ));
            assert(split_lines(s.take(k + 1)) =~~= gp.push(s.subrange(start as int, k + 1)));
        }
        k = k + 1;
    }
    assert(s.take(k as int) =~= s);
    let ghost seg = s.subrange(start as int, k as int);
    assert(gp.push(seg).drop_last() =~= gp);
    let (lo, hi) = trim_bounds(&chars, start, k);
    let line_bounds = if lo < hi {
        Some((start, k))
    } else {
        found
    };
    match line_bounds {
        None => Ok(None),
        Some((a, b)) => {
            let line = string_from_chars(&chars, a, b);
            match decode_observation_cursor_ndjson(line.as_str()) {
                Some(c) => Ok(Some(c)),
                None => Err(ObservationCursorError::InvalidCursor),
            }
        },
    }
}

} // verus!

verus! {

/// `split(|b| *b == b'\n')` over bytes, built one byte at a time.
pub open spec fn split_byte_lines(s: Seq<u8>) -> Seq<Seq<u8>>
    decreases s.len(),
{
    if s.len() == 0 {
        seq![Seq::<u8>::empty()]
    } else {
        let p = split_byte_lines(s.drop_last());
        if s.last() == 10u8 {
            p.push(Seq::<u8>::empty())
        } else {
            p.update(p.len() - 1, p.last().push(s.last()))
        }
    }
}

/// The lines that are not empty, in order.
pub open spec fn nonempty_lines(lines: Seq<Seq<u8>>) -> Seq<Seq<u8>>
    decreases lines.len(),
{
    if lines.len() == 0 {
        Seq::empty()
    } else if lines.last().len() > 0 {
        nonempty_lines(lines.drop_last()).push(lines.last())
    } else {
        nonempty_lines(lines.drop_last())
    }
}

/// A line without its trailing carriage return.
pub open spec fn trim_carriage_return(line: Seq<u8>) -> Seq<u8> {
    if line.len() > 0 && line.last() == 13u8 {
        line.drop_last()
    } else {
        line
    }
}

/// The frame of the `k`-th non-empty line: sequence number `k + 1`, received
/// `k + 1` ticks after the configured tick.
pub open spec fn spec_line_frame(
    config: ObservationIngressConfig,
    k: int,
    line: Seq<u8>,
) -> ObservationFrame {
    ObservationFrame::spec_from_payload(
        ObservationFrameKind::ExternalSignal,
        config.source_id,
        spec_sat_u64(k + 1),
        spec_sat_u64(spec_sat_u64(config.received_at_tick + k) + 1),
        trim_carriage_return(line),
    )
}

pub open spec fn spec_frames_of(config: ObservationIngressConfig, lines: Seq<Seq<u8>>) -> Seq<
    ObservationFrame,
> {
    Seq::new(lines.len(), |k: int| spec_line_frame(config, k, lines[k]))
}

/// One external-signal frame per non-empty line of the source.
pub open spec fn spec_line_frames(config: ObservationIngressConfig, bytes: Seq<u8>) -> Seq<
    ObservationFrame,
> {
    spec_frames_of(config, nonempty_lines(split_byte_lines(bytes)))
}

fn push_line_frame(
    frames: &mut Vec<ObservationFrame>,
    config: ObservationIngressConfig,
    bytes: &[u8],
    lo: usize,
    hi: usize,
)
    requires
        lo < hi <= bytes@.len(),
    ensures
        final(frames)@ == old(frames)@.push(
            spec_line_frame(config, old(frames)@.len() as int, bytes@.subrange(lo as int, hi as int)),
        ),
{
    let end = if bytes[hi - 1] == 13u8 {
        hi - 1
    } else {
        hi
    };
    assert(bytes@.subrange(lo as int, end as int) =~= trim_carriage_return(
        bytes@.subrange(lo as int, hi as int),
    ));
    let k = frames.len() as u64;
    let frame = ObservationFrame::from_range(
        ObservationFrameKind::ExternalSignal,
        config.source_id,
        k.saturating_add(1),
        config.received_at_tick.saturating_add(k).saturating_add(1),
        bytes,
        lo,
        end,
    );
    frames.push(frame);
}

/// The frames of the source's non-empty lines.
pub fn line_frames(bytes: &[u8], config: ObservationIngressConfig) -> (r: Vec<ObservationFrame>)
    ensures
        r@ == spec_line_frames(config, bytes@),
{
    let ghost s = bytes@;
    let mut frames: Vec<ObservationFrame> = Vec::new();
    let mut start: usize = 0;
    let mut k: usize = 0;
    let ghost mut gp: Seq<Seq<u8>> = Seq::empty();
    assert(s.subrange(0, 0) =~= Seq::<u8>::empty());
    assert(s.take(0) =~= Seq::<u8>::empty());
    assert(split_byte_lines(s.take(0)) =~~= gp.push(s.subrange(0, 0)));
    assert(frames@ =~= spec_frames_of(config, nonempty_lines(gp)));
    while k < bytes.len()
        invariant
            s == bytes@,
            start <= k <= s.len(),
            split_byte_lines(s.take(k as int)) == gp.push(s.subrange(start as int, k as int)),
            frames@ == spec_frames_of(config, nonempty_lines(gp)),
        decreases s.len() - k,
    {
        assert(s.take(k + 1).drop_last() =~= s.take(k as int));
        assert(s.take(k + 1).last() == s[k as int]);
        if bytes[k] == 10u8 {
            let ghost seg = s.subrange(start as int, k as int);
            assert(gp.push(seg).drop_last() =~= gp);
            if start < k {
                push_line_frame(&mut frames, config, bytes, start, k);
                assert(frames@ =~= spec_frames_of(config, nonempty_lines(gp.push(seg))));
            } else {
                assert(seg.len() == 0);
            }
            proof {
                gp = gp.push(seg);
            }
            start = k + 1;
            assert(s.subrange(start as int, k + 1) =~= Seq::<u8>::empty());
            assert(split_byte_lines(s.take(k + 1)) =~~= gp.push(s.subrange(start as int, k + 1)));
        } else {
            assert(s.subrange(start as int, k + 1) =~= s.subrange(start as int, k as int).push(
                s[k as int],
            ));
            let ghost p = gp.push(s.subrange(start as int, k as int));
            assert(p.last() == s.subrange(start as int, k as int));
            assert(split_byte_lines(s.take(k + 1)) == p.update(p.len() - 1, p.last().push(s[k as int])));
            assert(split_byte_lines(s.take(k + 1)) =~~= gp.push(s.subrange(start as int, k + 1)));
        }
        k = k + 1;
    }
    assert(s.take(k as int) =~= s);
    let ghost seg = s.subrange(start as int, k as int);
    assert(gp.push(seg).drop_last() =~= gp);
    if start < k {
        push_line_frame(&mut frames, config, bytes, start, k);
        assert(frames@ =~= spec_frames_of(config, nonempty_lines(gp.push(seg))));
    } else {
        assert(seg.len() == 0);
    }
    frames
}

} // verus!

verus! {

/// The frames newer than `last_sequence`, in order.
pub open spec fn spec_unseen(frames: Seq<ObservationFrame>, last_sequence: u64) -> Seq<
    ObservationFrame,
>
    decreases frames.len(),
{
    if frames.len() == 0 {
        Seq::empty()
    } else if frames.last().sequence > last_sequence {
        spec_unseen(frames.drop_last(), last_sequence).push(frames.last())
    } else {
        spec_unseen(frames.drop_last(), last_sequence)
    }
}

/// Feeds frames to a cursor in order: the cursor it ends at, and the valid
/// records it yielded.
pub open spec fn spec_feed(cursor: ObservationCursor, frames: Seq<ObservationFrame>) -> (
    ObservationCursor,
    Seq<ObservationRecord>,
)
    decreases frames.len(),
{
    if frames.len() == 0 {
        (cursor, Seq::empty())
    } else {
        let (c, rs) = spec_feed(cursor, frames.drop_last());
        let r = c.spec_ingested(frames.last());
        (c.spec_after(frames.last()), if r.spec_is_valid() {
            rs.push(r)
        } else {
            rs
        })
    }
}

pub open spec fn spec_min_int(a: int, b: int) -> int {
    if a <= b {
        a
    } else {
        b
    }
}

/// What reading the source yields: decision, source hash, cursor, backlog
/// length and records.
///
/// An invalid configuration, or a stored cursor of another source, is
/// rejected. More unseen frames than the backlog cap is backpressure, with
/// the cursor where it stood. No unseen frame is an empty batch. Otherwise
/// the first unseen frames, up to the batch size, are fed to the cursor;
/// if none yields a record the batch is rejected, else it is accepted with
/// the unseen frames that yielded no record as its backlog.
pub open spec fn spec_ingest(
    config: ObservationIngressConfig,
    bytes: Seq<u8>,
    stored: Option<ObservationCursor>,
) -> (ObservationIngressDecision, u64, ObservationCursor, int, Seq<ObservationRecord>) {
    let fresh = ObservationCursor { source_id: config.source_id, last_sequence: 0, last_observed_hash: 0 };
    let start = match stored {
        Some(c) => c,
        None => fresh,
    };
    let source_hash = spec_observation_source_hash(bytes);
    let unseen = spec_unseen(spec_line_frames(config, bytes), start.last_sequence);
    let attempted = unseen.take(spec_min_int(unseen.len() as int, config.max_batch_frames as int));
    let (cursor, records) = spec_feed(start, attempted);
    if !config.spec_is_valid() {
        (ObservationIngressDecision::Rejected, 0, fresh, 0, Seq::empty())
    } else if start.source_id != config.source_id {
        (ObservationIngressDecision::Rejected, 0, start, 0, Seq::empty())
    } else if unseen.len() > config.max_backlog_frames {
        (
            ObservationIngressDecision::Backpressure,
            source_hash,
            start,
            config.max_backlog_frames + 1,
            Seq::empty(),
        )
    } else if unseen.len() == 0 {
        (ObservationIngressDecision::Empty, source_hash, start, 0, Seq::empty())
    } else if records.len() == 0 {
        (ObservationIngressDecision::Rejected, 0, cursor, 0, Seq::empty())
    } else {
        (
            ObservationIngressDecision::Accepted,
            source_hash,
            cursor,
            unseen.len() - records.len(),
            records,
        )
    }
}

pub open spec fn batch_is(
    batch: ObservationIngressBatch,
    outcome: (ObservationIngressDecision, u64, ObservationCursor, int, Seq<ObservationRecord>),
) -> bool {
    &&& batch.decision == outcome.0
    &&& batch.source_hash == outcome.1
    &&& batch.cursor == outcome.2
    &&& batch.backlog_len == outcome.3
    &&& batch.records@ == outcome.4
}

proof fn lemma_unseen_len(frames: Seq<ObservationFrame>, last_sequence: u64)
    ensures
        spec_unseen(frames, last_sequence).len() <= frames.len(),
    decreases frames.len(),
{
    if frames.len() > 0 {
        lemma_unseen_len(frames.drop_last(), last_sequence);
    }
}

proof fn lemma_feed_len(cursor: ObservationCursor, frames: Seq<ObservationFrame>)
    ensures
        spec_feed(cursor, frames).1.len() <= frames.len(),
    decreases frames.len(),
{
    if frames.len() > 0 {
        lemma_feed_len(cursor, frames.drop_last());
    }
}

fn count_unseen(frames: &Vec<ObservationFrame>, last_sequence: u64) -> (r: usize)
    ensures
        r == spec_unseen(frames@, last_sequence).len(),
{
    let mut n: usize = 0;
    let mut i: usize = 0;
    while i < frames.len()
        invariant
            i <= frames@.len(),
            n == spec_unseen(frames@.take(i as int), last_sequence).len(),
        decreases frames@.len() - i,
    {
        assert(frames@.take(i as int + 1).drop_last() =~= frames@.take(i as int));
        proof {
            lemma_unseen_len(frames@.take(i as int), last_sequence);
        }
        if frames[i].sequence > last_sequence {
            n = n + 1;
        }
        i = i + 1;
    }
    assert(frames@.take(i as int) =~= frames@);
    n
}

/// One read of a line source, given its bytes and the cursor stored for it:
/// the batch `BoundedLineObservationSource::read_batch` returns. The caller
/// stores the batch's cursor when the batch is accepted.
pub fn ingest_source_bytes(
    config: ObservationIngressConfig,
    bytes: &[u8],
    stored: Option<ObservationCursor>,
) -> (r: ObservationIngressBatch)
    ensures
        batch_is(r, spec_ingest(config, bytes@, stored)),
        r.source_id == config.source_id,
{
    let fresh = ObservationCursor::new(config.source_id);
    if !config.is_valid() {
        return ObservationIngressBatch::rejected(config.source_id, fresh);
    }
    let source_hash = observation_source_hash(bytes);
    let start = match stored {
        Some(c) => c,
        None => fresh,
    };
    if start.source_id != config.source_id {
        return ObservationIngressBatch::rejected(config.source_id, start);
    }
    let frames = line_frames(bytes, config);
    let unseen = count_unseen(&frames, start.last_sequence);
    if unseen > config.max_backlog_frames {
        return ObservationIngressBatch::backpressure(
            config.source_id,
            source_hash,
            start,
            config.max_backlog_frames + 1,
        );
    }
    if unseen == 0 {
        return ObservationIngressBatch::empty(config.source_id, source_hash, start);
    }
    let ghost all_unseen = spec_unseen(frames@, start.last_sequence);
    let mut cursor = start;
    let mut records: Vec<ObservationRecord> = Vec::new();
    let mut attempted: usize = 0;
    let mut i: usize = 0;
    while i < frames.len()
        invariant
            i <= frames@.len(),
            attempted == spec_min_int(
                spec_unseen(frames@.take(i as int), start.last_sequence).len() as int,
                config.max_batch_frames as int,
            ),
            (cursor, records@) == spec_feed(
                start,
                spec_unseen(frames@.take(i as int), start.last_sequence).take(attempted as int),
            ),
        decreases frames@.len() - i,
    {
        let ghost before = spec_unseen(frames@.take(i as int), start.last_sequence);
        assert(frames@.take(i as int + 1).drop_last() =~= frames@.take(i as int));
        assert(frames@.take(i as int + 1).last() == frames@[i as int]);
        let frame = frames[i];
        if frame.sequence > start.last_sequence {
            let ghost after = before.push(frame);
            assert(spec_unseen(frames@.take(i as int + 1), start.last_sequence) == after);
            if attempted < config.max_batch_frames {
                assert(attempted == before.len());
                assert(after.take(attempted as int + 1).drop_last() =~= before.take(
                    attempted as int,
                ));
                assert(after.take(attempted as int + 1).last() == frame);
                let record = cursor.ingest(&frame);
                if record.is_valid() {
                    records.push(record);
                }
                attempted = attempted + 1;
            } else {
                assert(after.take(attempted as int) =~= before.take(attempted as int));
            }
        }
        i = i + 1;
    }
    assert(frames@.take(i as int) =~= frames@);
    if records.len() == 0 {
        return ObservationIngressBatch::rejected(config.source_id, cursor);
    }
    proof {
        lemma_feed_len(start, all_unseen.take(attempted as int));
    }
    let backlog = unseen - records.len();
    ObservationIngressBatch::accepted(config.source_id, source_hash, cursor, backlog, records)
}

} // verus!

verus! {

proof fn lemma_feed(cursor: ObservationCursor, frames: Seq<ObservationFrame>)
    ensures
        ({
            let (c, rs) = spec_feed(cursor, frames);
            &&& c.source_id == cursor.source_id
            &&& rs.len() <= frames.len()
            &&& forall|i: int|
                0 <= i < rs.len() ==> (#[trigger] rs[i]).spec_is_valid() && rs[i].source_id
                    == cursor.source_id
            &&& sequences_increase(rs)
            &&& rs.len() > 0 ==> rs[0].sequence > cursor.last_sequence
            &&& rs.len() > 0 ==> c.last_sequence == rs.last().sequence && c.last_observed_hash
                == rs.last().observed_hash
            &&& rs.len() == 0 ==> c == cursor
        }),
    decreases frames.len(),
{
    if frames.len() > 0 {
        lemma_feed(cursor, frames.drop_last());
        let (c1, rs1) = spec_feed(cursor, frames.drop_last());
        let f = frames.last();
        crate::capability::observation::record::lemma_cursor_ingest(c1, f);
        let r = c1.spec_ingested(f);
        if r.spec_is_valid() {
            let rs = rs1.push(r);
            assert(forall|i: int| 0 <= i < rs1.len() ==> rs[i] == rs1[i]);
            assert(sequences_increase(rs)) by {
                assert forall|i: int, j: int|
                    #![trigger rs[i], rs[j]]
                    0 <= i && j == i + 1 && j < rs.len() implies rs[i].sequence
                    < rs[j].sequence by {
                    if j < rs1.len() {
                        assert(rs1[i].sequence < rs1[j].sequence);
                    }
                }
            }
        }
    }
}

proof fn lemma_increasing_ends(rs: Seq<ObservationRecord>)
    requires
        rs.len() > 0,
        sequences_increase(rs),
    ensures
        rs.last().sequence >= rs[0].sequence,
    decreases rs.len(),
{
    if rs.len() > 1 {
        let p = rs.drop_last();
        assert(sequences_increase(p)) by {
            assert forall|i: int, j: int|
                #![trigger p[i], p[j]]
                0 <= i && j == i + 1 && j < p.len() implies p[i].sequence < p[j].sequence by {
                assert(rs[i].sequence < rs[j].sequence);
            }
        }
        lemma_increasing_ends(p);
        assert(rs[rs.len() - 2].sequence < rs[rs.len() - 1].sequence);
    }
}

proof fn lemma_frames_need_bytes(config: ObservationIngressConfig, bytes: Seq<u8>)
    ensures
        bytes.len() == 0 ==> spec_line_frames(config, bytes).len() == 0,
{
    if bytes.len() == 0 {
        let e = Seq::<Seq<u8>>::empty();
        assert(split_byte_lines(bytes) == seq![Seq::<u8>::empty()]);
        assert(seq![Seq::<u8>::empty()].drop_last() =~= e);
        assert(nonempty_lines(seq![Seq::<u8>::empty()]) == nonempty_lines(e));
    }
}

proof fn lemma_ingest_accepted(
    config: ObservationIngressConfig,
    bytes: Seq<u8>,
    stored: Option<ObservationCursor>,
    batch: ObservationIngressBatch,
)
    requires
        batch_is(batch, spec_ingest(config, bytes, stored)),
        batch.source_id == config.source_id,
        batch.decision == ObservationIngressDecision::Accepted,
    ensures
        batch.spec_is_contract_valid(),
        batch.records@.len() <= config.max_batch_frames,
        batch.records@[0].sequence > match stored {
            Some(c) => c.last_sequence,
            None => 0,
        },
        bytes.len() > 0,
        batch.records@.last().sequence >= batch.records@[0].sequence,
{
    let fresh = ObservationCursor { source_id: config.source_id, last_sequence: 0, last_observed_hash: 0 };
    let start = match stored {
        Some(c) => c,
        None => fresh,
    };
    let frames = spec_line_frames(config, bytes);
    let unseen = spec_unseen(frames, start.last_sequence);
    let attempted = unseen.take(spec_min_int(unseen.len() as int, config.max_batch_frames as int));
    lemma_feed(start, attempted);
    lemma_frames_need_bytes(config, bytes);
    lemma_unseen_len(frames, start.last_sequence);
    let rs = batch.records@;
    assert(rs[rs.len() - 1] == rs.last());
    assert(rs.last().spec_is_valid());
    lemma_increasing_ends(rs);
}

/// The shape of a batch whose receipt is self-consistent.
pub open spec fn well_shaped(batch: ObservationIngressBatch) -> bool {
    let rs = batch.records@;
    &&& batch.source_id != 0
    &&& batch.cursor.source_id == batch.source_id
    &&& match batch.decision {
        ObservationIngressDecision::Accepted => {
            &&& batch.spec_is_contract_valid()
            &&& rs[0].sequence != 0
            &&& rs.last().sequence >= rs[0].sequence
        },
        ObservationIngressDecision::Empty => {
            &&& batch.source_hash != 0
            &&& rs.len() == 0
            &&& batch.backlog_len == 0
        },
        ObservationIngressDecision::Backpressure => {
            &&& batch.source_hash != 0
            &&& rs.len() == 0
            &&& batch.backlog_len != 0
        },
        ObservationIngressDecision::Rejected => {
            &&& batch.source_hash == 0
            &&& rs.len() == 0
        },
    }
}

proof fn lemma_ingest_shape(
    config: ObservationIngressConfig,
    bytes: Seq<u8>,
    stored: Option<ObservationCursor>,
    batch: ObservationIngressBatch,
)
    requires
        batch_is(batch, spec_ingest(config, bytes, stored)),
        batch.source_id == config.source_id,
        config.spec_is_valid(),
        bytes.len() > 0,
        stored matches Some(c) ==> c.source_id == config.source_id,
    ensures
        well_shaped(batch),
{
    if batch.decision == ObservationIngressDecision::Accepted {
        lemma_ingest_accepted(config, bytes, stored, batch);
        assert(batch.records@[0].spec_is_valid());
    } else {
        let fresh = ObservationCursor { source_id: config.source_id, last_sequence: 0, last_observed_hash: 0 };
        let start = match stored {
            Some(c) => c,
            None => fresh,
        };
        let frames = spec_line_frames(config, bytes);
        let unseen = spec_unseen(frames, start.last_sequence);
        let attempted = unseen.take(spec_min_int(unseen.len() as int, config.max_batch_frames as int));
        lemma_feed(start, attempted);
    }
}

proof fn lemma_shaped_receipt(batch: ObservationIngressBatch)
    requires
        well_shaped(batch),
    ensures
        ObservationIngressReceipt::spec_from_batch(batch).spec_is_self_consistent(),
{
    assert(batch.records@.len() == batch.records.len());
    if batch.decision != ObservationIngressDecision::Accepted {
        assert(!batch.spec_is_accepted());
    }
}

/// What one read of a source promises. An accepted batch passes the batch
/// contract: its records are valid, from the configured source, strictly
/// newer than the stored cursor and increasing, at most one batch of them,
/// and the cursor it returns stands at the last one. Backpressure emits no
/// record and leaves the cursor where it was. With a valid configuration, a
/// non-empty source and no stored cursor of another source, the batch's
/// receipt is self-consistent and valid for the batch.
pub proof fn lemma_ingest_contract(
    config: ObservationIngressConfig,
    bytes: Seq<u8>,
    stored: Option<ObservationCursor>,
    batch: ObservationIngressBatch,
)
    requires
        batch_is(batch, spec_ingest(config, bytes, stored)),
        batch.source_id == config.source_id,
    ensures
        batch.decision == ObservationIngressDecision::Accepted ==> {
            &&& batch.spec_is_contract_valid()
            &&& batch.records@.len() <= config.max_batch_frames
            &&& batch.records@[0].sequence > match stored {
                Some(c) => c.last_sequence,
                None => 0,
            }
        },
        batch.decision == ObservationIngressDecision::Backpressure ==> {
            &&& batch.records@.len() == 0
            &&& batch.cursor == match stored {
                Some(c) => c,
                None => ObservationCursor {
                    source_id: config.source_id,
                    last_sequence: 0,
                    last_observed_hash: 0,
                },
            }
            &&& batch.backlog_len == config.max_backlog_frames + 1
        },
        config.spec_is_valid() && bytes.len() > 0 && (stored matches Some(c) ==> c.source_id
            == config.source_id) ==> {
            &&& ObservationIngressReceipt::spec_from_batch(batch).spec_is_self_consistent()
            &&& ObservationIngressReceipt::spec_from_batch(batch).spec_is_valid_for(batch)
        },
{
    if batch.decision == ObservationIngressDecision::Accepted {
        lemma_ingest_accepted(config, bytes, stored, batch);
    }
    if config.spec_is_valid() && bytes.len() > 0 && (stored matches Some(c) ==> c.source_id
        == config.source_id) {
        lemma_ingest_shape(config, bytes, stored, batch);
        lemma_shaped_receipt(batch);
    }
}

} // verus!
