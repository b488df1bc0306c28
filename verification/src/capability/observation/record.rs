//! The observation record: an external frame, bounded and ordered, reduced
//! to a hash-addressed record the kernel can accept as evidence.
use vstd::prelude::*;
use crate::capability::EvidenceProducer;
use crate::kernel::{
    fold_mix, mix, nonzero, nz, spec_fold_mix, spec_mix, Evidence, EvidenceSubmission, GateId,
    PacketEffect,
};

verus! {

pub const MAX_OBSERVATION_PAYLOAD_BYTES: usize = 4096;

#[derive(Clone, Copy, Debug, PartialEq, Eq, Structural)]
pub enum ObservationDecision {
    Accepted,
    Rejected,
}

#[derive(Clone, Copy, Debug, PartialEq, Eq, Structural)]
pub struct ObservationRecord {
    pub source_id: u64,
    pub sequence: u64,
    pub observed_hash: u64,
    pub received_at_tick: u64,
}

#[derive(Clone, Copy, Debug, PartialEq, Eq, Structural)]
pub enum ObservationFrameKind {
    ExternalSignal,
    Heartbeat,
}

impl ObservationFrameKind {
    pub open spec fn spec_code(self) -> u64 {
        match self {
            ObservationFrameKind::ExternalSignal => 1,
            ObservationFrameKind::Heartbeat => 2,
        }
    }

    /// The number the frame format gives the kind.
    pub fn code(self) -> (r: u64)
        ensures
            r == self.spec_code(),
    {
        match self {
            ObservationFrameKind::ExternalSignal => 1,
            ObservationFrameKind::Heartbeat => 2,
        }
    }
}

#[derive(Clone, Copy, Debug, PartialEq, Eq, Structural)]
pub struct ObservationFrame {
    pub kind: ObservationFrameKind,
    pub source_id: u64,
    pub sequence: u64,
    pub received_at_tick: u64,
    pub payload_len: u64,
    pub payload_hash: u64,
}

/// Left fold of the mixing step over bytes.
pub open spec fn spec_byte_fold(h: u64, bytes: Seq<u8>) -> u64
    decreases bytes.len(),
{
    if bytes.len() == 0 {
        h
    } else {
        spec_mix(spec_byte_fold(h, bytes.drop_last()), bytes.last() as u64)
    }
}

/// Folds `bytes[lo..hi]` into `h`.
pub fn mix_bytes(h: u64, bytes: &[u8], lo: usize, hi: usize) -> (r: u64)
    requires
        lo <= hi <= bytes@.len(),
    ensures
        r == spec_byte_fold(h, bytes@.subrange(lo as int, hi as int)),
{
    let mut acc = h;
    let mut i = lo;
    while i < hi
        invariant
            lo <= i <= hi,
            hi <= bytes@.len(),
            acc == spec_byte_fold(h, bytes@.subrange(lo as int, i as int)),
        decreases hi - i,
    {
        assert(bytes@.subrange(lo as int, i + 1).drop_last() =~= bytes@.subrange(
            lo as int,
            i as int,
        ));
        acc = mix(acc, bytes[i] as u64);
        i = i + 1;
    }
    acc
}

/// The hash of a payload; zero for an empty or oversized one.
pub open spec fn spec_observation_bytes_hash(bytes: Seq<u8>) -> u64 {
    if bytes.len() == 0 || bytes.len() > MAX_OBSERVATION_PAYLOAD_BYTES {
        0
    } else {
        nz(spec_byte_fold(spec_mix(0x243f_6a88_85a3_08d3u64, bytes.len() as u64), bytes))
    }
}

/// The hash of `bytes[lo..hi]` as a payload.
pub fn observation_range_hash(bytes: &[u8], lo: usize, hi: usize) -> (r: u64)
    requires
        lo <= hi <= bytes@.len(),
    ensures
        r == spec_observation_bytes_hash(bytes@.subrange(lo as int, hi as int)),
{
    let len = hi - lo;
    if len == 0 || len > MAX_OBSERVATION_PAYLOAD_BYTES {
        return 0;
    }
    let h = mix(0x243f_6a88_85a3_08d3u64, len as u64);
    nonzero(mix_bytes(h, bytes, lo, hi))
}

pub fn observation_bytes_hash(bytes: &[u8]) -> (r: u64)
    ensures
        r == spec_observation_bytes_hash(bytes@),
{
    assert(bytes@.subrange(0, bytes@.len() as int) =~= bytes@);
    observation_range_hash(bytes, 0, bytes.len())
}

impl ObservationFrame {
    pub open spec fn spec_from_payload(
        kind: ObservationFrameKind,
        source_id: u64,
        sequence: u64,
        received_at_tick: u64,
        payload: Seq<u8>,
    ) -> Self {
        ObservationFrame {
            kind,
            source_id,
            sequence,
            received_at_tick,
            payload_len: payload.len() as u64,
            payload_hash: spec_observation_bytes_hash(payload),
        }
    }

    /// A frame of `bytes[lo..hi]`.
    pub fn from_range(
        kind: ObservationFrameKind,
        source_id: u64,
        sequence: u64,
        received_at_tick: u64,
        bytes: &[u8],
        lo: usize,
        hi: usize,
    ) -> (r: Self)
        requires
            lo <= hi <= bytes@.len(),
        ensures
            r == Self::spec_from_payload(
                kind,
                source_id,
                sequence,
                received_at_tick,
                bytes@.subrange(lo as int, hi as int),
            ),
    {
        ObservationFrame {
            kind,
            source_id,
            sequence,
            received_at_tick,
            payload_len: (hi - lo) as u64,
            payload_hash: observation_range_hash(bytes, lo, hi),
        }
    }

    /// A frame that carries the length and hash of its payload.
    pub fn from_payload(
        kind: ObservationFrameKind,
        source_id: u64,
        sequence: u64,
        received_at_tick: u64,
        payload: &[u8],
    ) -> (r: Self)
        ensures
            r == Self::spec_from_payload(kind, source_id, sequence, received_at_tick, payload@),
    {
        assert(payload@.subrange(0, payload@.len() as int) =~= payload@);
        Self::from_range(kind, source_id, sequence, received_at_tick, payload, 0, payload.len())
    }

    pub open spec fn spec_is_valid(self) -> bool {
        &&& self.source_id != 0
        &&& self.sequence != 0
        &&& self.received_at_tick != 0
        &&& self.payload_len != 0
        &&& self.payload_len <= MAX_OBSERVATION_PAYLOAD_BYTES
        &&& self.payload_hash != 0
    }

    /// Whether the frame names its source, position and time, and carries a
    /// bounded, non-empty payload.
    pub fn is_valid(&self) -> (r: bool)
        ensures
            r == self.spec_is_valid(),
    {
        self.source_id != 0 && self.sequence != 0 && self.received_at_tick != 0
            && self.payload_len != 0 && self.payload_len <= MAX_OBSERVATION_PAYLOAD_BYTES as u64
            && self.payload_hash != 0
    }

    pub open spec fn observed_fields(self) -> Seq<u64> {
        seq![
            self.kind.spec_code(),
            self.source_id,
            self.sequence,
            self.received_at_tick,
            self.payload_len,
            self.payload_hash,
        ]
    }

    pub open spec fn spec_observed_hash(self) -> u64 {
        nz(spec_fold_mix(0x9e37_79b9_7f4a_7c15u64, self.observed_fields()))
    }

    /// The hash that addresses what was observed.
    pub fn observed_hash(&self) -> (r: u64)
        ensures
            r == self.spec_observed_hash(),
    {
        let f = [
            self.kind.code(),
            self.source_id,
            self.sequence,
            self.received_at_tick,
            self.payload_len,
            self.payload_hash,
        ];
        assert(f@ =~= self.observed_fields());
        nonzero(fold_mix(0x9e37_79b9_7f4a_7c15u64, &f))
    }

    pub open spec fn spec_record(self) -> ObservationRecord {
        ObservationRecord {
            source_id: self.source_id,
            sequence: self.sequence,
            observed_hash: self.spec_observed_hash(),
            received_at_tick: self.received_at_tick,
        }
    }

    pub fn record(&self) -> (r: ObservationRecord)
        ensures
            r == self.spec_record(),
    {
        ObservationRecord::new(
            self.source_id,
            self.sequence,
            self.observed_hash(),
            self.received_at_tick,
        )
    }
}

/// How far a source has been read: the last accepted sequence number and
/// the hash of what it carried.
#[derive(Clone, Copy, Debug, PartialEq, Eq, Structural)]
pub struct ObservationCursor {
    pub source_id: u64,
    pub last_sequence: u64,
    pub last_observed_hash: u64,
}

impl ObservationCursor {
    pub fn new(source_id: u64) -> (r: Self)
        ensures
            r == (ObservationCursor { source_id, last_sequence: 0, last_observed_hash: 0 }),
    {
        ObservationCursor { source_id, last_sequence: 0, last_observed_hash: 0 }
    }

    pub open spec fn spec_accepts(self, frame: ObservationFrame) -> bool {
        &&& self.source_id != 0
        &&& frame.spec_is_valid()
        &&& frame.source_id == self.source_id
        &&& frame.sequence > self.last_sequence
    }

    /// Whether the frame is valid, from this source, and newer than the cursor.
    pub fn accepts(&self, frame: &ObservationFrame) -> (r: bool)
        ensures
            r == self.spec_accepts(*frame),
    {
        self.source_id != 0 && frame.is_valid() && frame.source_id == self.source_id
            && frame.sequence > self.last_sequence
    }

    /// The cursor after ingesting a frame.
    pub open spec fn spec_after(self, frame: ObservationFrame) -> Self {
        if self.spec_accepts(frame) {
            ObservationCursor {
                last_sequence: frame.sequence,
                last_observed_hash: frame.spec_observed_hash(),
                ..self
            }
        } else {
            self
        }
    }

    /// The record ingesting a frame yields: the frame's record when accepted,
    /// else a record with no observed hash.
    pub open spec fn spec_ingested(self, frame: ObservationFrame) -> ObservationRecord {
        if self.spec_accepts(frame) {
            frame.spec_record()
        } else {
            ObservationRecord {
                source_id: frame.source_id,
                sequence: frame.sequence,
                observed_hash: 0,
                received_at_tick: frame.received_at_tick,
            }
        }
    }

    /// Accepts the frame if it can, moving the cursor to it.
    pub fn ingest(&mut self, frame: &ObservationFrame) -> (r: ObservationRecord)
        ensures
            r == old(self).spec_ingested(*frame),
            *final(self) == old(self).spec_after(*frame),
    {
        if self.accepts(frame) {
            let record = frame.record();
            self.last_sequence = frame.sequence;
            self.last_observed_hash = record.observed_hash;
            record
        } else {
            ObservationRecord::new(frame.source_id, frame.sequence, 0, frame.received_at_tick)
        }
    }

    /// A cursor names its source and either has read nothing yet or holds
    /// both the sequence number and the hash of the last accepted record.
    pub open spec fn spec_is_valid(self) -> bool {
        self.source_id != 0 && (self.last_sequence == 0) == (self.last_observed_hash == 0)
    }

    pub fn is_valid(&self) -> (r: bool)
        ensures
            r == self.spec_is_valid(),
    {
        self.source_id != 0 && (self.last_sequence == 0) == (self.last_observed_hash == 0)
    }
}

impl ObservationRecord {
    pub fn new(source_id: u64, sequence: u64, observed_hash: u64, received_at_tick: u64) -> (r:
        Self)
        ensures
            r == (ObservationRecord { source_id, sequence, observed_hash, received_at_tick }),
    {
        ObservationRecord { source_id, sequence, observed_hash, received_at_tick }
    }

    pub open spec fn spec_is_valid(self) -> bool {
        &&& self.source_id != 0
        &&& self.sequence != 0
        &&& self.observed_hash != 0
        &&& self.received_at_tick != 0
    }

    pub fn is_valid(&self) -> (r: bool)
        ensures
            r == self.spec_is_valid(),
    {
        self.source_id != 0 && self.sequence != 0 && self.observed_hash != 0
            && self.received_at_tick != 0
    }

    pub open spec fn spec_decision(self) -> ObservationDecision {
        if self.spec_is_valid() {
            ObservationDecision::Accepted
        } else {
            ObservationDecision::Rejected
        }
    }

    pub fn decision(&self) -> (r: ObservationDecision)
        ensures
            r == self.spec_decision(),
    {
        if self.is_valid() {
            ObservationDecision::Accepted
        } else {
            ObservationDecision::Rejected
        }
    }

    pub open spec fn spec_submission(self) -> EvidenceSubmission {
        EvidenceSubmission {
            gate: GateId::Invariant,
            evidence: Evidence::InvariantProof,
            passed: self.spec_decision() == ObservationDecision::Accepted,
            payload_hash: spec_observation_payload_hash(self),
            effect: PacketEffect::Noop,
        }
    }

    /// Invariant evidence that passes for an accepted record.
    pub fn submission(&self) -> (r: EvidenceSubmission)
        ensures
            r == self.spec_submission(),
    {
        let passed = match self.decision() {
            ObservationDecision::Accepted => true,
            ObservationDecision::Rejected => false,
        };
        EvidenceSubmission::with_payload(
            GateId::Invariant,
            Evidence::InvariantProof,
            passed,
            observation_payload_hash(self),
        )
    }
}

pub open spec fn observation_payload_fields(record: ObservationRecord) -> Seq<u64> {
    seq![record.source_id, record.sequence, record.observed_hash, record.received_at_tick]
}

pub open spec fn spec_observation_payload_hash(record: ObservationRecord) -> u64 {
    nz(spec_fold_mix(0xcbf2_9ce4_8422_2325u64, observation_payload_fields(record)))
}

pub fn observation_payload_hash(record: &ObservationRecord) -> (r: u64)
    ensures
        r == spec_observation_payload_hash(*record),
{
    let f = [record.source_id, record.sequence, record.observed_hash, record.received_at_tick];
    assert(f@ =~= observation_payload_fields(*record));
    nonzero(fold_mix(0xcbf2_9ce4_8422_2325u64, &f))
}

/// A frame accepted by a cursor yields a valid record, and the cursor moves
/// to that record's sequence number and hash; a refused frame leaves the
/// cursor where it was and yields a record that is not valid.
pub proof fn lemma_cursor_ingest(cursor: ObservationCursor, frame: ObservationFrame)
    ensures
        cursor.spec_accepts(frame) ==> {
            &&& cursor.spec_ingested(frame).spec_is_valid()
            &&& cursor.spec_after(frame).last_sequence == cursor.spec_ingested(frame).sequence
            &&& cursor.spec_after(frame).last_observed_hash == cursor.spec_ingested(
                frame,
            ).observed_hash
            &&& cursor.spec_after(frame).last_sequence > cursor.last_sequence
        },
        !cursor.spec_accepts(frame) ==> {
            &&& cursor.spec_after(frame) == cursor
            &&& !cursor.spec_ingested(frame).spec_is_valid()
        },
        cursor.spec_after(frame).source_id == cursor.source_id,
{
}

impl EvidenceProducer for ObservationRecord {
    type Record = ObservationRecord;

    fn record(&self) -> (r: &ObservationRecord)
        ensures
            r == self,
    {
        self
    }

    fn submission(&self) -> (r: EvidenceSubmission)
        ensures
            r == self.spec_submission(),
    {
        ObservationRecord::submission(self)
    }
}

} // verus!
