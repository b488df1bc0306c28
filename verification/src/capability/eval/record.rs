//! Durable eval payload owned by the eval capability.
use vstd::prelude::*;
use crate::capability::EvidenceProducer;
use vstd::string::StringSliceAdditionalSpecFns;
use crate::codec::{
    encode_u64_list, encode_u64_list_exec, lemma_u64_list_round_trip, parse_u64_list,
    parse_u64_list_exec,
};
use crate::error::CanonError;
use crate::kernel::{
    mix, nonzero, nz, spec_mix, spec_text_hash, text_hash, Evidence, EvidenceSubmission, GateId,
    PacketEffect,
};

verus! {

pub const EVAL_SCORECARD_SCHEMA_VERSION: u64 = 1;

pub const EVAL_SCORECARD_RECORD: u64 = 0x0e7a_5001;

#[derive(Clone, Copy, Debug, PartialEq, Eq)]
pub struct EvalDimension {
    pub id: &'static str,
    pub score: u64,
    pub threshold: u64,
}

#[derive(Clone, Debug, PartialEq, Eq)]
pub struct EvalRecord {
    pub score: u64,
    pub dimensions: Vec<EvalDimension>,
    pub threshold_used: u64,
}

#[derive(Clone, Copy, Debug, PartialEq, Eq, Structural)]
pub enum EvalDecision {
    Pass,
    Fail,
}

impl EvalDecision {
    pub open spec fn spec_code(self) -> u64 {
        match self {
            EvalDecision::Pass => 0,
            EvalDecision::Fail => 1,
        }
    }

    pub fn code(self) -> (r: u64)
        ensures
            r == self.spec_code(),
    {
        match self {
            EvalDecision::Pass => 0,
            EvalDecision::Fail => 1,
        }
    }
}

#[derive(Clone, Copy, Debug, PartialEq, Eq, Structural)]
pub struct EvalScorecardReceipt {
    pub schema_version: u64,
    pub record_type: u64,
    pub score: u64,
    pub threshold_used: u64,
    pub dimension_count: u64,
    pub min_dimension_score: u64,
    pub max_dimension_score: u64,
    pub dimension_threshold_floor: u64,
    pub dimension_order_hash: u64,
    pub dimension_score_hash: u64,
    pub payload_hash: u64,
    pub verdict: EvalDecision,
    pub receipt_hash: u64,
}

pub open spec fn dims_all_pass(dims: Seq<EvalDimension>) -> bool {
    forall|i: int| 0 <= i < dims.len() ==> #[trigger] dims[i].score >= dims[i].threshold
}

pub open spec fn spec_eval_decision(score: u64, threshold_used: u64, dims: Seq<EvalDimension>) -> EvalDecision {
    if score >= threshold_used && dims.len() > 0 && dims_all_pass(dims) {
        EvalDecision::Pass
    } else {
        EvalDecision::Fail
    }
}

pub open spec fn spec_dim_id_hash(d: EvalDimension) -> u64 {
    spec_text_hash(d.id.spec_bytes())
}

pub open spec fn fold_payload(h: u64, dims: Seq<EvalDimension>) -> u64
    decreases dims.len(),
{
    if dims.len() == 0 {
        h
    } else {
        let d = dims.last();
        spec_mix(
            spec_mix(spec_mix(fold_payload(h, dims.drop_last()), spec_dim_id_hash(d)), d.score),
            d.threshold,
        )
    }
}

pub open spec fn spec_eval_payload_hash(score: u64, threshold_used: u64, dims: Seq<EvalDimension>) -> u64 {
    nz(fold_payload(spec_mix(spec_mix(0x510e_527f_ade6_82d1u64, score), threshold_used), dims))
}

pub fn eval_payload_hash(record: &EvalRecord) -> (r: u64)
    ensures
        r == spec_eval_payload_hash(record.score, record.threshold_used, record.dimensions@),
{
    let mut h = mix(0x510e_527f_ade6_82d1u64, record.score);
    h = mix(h, record.threshold_used);
    let ghost seed = h;
    let mut i: usize = 0;
    while i < record.dimensions.len()
        invariant
            i <= record.dimensions@.len(),
            seed == spec_mix(spec_mix(0x510e_527f_ade6_82d1u64, record.score), record.threshold_used),
            h == fold_payload(seed, record.dimensions@.take(i as int)),
        decreases record.dimensions@.len() - i,
    {
        assert(record.dimensions@.take(i as int + 1).drop_last() =~= record.dimensions@.take(i as int));
        let d = record.dimensions[i];
        h = mix(h, text_hash(d.id));
        h = mix(h, d.score);
        h = mix(h, d.threshold);
        i = i + 1;
    }
    assert(record.dimensions@.take(i as int) =~= record.dimensions@);
    nonzero(h)
}

/// Folds the dimension ids, and with `with_scores` also scores and
/// thresholds.
pub open spec fn fold_dims(h: u64, dims: Seq<EvalDimension>, with_scores: bool) -> u64
    decreases dims.len(),
{
    if dims.len() == 0 {
        h
    } else {
        let d = dims.last();
        let h1 = spec_mix(fold_dims(h, dims.drop_last(), with_scores), spec_dim_id_hash(d));
        if with_scores {
            spec_mix(spec_mix(h1, d.score), d.threshold)
        } else {
            h1
        }
    }
}

pub open spec fn spec_dimension_hash(seed: u64, dims: Seq<EvalDimension>, with_scores: bool) -> u64 {
    nz(fold_dims(spec_mix(seed, dims.len() as u64), dims, with_scores))
}

fn dimension_hash(seed: u64, dimensions: &Vec<EvalDimension>, with_scores: bool) -> (r: u64)
    ensures
        r == spec_dimension_hash(seed, dimensions@, with_scores),
{
    let mut h = mix(seed, dimensions.len() as u64);
    let ghost h0 = h;
    let mut i: usize = 0;
    while i < dimensions.len()
        invariant
            i <= dimensions@.len(),
            h0 == spec_mix(seed, dimensions@.len() as u64),
            h == fold_dims(h0, dimensions@.take(i as int), with_scores),
        decreases dimensions@.len() - i,
    {
        assert(dimensions@.take(i as int + 1).drop_last() =~= dimensions@.take(i as int));
        let d = dimensions[i];
        h = mix(h, text_hash(d.id));
        if with_scores {
            h = mix(h, d.score);
            h = mix(h, d.threshold);
        }
        i = i + 1;
    }
    assert(dimensions@.take(i as int) =~= dimensions@);
    nonzero(h)
}

pub open spec fn spec_dimension_order_hash(dims: Seq<EvalDimension>) -> u64 {
    spec_dimension_hash(0x0e7a_0d0e_51a7_0001u64, dims, false)
}

pub open spec fn spec_dimension_score_hash(dims: Seq<EvalDimension>) -> u64 {
    spec_dimension_hash(0x0e7a_5c02_e15a_0001u64, dims, true)
}

/// Hash of the dimension ids in order, blind to scores and thresholds.
pub fn dimension_order_hash(dimensions: &Vec<EvalDimension>) -> (r: u64)
    ensures
        r == spec_dimension_order_hash(dimensions@),
{
    dimension_hash(0x0e7a_0d0e_51a7_0001u64, dimensions, false)
}

/// Hash of the dimension ids, scores and thresholds in order.
pub fn dimension_score_hash(dimensions: &Vec<EvalDimension>) -> (r: u64)
    ensures
        r == spec_dimension_score_hash(dimensions@),
{
    dimension_hash(0x0e7a_5c02_e15a_0001u64, dimensions, true)
}

/// Smallest score, or smallest threshold, of the dimensions; zero for none.
pub open spec fn spec_min_field(dims: Seq<EvalDimension>, thresholds: bool) -> u64
    decreases dims.len(),
{
    if dims.len() == 0 {
        0
    } else {
        let v = if thresholds {
            dims.last().threshold
        } else {
            dims.last().score
        };
        if dims.len() == 1 {
            v
        } else {
            let m = spec_min_field(dims.drop_last(), thresholds);
            if v < m {
                v
            } else {
                m
            }
        }
    }
}

/// Largest score of the dimensions; zero for none.
pub open spec fn spec_max_score(dims: Seq<EvalDimension>) -> u64
    decreases dims.len(),
{
    if dims.len() == 0 {
        0
    } else {
        let m = spec_max_score(dims.drop_last());
        if dims.last().score > m {
            dims.last().score
        } else {
            m
        }
    }
}

fn min_field(dims: &Vec<EvalDimension>, thresholds: bool) -> (r: u64)
    ensures
        r == spec_min_field(dims@, thresholds),
{
    let mut m: u64 = 0;
    let mut i: usize = 0;
    while i < dims.len()
        invariant
            i <= dims@.len(),
            m == spec_min_field(dims@.take(i as int), thresholds),
        decreases dims@.len() - i,
    {
        assert(dims@.take(i as int + 1).drop_last() =~= dims@.take(i as int));
        let v = if thresholds {
            dims[i].threshold
        } else {
            dims[i].score
        };
        if i == 0 || v < m {
            m = v;
        }
        i = i + 1;
    }
    assert(dims@.take(i as int) =~= dims@);
    m
}

fn max_score(dims: &Vec<EvalDimension>) -> (r: u64)
    ensures
        r == spec_max_score(dims@),
{
    let mut m: u64 = 0;
    let mut i: usize = 0;
    while i < dims.len()
        invariant
            i <= dims@.len(),
            m == spec_max_score(dims@.take(i as int)),
        decreases dims@.len() - i,
    {
        assert(dims@.take(i as int + 1).drop_last() =~= dims@.take(i as int));
        if dims[i].score > m {
            m = dims[i].score;
        }
        i = i + 1;
    }
    assert(dims@.take(i as int) =~= dims@);
    m
}

impl EvalRecord {
    pub open spec fn spec_decision(&self) -> EvalDecision {
        spec_eval_decision(self.score, self.threshold_used, self.dimensions@)
    }

    pub fn decision(&self) -> (r: EvalDecision)
        ensures
            r == self.spec_decision(),
            r == EvalDecision::Pass <==> (self.score >= self.threshold_used && self.dimensions@.len()
                > 0 && forall|i: int|
                0 <= i < self.dimensions@.len() ==> (#[trigger] self.dimensions@[i]).score
                    >= self.dimensions@[i].threshold),
    {
        proof {
            lemma_eval_pass_needs_every_dimension(*self);
        }
        if self.score < self.threshold_used || self.dimensions.len() == 0 {
            return EvalDecision::Fail;
        }
        let mut i: usize = 0;
        while i < self.dimensions.len()
            invariant
                i <= self.dimensions@.len(),
                forall|k: int| 0 <= k < i ==> #[trigger] self.dimensions@[k].score >= self.dimensions@[k].threshold,
            decreases self.dimensions@.len() - i,
        {
            if self.dimensions[i].score < self.dimensions[i].threshold {
                return EvalDecision::Fail;
            }
            i = i + 1;
        }
        EvalDecision::Pass
    }

    pub fn scorecard_receipt(&self) -> (r: EvalScorecardReceipt)
        ensures
            r == EvalScorecardReceipt::spec_from_record(self),
    {
        EvalScorecardReceipt::from_record(self)
    }

    pub fn submission(&self) -> (r: EvidenceSubmission)
        ensures
            r == (EvidenceSubmission {
                gate: GateId::Eval,
                evidence: Evidence::EvalScore,
                passed: self.spec_decision() == EvalDecision::Pass,
                payload_hash: spec_eval_payload_hash(self.score, self.threshold_used, self.dimensions@),
                effect: if self.spec_decision() == EvalDecision::Pass {
                    PacketEffect::CompleteObjective
                } else {
                    PacketEffect::Noop
                },
            }),
    {
        let passed = self.decision() == EvalDecision::Pass;
        EvidenceSubmission::with_effect_payload(
            GateId::Eval,
            Evidence::EvalScore,
            passed,
            if passed {
                PacketEffect::CompleteObjective
            } else {
                PacketEffect::Noop
            },
            eval_payload_hash(self),
        )
    }
}

impl EvalScorecardReceipt {
    pub open spec fn spec_expected_receipt_hash(self) -> u64 {
        let h = spec_mix(0x0e7a_5c0f_eeca_1001u64, self.schema_version);
        let h = spec_mix(h, self.record_type);
        let h = spec_mix(h, self.score);
        let h = spec_mix(h, self.threshold_used);
        let h = spec_mix(h, self.dimension_count);
        let h = spec_mix(h, self.min_dimension_score);
        let h = spec_mix(h, self.max_dimension_score);
        let h = spec_mix(h, self.dimension_threshold_floor);
        let h = spec_mix(h, self.dimension_order_hash);
        let h = spec_mix(h, self.dimension_score_hash);
        let h = spec_mix(h, self.payload_hash);
        let h = spec_mix(h, self.verdict.spec_code());
        nz(h)
    }

    pub fn expected_receipt_hash(self) -> (r: u64)
        ensures
            r == self.spec_expected_receipt_hash(),
    {
        let mut h = mix(0x0e7a_5c0f_eeca_1001u64, self.schema_version);
        h = mix(h, self.record_type);
        h = mix(h, self.score);
        h = mix(h, self.threshold_used);
        h = mix(h, self.dimension_count);
        h = mix(h, self.min_dimension_score);
        h = mix(h, self.max_dimension_score);
        h = mix(h, self.dimension_threshold_floor);
        h = mix(h, self.dimension_order_hash);
        h = mix(h, self.dimension_score_hash);
        h = mix(h, self.payload_hash);
        h = mix(h, self.verdict.code());
        nonzero(h)
    }

    pub open spec fn spec_from_record(record: &EvalRecord) -> EvalScorecardReceipt {
        let dims = record.dimensions@;
        let base = EvalScorecardReceipt {
            schema_version: EVAL_SCORECARD_SCHEMA_VERSION,
            record_type: EVAL_SCORECARD_RECORD,
            score: record.score,
            threshold_used: record.threshold_used,
            dimension_count: dims.len() as u64,
            min_dimension_score: spec_min_field(dims, false),
            max_dimension_score: spec_max_score(dims),
            dimension_threshold_floor: spec_min_field(dims, true),
            dimension_order_hash: spec_dimension_order_hash(dims),
            dimension_score_hash: spec_dimension_score_hash(dims),
            payload_hash: spec_eval_payload_hash(record.score, record.threshold_used, dims),
            verdict: record.spec_decision(),
            receipt_hash: 0,
        };
        EvalScorecardReceipt { receipt_hash: base.spec_expected_receipt_hash(), ..base }
    }

    pub fn from_record(record: &EvalRecord) -> (r: Self)
        ensures
            r == Self::spec_from_record(record),
    {
        let mut receipt = EvalScorecardReceipt {
            schema_version: EVAL_SCORECARD_SCHEMA_VERSION,
            record_type: EVAL_SCORECARD_RECORD,
            score: record.score,
            threshold_used: record.threshold_used,
            dimension_count: record.dimensions.len() as u64,
            min_dimension_score: min_field(&record.dimensions, false),
            max_dimension_score: max_score(&record.dimensions),
            dimension_threshold_floor: min_field(&record.dimensions, true),
            dimension_order_hash: dimension_order_hash(&record.dimensions),
            dimension_score_hash: dimension_score_hash(&record.dimensions),
            payload_hash: eval_payload_hash(record),
            verdict: record.decision(),
            receipt_hash: 0,
        };
        receipt.receipt_hash = receipt.expected_receipt_hash();
        receipt
    }

    pub open spec fn spec_is_self_consistent(self) -> bool {
        &&& self.schema_version == EVAL_SCORECARD_SCHEMA_VERSION
        &&& self.record_type == EVAL_SCORECARD_RECORD
        &&& self.dimension_count != 0
        &&& self.payload_hash != 0
        &&& self.dimension_order_hash != 0
        &&& self.dimension_score_hash != 0
        &&& self.receipt_hash == self.spec_expected_receipt_hash()
    }

    pub fn is_self_consistent(self) -> (r: bool)
        ensures
            r == self.spec_is_self_consistent(),
    {
        self.schema_version == EVAL_SCORECARD_SCHEMA_VERSION && self.record_type
            == EVAL_SCORECARD_RECORD && self.dimension_count != 0 && self.payload_hash != 0
            && self.dimension_order_hash != 0 && self.dimension_score_hash != 0
            && self.receipt_hash == self.expected_receipt_hash()
    }

    pub fn is_valid_for(self, record: &EvalRecord) -> (r: bool)
        ensures
            r == (self == Self::spec_from_record(record) && self.spec_is_self_consistent()),
    {
        self == EvalScorecardReceipt::from_record(record) && self.is_self_consistent()
    }

    pub fn submission(self) -> (r: EvidenceSubmission)
        ensures
            r == (EvidenceSubmission {
                gate: GateId::Eval,
                evidence: Evidence::EvalScore,
                passed: self.spec_is_self_consistent() && self.verdict == EvalDecision::Pass,
                payload_hash: self.receipt_hash,
                effect: if self.verdict == EvalDecision::Pass {
                    PacketEffect::CompleteObjective
                } else {
                    PacketEffect::Noop
                },
            }),
    {
        EvidenceSubmission::with_effect_payload(
            GateId::Eval,
            Evidence::EvalScore,
            self.is_self_consistent() && self.verdict == EvalDecision::Pass,
            if self.verdict == EvalDecision::Pass {
                PacketEffect::CompleteObjective
            } else {
                PacketEffect::Noop
            },
            self.receipt_hash,
        )
    }
}

/// The stored fields of a scorecard receipt, in line order.
pub open spec fn spec_scorecard_fields(r: EvalScorecardReceipt) -> Seq<u64> {
    seq![
        r.schema_version,
        r.record_type,
        r.score,
        r.threshold_used,
        r.dimension_count,
        r.min_dimension_score,
        r.max_dimension_score,
        r.dimension_threshold_floor,
        r.dimension_order_hash,
        r.dimension_score_hash,
        r.payload_hash,
        if r.verdict == EvalDecision::Pass {
            1u64
        } else {
            2u64
        },
        r.receipt_hash,
    ]
}

pub fn encode_eval_scorecard_receipt_ndjson(receipt: EvalScorecardReceipt) -> (s: String)
    ensures
        s@ == encode_u64_list(spec_scorecard_fields(receipt)),
{
    let verdict: u64 = match receipt.verdict {
        EvalDecision::Pass => 1,
        EvalDecision::Fail => 2,
    };
    let fields = [
        receipt.schema_version,
        receipt.record_type,
        receipt.score,
        receipt.threshold_used,
        receipt.dimension_count,
        receipt.min_dimension_score,
        receipt.max_dimension_score,
        receipt.dimension_threshold_floor,
        receipt.dimension_order_hash,
        receipt.dimension_score_hash,
        receipt.payload_hash,
        verdict,
        receipt.receipt_hash,
    ];
    assert(fields@ =~= spec_scorecard_fields(receipt));
    encode_u64_list_exec(&fields)
}

/// The receipt a line holds, when its fields are well formed.
pub open spec fn spec_scorecard_from_fields(f: Seq<u64>) -> Option<EvalScorecardReceipt> {
    if f.len() == 13 && f[0] == EVAL_SCORECARD_SCHEMA_VERSION && f[1] == EVAL_SCORECARD_RECORD && (
    f[11] == 1 || f[11] == 2) {
        Some(
            EvalScorecardReceipt {
                schema_version: f[0],
                record_type: f[1],
                score: f[2],
                threshold_used: f[3],
                dimension_count: f[4],
                min_dimension_score: f[5],
                max_dimension_score: f[6],
                dimension_threshold_floor: f[7],
                dimension_order_hash: f[8],
                dimension_score_hash: f[9],
                payload_hash: f[10],
                verdict: if f[11] == 1 {
                    EvalDecision::Pass
                } else {
                    EvalDecision::Fail
                },
                receipt_hash: f[12],
            },
        )
    } else {
        None
    }
}

pub open spec fn spec_decode_scorecard(line: Seq<char>) -> Option<EvalScorecardReceipt> {
    match parse_u64_list(line) {
        Some(f) => match spec_scorecard_from_fields(f) {
            Some(r) => if r.spec_is_self_consistent() {
                Some(r)
            } else {
                None
            },
            None => None,
        },
        None => None,
    }
}

/// A self-consistent scorecard receipt written as a record line reads back
/// as the same receipt.
pub proof fn lemma_scorecard_ndjson_round_trip(receipt: EvalScorecardReceipt)
    requires
        receipt.spec_is_self_consistent(),
    ensures
        spec_decode_scorecard(encode_u64_list(spec_scorecard_fields(receipt))) == Some(receipt),
{
    lemma_u64_list_round_trip(spec_scorecard_fields(receipt));
}

pub fn decode_eval_scorecard_receipt_ndjson(line: &str) -> (r: Result<EvalScorecardReceipt, CanonError>)
    ensures
        match r {
            Ok(rc) => spec_decode_scorecard(line@) == Some(rc),
            Err(e) => spec_decode_scorecard(line@) is None && e == CanonError::InvalidTlogRecord,
        },
{
    let f = match parse_u64_list_exec(line) {
        Some(f) => f,
        None => {
            return Err(CanonError::InvalidTlogRecord);
        },
    };
    if f.len() != 13 {
        return Err(CanonError::InvalidTlogRecord);
    }
    if f[0] != EVAL_SCORECARD_SCHEMA_VERSION || f[1] != EVAL_SCORECARD_RECORD {
        return Err(CanonError::InvalidTlogRecord);
    }
    let verdict = if f[11] == 1 {
        EvalDecision::Pass
    } else if f[11] == 2 {
        EvalDecision::Fail
    } else {
        return Err(CanonError::InvalidTlogRecord);
    };
    let receipt = EvalScorecardReceipt {
        schema_version: f[0],
        record_type: f[1],
        score: f[2],
        threshold_used: f[3],
        dimension_count: f[4],
        min_dimension_score: f[5],
        max_dimension_score: f[6],
        dimension_threshold_floor: f[7],
        dimension_order_hash: f[8],
        dimension_score_hash: f[9],
        payload_hash: f[10],
        verdict,
        receipt_hash: f[12],
    };
    if !receipt.is_self_consistent() {
        return Err(CanonError::InvalidTlogRecord);
    }
    Ok(receipt)
}

impl EvidenceProducer for EvalRecord {
    type Record = EvalRecord;

    fn record(&self) -> (r: &EvalRecord)
        ensures
            r == self,
    {
        self
    }

    fn submission(&self) -> (r: EvidenceSubmission)
        ensures
            r == (EvidenceSubmission {
                gate: GateId::Eval,
                evidence: Evidence::EvalScore,
                passed: self.spec_decision() == EvalDecision::Pass,
                payload_hash: spec_eval_payload_hash(self.score, self.threshold_used, self.dimensions@),
                effect: if self.spec_decision() == EvalDecision::Pass {
                    PacketEffect::CompleteObjective
                } else {
                    PacketEffect::Noop
                },
            }),
    {
        EvalRecord::submission(self)
    }
}

/// An eval record passes exactly when its overall score reaches the
/// threshold used, it has at least one dimension, and every dimension's
/// score reaches that dimension's own threshold: a single dimension below
/// its threshold makes the record fail, whatever its overall score.
pub proof fn lemma_eval_pass_needs_every_dimension(record: EvalRecord)
    ensures
        record.spec_decision() == EvalDecision::Pass <==> (record.score >= record.threshold_used
            && record.dimensions@.len() > 0 && forall|i: int|
            0 <= i < record.dimensions@.len() ==> (#[trigger] record.dimensions@[i]).score
                >= record.dimensions@[i].threshold),
        forall|i: int|
            0 <= i < record.dimensions@.len() && (#[trigger] record.dimensions@[i]).score
                < record.dimensions@[i].threshold ==> record.spec_decision() == EvalDecision::Fail,
        record.score < record.threshold_used ==> record.spec_decision() == EvalDecision::Fail,
{
}

} // verus!
