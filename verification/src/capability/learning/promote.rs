//! Policy promotion derived from the transition log, and the distillation
//! row a verified promotion may export.
use vstd::prelude::*;
use crate::capability::EvidenceProducer;
use crate::capability::policy::store::{
    spec_key_id, spec_latest_version, PolicyEntry, PolicyStore, PolicyStoreError,
    POLICY_FEEDBACK_HASH, POLICY_PROMOTION_SOURCE_SEQ,
};
use crate::codec::encode_u64_list;
use crate::kernel::{
    fold_mix, mix, nonzero, nz, spec_fold_mix, spec_mix, ControlEvent, EventKind, Evidence,
    EvidenceSubmission, GateId, GateStatus, PacketEffect, Phase,
};
use crate::text::{push_char, push_decimal, spec_decimal};

verus! {

pub const DISTILLATION_ROW_SCHEMA_VERSION: u64 = 1;

pub const DISTILLATION_ROW_RECORD: u64 = 0x4449_5354_3031_3031;

#[derive(Clone, Copy, Debug, PartialEq, Eq, Structural)]
pub struct PolicyPromotion {
    pub source_seq: u64,
    pub promoted_policy_version: u64,
    pub judgment_seq: u64,
    pub eval_seq: u64,
    pub completion_seq: u64,
    pub promoted_policy_hash: u64,
    pub evidence: Evidence,
}

#[derive(Clone, Copy, Debug, PartialEq, Eq, Structural)]
pub struct DistillationRow {
    pub schema_version: u64,
    pub instruction_hash: u64,
    pub input_state_hash: u64,
    pub action_hash: u64,
    pub output_hash: u64,
    pub score: u64,
    pub proof_hash: u64,
    pub source_event: u64,
    pub row_hash: u64,
}

#[derive(Clone, Copy, Debug, PartialEq, Eq, Structural)]
pub enum DistillationExportError {
    InvalidTlog,
    NoVerifiedPromotion,
    InvalidRow,
    Io,
}

#[derive(Clone, Copy, Debug, PartialEq, Eq, Structural)]
pub struct DistillationExportInput {
    pub promoted_policy_version: u64,
    pub instruction_hash: u64,
    pub input_state_hash: u64,
    pub action_hash: u64,
    pub output_hash: u64,
    pub score: u64,
    pub proof_hash: u64,
    pub minimum_score: u64,
}

#[derive(Clone, Copy, Debug, PartialEq, Eq, Structural)]
pub struct DistillationExportReceipt {
    pub schema_version: u64,
    pub source_event: u64,
    pub row_count: u64,
    pub output_hash: u64,
    pub proof_hash: u64,
    pub receipt_hash: u64,
}

/// The event that persisted the evaluation score.
pub open spec fn is_eval_persist(e: ControlEvent) -> bool {
    e.kind == EventKind::Advanced && e.to == Phase::Persist && e.evidence == Evidence::EvalScore
}

/// An advanced judgment event before the given sequence number.
pub open spec fn is_judgment_before(e: ControlEvent, seq: u64) -> bool {
    e.seq < seq && e.kind == EventKind::Advanced && e.evidence == Evidence::JudgmentRecord
}

/// An event that learned or completed the objective.
pub open spec fn is_completion(e: ControlEvent) -> bool {
    e.kind == EventKind::Learned || e.kind == EventKind::Completed
}

pub open spec fn eval_pred() -> spec_fn(ControlEvent) -> bool {
    |e: ControlEvent| is_eval_persist(e)
}

pub open spec fn judgment_pred(seq: u64) -> spec_fn(ControlEvent) -> bool {
    |e: ControlEvent| is_judgment_before(e, seq)
}

pub open spec fn completion_pred() -> spec_fn(ControlEvent) -> bool {
    |e: ControlEvent| is_completion(e)
}

/// The index of the last event that satisfies `p`.
pub open spec fn last_where(s: Seq<ControlEvent>, p: spec_fn(ControlEvent) -> bool) -> Option<int>
    decreases s.len(),
{
    if s.len() == 0 {
        None
    } else if p(s.last()) {
        Some(s.len() - 1)
    } else {
        last_where(s.drop_last(), p)
    }
}

pub open spec fn spec_promotion_hash(
    version: u64,
    judgment: ControlEvent,
    eval: ControlEvent,
    completion: ControlEvent,
) -> u64 {
    nz(
        spec_fold_mix(
            0x732f_6a61_2d70_6f6cu64,
            seq![
                version,
                judgment.seq,
                judgment.self_hash,
                eval.seq,
                eval.self_hash,
                completion.seq,
                completion.self_hash,
            ],
        ),
    )
}

fn promotion_hash(
    version: u64,
    judgment: &ControlEvent,
    eval: &ControlEvent,
    completion: &ControlEvent,
) -> (r: u64)
    ensures
        r == spec_promotion_hash(version, *judgment, *eval, *completion),
{
    let fields = [
        version,
        judgment.seq,
        judgment.self_hash,
        eval.seq,
        eval.self_hash,
        completion.seq,
        completion.self_hash,
    ];
    assert(fields@ =~= seq![
        version,
        judgment.seq,
        judgment.self_hash,
        eval.seq,
        eval.self_hash,
        completion.seq,
        completion.self_hash,
    ]);
    nonzero(fold_mix(0x732f_6a61_2d70_6f6cu64, &fields))
}

/// The promotion a log supports: its last persisted evaluation, the last
/// judgment before it, and its last learned or completed event.
pub open spec fn spec_promotion_from_tlog(tlog: Seq<ControlEvent>, version: u64) -> Option<
    PolicyPromotion,
> {
    match last_where(tlog, eval_pred()) {
        None => None,
        Some(ei) => {
            let eval = tlog[ei];
            match last_where(tlog, judgment_pred(eval.seq)) {
                None => None,
                Some(ji) => match last_where(tlog, completion_pred()) {
                    None => None,
                    Some(ci) => Some(
                        PolicyPromotion {
                            source_seq: eval.seq,
                            promoted_policy_version: version,
                            judgment_seq: tlog[ji].seq,
                            eval_seq: eval.seq,
                            completion_seq: tlog[ci].seq,
                            promoted_policy_hash: spec_promotion_hash(
                                version,
                                tlog[ji],
                                eval,
                                tlog[ci],
                            ),
                            evidence: Evidence::PolicyPromotion,
                        },
                    ),
                },
            }
        },
    }
}

proof fn lemma_last_where_bounds(s: Seq<ControlEvent>, p: spec_fn(ControlEvent) -> bool)
    ensures
        match last_where(s, p) {
            Some(i) => 0 <= i < s.len() && p(s[i]),
            None => true,
        },
    decreases s.len(),
{
    if s.len() > 0 && !p(s.last()) {
        lemma_last_where_bounds(s.drop_last(), p);
    }
}

/// Scans from the end for the last event that satisfies `p`, given that
/// the events after `hi` do not.
proof fn lemma_last_where_prefix(s: Seq<ControlEvent>, p: spec_fn(ControlEvent) -> bool, hi: int)
    requires
        0 <= hi <= s.len(),
        forall|k: int| hi <= k < s.len() ==> !p(#[trigger] s[k]),
    ensures
        last_where(s, p) == last_where(s.take(hi), p),
    decreases s.len() - hi,
{
    if hi < s.len() {
        assert(s.drop_last().take(hi) =~= s.take(hi));
        lemma_last_where_prefix(s.drop_last(), p, hi);
    } else {
        assert(s.take(hi) =~= s);
    }
}

fn find_last_eval(tlog: &[ControlEvent]) -> (r: Option<usize>)
    ensures
        match r {
            Some(i) => last_where(tlog@, eval_pred()) == Some(i as int),
            None => last_where(tlog@, eval_pred()) is None,
        },
{
    let ghost p = eval_pred();
    let mut hi = tlog.len();
    while hi > 0
        invariant
            hi <= tlog@.len(),
            p == eval_pred(),
            forall|k: int| hi <= k < tlog@.len() ==> !p(#[trigger] tlog@[k]),
        decreases hi,
    {
        let e = &tlog[hi - 1];
        if e.kind == EventKind::Advanced && e.to == Phase::Persist && e.evidence == Evidence::EvalScore {
            proof {
                lemma_last_where_prefix(tlog@, p, hi as int);
                assert(tlog@.take(hi as int).last() == tlog@[hi - 1]);
                assert(p(tlog@[hi - 1]));
            }
            return Some(hi - 1);
        }
        assert(!p(tlog@[hi - 1]));
        hi = hi - 1;
    }
    proof {
        lemma_last_where_prefix(tlog@, p, 0);
    }
    None
}

fn find_last_judgment_before(tlog: &[ControlEvent], seq: u64) -> (r: Option<usize>)
    ensures
        match r {
            Some(i) => last_where(tlog@, judgment_pred(seq)) == Some(
                i as int,
            ),
            None => last_where(tlog@, judgment_pred(seq)) is None,
        },
{
    let ghost p = judgment_pred(seq);
    let mut hi = tlog.len();
    while hi > 0
        invariant
            hi <= tlog@.len(),
            p == judgment_pred(seq),
            forall|k: int| hi <= k < tlog@.len() ==> !p(#[trigger] tlog@[k]),
        decreases hi,
    {
        let e = &tlog[hi - 1];
        if e.seq < seq && e.kind == EventKind::Advanced && e.evidence == Evidence::JudgmentRecord {
            proof {
                lemma_last_where_prefix(tlog@, p, hi as int);
                assert(tlog@.take(hi as int).last() == tlog@[hi - 1]);
                assert(p(tlog@[hi - 1]));
            }
            return Some(hi - 1);
        }
        assert(!p(tlog@[hi - 1]));
        hi = hi - 1;
    }
    proof {
        lemma_last_where_prefix(tlog@, p, 0);
    }
    None
}

fn find_last_completion(tlog: &[ControlEvent]) -> (r: Option<usize>)
    ensures
        match r {
            Some(i) => last_where(tlog@, completion_pred()) == Some(i as int),
            None => last_where(tlog@, completion_pred()) is None,
        },
{
    let ghost p = completion_pred();
    let mut hi = tlog.len();
    while hi > 0
        invariant
            hi <= tlog@.len(),
            p == completion_pred(),
            forall|k: int| hi <= k < tlog@.len() ==> !p(#[trigger] tlog@[k]),
        decreases hi,
    {
        let e = &tlog[hi - 1];
        if e.kind == EventKind::Learned || e.kind == EventKind::Completed {
            proof {
                lemma_last_where_prefix(tlog@, p, hi as int);
                assert(tlog@.take(hi as int).last() == tlog@[hi - 1]);
                assert(p(tlog@[hi - 1]));
            }
            return Some(hi - 1);
        }
        assert(!p(tlog@[hi - 1]));
        hi = hi - 1;
    }
    proof {
        lemma_last_where_prefix(tlog@, p, 0);
    }
    None
}

impl PolicyPromotion {
    /// The promotion a log supports, if it holds a persisted evaluation, a
    /// judgment before it, and a learned or completed event.
    pub fn from_tlog(tlog: &[ControlEvent], promoted_policy_version: u64) -> (r: Option<Self>)
        ensures
            r == spec_promotion_from_tlog(tlog@, promoted_policy_version),
    {
        let ei = match find_last_eval(tlog) {
            Some(i) => i,
            None => return None,
        };
        proof {
            lemma_last_where_bounds(tlog@, eval_pred());
        }
        let eval = &tlog[ei];
        let ji = match find_last_judgment_before(tlog, eval.seq) {
            Some(i) => i,
            None => return None,
        };
        proof {
            lemma_last_where_bounds(tlog@, judgment_pred(eval.seq));
        }
        let ci = match find_last_completion(tlog) {
            Some(i) => i,
            None => return None,
        };
        proof {
            lemma_last_where_bounds(tlog@, completion_pred());
        }
        let judgment = &tlog[ji];
        let completion = &tlog[ci];
        let promoted_policy_hash = promotion_hash(promoted_policy_version, judgment, eval, completion);
        Some(
            PolicyPromotion {
                source_seq: eval.seq,
                promoted_policy_version,
                judgment_seq: judgment.seq,
                eval_seq: eval.seq,
                completion_seq: completion.seq,
                promoted_policy_hash,
                evidence: Evidence::PolicyPromotion,
            },
        )
    }

    pub open spec fn spec_is_valid(&self) -> bool {
        &&& self.source_seq != 0
        &&& self.promoted_policy_version != 0
        &&& self.judgment_seq != 0
        &&& self.eval_seq == self.source_seq
        &&& self.completion_seq >= self.eval_seq
        &&& self.promoted_policy_hash != 0
        &&& self.evidence == Evidence::PolicyPromotion
    }

    pub fn is_valid(&self) -> (r: bool)
        ensures
            r == self.spec_is_valid(),
    {
        self.source_seq != 0 && self.promoted_policy_version != 0 && self.judgment_seq != 0
            && self.eval_seq == self.source_seq && self.completion_seq >= self.eval_seq
            && self.promoted_policy_hash != 0 && self.evidence == Evidence::PolicyPromotion
    }

    pub fn submission(&self) -> (r: EvidenceSubmission)
        ensures
            r == (EvidenceSubmission {
                gate: GateId::Learning,
                evidence: Evidence::PolicyPromotion,
                passed: self.spec_is_valid(),
                payload_hash: self.promoted_policy_hash,
                effect: PacketEffect::Noop,
            }),
    {
        EvidenceSubmission::with_payload(
            GateId::Learning,
            Evidence::PolicyPromotion,
            self.is_valid(),
            self.promoted_policy_hash,
        )
    }
}

/// Which policy entry a promotion writes.
#[derive(Clone, Copy, Debug, PartialEq, Eq, Structural)]
pub enum PolicyPromotionEntryKind {
    SourceSeq,
    FeedbackHash,
}

/// The policy entry a promotion writes: the promoted version, with either
/// the source sequence number or the promoted policy hash.
pub fn policy_promotion_entry(promotion: &PolicyPromotion, kind: PolicyPromotionEntryKind) -> (r:
    Result<PolicyEntry, PolicyStoreError>)
    ensures
        match r {
            Ok(entry) => promotion.spec_is_valid() && entry.version
                == promotion.promoted_policy_version && match kind {
                PolicyPromotionEntryKind::SourceSeq => entry.key@ == POLICY_PROMOTION_SOURCE_SEQ@
                    && entry.value == promotion.source_seq,
                PolicyPromotionEntryKind::FeedbackHash => entry.key@ == POLICY_FEEDBACK_HASH@
                    && entry.value == promotion.promoted_policy_hash,
            },
            Err(e) => !promotion.spec_is_valid() && e == PolicyStoreError::InvalidPromotion,
        },
{
    if !promotion.is_valid() {
        return Err(PolicyStoreError::InvalidPromotion);
    }
    match kind {
        PolicyPromotionEntryKind::SourceSeq => Ok(
            PolicyEntry {
                version: promotion.promoted_policy_version,
                key: POLICY_PROMOTION_SOURCE_SEQ,
                value: promotion.source_seq,
            },
        ),
        PolicyPromotionEntryKind::FeedbackHash => Ok(
            PolicyEntry {
                version: promotion.promoted_policy_version,
                key: POLICY_FEEDBACK_HASH,
                value: promotion.promoted_policy_hash,
            },
        ),
    }
}

impl PolicyStore {
    fn append_promotion_entry(&mut self, promotion: PolicyPromotion, kind: PolicyPromotionEntryKind) -> (r:
        Result<PolicyEntry, PolicyStoreError>)
        ensures
            match r {
                Ok(entry) => promotion.spec_is_valid() && entry.version
                    == promotion.promoted_policy_version && entry.version > spec_latest_version(
                    old(self)@,
                ) && final(self)@ == old(self)@.push(entry) && match kind {
                    PolicyPromotionEntryKind::SourceSeq => entry.key@
                        == POLICY_PROMOTION_SOURCE_SEQ@ && entry.value == promotion.source_seq,
                    PolicyPromotionEntryKind::FeedbackHash => entry.key@ == POLICY_FEEDBACK_HASH@
                        && entry.value == promotion.promoted_policy_hash,
                },
                Err(e) => final(self)@ == old(self)@ && (if !promotion.spec_is_valid() {
                    e == PolicyStoreError::InvalidPromotion
                } else {
                    promotion.promoted_policy_version <= spec_latest_version(old(self)@) && e
                        == PolicyStoreError::NonMonotonicVersion
                }),
            },
    {
        let entry = match policy_promotion_entry(&promotion, kind) {
            Ok(e) => e,
            Err(e) => {
                return Err(e);
            },
        };
        proof {
            crate::capability::policy::store::lemma_policy_keys_distinct();
            reveal_strlit("learning.policy_promotion.source_seq");
            reveal_strlit("learning.policy_feedback.hash");
        }
        assert(spec_key_id(entry.key@) != 0);
        match self.try_append(entry) {
            Ok(()) => Ok(entry),
            Err(e) => Err(e),
        }
    }

    /// Records the source sequence number of a valid promotion under its version.
    pub fn promote(&mut self, promotion: PolicyPromotion) -> (r: Result<PolicyEntry, PolicyStoreError>)
        ensures
            match r {
                Ok(entry) => promotion.spec_is_valid() && final(self)@ == old(self)@.push(entry)
                    && entry.version == promotion.promoted_policy_version && entry.version
                    > spec_latest_version(old(self)@) && entry.key@ == POLICY_PROMOTION_SOURCE_SEQ@
                    && entry.value == promotion.source_seq,
                Err(e) => final(self)@ == old(self)@ && (if !promotion.spec_is_valid() {
                    e == PolicyStoreError::InvalidPromotion
                } else {
                    promotion.promoted_policy_version <= spec_latest_version(old(self)@) && e
                        == PolicyStoreError::NonMonotonicVersion
                }),
            },
    {
        self.append_promotion_entry(promotion, PolicyPromotionEntryKind::SourceSeq)
    }

    /// Records the promoted policy hash of a valid promotion under its version.
    pub fn promote_feedback(&mut self, promotion: PolicyPromotion) -> (r: Result<
        PolicyEntry,
        PolicyStoreError,
    >)
        ensures
            match r {
                Ok(entry) => promotion.spec_is_valid() && final(self)@ == old(self)@.push(entry)
                    && entry.version == promotion.promoted_policy_version && entry.version
                    > spec_latest_version(old(self)@) && entry.key@ == POLICY_FEEDBACK_HASH@
                    && entry.value == promotion.promoted_policy_hash,
                Err(e) => final(self)@ == old(self)@ && (if !promotion.spec_is_valid() {
                    e == PolicyStoreError::InvalidPromotion
                } else {
                    promotion.promoted_policy_version <= spec_latest_version(old(self)@) && e
                        == PolicyStoreError::NonMonotonicVersion
                }),
            },
    {
        self.append_promotion_entry(promotion, PolicyPromotionEntryKind::FeedbackHash)
    }
}

impl DistillationRow {
    pub open spec fn row_fields(&self) -> Seq<u64> {
        seq![
            self.schema_version,
            self.instruction_hash,
            self.input_state_hash,
            self.action_hash,
            self.output_hash,
            self.score,
            self.proof_hash,
            self.source_event,
        ]
    }

    pub open spec fn spec_expected_row_hash(&self) -> Option<u64> {
        if self.schema_version != DISTILLATION_ROW_SCHEMA_VERSION || self.instruction_hash == 0
            || self.input_state_hash == 0 || self.action_hash == 0 || self.output_hash == 0
            || self.score == 0 || self.proof_hash == 0 || self.source_event == 0 {
            None
        } else {
            Some(nz(spec_fold_mix(0x4449_5354_494c_4c31u64, self.row_fields())))
        }
    }

    pub fn expected_row_hash(&self) -> (r: Option<u64>)
        ensures
            r == self.spec_expected_row_hash(),
    {
        if self.schema_version != DISTILLATION_ROW_SCHEMA_VERSION || self.instruction_hash == 0
            || self.input_state_hash == 0 || self.action_hash == 0 || self.output_hash == 0
            || self.score == 0 || self.proof_hash == 0 || self.source_event == 0 {
            return None;
        }
        let fields = [
            self.schema_version,
            self.instruction_hash,
            self.input_state_hash,
            self.action_hash,
            self.output_hash,
            self.score,
            self.proof_hash,
            self.source_event,
        ];
        assert(fields@ =~= self.row_fields());
        Some(nonzero(fold_mix(0x4449_5354_494c_4c31u64, &fields)))
    }

    pub open spec fn spec_is_valid_for(&self, promotion: PolicyPromotion) -> bool {
        &&& promotion.spec_is_valid()
        &&& self.schema_version == DISTILLATION_ROW_SCHEMA_VERSION
        &&& self.instruction_hash != 0
        &&& self.input_state_hash != 0
        &&& self.action_hash != 0
        &&& self.output_hash != 0
        &&& self.score != 0
        &&& self.proof_hash == promotion.promoted_policy_hash
        &&& self.source_event == promotion.source_seq
        &&& self.row_hash != 0
        &&& self.row_hash == match self.spec_expected_row_hash() {
            Some(h) => h,
            None => 0,
        }
    }

    pub fn is_valid_for(&self, promotion: &PolicyPromotion) -> (r: bool)
        ensures
            r == self.spec_is_valid_for(*promotion),
    {
        let expected = match self.expected_row_hash() {
            Some(h) => h,
            None => 0,
        };
        promotion.is_valid() && self.schema_version == DISTILLATION_ROW_SCHEMA_VERSION
            && self.instruction_hash != 0 && self.input_state_hash != 0 && self.action_hash != 0
            && self.output_hash != 0 && self.score != 0 && self.proof_hash
            == promotion.promoted_policy_hash && self.source_event == promotion.source_seq
            && self.row_hash != 0 && self.row_hash == expected
    }

    /// The row a valid promotion yields for the given hashes and score.
    pub fn from_policy_promotion(
        promotion: &PolicyPromotion,
        instruction_hash: u64,
        input_state_hash: u64,
        action_hash: u64,
        output_hash: u64,
        score: u64,
        proof_hash: u64,
    ) -> (r: Option<Self>)
        ensures
            match r {
                Some(row) => row.spec_is_valid_for(*promotion) && row.instruction_hash
                    == instruction_hash && row.input_state_hash == input_state_hash
                    && row.action_hash == action_hash && row.output_hash == output_hash
                    && row.score == score && row.proof_hash == proof_hash && row.source_event
                    == promotion.source_seq && row.schema_version
                    == DISTILLATION_ROW_SCHEMA_VERSION,
                None => !(promotion.spec_is_valid() && instruction_hash != 0 && input_state_hash
                    != 0 && action_hash != 0 && output_hash != 0 && score != 0 && proof_hash
                    == promotion.promoted_policy_hash),
            },
    {
        if !promotion.is_valid() || instruction_hash == 0 || input_state_hash == 0 || action_hash
            == 0 || output_hash == 0 || score == 0 || proof_hash != promotion.promoted_policy_hash {
            return None;
        }
        let mut row = DistillationRow {
            schema_version: DISTILLATION_ROW_SCHEMA_VERSION,
            instruction_hash,
            input_state_hash,
            action_hash,
            output_hash,
            score,
            proof_hash,
            source_event: promotion.source_seq,
            row_hash: 0,
        };
        row.row_hash = match row.expected_row_hash() {
            Some(h) => h,
            None => {
                return None;
            },
        };
        if row.is_valid_for(promotion) {
            Some(row)
        } else {
            None
        }
    }

    pub open spec fn record_fields(&self) -> Seq<u64> {
        seq![
            self.schema_version,
            DISTILLATION_ROW_RECORD,
            self.instruction_hash,
            self.input_state_hash,
            self.action_hash,
            self.output_hash,
            self.score,
            self.proof_hash,
            self.source_event,
            self.row_hash,
        ]
    }

    /// The row's record line, with its line break, when its hash is its own.
    pub fn encode_ndjson(&self) -> (r: Option<String>)
        ensures
            match r {
                Some(line) => self.spec_expected_row_hash() == Some(self.row_hash) && line@
                    == encode_u64_list(self.record_fields()).push('\n'),
                None => self.spec_expected_row_hash() != Some(self.row_hash),
            },
    {
        match self.expected_row_hash() {
            Some(expected) => if expected == self.row_hash {
                let fields = [
                    self.schema_version,
                    DISTILLATION_ROW_RECORD,
                    self.instruction_hash,
                    self.input_state_hash,
                    self.action_hash,
                    self.output_hash,
                    self.score,
                    self.proof_hash,
                    self.source_event,
                    self.row_hash,
                ];
                assert(fields@ =~= self.record_fields());
                let mut line = crate::codec::encode_u64_list_exec(&fields);
                push_char(&mut line, '\n');
                Some(line)
            } else {
                None
            },
            None => None,
        }
    }
}

impl DistillationExportReceipt {
    pub open spec fn receipt_fields(&self) -> Seq<u64> {
        seq![self.schema_version, self.source_event, self.row_count, self.output_hash, self.proof_hash]
    }

    pub open spec fn spec_expected_receipt_hash(&self) -> Option<u64> {
        if self.schema_version != DISTILLATION_ROW_SCHEMA_VERSION || self.source_event == 0
            || self.row_count == 0 || self.output_hash == 0 || self.proof_hash == 0 {
            None
        } else {
            Some(nz(spec_fold_mix(0x4453_544c_584f_3031u64, self.receipt_fields())))
        }
    }

    pub fn expected_receipt_hash(&self) -> (r: Option<u64>)
        ensures
            r == self.spec_expected_receipt_hash(),
    {
        if self.schema_version != DISTILLATION_ROW_SCHEMA_VERSION || self.source_event == 0
            || self.row_count == 0 || self.output_hash == 0 || self.proof_hash == 0 {
            return None;
        }
        let fields = [
            self.schema_version,
            self.source_event,
            self.row_count,
            self.output_hash,
            self.proof_hash,
        ];
        assert(fields@ =~= self.receipt_fields());
        Some(nonzero(fold_mix(0x4453_544c_584f_3031u64, &fields)))
    }

    pub open spec fn spec_is_valid_for(&self, row: DistillationRow) -> bool {
        &&& self.schema_version == DISTILLATION_ROW_SCHEMA_VERSION
        &&& self.source_event == row.source_event
        &&& self.row_count == 1
        &&& self.output_hash == row.row_hash
        &&& self.proof_hash == row.proof_hash
        &&& self.receipt_hash == match self.spec_expected_receipt_hash() {
            Some(h) => h,
            None => 0,
        }
    }

    pub fn is_valid_for(&self, row: &DistillationRow) -> (r: bool)
        ensures
            r == self.spec_is_valid_for(*row),
    {
        let expected = match self.expected_receipt_hash() {
            Some(h) => h,
            None => 0,
        };
        self.schema_version == DISTILLATION_ROW_SCHEMA_VERSION && self.source_event
            == row.source_event && self.row_count == 1 && self.output_hash == row.row_hash
            && self.proof_hash == row.proof_hash && self.receipt_hash == expected
    }
}

/// The input of an export has every hash, a score, and a minimum score.
pub open spec fn spec_export_input_complete(input: DistillationExportInput) -> bool {
    &&& input.promoted_policy_version != 0
    &&& input.instruction_hash != 0
    &&& input.input_state_hash != 0
    &&& input.action_hash != 0
    &&& input.output_hash != 0
    &&& input.score != 0
    &&& input.proof_hash != 0
    &&& input.minimum_score != 0
}

/// The index of the first event with the given sequence number.
pub open spec fn first_with_seq(s: Seq<ControlEvent>, seq: u64) -> Option<int>
    decreases s.len(),
{
    if s.len() == 0 {
        None
    } else {
        match first_with_seq(s.drop_last(), seq) {
            Some(i) => Some(i),
            None => if s.last().seq == seq {
                Some(s.len() - 1)
            } else {
                None
            },
        }
    }
}

fn find_first_with_seq(tlog: &[ControlEvent], seq: u64) -> (r: Option<usize>)
    ensures
        match r {
            Some(i) => first_with_seq(tlog@, seq) == Some(i as int) && i < tlog@.len(),
            None => first_with_seq(tlog@, seq) is None,
        },
{
    let mut i: usize = 0;
    while i < tlog.len()
        invariant
            i <= tlog@.len(),
            first_with_seq(tlog@.take(i as int), seq) is None,
        decreases tlog@.len() - i,
    {
        assert(tlog@.take(i as int + 1).drop_last() =~= tlog@.take(i as int));
        if tlog[i].seq == seq {
            proof {
                lemma_first_with_seq_prefix(tlog@, seq, i as int + 1);
            }
            return Some(i);
        }
        i = i + 1;
    }
    assert(tlog@.take(i as int) =~= tlog@);
    None
}

proof fn lemma_first_with_seq_prefix(s: Seq<ControlEvent>, seq: u64, i: int)
    requires
        0 < i <= s.len(),
        first_with_seq(s.take(i), seq) is Some,
    ensures
        first_with_seq(s, seq) == first_with_seq(s.take(i), seq),
    decreases s.len() - i,
{
    if i < s.len() {
        assert(s.take(i + 1).drop_last() =~= s.take(i));
        lemma_first_with_seq_prefix(s, seq, i + 1);
    } else {
        assert(s.take(i) =~= s);
    }
}

/// The evaluation event of a promotion passed the evaluation gate: an
/// `EvalScore` event into `Persist`, with the eval gate passing, the
/// objective complete and the lineage valid.
pub open spec fn spec_eval_event_passed(e: ControlEvent) -> bool {
    &&& e.evidence == Evidence::EvalScore
    &&& e.to == Phase::Persist
    &&& e.state_after.eval.status == GateStatus::Pass
    &&& e.state_after.objective_complete
    &&& e.state_after.lineage_valid
}

/// The log backs an export of `input`: it has a promotion for the input's
/// version, the score reaches the minimum, the input's proof hash is the
/// promoted policy hash, and the first event at the promotion's evaluation
/// sequence number passed the evaluation gate.
pub open spec fn spec_export_backed(tlog: Seq<ControlEvent>, input: DistillationExportInput) -> bool {
    match spec_promotion_from_tlog(tlog, input.promoted_policy_version) {
        None => false,
        Some(p) => {
            &&& input.score >= input.minimum_score
            &&& input.proof_hash == p.promoted_policy_hash
            &&& match first_with_seq(tlog, p.eval_seq) {
                Some(i) => spec_eval_event_passed(tlog[i]),
                None => false,
            }
        },
    }
}

/// The row a promotion and an export input make, sealed with its hash.
pub open spec fn spec_export_row(p: PolicyPromotion, input: DistillationExportInput) -> DistillationRow {
    let unsealed = DistillationRow {
        schema_version: DISTILLATION_ROW_SCHEMA_VERSION,
        instruction_hash: input.instruction_hash,
        input_state_hash: input.input_state_hash,
        action_hash: input.action_hash,
        output_hash: input.output_hash,
        score: input.score,
        proof_hash: input.proof_hash,
        source_event: p.source_seq,
        row_hash: 0,
    };
    DistillationRow {
        row_hash: nz(spec_fold_mix(0x4449_5354_494c_4c31u64, unsealed.row_fields())),
        ..unsealed
    }
}

/// The row, line and receipt an export writes. `log_verified` is the
/// verdict of the runtime's log verification on `tlog`. An incomplete input
/// is refused as an invalid row; an unverified log as an invalid log; a log
/// that does not back the export (see `spec_export_backed`) as having no
/// verified promotion; and a backing promotion that is itself not valid as
/// an invalid row. Otherwise the row is the promotion's row for the input,
/// the line its record line, and the receipt the one that seals it. Writing
/// the line is left to the caller.
pub fn distillation_export_plan(
    tlog: &[ControlEvent],
    log_verified: bool,
    input: DistillationExportInput,
) -> (r: Result<(DistillationRow, String, DistillationExportReceipt), DistillationExportError>)
    ensures
        ({
            let complete = spec_export_input_complete(input);
            let backed = spec_export_backed(tlog@, input);
            let p = spec_promotion_from_tlog(tlog@, input.promoted_policy_version)->0;
            match r {
                Ok((row, line, receipt)) => {
                    &&& complete
                    &&& log_verified
                    &&& backed
                    &&& p.spec_is_valid()
                    &&& row == spec_export_row(p, input)
                    &&& row.spec_is_valid_for(p)
                    &&& line@ == encode_u64_list(row.record_fields()).push('\n')
                    &&& receipt.spec_is_valid_for(row)
                },
                Err(DistillationExportError::InvalidRow) => !complete || (log_verified && backed
                    && !p.spec_is_valid()),
                Err(DistillationExportError::InvalidTlog) => complete && !log_verified,
                Err(DistillationExportError::NoVerifiedPromotion) => complete && log_verified
                    && !backed,
                Err(_) => false,
            }
        }),
{
    if input.promoted_policy_version == 0 || input.instruction_hash == 0 || input.input_state_hash
        == 0 || input.action_hash == 0 || input.output_hash == 0 || input.score == 0
        || input.proof_hash == 0 || input.minimum_score == 0 {
        return Err(DistillationExportError::InvalidRow);
    }
    if !log_verified {
        return Err(DistillationExportError::InvalidTlog);
    }
    let promotion = match PolicyPromotion::from_tlog(tlog, input.promoted_policy_version) {
        Some(p) => p,
        None => {
            return Err(DistillationExportError::NoVerifiedPromotion);
        },
    };
    if input.score < input.minimum_score || input.proof_hash != promotion.promoted_policy_hash {
        return Err(DistillationExportError::NoVerifiedPromotion);
    }
    let ei = match find_first_with_seq(tlog, promotion.eval_seq) {
        Some(i) => i,
        None => {
            return Err(DistillationExportError::NoVerifiedPromotion);
        },
    };
    let eval_event = &tlog[ei];
    if eval_event.evidence != Evidence::EvalScore || eval_event.to != Phase::Persist
        || eval_event.state_after.eval.status != GateStatus::Pass
        || !eval_event.state_after.objective_complete || !eval_event.state_after.lineage_valid {
        return Err(DistillationExportError::NoVerifiedPromotion);
    }
    let row = match DistillationRow::from_policy_promotion(
        &promotion,
        input.instruction_hash,
        input.input_state_hash,
        input.action_hash,
        input.output_hash,
        input.score,
        input.proof_hash,
    ) {
        Some(row) => row,
        None => {
            return Err(DistillationExportError::InvalidRow);
        },
    };
    let line = match row.encode_ndjson() {
        Some(line) => line,
        None => {
            return Err(DistillationExportError::InvalidRow);
        },
    };
    let mut receipt = DistillationExportReceipt {
        schema_version: DISTILLATION_ROW_SCHEMA_VERSION,
        source_event: row.source_event,
        row_count: 1,
        output_hash: row.row_hash,
        proof_hash: row.proof_hash,
        receipt_hash: 0,
    };
    receipt.receipt_hash = match receipt.expected_receipt_hash() {
        Some(h) => h,
        None => {
            return Err(DistillationExportError::InvalidRow);
        },
    };
    if receipt.is_valid_for(&row) {
        Ok((row, line, receipt))
    } else {
        Err(DistillationExportError::InvalidRow)
    }
}

impl EvidenceProducer for PolicyPromotion {
    type Record = PolicyPromotion;

    fn record(&self) -> (r: &PolicyPromotion)
        ensures
            r == self,
    {
        self
    }

    fn submission(&self) -> (r: EvidenceSubmission)
        ensures
            r == (EvidenceSubmission {
                gate: GateId::Learning,
                evidence: Evidence::PolicyPromotion,
                passed: self.spec_is_valid(),
                payload_hash: self.promoted_policy_hash,
                effect: PacketEffect::Noop,
            }),
    {
        PolicyPromotion::submission(self)
    }
}

} // verus!
