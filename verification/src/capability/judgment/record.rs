//! Judgment payloads owned outside the kernel: the kernel judgment record,
//! policy-backed judgments, and the policy reuse receipts derived from them.
use vstd::prelude::*;
use crate::capability::EvidenceProducer;
use crate::capability::context::record::ContextRecord;
use crate::capability::policy::store::{
    spec_fingerprint, spec_latest, spec_latest_version, PolicyLookupReceipt, PolicyStore,
    POLICY_FEEDBACK_HASH,
};
use crate::kernel::{mix, nonzero, nz, spec_mix, Evidence, EvidenceSubmission, GateId, PacketEffect};
use crate::text::{
    json_key, json_quoted, new_string, push_bool, push_char, push_decimal, push_json_key,
    push_json_quoted, push_signed_decimal, spec_bool_text, spec_decimal, spec_signed_decimal,
    str_eq,
};

verus! {

#[derive(Clone, Copy, Debug, PartialEq, Eq, Structural)]
pub struct JudgmentRecord {
    pub decision_id: u64,
    pub policy_version: u64,
    pub rationale_hash: u64,
}

pub open spec fn spec_judgment_payload_hash(r: JudgmentRecord) -> u64 {
    let h = spec_mix(0xaf63_dc4c_8601_ec8cu64, r.decision_id);
    let h = spec_mix(h, r.policy_version);
    let h = spec_mix(h, r.rationale_hash);
    nz(h)
}

fn judgment_payload_hash(record: &JudgmentRecord) -> (r: u64)
    ensures
        r == spec_judgment_payload_hash(*record),
{
    let mut h = mix(0xaf63_dc4c_8601_ec8cu64, record.decision_id);
    h = mix(h, record.policy_version);
    h = mix(h, record.rationale_hash);
    nonzero(h)
}

impl JudgmentRecord {
    pub open spec fn spec_is_valid(&self) -> bool {
        self.decision_id != 0 && self.policy_version != 0 && self.rationale_hash != 0
    }

    pub fn is_valid(&self) -> (r: bool)
        ensures
            r == self.spec_is_valid(),
    {
        self.decision_id != 0 && self.policy_version != 0 && self.rationale_hash != 0
    }

    pub fn submission(&self) -> (r: EvidenceSubmission)
        ensures
            r == (EvidenceSubmission {
                gate: GateId::Judgment,
                evidence: Evidence::JudgmentRecord,
                passed: self.spec_is_valid(),
                payload_hash: spec_judgment_payload_hash(*self),
                effect: PacketEffect::Noop,
            }),
    {
        EvidenceSubmission::with_payload(
            GateId::Judgment,
            Evidence::JudgmentRecord,
            self.is_valid(),
            judgment_payload_hash(self),
        )
    }
}

#[derive(Clone, Copy, Debug, PartialEq, Eq, Structural)]
pub enum PolicyJudgmentDecision {
    PolicyHit,
    PolicyMiss,
}

#[derive(Clone, Copy, Debug, PartialEq, Eq, Structural)]
pub struct PolicyJudgmentRecord {
    pub context_hash: u64,
    pub policy_version: u64,
    pub policy_hash: u64,
    pub policy_feedback_hash: u64,
    pub policy_lookup_receipt_hash: u64,
    pub decision_id: u64,
    pub rationale_hash: u64,
    pub record_hash: u64,
}

/// How many policy judgments were hits, and so avoided an LLM call.
#[derive(Clone, Copy, Debug, PartialEq, Eq)]
pub struct PolicyReuseReceipt {
    pub schema_version: u64,
    pub record_type: &'static str,
    pub retained_record_count: usize,
    pub policy_hit_count: usize,
    pub policy_miss_count: usize,
    pub avoided_llm_call_count: usize,
    pub hit_rate_bps: u64,
    pub record_set_hash: u64,
    pub verdict: &'static str,
    pub receipt_hash: u64,
}

/// A comparison of two policy reuse receipts.
#[derive(Clone, Copy, Debug, PartialEq, Eq)]
pub struct PolicyReuseTrendReceipt {
    pub schema_version: u64,
    pub record_type: &'static str,
    pub baseline_receipt_hash: u64,
    pub current_receipt_hash: u64,
    pub baseline_retained_record_count: usize,
    pub current_retained_record_count: usize,
    pub baseline_hit_rate_bps: u64,
    pub current_hit_rate_bps: u64,
    pub hit_rate_delta_bps: i64,
    pub avoided_llm_call_delta: i64,
    pub trend_status: &'static str,
    pub verdict: &'static str,
    pub receipt_hash: u64,
}

/// Policy reuse counts joined with validation outcomes.
#[derive(Clone, Copy, Debug, PartialEq, Eq)]
pub struct PolicyReuseLedgerSummaryReceipt {
    pub schema_version: u64,
    pub record_type: &'static str,
    pub policy_hits: usize,
    pub policy_misses: usize,
    pub llm_fallbacks: usize,
    pub validation_passes: usize,
    pub validation_failures: usize,
    pub reuse_rate_bps: u64,
    pub regression_flag: bool,
    pub source_receipt_hash: u64,
    pub receipt_hash: u64,
}

/// Policy reuse counts for one batch, with validation outcomes.
#[derive(Clone, Copy, Debug, PartialEq, Eq)]
pub struct PolicyReuseScaleTraceReceipt {
    pub schema_version: u64,
    pub record_type: &'static str,
    pub batch_size: usize,
    pub policy_hits: usize,
    pub policy_misses: usize,
    pub llm_fallbacks: usize,
    pub validation_passes: usize,
    pub validation_failures: usize,
    pub reuse_rate_bps: u64,
    pub regression_flag: bool,
    pub avoided_llm_calls_per_batch: usize,
    pub source_receipt_hash: u64,
    pub receipt_hash: u64,
}

/// A scale trace joined with validation cost and runtime sources.
#[derive(Clone, Copy, Debug, PartialEq, Eq)]
pub struct PolicyReusePerformanceCostTrendReceipt {
    pub schema_version: u64,
    pub record_type: &'static str,
    pub batch_size: usize,
    pub avoided_llm_calls_per_batch: usize,
    pub reuse_rate_bps: u64,
    pub validation_expected_count_guarded_tests: usize,
    pub estimated_ms_per_guarded_test: u64,
    pub runtime_budget_status: &'static str,
    pub validation_cost_verdict: &'static str,
    pub cost_regression_flag: bool,
    pub source_scale_trace_hash: u64,
    pub source_validation_duration_hash: u64,
    pub source_runtime_performance_hash: u64,
    pub receipt_hash: u64,
}

/// Coverage of the policy reuse evidence families and their sources.
#[derive(Clone, Copy, Debug, PartialEq, Eq)]
pub struct PolicyReuseCostCatalogReceipt {
    pub schema_version: u64,
    pub record_type: &'static str,
    pub catalog_version: u64,
    pub evidence_family_count: usize,
    pub healthy_mode_count: usize,
    pub regression_mode_count: usize,
    pub retained_fixture_count: usize,
    pub required_healthy_modes_present: bool,
    pub required_regression_modes_present: bool,
    pub summary_complete: bool,
    pub missing_required_modes: &'static str,
    pub source_policy_reuse_hash: u64,
    pub source_scale_trace_hash: u64,
    pub source_performance_cost_trend_hash: u64,
    pub source_validation_health_hash: u64,
    pub source_validation_duration_hash: u64,
    pub source_runtime_performance_hash: u64,
    pub catalog_hash: u64,
    pub receipt_hash: u64,
}

pub open spec fn spec_verdict_code(v: Seq<char>) -> u64 {
    if v == "pass"@ {
        1
    } else if v == "fail"@ {
        2
    } else {
        0
    }
}

fn verdict_code(v: &str) -> (r: u64)
    ensures
        r == spec_verdict_code(v@),
{
    if str_eq(v, "pass") {
        1
    } else if str_eq(v, "fail") {
        2
    } else {
        0
    }
}

pub open spec fn spec_trend_code(v: Seq<char>) -> u64 {
    if v == "improved_or_stable"@ {
        1
    } else if v == "regressed"@ {
        2
    } else if v == "invalid"@ {
        3
    } else {
        0
    }
}

fn trend_code(v: &str) -> (r: u64)
    ensures
        r == spec_trend_code(v@),
{
    if str_eq(v, "improved_or_stable") {
        1
    } else if str_eq(v, "regressed") {
        2
    } else if str_eq(v, "invalid") {
        3
    } else {
        0
    }
}

pub open spec fn spec_missing_modes_code(v: Seq<char>) -> u64 {
    if v == "none"@ {
        1
    } else if v == "required_regression_modes"@ {
        2
    } else if v == "required_healthy_modes"@ {
        3
    } else if v == "required_healthy_modes,required_regression_modes"@ {
        4
    } else {
        0
    }
}

fn missing_modes_code(v: &str) -> (r: u64)
    ensures
        r == spec_missing_modes_code(v@),
{
    if str_eq(v, "none") {
        1
    } else if str_eq(v, "required_regression_modes") {
        2
    } else if str_eq(v, "required_healthy_modes") {
        3
    } else if str_eq(v, "required_healthy_modes,required_regression_modes") {
        4
    } else {
        0
    }
}

pub open spec fn is_reuse_type(t: Seq<char>) -> bool {
    t == "policy_reuse"@ || t == "policy_reuse_smoke"@
}

pub open spec fn is_trend_type(t: Seq<char>) -> bool {
    t == "policy_reuse_trend"@ || t == "policy_reuse_trend_smoke"@ || t
        == "policy_reuse_regression_smoke"@
}

pub open spec fn is_ledger_type(t: Seq<char>) -> bool {
    t == "policy_reuse_ledger_summary"@ || t == "policy_reuse_ledger_summary_smoke"@ || t
        == "policy_reuse_ledger_summary_regression_smoke"@
}

pub open spec fn is_scale_type(t: Seq<char>) -> bool {
    t == "policy_reuse_scale_trace"@ || t == "policy_reuse_scale_trace_smoke"@ || t
        == "policy_reuse_scale_trace_regression_smoke"@
}

pub open spec fn is_perf_type(t: Seq<char>) -> bool {
    t == "policy_reuse_performance_cost_trend"@ || t
        == "policy_reuse_performance_cost_trend_smoke"@ || t
        == "policy_reuse_performance_cost_trend_regression_smoke"@
}

pub open spec fn is_catalog_type(t: Seq<char>) -> bool {
    t == "policy_reuse_cost_catalog"@ || t == "policy_reuse_cost_catalog_smoke"@ || t
        == "policy_reuse_cost_catalog_incomplete_smoke"@
}

fn reuse_type(t: &str) -> (r: bool)
    ensures
        r == is_reuse_type(t@),
{
    str_eq(t, "policy_reuse") || str_eq(t, "policy_reuse_smoke")
}

fn trend_type(t: &str) -> (r: bool)
    ensures
        r == is_trend_type(t@),
{
    str_eq(t, "policy_reuse_trend") || str_eq(t, "policy_reuse_trend_smoke") || str_eq(
        t,
        "policy_reuse_regression_smoke",
    )
}

fn ledger_type(t: &str) -> (r: bool)
    ensures
        r == is_ledger_type(t@),
{
    str_eq(t, "policy_reuse_ledger_summary") || str_eq(t, "policy_reuse_ledger_summary_smoke")
        || str_eq(t, "policy_reuse_ledger_summary_regression_smoke")
}

fn scale_type(t: &str) -> (r: bool)
    ensures
        r == is_scale_type(t@),
{
    str_eq(t, "policy_reuse_scale_trace") || str_eq(t, "policy_reuse_scale_trace_smoke")
        || str_eq(t, "policy_reuse_scale_trace_regression_smoke")
}

fn perf_type(t: &str) -> (r: bool)
    ensures
        r == is_perf_type(t@),
{
    str_eq(t, "policy_reuse_performance_cost_trend") || str_eq(
        t,
        "policy_reuse_performance_cost_trend_smoke",
    ) || str_eq(t, "policy_reuse_performance_cost_trend_regression_smoke")
}

fn catalog_type(t: &str) -> (r: bool)
    ensures
        r == is_catalog_type(t@),
{
    str_eq(t, "policy_reuse_cost_catalog") || str_eq(t, "policy_reuse_cost_catalog_smoke")
        || str_eq(t, "policy_reuse_cost_catalog_incomplete_smoke")
}

pub open spec fn b2u(b: bool) -> u64 {
    if b {
        1
    } else {
        0
    }
}

fn bool_u64(b: bool) -> (r: u64)
    ensures
        r == b2u(b),
{
    if b {
        1
    } else {
        0
    }
}

// ---------------------------------------------------------------------------
// Policy judgment records.

pub open spec fn spec_policy_judgment_record_hash(r: PolicyJudgmentRecord) -> u64 {
    if r.context_hash == 0 || r.policy_version == 0 || r.policy_hash == 0 || r.policy_feedback_hash
        == 0 || r.policy_lookup_receipt_hash == 0 || r.decision_id == 0 || r.rationale_hash == 0 {
        0
    } else {
        let h = spec_mix(0x504f_4c4a_5544_4754u64, r.context_hash);
        let h = spec_mix(h, r.policy_version);
        let h = spec_mix(h, r.policy_hash);
        let h = spec_mix(h, r.policy_feedback_hash);
        let h = spec_mix(h, r.policy_lookup_receipt_hash);
        let h = spec_mix(h, r.decision_id);
        let h = spec_mix(h, r.rationale_hash);
        nz(h)
    }
}

fn policy_judgment_record_hash(r: &PolicyJudgmentRecord) -> (out: u64)
    ensures
        out == spec_policy_judgment_record_hash(*r),
{
    if r.context_hash == 0 || r.policy_version == 0 || r.policy_hash == 0 || r.policy_feedback_hash
        == 0 || r.policy_lookup_receipt_hash == 0 || r.decision_id == 0 || r.rationale_hash == 0 {
        return 0;
    }
    let mut h = mix(0x504f_4c4a_5544_4754u64, r.context_hash);
    h = mix(h, r.policy_version);
    h = mix(h, r.policy_hash);
    h = mix(h, r.policy_feedback_hash);
    h = mix(h, r.policy_lookup_receipt_hash);
    h = mix(h, r.decision_id);
    h = mix(h, r.rationale_hash);
    nonzero(h)
}

pub open spec fn spec_policy_decision_id(
    context: ContextRecord,
    policy_version: u64,
    policy_hash: u64,
    policy_feedback_hash: u64,
    policy_lookup_receipt_hash: u64,
) -> u64 {
    if !context.spec_is_valid() || policy_version == 0 || policy_hash == 0 || policy_feedback_hash
        == 0 || policy_lookup_receipt_hash == 0 {
        0
    } else {
        let h = spec_mix(0x4a55_4447_504f_4c48u64, context.objective_id);
        let h = spec_mix(h, context.context_hash);
        let h = spec_mix(h, context.memory_aggregate_hash);
        let h = spec_mix(h, policy_version);
        let h = spec_mix(h, policy_hash);
        let h = spec_mix(h, policy_feedback_hash);
        let h = spec_mix(h, policy_lookup_receipt_hash);
        nz(h)
    }
}

fn policy_decision_id(
    context: &ContextRecord,
    policy_version: u64,
    policy_hash: u64,
    policy_feedback_hash: u64,
    policy_lookup_receipt_hash: u64,
) -> (r: u64)
    ensures
        r == spec_policy_decision_id(
            *context,
            policy_version,
            policy_hash,
            policy_feedback_hash,
            policy_lookup_receipt_hash,
        ),
{
    if !context.is_valid() || policy_version == 0 || policy_hash == 0 || policy_feedback_hash == 0
        || policy_lookup_receipt_hash == 0 {
        return 0;
    }
    let mut h = mix(0x4a55_4447_504f_4c48u64, context.objective_id);
    h = mix(h, context.context_hash);
    h = mix(h, context.memory_aggregate_hash);
    h = mix(h, policy_version);
    h = mix(h, policy_hash);
    h = mix(h, policy_feedback_hash);
    h = mix(h, policy_lookup_receipt_hash);
    nonzero(h)
}

pub open spec fn spec_policy_rationale_hash(
    context: ContextRecord,
    decision_id: u64,
    policy_feedback_hash: u64,
    policy_lookup_receipt_hash: u64,
) -> u64 {
    if !context.spec_is_valid() || decision_id == 0 || policy_feedback_hash == 0
        || policy_lookup_receipt_hash == 0 {
        0
    } else {
        let h = spec_mix(0x5241_544c_504f_4c48u64, context.observation_hash);
        let h = spec_mix(h, context.memory_receipt_hash);
        let h = spec_mix(h, decision_id);
        let h = spec_mix(h, policy_feedback_hash);
        let h = spec_mix(h, policy_lookup_receipt_hash);
        nz(h)
    }
}

fn policy_rationale_hash(
    context: &ContextRecord,
    decision_id: u64,
    policy_feedback_hash: u64,
    policy_lookup_receipt_hash: u64,
) -> (r: u64)
    ensures
        r == spec_policy_rationale_hash(
            *context,
            decision_id,
            policy_feedback_hash,
            policy_lookup_receipt_hash,
        ),
{
    if !context.is_valid() || decision_id == 0 || policy_feedback_hash == 0
        || policy_lookup_receipt_hash == 0 {
        return 0;
    }
    let mut h = mix(0x5241_544c_504f_4c48u64, context.observation_hash);
    h = mix(h, context.memory_receipt_hash);
    h = mix(h, decision_id);
    h = mix(h, policy_feedback_hash);
    h = mix(h, policy_lookup_receipt_hash);
    nonzero(h)
}

impl PolicyJudgmentRecord {
    /// The judgment over a context and a policy store, given a lookup
    /// receipt: the receipt's found value and hash are bound only when the
    /// receipt is valid for the store's feedback key.
    pub open spec fn spec_from_lookup(
        context: ContextRecord,
        policy: PolicyStore,
        receipt: PolicyLookupReceipt,
    ) -> PolicyJudgmentRecord {
        let policy_version = spec_latest_version(policy@);
        let policy_hash = spec_fingerprint(policy@);
        let lookup_valid = receipt.spec_is_valid_for(policy, POLICY_FEEDBACK_HASH@);
        let policy_feedback_hash = if lookup_valid {
            receipt.found_value
        } else {
            0
        };
        let policy_lookup_receipt_hash = if lookup_valid {
            receipt.receipt_hash
        } else {
            0
        };
        let decision_id = spec_policy_decision_id(
            context,
            policy_version,
            policy_hash,
            policy_feedback_hash,
            policy_lookup_receipt_hash,
        );
        let rationale_hash = spec_policy_rationale_hash(
            context,
            decision_id,
            policy_feedback_hash,
            policy_lookup_receipt_hash,
        );
        let base = PolicyJudgmentRecord {
            context_hash: context.context_hash,
            policy_version,
            policy_hash,
            policy_feedback_hash,
            policy_lookup_receipt_hash,
            decision_id,
            rationale_hash,
            record_hash: 0,
        };
        PolicyJudgmentRecord { record_hash: spec_policy_judgment_record_hash(base), ..base }
    }

    pub fn from_context_policy_lookup_receipt(
        context: &ContextRecord,
        policy: &PolicyStore,
        policy_lookup_receipt: &PolicyLookupReceipt,
    ) -> (r: Self)
        ensures
            r == Self::spec_from_lookup(*context, *policy, *policy_lookup_receipt),
    {
        let policy_version = policy.latest_version();
        let policy_hash = policy.fingerprint();
        let lookup_valid = policy_lookup_receipt.is_valid_for(policy, POLICY_FEEDBACK_HASH);
        let policy_feedback_hash = if lookup_valid {
            policy_lookup_receipt.found_value
        } else {
            0
        };
        let policy_lookup_receipt_hash = if lookup_valid {
            policy_lookup_receipt.receipt_hash
        } else {
            0
        };
        let decision_id = policy_decision_id(
            context,
            policy_version,
            policy_hash,
            policy_feedback_hash,
            policy_lookup_receipt_hash,
        );
        let rationale_hash = policy_rationale_hash(
            context,
            decision_id,
            policy_feedback_hash,
            policy_lookup_receipt_hash,
        );
        let mut record = PolicyJudgmentRecord {
            context_hash: context.context_hash,
            policy_version,
            policy_hash,
            policy_feedback_hash,
            policy_lookup_receipt_hash,
            decision_id,
            rationale_hash,
            record_hash: 0,
        };
        record.record_hash = policy_judgment_record_hash(&record);
        record
    }

    /// The judgment over a context and the store's own feedback lookup.
    pub fn from_context_policy(context: &ContextRecord, policy: &PolicyStore) -> (r: Self)
        ensures
            r == Self::spec_from_lookup(
                *context,
                *policy,
                PolicyLookupReceipt::spec_new(
                    POLICY_FEEDBACK_HASH@,
                    spec_latest(policy@, POLICY_FEEDBACK_HASH@),
                    spec_fingerprint(policy@),
                ),
            ),
    {
        let (_, receipt) = policy.feedback_lookup_with_receipt();
        Self::from_context_policy_lookup_receipt(context, policy, &receipt)
    }

    pub open spec fn spec_is_valid(&self) -> bool {
        &&& self.context_hash != 0
        &&& self.policy_version != 0
        &&& self.policy_hash != 0
        &&& self.policy_feedback_hash != 0
        &&& self.policy_lookup_receipt_hash != 0
        &&& self.decision_id != 0
        &&& self.rationale_hash != 0
        &&& self.record_hash != 0
        &&& self.record_hash == spec_policy_judgment_record_hash(*self)
    }

    pub fn is_valid(&self) -> (r: bool)
        ensures
            r == self.spec_is_valid(),
    {
        self.context_hash != 0 && self.policy_version != 0 && self.policy_hash != 0
            && self.policy_feedback_hash != 0 && self.policy_lookup_receipt_hash != 0
            && self.decision_id != 0 && self.rationale_hash != 0 && self.record_hash != 0
            && self.record_hash == policy_judgment_record_hash(self)
    }

    pub fn decision(&self) -> (r: PolicyJudgmentDecision)
        ensures
            r == (if self.spec_is_valid() {
                PolicyJudgmentDecision::PolicyHit
            } else {
                PolicyJudgmentDecision::PolicyMiss
            }),
    {
        if self.is_valid() {
            PolicyJudgmentDecision::PolicyHit
        } else {
            PolicyJudgmentDecision::PolicyMiss
        }
    }

    pub open spec fn spec_judgment_record(&self) -> JudgmentRecord {
        if self.spec_is_valid() {
            JudgmentRecord {
                decision_id: self.decision_id,
                policy_version: self.policy_version,
                rationale_hash: self.rationale_hash,
            }
        } else {
            JudgmentRecord { decision_id: 0, policy_version: 0, rationale_hash: 0 }
        }
    }

    pub fn judgment_record(&self) -> (r: JudgmentRecord)
        ensures
            r == self.spec_judgment_record(),
    {
        if self.is_valid() {
            JudgmentRecord {
                decision_id: self.decision_id,
                policy_version: self.policy_version,
                rationale_hash: self.rationale_hash,
            }
        } else {
            JudgmentRecord { decision_id: 0, policy_version: 0, rationale_hash: 0 }
        }
    }

    pub fn submission(&self) -> (r: EvidenceSubmission)
        ensures
            r == (EvidenceSubmission {
                gate: GateId::Judgment,
                evidence: Evidence::JudgmentRecord,
                passed: self.spec_is_valid(),
                payload_hash: spec_judgment_payload_hash(self.spec_judgment_record()),
                effect: PacketEffect::Noop,
            }),
    {
        self.judgment_record().submission()
    }
}

/// A policy judgment passes the judgment gate exactly when it is a policy
/// hit, and then carries the policy's version and decision.
pub proof fn lemma_policy_hit_submission(r: PolicyJudgmentRecord)
    ensures
        r.spec_is_valid() ==> r.spec_judgment_record().spec_is_valid() && r.spec_judgment_record().policy_version
            == r.policy_version,
        !r.spec_is_valid() ==> !r.spec_judgment_record().spec_is_valid(),
{
}

// ---------------------------------------------------------------------------
// Policy reuse receipt.

pub open spec fn spec_hit_count(records: Seq<PolicyJudgmentRecord>) -> nat
    decreases records.len(),
{
    if records.len() == 0 {
        0
    } else {
        spec_hit_count(records.drop_last()) + if records.last().spec_is_valid() {
            1nat
        } else {
            0nat
        }
    }
}

proof fn lemma_hit_count_le(records: Seq<PolicyJudgmentRecord>)
    ensures
        spec_hit_count(records) <= records.len(),
    decreases records.len(),
{
    if records.len() > 0 {
        lemma_hit_count_le(records.drop_last());
    }
}

pub open spec fn fold_record_set(h: u64, records: Seq<PolicyJudgmentRecord>) -> u64
    decreases records.len(),
{
    if records.len() == 0 {
        h
    } else {
        let r = records.last();
        let h = fold_record_set(h, records.drop_last());
        let h = spec_mix(h, r.context_hash);
        let h = spec_mix(h, r.policy_version);
        let h = spec_mix(h, r.policy_hash);
        let h = spec_mix(h, r.policy_feedback_hash);
        let h = spec_mix(h, r.policy_lookup_receipt_hash);
        let h = spec_mix(h, r.decision_id);
        let h = spec_mix(h, r.rationale_hash);
        let h = spec_mix(h, r.record_hash);
        spec_mix(h, b2u(r.spec_is_valid()))
    }
}

pub open spec fn spec_record_set_hash(records: Seq<PolicyJudgmentRecord>) -> u64 {
    if records.len() == 0 {
        0
    } else {
        nz(fold_record_set(0x504f_4c52_4555_5345u64, records))
    }
}

fn policy_reuse_record_set_hash(records: &[PolicyJudgmentRecord]) -> (r: u64)
    ensures
        r == spec_record_set_hash(records@),
{
    if records.len() == 0 {
        return 0;
    }
    let mut h: u64 = 0x504f_4c52_4555_5345u64;
    let mut i: usize = 0;
    while i < records.len()
        invariant
            i <= records@.len(),
            h == fold_record_set(0x504f_4c52_4555_5345u64, records@.take(i as int)),
        decreases records@.len() - i,
    {
        assert(records@.take(i as int + 1).drop_last() =~= records@.take(i as int));
        let r = &records[i];
        h = mix(h, r.context_hash);
        h = mix(h, r.policy_version);
        h = mix(h, r.policy_hash);
        h = mix(h, r.policy_feedback_hash);
        h = mix(h, r.policy_lookup_receipt_hash);
        h = mix(h, r.decision_id);
        h = mix(h, r.rationale_hash);
        h = mix(h, r.record_hash);
        h = mix(h, bool_u64(r.is_valid()));
        i = i + 1;
    }
    assert(records@.take(i as int) =~= records@);
    nonzero(h)
}

impl PolicyReuseReceipt {
    pub open spec fn spec_receipt_hash(&self) -> u64 {
        let vc = spec_verdict_code(self.verdict@);
        if self.schema_version == 0 || self.record_set_hash == 0 || vc == 0 {
            0
        } else {
            let h = spec_mix(0x504f_4c52_4350_5448u64, self.schema_version);
            let h = spec_mix(h, self.retained_record_count as u64);
            let h = spec_mix(h, self.policy_hit_count as u64);
            let h = spec_mix(h, self.policy_miss_count as u64);
            let h = spec_mix(h, self.avoided_llm_call_count as u64);
            let h = spec_mix(h, self.hit_rate_bps);
            let h = spec_mix(h, self.record_set_hash);
            let h = spec_mix(h, vc);
            nz(h)
        }
    }

    pub fn receipt_hash_of(&self) -> (r: u64)
        ensures
            r == self.spec_receipt_hash(),
    {
        let vc = verdict_code(self.verdict);
        if self.schema_version == 0 || self.record_set_hash == 0 || vc == 0 {
            return 0;
        }
        let mut h = mix(0x504f_4c52_4350_5448u64, self.schema_version);
        h = mix(h, self.retained_record_count as u64);
        h = mix(h, self.policy_hit_count as u64);
        h = mix(h, self.policy_miss_count as u64);
        h = mix(h, self.avoided_llm_call_count as u64);
        h = mix(h, self.hit_rate_bps);
        h = mix(h, self.record_set_hash);
        h = mix(h, vc);
        nonzero(h)
    }

    pub open spec fn spec_json_part0(&self) -> Seq<char> {
        json_key("schema_version"@)
            + spec_decimal(self.schema_version as nat)
            + seq![',']
            + json_key("record_type"@)
            + json_quoted(self.record_type@)
            + seq![',']
            + json_key("retained_record_count"@)
            + spec_decimal(self.retained_record_count as nat)
            + seq![',']
            + json_key("policy_hit_count"@)
            + spec_decimal(self.policy_hit_count as nat)
    }

    fn json_part0(&self, s: &mut String)
        ensures
            final(s)@ == old(s)@ + self.spec_json_part0(),
    {
        let ghost before = s@;
        push_json_key(s, "schema_version");
        push_decimal(s, self.schema_version);
        assert(s@ =~= before + json_key("schema_version"@) + spec_decimal(self.schema_version as nat));
        push_char(s, ',');
        push_json_key(s, "record_type");
        push_json_quoted(s, self.record_type);
        assert(s@ =~= before + json_key("schema_version"@) + spec_decimal(self.schema_version as nat) + seq![','] + json_key("record_type"@) + json_quoted(self.record_type@));
        push_char(s, ',');
        push_json_key(s, "retained_record_count");
        push_decimal(s, self.retained_record_count as u64);
        assert(s@ =~= before + json_key("schema_version"@) + spec_decimal(self.schema_version as nat) + seq![','] + json_key("record_type"@) + json_quoted(self.record_type@) + seq![','] + json_key("retained_record_count"@) + spec_decimal(self.retained_record_count as nat));
        push_char(s, ',');
        push_json_key(s, "policy_hit_count");
        push_decimal(s, self.policy_hit_count as u64);
        assert(s@ =~= before + json_key("schema_version"@) + spec_decimal(self.schema_version as nat) + seq![','] + json_key("record_type"@) + json_quoted(self.record_type@) + seq![','] + json_key("retained_record_count"@) + spec_decimal(self.retained_record_count as nat) + seq![','] + json_key("policy_hit_count"@) + spec_decimal(self.policy_hit_count as nat));
        assert(s@ =~= before + self.spec_json_part0());
    }

    pub open spec fn spec_json_part1(&self) -> Seq<char> {
        seq![',']
            + json_key("policy_miss_count"@)
            + spec_decimal(self.policy_miss_count as nat)
            + seq![',']
            + json_key("avoided_llm_call_count"@)
            + spec_decimal(self.avoided_llm_call_count as nat)
            + seq![',']
            + json_key("hit_rate_bps"@)
            + spec_decimal(self.hit_rate_bps as nat)
            + seq![',']
            + json_key("record_set_hash"@)
            + spec_decimal(self.record_set_hash as nat)
    }

    fn json_part1(&self, s: &mut String)
        ensures
            final(s)@ == old(s)@ + self.spec_json_part1(),
    {
        let ghost before = s@;
        push_char(s, ',');
        push_json_key(s, "policy_miss_count");
        push_decimal(s, self.policy_miss_count as u64);
        assert(s@ =~= before + seq![','] + json_key("policy_miss_count"@) + spec_decimal(self.policy_miss_count as nat));
        push_char(s, ',');
        push_json_key(s, "avoided_llm_call_count");
        push_decimal(s, self.avoided_llm_call_count as u64);
        assert(s@ =~= before + seq![','] + json_key("policy_miss_count"@) + spec_decimal(self.policy_miss_count as nat) + seq![','] + json_key("avoided_llm_call_count"@) + spec_decimal(self.avoided_llm_call_count as nat));
        push_char(s, ',');
        push_json_key(s, "hit_rate_bps");
        push_decimal(s, self.hit_rate_bps);
        assert(s@ =~= before + seq![','] + json_key("policy_miss_count"@) + spec_decimal(self.policy_miss_count as nat) + seq![','] + json_key("avoided_llm_call_count"@) + spec_decimal(self.avoided_llm_call_count as nat) + seq![','] + json_key("hit_rate_bps"@) + spec_decimal(self.hit_rate_bps as nat));
        push_char(s, ',');
        push_json_key(s, "record_set_hash");
        push_decimal(s, self.record_set_hash);
        assert(s@ =~= before + seq![','] + json_key("policy_miss_count"@) + spec_decimal(self.policy_miss_count as nat) + seq![','] + json_key("avoided_llm_call_count"@) + spec_decimal(self.avoided_llm_call_count as nat) + seq![','] + json_key("hit_rate_bps"@) + spec_decimal(self.hit_rate_bps as nat) + seq![','] + json_key("record_set_hash"@) + spec_decimal(self.record_set_hash as nat));
        assert(s@ =~= before + self.spec_json_part1());
    }

    pub open spec fn spec_json_part2(&self) -> Seq<char> {
        seq![',']
            + json_key("verdict"@)
            + json_quoted(self.verdict@)
            + seq![',']
            + json_key("receipt_hash"@)
            + spec_decimal(self.receipt_hash as nat)
    }

    fn json_part2(&self, s: &mut String)
        ensures
            final(s)@ == old(s)@ + self.spec_json_part2(),
    {
        let ghost before = s@;
        push_char(s, ',');
        push_json_key(s, "verdict");
        push_json_quoted(s, self.verdict);
        assert(s@ =~= before + seq![','] + json_key("verdict"@) + json_quoted(self.verdict@));
        push_char(s, ',');
        push_json_key(s, "receipt_hash");
        push_decimal(s, self.receipt_hash);
        assert(s@ =~= before + seq![','] + json_key("verdict"@) + json_quoted(self.verdict@) + seq![','] + json_key("receipt_hash"@) + spec_decimal(self.receipt_hash as nat));
        assert(s@ =~= before + self.spec_json_part2());
    }

    pub open spec fn spec_to_json(&self) -> Seq<char> {
        seq!['{'] + self.spec_json_part0() + self.spec_json_part1() + self.spec_json_part2() + seq!['}']
    }

    pub fn to_json(&self) -> (r: String)
        ensures
            r@ == self.spec_to_json(),
    {
        let mut s = new_string();
        push_char(&mut s, '{');
        self.json_part0(&mut s);
        self.json_part1(&mut s);
        self.json_part2(&mut s);
        push_char(&mut s, '}');
        assert(s@ =~= self.spec_to_json());
        s
    }

    /// Counts the hits among the judgments; every hit is an avoided LLM call.
    pub fn from_policy_judgments(records: &[PolicyJudgmentRecord]) -> (r: Self)
        requires
            records@.len() <= u64::MAX / 10_000,
        ensures
            r.schema_version == 1,
            r.record_type@ == "policy_reuse"@,
            r.retained_record_count == records@.len(),
            r.policy_hit_count == spec_hit_count(records@),
            r.policy_miss_count == records@.len() - spec_hit_count(records@),
            r.avoided_llm_call_count == spec_hit_count(records@),
            r.hit_rate_bps == (if records@.len() == 0 {
                0
            } else {
                (spec_hit_count(records@) * 10_000) / records@.len()
            }),
            r.record_set_hash == spec_record_set_hash(records@),
            r.verdict@ == (if records@.len() > 0 && spec_hit_count(records@) > 0
                && spec_record_set_hash(records@) != 0 {
                "pass"@
            } else {
                "fail"@
            }),
            r.receipt_hash == r.spec_receipt_hash(),
    {
        let retained_record_count = records.len();
        let mut policy_hit_count: usize = 0;
        let mut i: usize = 0;
        while i < records.len()
            invariant
                i <= records@.len(),
                policy_hit_count == spec_hit_count(records@.take(i as int)),
            decreases records@.len() - i,
        {
            assert(records@.take(i as int + 1).drop_last() =~= records@.take(i as int));
            proof {
                lemma_hit_count_le(records@.take(i as int));
            }
            if records[i].is_valid() {
                policy_hit_count = policy_hit_count + 1;
            }
            i = i + 1;
        }
        assert(records@.take(i as int) =~= records@);
        proof {
            lemma_hit_count_le(records@);
        }
        let policy_miss_count = retained_record_count - policy_hit_count;
        let avoided_llm_call_count = policy_hit_count;
        let hit_rate_bps: u64 = if retained_record_count == 0 {
            0
        } else {
            ((policy_hit_count as u64) * 10_000) / retained_record_count as u64
        };
        let record_set_hash = policy_reuse_record_set_hash(records);
        let verdict: &'static str = if retained_record_count > 0 && policy_hit_count > 0
            && record_set_hash != 0 {
            "pass"
        } else {
            "fail"
        };
        let mut receipt = PolicyReuseReceipt {
            schema_version: 1,
            record_type: "policy_reuse",
            retained_record_count,
            policy_hit_count,
            policy_miss_count,
            avoided_llm_call_count,
            hit_rate_bps,
            record_set_hash,
            verdict,
            receipt_hash: 0,
        };
        receipt.receipt_hash = receipt.receipt_hash_of();
        receipt
    }

    pub open spec fn spec_is_valid(&self) -> bool {
        &&& self.schema_version == 1
        &&& is_reuse_type(self.record_type@)
        &&& self.retained_record_count == self.policy_hit_count + self.policy_miss_count
        &&& self.avoided_llm_call_count == self.policy_hit_count
        &&& self.hit_rate_bps <= 10_000
        &&& self.record_set_hash != 0
        &&& self.receipt_hash != 0
        &&& self.receipt_hash == self.spec_receipt_hash()
    }

    pub fn is_valid(&self) -> (r: bool)
        ensures
            r == self.spec_is_valid(),
    {
        self.schema_version == 1 && reuse_type(self.record_type) && self.policy_hit_count
            <= usize::MAX - self.policy_miss_count && self.retained_record_count
            == self.policy_hit_count + self.policy_miss_count && self.avoided_llm_call_count
            == self.policy_hit_count && self.hit_rate_bps <= 10_000 && self.record_set_hash != 0
            && self.receipt_hash != 0 && self.receipt_hash == self.receipt_hash_of()
    }

    pub open spec fn spec_passed(&self) -> bool {
        self.spec_is_valid() && self.verdict@ == "pass"@
    }

    pub fn passed(&self) -> (r: bool)
        ensures
            r == self.spec_passed(),
    {
        self.is_valid() && str_eq(self.verdict, "pass")
    }
}

// ---------------------------------------------------------------------------
// Trend receipt.

impl PolicyReuseTrendReceipt {
    pub open spec fn spec_receipt_hash(&self) -> u64 {
        let tc = spec_trend_code(self.trend_status@);
        let vc = spec_verdict_code(self.verdict@);
        if self.schema_version == 0 || self.baseline_receipt_hash == 0 || self.current_receipt_hash
            == 0 || tc == 0 || vc == 0 {
            0
        } else {
            let h = spec_mix(0x504f_4c52_5452_4e44u64, self.schema_version);
            let h = spec_mix(h, self.baseline_receipt_hash);
            let h = spec_mix(h, self.current_receipt_hash);
            let h = spec_mix(h, self.baseline_retained_record_count as u64);
            let h = spec_mix(h, self.current_retained_record_count as u64);
            let h = spec_mix(h, self.baseline_hit_rate_bps);
            let h = spec_mix(h, self.current_hit_rate_bps);
            let h = spec_mix(h, self.hit_rate_delta_bps as u64);
            let h = spec_mix(h, self.avoided_llm_call_delta as u64);
            let h = spec_mix(h, tc);
            let h = spec_mix(h, vc);
            nz(h)
        }
    }

    pub fn receipt_hash_of(&self) -> (r: u64)
        ensures
            r == self.spec_receipt_hash(),
    {
        let tc = trend_code(self.trend_status);
        let vc = verdict_code(self.verdict);
        if self.schema_version == 0 || self.baseline_receipt_hash == 0 || self.current_receipt_hash
            == 0 || tc == 0 || vc == 0 {
            return 0;
        }
        let mut h = mix(0x504f_4c52_5452_4e44u64, self.schema_version);
        h = mix(h, self.baseline_receipt_hash);
        h = mix(h, self.current_receipt_hash);
        h = mix(h, self.baseline_retained_record_count as u64);
        h = mix(h, self.current_retained_record_count as u64);
        h = mix(h, self.baseline_hit_rate_bps);
        h = mix(h, self.current_hit_rate_bps);
        h = mix(h, self.hit_rate_delta_bps as u64);
        h = mix(h, self.avoided_llm_call_delta as u64);
        h = mix(h, tc);
        h = mix(h, vc);
        nonzero(h)
    }

    pub open spec fn spec_json_part0(&self) -> Seq<char> {
        json_key("schema_version"@)
            + spec_decimal(self.schema_version as nat)
            + seq![',']
            + json_key("record_type"@)
            + json_quoted(self.record_type@)
            + seq![',']
            + json_key("baseline_receipt_hash"@)
            + spec_decimal(self.baseline_receipt_hash as nat)
            + seq![',']
            + json_key("current_receipt_hash"@)
            + spec_decimal(self.current_receipt_hash as nat)
    }

    fn json_part0(&self, s: &mut String)
        ensures
            final(s)@ == old(s)@ + self.spec_json_part0(),
    {
        let ghost before = s@;
        push_json_key(s, "schema_version");
        push_decimal(s, self.schema_version);
        assert(s@ =~= before + json_key("schema_version"@) + spec_decimal(self.schema_version as nat));
        push_char(s, ',');
        push_json_key(s, "record_type");
        push_json_quoted(s, self.record_type);
        assert(s@ =~= before + json_key("schema_version"@) + spec_decimal(self.schema_version as nat) + seq![','] + json_key("record_type"@) + json_quoted(self.record_type@));
        push_char(s, ',');
        push_json_key(s, "baseline_receipt_hash");
        push_decimal(s, self.baseline_receipt_hash);
        assert(s@ =~= before + json_key("schema_version"@) + spec_decimal(self.schema_version as nat) + seq![','] + json_key("record_type"@) + json_quoted(self.record_type@) + seq![','] + json_key("baseline_receipt_hash"@) + spec_decimal(self.baseline_receipt_hash as nat));
        push_char(s, ',');
        push_json_key(s, "current_receipt_hash");
        push_decimal(s, self.current_receipt_hash);
        assert(s@ =~= before + json_key("schema_version"@) + spec_decimal(self.schema_version as nat) + seq![','] + json_key("record_type"@) + json_quoted(self.record_type@) + seq![','] + json_key("baseline_receipt_hash"@) + spec_decimal(self.baseline_receipt_hash as nat) + seq![','] + json_key("current_receipt_hash"@) + spec_decimal(self.current_receipt_hash as nat));
        assert(s@ =~= before + self.spec_json_part0());
    }

    pub open spec fn spec_json_part1(&self) -> Seq<char> {
        seq![',']
            + json_key("baseline_retained_record_count"@)
            + spec_decimal(self.baseline_retained_record_count as nat)
            + seq![',']
            + json_key("current_retained_record_count"@)
            + spec_decimal(self.current_retained_record_count as nat)
            + seq![',']
            + json_key("baseline_hit_rate_bps"@)
            + spec_decimal(self.baseline_hit_rate_bps as nat)
            + seq![',']
            + json_key("current_hit_rate_bps"@)
            + spec_decimal(self.current_hit_rate_bps as nat)
    }

    #[verifier::spinoff_prover]
    #[verifier::rlimit(40)]
    fn json_part1(&self, s: &mut String)
        ensures
            final(s)@ == old(s)@ + self.spec_json_part1(),
    {
        let ghost before = s@;
        push_char(s, ',');
        push_json_key(s, "baseline_retained_record_count");
        push_decimal(s, self.baseline_retained_record_count as u64);
        assert(s@ =~= before + seq![','] + json_key("baseline_retained_record_count"@) + spec_decimal(self.baseline_retained_record_count as nat));
        push_char(s, ',');
        push_json_key(s, "current_retained_record_count");
        push_decimal(s, self.current_retained_record_count as u64);
        assert(s@ =~= before + seq![','] + json_key("baseline_retained_record_count"@) + spec_decimal(self.baseline_retained_record_count as nat) + seq![','] + json_key("current_retained_record_count"@) + spec_decimal(self.current_retained_record_count as nat));
        push_char(s, ',');
        push_json_key(s, "baseline_hit_rate_bps");
        push_decimal(s, self.baseline_hit_rate_bps);
        assert(s@ =~= before + seq![','] + json_key("baseline_retained_record_count"@) + spec_decimal(self.baseline_retained_record_count as nat) + seq![','] + json_key("current_retained_record_count"@) + spec_decimal(self.current_retained_record_count as nat) + seq![','] + json_key("baseline_hit_rate_bps"@) + spec_decimal(self.baseline_hit_rate_bps as nat));
        push_char(s, ',');
        push_json_key(s, "current_hit_rate_bps");
        push_decimal(s, self.current_hit_rate_bps);
        assert(s@ =~= before + seq![','] + json_key("baseline_retained_record_count"@) + spec_decimal(self.baseline_retained_record_count as nat) + seq![','] + json_key("current_retained_record_count"@) + spec_decimal(self.current_retained_record_count as nat) + seq![','] + json_key("baseline_hit_rate_bps"@) + spec_decimal(self.baseline_hit_rate_bps as nat) + seq![','] + json_key("current_hit_rate_bps"@) + spec_decimal(self.current_hit_rate_bps as nat));
        assert(s@ =~= before + self.spec_json_part1());
    }

    pub open spec fn spec_json_part2(&self) -> Seq<char> {
        seq![',']
            + json_key("hit_rate_delta_bps"@)
            + spec_signed_decimal(self.hit_rate_delta_bps as int)
            + seq![',']
            + json_key("avoided_llm_call_delta"@)
            + spec_signed_decimal(self.avoided_llm_call_delta as int)
            + seq![',']
            + json_key("trend_status"@)
            + json_quoted(self.trend_status@)
            + seq![',']
            + json_key("verdict"@)
            + json_quoted(self.verdict@)
    }

    fn json_part2(&self, s: &mut String)
        ensures
            final(s)@ == old(s)@ + self.spec_json_part2(),
    {
        let ghost before = s@;
        push_char(s, ',');
        push_json_key(s, "hit_rate_delta_bps");
        push_signed_decimal(s, self.hit_rate_delta_bps);
        assert(s@ =~= before + seq![','] + json_key("hit_rate_delta_bps"@) + spec_signed_decimal(self.hit_rate_delta_bps as int));
        push_char(s, ',');
        push_json_key(s, "avoided_llm_call_delta");
        push_signed_decimal(s, self.avoided_llm_call_delta);
        assert(s@ =~= before + seq![','] + json_key("hit_rate_delta_bps"@) + spec_signed_decimal(self.hit_rate_delta_bps as int) + seq![','] + json_key("avoided_llm_call_delta"@) + spec_signed_decimal(self.avoided_llm_call_delta as int));
        push_char(s, ',');
        push_json_key(s, "trend_status");
        push_json_quoted(s, self.trend_status);
        assert(s@ =~= before + seq![','] + json_key("hit_rate_delta_bps"@) + spec_signed_decimal(self.hit_rate_delta_bps as int) + seq![','] + json_key("avoided_llm_call_delta"@) + spec_signed_decimal(self.avoided_llm_call_delta as int) + seq![','] + json_key("trend_status"@) + json_quoted(self.trend_status@));
        push_char(s, ',');
        push_json_key(s, "verdict");
        push_json_quoted(s, self.verdict);
        assert(s@ =~= before + seq![','] + json_key("hit_rate_delta_bps"@) + spec_signed_decimal(self.hit_rate_delta_bps as int) + seq![','] + json_key("avoided_llm_call_delta"@) + spec_signed_decimal(self.avoided_llm_call_delta as int) + seq![','] + json_key("trend_status"@) + json_quoted(self.trend_status@) + seq![','] + json_key("verdict"@) + json_quoted(self.verdict@));
        assert(s@ =~= before + self.spec_json_part2());
    }

    pub open spec fn spec_json_part3(&self) -> Seq<char> {
        seq![',']
            + json_key("receipt_hash"@)
            + spec_decimal(self.receipt_hash as nat)
    }

    fn json_part3(&self, s: &mut String)
        ensures
            final(s)@ == old(s)@ + self.spec_json_part3(),
    {
        let ghost before = s@;
        push_char(s, ',');
        push_json_key(s, "receipt_hash");
        push_decimal(s, self.receipt_hash);
        assert(s@ =~= before + seq![','] + json_key("receipt_hash"@) + spec_decimal(self.receipt_hash as nat));
        assert(s@ =~= before + self.spec_json_part3());
    }

    pub open spec fn spec_to_json(&self) -> Seq<char> {
        seq!['{'] + self.spec_json_part0() + self.spec_json_part1() + self.spec_json_part2() + self.spec_json_part3() + seq!['}']
    }

    pub fn to_json(&self) -> (r: String)
        ensures
            r@ == self.spec_to_json(),
    {
        let mut s = new_string();
        push_char(&mut s, '{');
        self.json_part0(&mut s);
        self.json_part1(&mut s);
        self.json_part2(&mut s);
        self.json_part3(&mut s);
        push_char(&mut s, '}');
        assert(s@ =~= self.spec_to_json());
        s
    }

    /// Compares a current reuse receipt with a baseline: stable or improved
    /// when neither the hit rate nor the avoided calls dropped.
    ///
    /// Each rate and count is read as a signed 64-bit value (wrapping above
    /// `i64::MAX`) and the deltas are the differences of those values; the
    /// comparison is defined where those differences fit in an `i64`.
    pub fn compare(baseline: &PolicyReuseReceipt, current: &PolicyReuseReceipt) -> (r: Self)
        requires
            i64::MIN <= (current.hit_rate_bps as i64) - (baseline.hit_rate_bps as i64) <= i64::MAX,
            i64::MIN <= (current.avoided_llm_call_count as i64) - (
            baseline.avoided_llm_call_count as i64) <= i64::MAX,
        ensures
            r.schema_version == 1,
            r.record_type@ == "policy_reuse_trend"@,
            r.baseline_receipt_hash == baseline.receipt_hash,
            r.current_receipt_hash == current.receipt_hash,
            r.baseline_retained_record_count == baseline.retained_record_count,
            r.current_retained_record_count == current.retained_record_count,
            r.baseline_hit_rate_bps == baseline.hit_rate_bps,
            r.current_hit_rate_bps == current.hit_rate_bps,
            r.hit_rate_delta_bps == (current.hit_rate_bps as i64) - (baseline.hit_rate_bps as i64),
            r.avoided_llm_call_delta == (current.avoided_llm_call_count as i64) - (
            baseline.avoided_llm_call_count as i64),
            r.trend_status@ == (if !(baseline.spec_is_valid() && current.spec_is_valid()) {
                "invalid"@
            } else if r.hit_rate_delta_bps >= 0 && r.avoided_llm_call_delta >= 0 {
                "improved_or_stable"@
            } else {
                "regressed"@
            }),
            r.verdict@ == (if r.trend_status@ == "improved_or_stable"@ {
                "pass"@
            } else {
                "fail"@
            }),
            r.receipt_hash == r.spec_receipt_hash(),
    {
        let inputs_valid = baseline.is_valid() && current.is_valid();
        let hit_rate_delta_bps = current.hit_rate_bps as i64 - baseline.hit_rate_bps as i64;
        let avoided_llm_call_delta = current.avoided_llm_call_count as i64
            - baseline.avoided_llm_call_count as i64;
        let trend_status: &'static str = if !inputs_valid {
            "invalid"
        } else if hit_rate_delta_bps >= 0 && avoided_llm_call_delta >= 0 {
            "improved_or_stable"
        } else {
            "regressed"
        };
        let verdict: &'static str = if str_eq(trend_status, "improved_or_stable") {
            "pass"
        } else {
            "fail"
        };
        let mut receipt = PolicyReuseTrendReceipt {
            schema_version: 1,
            record_type: "policy_reuse_trend",
            baseline_receipt_hash: baseline.receipt_hash,
            current_receipt_hash: current.receipt_hash,
            baseline_retained_record_count: baseline.retained_record_count,
            current_retained_record_count: current.retained_record_count,
            baseline_hit_rate_bps: baseline.hit_rate_bps,
            current_hit_rate_bps: current.hit_rate_bps,
            hit_rate_delta_bps,
            avoided_llm_call_delta,
            trend_status,
            verdict,
            receipt_hash: 0,
        };
        receipt.receipt_hash = receipt.receipt_hash_of();
        receipt
    }

    pub open spec fn spec_is_valid(&self) -> bool {
        &&& self.schema_version == 1
        &&& is_trend_type(self.record_type@)
        &&& self.baseline_receipt_hash != 0
        &&& self.current_receipt_hash != 0
        &&& self.baseline_hit_rate_bps <= 10_000
        &&& self.current_hit_rate_bps <= 10_000
        &&& self.hit_rate_delta_bps == self.current_hit_rate_bps - self.baseline_hit_rate_bps
        &&& self.receipt_hash != 0
        &&& self.receipt_hash == self.spec_receipt_hash()
    }

    pub fn is_valid(&self) -> (r: bool)
        ensures
            r == self.spec_is_valid(),
    {
        self.schema_version == 1 && trend_type(self.record_type) && self.baseline_receipt_hash != 0
            && self.current_receipt_hash != 0 && self.baseline_hit_rate_bps <= 10_000
            && self.current_hit_rate_bps <= 10_000 && self.hit_rate_delta_bps
            == self.current_hit_rate_bps as i64 - self.baseline_hit_rate_bps as i64
            && self.receipt_hash != 0 && self.receipt_hash == self.receipt_hash_of()
    }

    pub open spec fn spec_passed(&self) -> bool {
        self.spec_is_valid() && self.verdict@ == "pass"@ && self.trend_status@
            == "improved_or_stable"@
    }

    pub fn passed(&self) -> (r: bool)
        ensures
            r == self.spec_passed(),
    {
        self.is_valid() && str_eq(self.verdict, "pass") && str_eq(
            self.trend_status,
            "improved_or_stable",
        )
    }
}

// ---------------------------------------------------------------------------
// Ledger summary receipt.

pub open spec fn empty_source_hash() -> u64 {
    0x504f_4c52_454d_5054u64
}

impl PolicyReuseLedgerSummaryReceipt {
    pub open spec fn spec_receipt_hash(&self) -> u64 {
        if self.schema_version == 0 || self.source_receipt_hash == 0 || !is_ledger_type(
            self.record_type@,
        ) || self.reuse_rate_bps > 10_000 {
            0
        } else {
            let h = spec_mix(0x504f_4c52_4c45_4447u64, self.schema_version);
            let h = spec_mix(h, 1);
            let h = spec_mix(h, self.policy_hits as u64);
            let h = spec_mix(h, self.policy_misses as u64);
            let h = spec_mix(h, self.llm_fallbacks as u64);
            let h = spec_mix(h, self.validation_passes as u64);
            let h = spec_mix(h, self.validation_failures as u64);
            let h = spec_mix(h, self.reuse_rate_bps);
            let h = spec_mix(h, b2u(self.regression_flag));
            let h = spec_mix(h, self.source_receipt_hash);
            nz(h)
        }
    }

    pub fn receipt_hash_of(&self) -> (r: u64)
        ensures
            r == self.spec_receipt_hash(),
    {
        if self.schema_version == 0 || self.source_receipt_hash == 0 || !ledger_type(
            self.record_type,
        ) || self.reuse_rate_bps > 10_000 {
            return 0;
        }
        let mut h = mix(0x504f_4c52_4c45_4447u64, self.schema_version);
        h = mix(h, 1);
        h = mix(h, self.policy_hits as u64);
        h = mix(h, self.policy_misses as u64);
        h = mix(h, self.llm_fallbacks as u64);
        h = mix(h, self.validation_passes as u64);
        h = mix(h, self.validation_failures as u64);
        h = mix(h, self.reuse_rate_bps);
        h = mix(h, bool_u64(self.regression_flag));
        h = mix(h, self.source_receipt_hash);
        nonzero(h)
    }

    pub open spec fn spec_json_part0(&self) -> Seq<char> {
        json_key("schema_version"@)
            + spec_decimal(self.schema_version as nat)
            + seq![',']
            + json_key("record_type"@)
            + json_quoted(self.record_type@)
            + seq![',']
            + json_key("policy_hits"@)
            + spec_decimal(self.policy_hits as nat)
            + seq![',']
            + json_key("policy_misses"@)
            + spec_decimal(self.policy_misses as nat)
    }

    fn json_part0(&self, s: &mut String)
        ensures
            final(s)@ == old(s)@ + self.spec_json_part0(),
    {
        let ghost before = s@;
        push_json_key(s, "schema_version");
        push_decimal(s, self.schema_version);
        assert(s@ =~= before + json_key("schema_version"@) + spec_decimal(self.schema_version as nat));
        push_char(s, ',');
        push_json_key(s, "record_type");
        push_json_quoted(s, self.record_type);
        assert(s@ =~= before + json_key("schema_version"@) + spec_decimal(self.schema_version as nat) + seq![','] + json_key("record_type"@) + json_quoted(self.record_type@));
        push_char(s, ',');
        push_json_key(s, "policy_hits");
        push_decimal(s, self.policy_hits as u64);
        assert(s@ =~= before + json_key("schema_version"@) + spec_decimal(self.schema_version as nat) + seq![','] + json_key("record_type"@) + json_quoted(self.record_type@) + seq![','] + json_key("policy_hits"@) + spec_decimal(self.policy_hits as nat));
        push_char(s, ',');
        push_json_key(s, "policy_misses");
        push_decimal(s, self.policy_misses as u64);
        assert(s@ =~= before + json_key("schema_version"@) + spec_decimal(self.schema_version as nat) + seq![','] + json_key("record_type"@) + json_quoted(self.record_type@) + seq![','] + json_key("policy_hits"@) + spec_decimal(self.policy_hits as nat) + seq![','] + json_key("policy_misses"@) + spec_decimal(self.policy_misses as nat));
        assert(s@ =~= before + self.spec_json_part0());
    }

    pub open spec fn spec_json_part1(&self) -> Seq<char> {
        seq![',']
            + json_key("llm_fallbacks"@)
            + spec_decimal(self.llm_fallbacks as nat)
            + seq![',']
            + json_key("validation_passes"@)
            + spec_decimal(self.validation_passes as nat)
            + seq![',']
            + json_key("validation_failures"@)
            + spec_decimal(self.validation_failures as nat)
            + seq![',']
            + json_key("reuse_rate_bps"@)
            + spec_decimal(self.reuse_rate_bps as nat)
    }

    fn json_part1(&self, s: &mut String)
        ensures
            final(s)@ == old(s)@ + self.spec_json_part1(),
    {
        let ghost before = s@;
        push_char(s, ',');
        push_json_key(s, "llm_fallbacks");
        push_decimal(s, self.llm_fallbacks as u64);
        assert(s@ =~= before + seq![','] + json_key("llm_fallbacks"@) + spec_decimal(self.llm_fallbacks as nat));
        push_char(s, ',');
        push_json_key(s, "validation_passes");
        push_decimal(s, self.validation_passes as u64);
        assert(s@ =~= before + seq![','] + json_key("llm_fallbacks"@) + spec_decimal(self.llm_fallbacks as nat) + seq![','] + json_key("validation_passes"@) + spec_decimal(self.validation_passes as nat));
        push_char(s, ',');
        push_json_key(s, "validation_failures");
        push_decimal(s, self.validation_failures as u64);
        assert(s@ =~= before + seq![','] + json_key("llm_fallbacks"@) + spec_decimal(self.llm_fallbacks as nat) + seq![','] + json_key("validation_passes"@) + spec_decimal(self.validation_passes as nat) + seq![','] + json_key("validation_failures"@) + spec_decimal(self.validation_failures as nat));
        push_char(s, ',');
        push_json_key(s, "reuse_rate_bps");
        push_decimal(s, self.reuse_rate_bps);
        assert(s@ =~= before + seq![','] + json_key("llm_fallbacks"@) + spec_decimal(self.llm_fallbacks as nat) + seq![','] + json_key("validation_passes"@) + spec_decimal(self.validation_passes as nat) + seq![','] + json_key("validation_failures"@) + spec_decimal(self.validation_failures as nat) + seq![','] + json_key("reuse_rate_bps"@) + spec_decimal(self.reuse_rate_bps as nat));
        assert(s@ =~= before + self.spec_json_part1());
    }

    pub open spec fn spec_json_part2(&self) -> Seq<char> {
        seq![',']
            + json_key("regression_flag"@)
            + spec_bool_text(self.regression_flag)
            + seq![',']
            + json_key("source_receipt_hash"@)
            + spec_decimal(self.source_receipt_hash as nat)
            + seq![',']
            + json_key("receipt_hash"@)
            + spec_decimal(self.receipt_hash as nat)
    }

    fn json_part2(&self, s: &mut String)
        ensures
            final(s)@ == old(s)@ + self.spec_json_part2(),
    {
        let ghost before = s@;
        push_char(s, ',');
        push_json_key(s, "regression_flag");
        push_bool(s, self.regression_flag);
        assert(s@ =~= before + seq![','] + json_key("regression_flag"@) + spec_bool_text(self.regression_flag));
        push_char(s, ',');
        push_json_key(s, "source_receipt_hash");
        push_decimal(s, self.source_receipt_hash);
        assert(s@ =~= before + seq![','] + json_key("regression_flag"@) + spec_bool_text(self.regression_flag) + seq![','] + json_key("source_receipt_hash"@) + spec_decimal(self.source_receipt_hash as nat));
        push_char(s, ',');
        push_json_key(s, "receipt_hash");
        push_decimal(s, self.receipt_hash);
        assert(s@ =~= before + seq![','] + json_key("regression_flag"@) + spec_bool_text(self.regression_flag) + seq![','] + json_key("source_receipt_hash"@) + spec_decimal(self.source_receipt_hash as nat) + seq![','] + json_key("receipt_hash"@) + spec_decimal(self.receipt_hash as nat));
        assert(s@ =~= before + self.spec_json_part2());
    }

    pub open spec fn spec_to_json(&self) -> Seq<char> {
        seq!['{'] + self.spec_json_part0() + self.spec_json_part1() + self.spec_json_part2() + seq!['}']
    }

    pub fn to_json(&self) -> (r: String)
        ensures
            r@ == self.spec_to_json(),
    {
        let mut s = new_string();
        push_char(&mut s, '{');
        self.json_part0(&mut s);
        self.json_part1(&mut s);
        self.json_part2(&mut s);
        push_char(&mut s, '}');
        assert(s@ =~= self.spec_to_json());
        s
    }

    /// Joins a reuse receipt with validation outcomes; any validation
    /// failure, or a reuse receipt that does not pass, is a regression.
    pub fn from_reuse_validation_counts(
        reuse: &PolicyReuseReceipt,
        validation_passes: usize,
        validation_failures: usize,
    ) -> (r: Self)
        ensures
            r.schema_version == 1,
            r.record_type@ == "policy_reuse_ledger_summary"@,
            r.policy_hits == reuse.policy_hit_count,
            r.policy_misses == reuse.policy_miss_count,
            r.llm_fallbacks == reuse.policy_miss_count,
            r.validation_passes == validation_passes,
            r.validation_failures == validation_failures,
            r.reuse_rate_bps == reuse.hit_rate_bps,
            r.regression_flag == (validation_failures > 0 || !reuse.spec_passed()),
            r.source_receipt_hash == reuse.receipt_hash,
            r.receipt_hash == r.spec_receipt_hash(),
    {
        let llm_fallbacks = reuse.policy_miss_count;
        let regression_flag = validation_failures > 0 || !reuse.passed();
        let mut receipt = PolicyReuseLedgerSummaryReceipt {
            schema_version: 1,
            record_type: "policy_reuse_ledger_summary",
            policy_hits: reuse.policy_hit_count,
            policy_misses: reuse.policy_miss_count,
            llm_fallbacks,
            validation_passes,
            validation_failures,
            reuse_rate_bps: reuse.hit_rate_bps,
            regression_flag,
            source_receipt_hash: reuse.receipt_hash,
            receipt_hash: 0,
        };
        receipt.receipt_hash = receipt.receipt_hash_of();
        receipt
    }

    /// The summary of an empty ledger: all counts zero, no regression.
    pub fn empty() -> (r: Self)
        ensures
            r.schema_version == 1,
            r.record_type@ == "policy_reuse_ledger_summary"@,
            r.policy_hits == 0 && r.policy_misses == 0 && r.llm_fallbacks == 0,
            r.validation_passes == 0 && r.validation_failures == 0,
            r.reuse_rate_bps == 0,
            !r.regression_flag,
            r.source_receipt_hash == empty_source_hash(),
            r.receipt_hash == r.spec_receipt_hash(),
    {
        let mut receipt = PolicyReuseLedgerSummaryReceipt {
            schema_version: 1,
            record_type: "policy_reuse_ledger_summary",
            policy_hits: 0,
            policy_misses: 0,
            llm_fallbacks: 0,
            validation_passes: 0,
            validation_failures: 0,
            reuse_rate_bps: 0,
            regression_flag: false,
            source_receipt_hash: 0x504f_4c52_454d_5054u64,
            receipt_hash: 0,
        };
        receipt.receipt_hash = receipt.receipt_hash_of();
        receipt
    }

    pub open spec fn spec_is_valid(&self) -> bool {
        &&& self.schema_version == 1
        &&& is_ledger_type(self.record_type@)
        &&& self.llm_fallbacks == self.policy_misses
        &&& self.reuse_rate_bps <= 10_000
        &&& self.source_receipt_hash != 0
        &&& self.receipt_hash != 0
        &&& self.receipt_hash == self.spec_receipt_hash()
    }

    pub fn is_valid(&self) -> (r: bool)
        ensures
            r == self.spec_is_valid(),
    {
        self.schema_version == 1 && ledger_type(self.record_type) && self.llm_fallbacks
            == self.policy_misses && self.reuse_rate_bps <= 10_000 && self.source_receipt_hash
            != 0 && self.receipt_hash != 0 && self.receipt_hash == self.receipt_hash_of()
    }

    pub fn passed(&self) -> (r: bool)
        ensures
            r == (self.spec_is_valid() && !self.regression_flag),
    {
        self.is_valid() && !self.regression_flag
    }
}

// ---------------------------------------------------------------------------
// Scale trace receipt.

impl PolicyReuseScaleTraceReceipt {
    pub open spec fn spec_receipt_hash(&self) -> u64 {
        if self.schema_version == 0 || self.source_receipt_hash == 0 || !is_scale_type(
            self.record_type@,
        ) || self.reuse_rate_bps > 10_000 {
            0
        } else {
            let h = spec_mix(0x504f_4c52_5343_414cu64, self.schema_version);
            let h = spec_mix(h, 1);
            let h = spec_mix(h, self.batch_size as u64);
            let h = spec_mix(h, self.policy_hits as u64);
            let h = spec_mix(h, self.policy_misses as u64);
            let h = spec_mix(h, self.llm_fallbacks as u64);
            let h = spec_mix(h, self.validation_passes as u64);
            let h = spec_mix(h, self.validation_failures as u64);
            let h = spec_mix(h, self.reuse_rate_bps);
            let h = spec_mix(h, b2u(self.regression_flag));
            let h = spec_mix(h, self.avoided_llm_calls_per_batch as u64);
            let h = spec_mix(h, self.source_receipt_hash);
            nz(h)
        }
    }

    pub fn receipt_hash_of(&self) -> (r: u64)
        ensures
            r == self.spec_receipt_hash(),
    {
        if self.schema_version == 0 || self.source_receipt_hash == 0 || !scale_type(
            self.record_type,
        ) || self.reuse_rate_bps > 10_000 {
            return 0;
        }
        let mut h = mix(0x504f_4c52_5343_414cu64, self.schema_version);
        h = mix(h, 1);
        h = mix(h, self.batch_size as u64);
        h = mix(h, self.policy_hits as u64);
        h = mix(h, self.policy_misses as u64);
        h = mix(h, self.llm_fallbacks as u64);
        h = mix(h, self.validation_passes as u64);
        h = mix(h, self.validation_failures as u64);
        h = mix(h, self.reuse_rate_bps);
        h = mix(h, bool_u64(self.regression_flag));
        h = mix(h, self.avoided_llm_calls_per_batch as u64);
        h = mix(h, self.source_receipt_hash);
        nonzero(h)
    }

    pub open spec fn spec_json_part0(&self) -> Seq<char> {
        json_key("schema_version"@)
            + spec_decimal(self.schema_version as nat)
            + seq![',']
            + json_key("record_type"@)
            + json_quoted(self.record_type@)
            + seq![',']
            + json_key("batch_size"@)
            + spec_decimal(self.batch_size as nat)
            + seq![',']
            + json_key("policy_hits"@)
            + spec_decimal(self.policy_hits as nat)
    }

    fn json_part0(&self, s: &mut String)
        ensures
            final(s)@ == old(s)@ + self.spec_json_part0(),
    {
        let ghost before = s@;
        push_json_key(s, "schema_version");
        push_decimal(s, self.schema_version);
        assert(s@ =~= before + json_key("schema_version"@) + spec_decimal(self.schema_version as nat));
        push_char(s, ',');
        push_json_key(s, "record_type");
        push_json_quoted(s, self.record_type);
        assert(s@ =~= before + json_key("schema_version"@) + spec_decimal(self.schema_version as nat) + seq![','] + json_key("record_type"@) + json_quoted(self.record_type@));
        push_char(s, ',');
        push_json_key(s, "batch_size");
        push_decimal(s, self.batch_size as u64);
        assert(s@ =~= before + json_key("schema_version"@) + spec_decimal(self.schema_version as nat) + seq![','] + json_key("record_type"@) + json_quoted(self.record_type@) + seq![','] + json_key("batch_size"@) + spec_decimal(self.batch_size as nat));
        push_char(s, ',');
        push_json_key(s, "policy_hits");
        push_decimal(s, self.policy_hits as u64);
        assert(s@ =~= before + json_key("schema_version"@) + spec_decimal(self.schema_version as nat) + seq![','] + json_key("record_type"@) + json_quoted(self.record_type@) + seq![','] + json_key("batch_size"@) + spec_decimal(self.batch_size as nat) + seq![','] + json_key("policy_hits"@) + spec_decimal(self.policy_hits as nat));
        assert(s@ =~= before + self.spec_json_part0());
    }

    pub open spec fn spec_json_part1(&self) -> Seq<char> {
        seq![',']
            + json_key("policy_misses"@)
            + spec_decimal(self.policy_misses as nat)
            + seq![',']
            + json_key("llm_fallbacks"@)
            + spec_decimal(self.llm_fallbacks as nat)
            + seq![',']
            + json_key("validation_passes"@)
            + spec_decimal(self.validation_passes as nat)
            + seq![',']
            + json_key("validation_failures"@)
            + spec_decimal(self.validation_failures as nat)
    }

    fn json_part1(&self, s: &mut String)
        ensures
            final(s)@ == old(s)@ + self.spec_json_part1(),
    {
        let ghost before = s@;
        push_char(s, ',');
        push_json_key(s, "policy_misses");
        push_decimal(s, self.policy_misses as u64);
        assert(s@ =~= before + seq![','] + json_key("policy_misses"@) + spec_decimal(self.policy_misses as nat));
        push_char(s, ',');
        push_json_key(s, "llm_fallbacks");
        push_decimal(s, self.llm_fallbacks as u64);
        assert(s@ =~= before + seq![','] + json_key("policy_misses"@) + spec_decimal(self.policy_misses as nat) + seq![','] + json_key("llm_fallbacks"@) + spec_decimal(self.llm_fallbacks as nat));
        push_char(s, ',');
        push_json_key(s, "validation_passes");
        push_decimal(s, self.validation_passes as u64);
        assert(s@ =~= before + seq![','] + json_key("policy_misses"@) + spec_decimal(self.policy_misses as nat) + seq![','] + json_key("llm_fallbacks"@) + spec_decimal(self.llm_fallbacks as nat) + seq![','] + json_key("validation_passes"@) + spec_decimal(self.validation_passes as nat));
        push_char(s, ',');
        push_json_key(s, "validation_failures");
        push_decimal(s, self.validation_failures as u64);
        assert(s@ =~= before + seq![','] + json_key("policy_misses"@) + spec_decimal(self.policy_misses as nat) + seq![','] + json_key("llm_fallbacks"@) + spec_decimal(self.llm_fallbacks as nat) + seq![','] + json_key("validation_passes"@) + spec_decimal(self.validation_passes as nat) + seq![','] + json_key("validation_failures"@) + spec_decimal(self.validation_failures as nat));
        assert(s@ =~= before + self.spec_json_part1());
    }

    pub open spec fn spec_json_part2(&self) -> Seq<char> {
        seq![',']
            + json_key("reuse_rate_bps"@)
            + spec_decimal(self.reuse_rate_bps as nat)
            + seq![',']
            + json_key("regression_flag"@)
            + spec_bool_text(self.regression_flag)
            + seq![',']
            + json_key("avoided_llm_calls_per_batch"@)
            + spec_decimal(self.avoided_llm_calls_per_batch as nat)
            + seq![',']
            + json_key("source_receipt_hash"@)
            + spec_decimal(self.source_receipt_hash as nat)
    }

    fn json_part2(&self, s: &mut String)
        ensures
            final(s)@ == old(s)@ + self.spec_json_part2(),
    {
        let ghost before = s@;
        push_char(s, ',');
        push_json_key(s, "reuse_rate_bps");
        push_decimal(s, self.reuse_rate_bps);
        assert(s@ =~= before + seq![','] + json_key("reuse_rate_bps"@) + spec_decimal(self.reuse_rate_bps as nat));
        push_char(s, ',');
        push_json_key(s, "regression_flag");
        push_bool(s, self.regression_flag);
        assert(s@ =~= before + seq![','] + json_key("reuse_rate_bps"@) + spec_decimal(self.reuse_rate_bps as nat) + seq![','] + json_key("regression_flag"@) + spec_bool_text(self.regression_flag));
        push_char(s, ',');
        push_json_key(s, "avoided_llm_calls_per_batch");
        push_decimal(s, self.avoided_llm_calls_per_batch as u64);
        assert(s@ =~= before + seq![','] + json_key("reuse_rate_bps"@) + spec_decimal(self.reuse_rate_bps as nat) + seq![','] + json_key("regression_flag"@) + spec_bool_text(self.regression_flag) + seq![','] + json_key("avoided_llm_calls_per_batch"@) + spec_decimal(self.avoided_llm_calls_per_batch as nat));
        push_char(s, ',');
        push_json_key(s, "source_receipt_hash");
        push_decimal(s, self.source_receipt_hash);
        assert(s@ =~= before + seq![','] + json_key("reuse_rate_bps"@) + spec_decimal(self.reuse_rate_bps as nat) + seq![','] + json_key("regression_flag"@) + spec_bool_text(self.regression_flag) + seq![','] + json_key("avoided_llm_calls_per_batch"@) + spec_decimal(self.avoided_llm_calls_per_batch as nat) + seq![','] + json_key("source_receipt_hash"@) + spec_decimal(self.source_receipt_hash as nat));
        assert(s@ =~= before + self.spec_json_part2());
    }

    pub open spec fn spec_json_part3(&self) -> Seq<char> {
        seq![',']
            + json_key("receipt_hash"@)
            + spec_decimal(self.receipt_hash as nat)
    }

    fn json_part3(&self, s: &mut String)
        ensures
            final(s)@ == old(s)@ + self.spec_json_part3(),
    {
        let ghost before = s@;
        push_char(s, ',');
        push_json_key(s, "receipt_hash");
        push_decimal(s, self.receipt_hash);
        assert(s@ =~= before + seq![','] + json_key("receipt_hash"@) + spec_decimal(self.receipt_hash as nat));
        assert(s@ =~= before + self.spec_json_part3());
    }

    pub open spec fn spec_to_json(&self) -> Seq<char> {
        seq!['{'] + self.spec_json_part0() + self.spec_json_part1() + self.spec_json_part2() + self.spec_json_part3() + seq!['}']
    }

    pub fn to_json(&self) -> (r: String)
        ensures
            r@ == self.spec_to_json(),
    {
        let mut s = new_string();
        push_char(&mut s, '{');
        self.json_part0(&mut s);
        self.json_part1(&mut s);
        self.json_part2(&mut s);
        self.json_part3(&mut s);
        push_char(&mut s, '}');
        assert(s@ =~= self.spec_to_json());
        s
    }

    /// A batch trace of a reuse receipt: every hit avoids an LLM call, every
    /// miss falls back to one.
    pub fn from_reuse_validation_counts(
        reuse: &PolicyReuseReceipt,
        batch_size: usize,
        validation_passes: usize,
        validation_failures: usize,
    ) -> (r: Self)
        ensures
            r.schema_version == 1,
            r.record_type@ == "policy_reuse_scale_trace"@,
            r.batch_size == batch_size,
            r.policy_hits == reuse.policy_hit_count,
            r.policy_misses == reuse.policy_miss_count,
            r.llm_fallbacks == reuse.policy_miss_count,
            r.validation_passes == validation_passes,
            r.validation_failures == validation_failures,
            r.reuse_rate_bps == reuse.hit_rate_bps,
            r.regression_flag == (validation_failures > 0 || !reuse.spec_passed()),
            r.avoided_llm_calls_per_batch == reuse.policy_hit_count,
            r.source_receipt_hash == reuse.receipt_hash,
            r.receipt_hash == r.spec_receipt_hash(),
    {
        let regression_flag = validation_failures > 0 || !reuse.passed();
        let mut receipt = PolicyReuseScaleTraceReceipt {
            schema_version: 1,
            record_type: "policy_reuse_scale_trace",
            batch_size,
            policy_hits: reuse.policy_hit_count,
            policy_misses: reuse.policy_miss_count,
            llm_fallbacks: reuse.policy_miss_count,
            validation_passes,
            validation_failures,
            reuse_rate_bps: reuse.hit_rate_bps,
            regression_flag,
            avoided_llm_calls_per_batch: reuse.policy_hit_count,
            source_receipt_hash: reuse.receipt_hash,
            receipt_hash: 0,
        };
        receipt.receipt_hash = receipt.receipt_hash_of();
        receipt
    }

    pub open spec fn spec_is_valid(&self) -> bool {
        &&& self.schema_version == 1
        &&& is_scale_type(self.record_type@)
        &&& self.batch_size > 0
        &&& self.policy_hits + self.policy_misses == self.batch_size
        &&& self.llm_fallbacks == self.policy_misses
        &&& self.avoided_llm_calls_per_batch == self.policy_hits
        &&& self.reuse_rate_bps <= 10_000
        &&& self.source_receipt_hash != 0
        &&& self.receipt_hash != 0
        &&& self.receipt_hash == self.spec_receipt_hash()
    }

    pub fn is_valid(&self) -> (r: bool)
        ensures
            r == self.spec_is_valid(),
    {
        self.schema_version == 1 && scale_type(self.record_type) && self.batch_size > 0
            && self.policy_hits <= usize::MAX - self.policy_misses && self.policy_hits
            + self.policy_misses == self.batch_size && self.llm_fallbacks == self.policy_misses
            && self.avoided_llm_calls_per_batch == self.policy_hits && self.reuse_rate_bps
            <= 10_000 && self.source_receipt_hash != 0 && self.receipt_hash != 0
            && self.receipt_hash == self.receipt_hash_of()
    }

    pub open spec fn spec_passed(&self) -> bool {
        self.spec_is_valid() && !self.regression_flag
    }

    pub fn passed(&self) -> (r: bool)
        ensures
            r == self.spec_passed(),
    {
        self.is_valid() && !self.regression_flag
    }
}

// ---------------------------------------------------------------------------
// Performance cost trend receipt.

impl PolicyReusePerformanceCostTrendReceipt {
    pub open spec fn spec_receipt_hash(&self) -> u64 {
        let rb = spec_verdict_code(self.runtime_budget_status@);
        let vc = spec_verdict_code(self.validation_cost_verdict@);
        if self.schema_version == 0 || self.source_scale_trace_hash == 0
            || self.source_validation_duration_hash == 0 || self.source_runtime_performance_hash
            == 0 || !is_perf_type(self.record_type@) || rb == 0 || vc == 0 || self.reuse_rate_bps
            > 10_000 {
            0
        } else {
            let h = spec_mix(0x504f_4c52_5045_5246u64, self.schema_version);
            let h = spec_mix(h, 1);
            let h = spec_mix(h, self.batch_size as u64);
            let h = spec_mix(h, self.avoided_llm_calls_per_batch as u64);
            let h = spec_mix(h, self.reuse_rate_bps);
            let h = spec_mix(h, self.validation_expected_count_guarded_tests as u64);
            let h = spec_mix(h, self.estimated_ms_per_guarded_test);
            let h = spec_mix(h, rb);
            let h = spec_mix(h, vc);
            let h = spec_mix(h, b2u(self.cost_regression_flag));
            let h = spec_mix(h, self.source_scale_trace_hash);
            let h = spec_mix(h, self.source_validation_duration_hash);
            let h = spec_mix(h, self.source_runtime_performance_hash);
            nz(h)
        }
    }

    pub fn receipt_hash_of(&self) -> (r: u64)
        ensures
            r == self.spec_receipt_hash(),
    {
        let rb = verdict_code(self.runtime_budget_status);
        let vc = verdict_code(self.validation_cost_verdict);
        if self.schema_version == 0 || self.source_scale_trace_hash == 0
            || self.source_validation_duration_hash == 0 || self.source_runtime_performance_hash
            == 0 || !perf_type(self.record_type) || rb == 0 || vc == 0 || self.reuse_rate_bps
            > 10_000 {
            return 0;
        }
        let mut h = mix(0x504f_4c52_5045_5246u64, self.schema_version);
        h = mix(h, 1);
        h = mix(h, self.batch_size as u64);
        h = mix(h, self.avoided_llm_calls_per_batch as u64);
        h = mix(h, self.reuse_rate_bps);
        h = mix(h, self.validation_expected_count_guarded_tests as u64);
        h = mix(h, self.estimated_ms_per_guarded_test);
        h = mix(h, rb);
        h = mix(h, vc);
        h = mix(h, bool_u64(self.cost_regression_flag));
        h = mix(h, self.source_scale_trace_hash);
        h = mix(h, self.source_validation_duration_hash);
        h = mix(h, self.source_runtime_performance_hash);
        nonzero(h)
    }

    pub open spec fn spec_json_part0(&self) -> Seq<char> {
        json_key("schema_version"@)
            + spec_decimal(self.schema_version as nat)
            + seq![',']
            + json_key("record_type"@)
            + json_quoted(self.record_type@)
            + seq![',']
            + json_key("batch_size"@)
            + spec_decimal(self.batch_size as nat)
            + seq![',']
            + json_key("avoided_llm_calls_per_batch"@)
            + spec_decimal(self.avoided_llm_calls_per_batch as nat)
    }

    fn json_part0(&self, s: &mut String)
        ensures
            final(s)@ == old(s)@ + self.spec_json_part0(),
    {
        let ghost before = s@;
        push_json_key(s, "schema_version");
        push_decimal(s, self.schema_version);
        assert(s@ =~= before + json_key("schema_version"@) + spec_decimal(self.schema_version as nat));
        push_char(s, ',');
        push_json_key(s, "record_type");
        push_json_quoted(s, self.record_type);
        assert(s@ =~= before + json_key("schema_version"@) + spec_decimal(self.schema_version as nat) + seq![','] + json_key("record_type"@) + json_quoted(self.record_type@));
        push_char(s, ',');
        push_json_key(s, "batch_size");
        push_decimal(s, self.batch_size as u64);
        assert(s@ =~= before + json_key("schema_version"@) + spec_decimal(self.schema_version as nat) + seq![','] + json_key("record_type"@) + json_quoted(self.record_type@) + seq![','] + json_key("batch_size"@) + spec_decimal(self.batch_size as nat));
        push_char(s, ',');
        push_json_key(s, "avoided_llm_calls_per_batch");
        push_decimal(s, self.avoided_llm_calls_per_batch as u64);
        assert(s@ =~= before + json_key("schema_version"@) + spec_decimal(self.schema_version as nat) + seq![','] + json_key("record_type"@) + json_quoted(self.record_type@) + seq![','] + json_key("batch_size"@) + spec_decimal(self.batch_size as nat) + seq![','] + json_key("avoided_llm_calls_per_batch"@) + spec_decimal(self.avoided_llm_calls_per_batch as nat));
        assert(s@ =~= before + self.spec_json_part0());
    }

    pub open spec fn spec_json_part1(&self) -> Seq<char> {
        seq![',']
            + json_key("reuse_rate_bps"@)
            + spec_decimal(self.reuse_rate_bps as nat)
            + seq![',']
            + json_key("validation_expected_count_guarded_tests"@)
            + spec_decimal(self.validation_expected_count_guarded_tests as nat)
            + seq![',']
            + json_key("estimated_ms_per_guarded_test"@)
            + spec_decimal(self.estimated_ms_per_guarded_test as nat)
            + seq![',']
            + json_key("runtime_budget_status"@)
            + json_quoted(self.runtime_budget_status@)
    }

    fn json_part1(&self, s: &mut String)
        ensures
            final(s)@ == old(s)@ + self.spec_json_part1(),
    {
        let ghost before = s@;
        push_char(s, ',');
        push_json_key(s, "reuse_rate_bps");
        push_decimal(s, self.reuse_rate_bps);
        assert(s@ =~= before + seq![','] + json_key("reuse_rate_bps"@) + spec_decimal(self.reuse_rate_bps as nat));
        push_char(s, ',');
        push_json_key(s, "validation_expected_count_guarded_tests");
        push_decimal(s, self.validation_expected_count_guarded_tests as u64);
        assert(s@ =~= before + seq![','] + json_key("reuse_rate_bps"@) + spec_decimal(self.reuse_rate_bps as nat) + seq![','] + json_key("validation_expected_count_guarded_tests"@) + spec_decimal(self.validation_expected_count_guarded_tests as nat));
        push_char(s, ',');
        push_json_key(s, "estimated_ms_per_guarded_test");
        push_decimal(s, self.estimated_ms_per_guarded_test);
        assert(s@ =~= before + seq![','] + json_key("reuse_rate_bps"@) + spec_decimal(self.reuse_rate_bps as nat) + seq![','] + json_key("validation_expected_count_guarded_tests"@) + spec_decimal(self.validation_expected_count_guarded_tests as nat) + seq![','] + json_key("estimated_ms_per_guarded_test"@) + spec_decimal(self.estimated_ms_per_guarded_test as nat));
        push_char(s, ',');
        push_json_key(s, "runtime_budget_status");
        push_json_quoted(s, self.runtime_budget_status);
        assert(s@ =~= before + seq![','] + json_key("reuse_rate_bps"@) + spec_decimal(self.reuse_rate_bps as nat) + seq![','] + json_key("validation_expected_count_guarded_tests"@) + spec_decimal(self.validation_expected_count_guarded_tests as nat) + seq![','] + json_key("estimated_ms_per_guarded_test"@) + spec_decimal(self.estimated_ms_per_guarded_test as nat) + seq![','] + json_key("runtime_budget_status"@) + json_quoted(self.runtime_budget_status@));
        assert(s@ =~= before + self.spec_json_part1());
    }

    pub open spec fn spec_json_part2(&self) -> Seq<char> {
        seq![',']
            + json_key("validation_cost_verdict"@)
            + json_quoted(self.validation_cost_verdict@)
            + seq![',']
            + json_key("cost_regression_flag"@)
            + spec_bool_text(self.cost_regression_flag)
            + seq![',']
            + json_key("source_scale_trace_hash"@)
            + spec_decimal(self.source_scale_trace_hash as nat)
            + seq![',']
            + json_key("source_validation_duration_hash"@)
            + spec_decimal(self.source_validation_duration_hash as nat)
    }

    fn json_part2(&self, s: &mut String)
        ensures
            final(s)@ == old(s)@ + self.spec_json_part2(),
    {
        let ghost before = s@;
        push_char(s, ',');
        push_json_key(s, "validation_cost_verdict");
        push_json_quoted(s, self.validation_cost_verdict);
        assert(s@ =~= before + seq![','] + json_key("validation_cost_verdict"@) + json_quoted(self.validation_cost_verdict@));
        push_char(s, ',');
        push_json_key(s, "cost_regression_flag");
        push_bool(s, self.cost_regression_flag);
        assert(s@ =~= before + seq![','] + json_key("validation_cost_verdict"@) + json_quoted(self.validation_cost_verdict@) + seq![','] + json_key("cost_regression_flag"@) + spec_bool_text(self.cost_regression_flag));
        push_char(s, ',');
        push_json_key(s, "source_scale_trace_hash");
        push_decimal(s, self.source_scale_trace_hash);
        assert(s@ =~= before + seq![','] + json_key("validation_cost_verdict"@) + json_quoted(self.validation_cost_verdict@) + seq![','] + json_key("cost_regression_flag"@) + spec_bool_text(self.cost_regression_flag) + seq![','] + json_key("source_scale_trace_hash"@) + spec_decimal(self.source_scale_trace_hash as nat));
        push_char(s, ',');
        push_json_key(s, "source_validation_duration_hash");
        push_decimal(s, self.source_validation_duration_hash);
        assert(s@ =~= before + seq![','] + json_key("validation_cost_verdict"@) + json_quoted(self.validation_cost_verdict@) + seq![','] + json_key("cost_regression_flag"@) + spec_bool_text(self.cost_regression_flag) + seq![','] + json_key("source_scale_trace_hash"@) + spec_decimal(self.source_scale_trace_hash as nat) + seq![','] + json_key("source_validation_duration_hash"@) + spec_decimal(self.source_validation_duration_hash as nat));
        assert(s@ =~= before + self.spec_json_part2());
    }

    pub open spec fn spec_json_part3(&self) -> Seq<char> {
        seq![',']
            + json_key("source_runtime_performance_hash"@)
            + spec_decimal(self.source_runtime_performance_hash as nat)
            + seq![',']
            + json_key("receipt_hash"@)
            + spec_decimal(self.receipt_hash as nat)
    }

    fn json_part3(&self, s: &mut String)
        ensures
            final(s)@ == old(s)@ + self.spec_json_part3(),
    {
        let ghost before = s@;
        push_char(s, ',');
        push_json_key(s, "source_runtime_performance_hash");
        push_decimal(s, self.source_runtime_performance_hash);
        assert(s@ =~= before + seq![','] + json_key("source_runtime_performance_hash"@) + spec_decimal(self.source_runtime_performance_hash as nat));
        push_char(s, ',');
        push_json_key(s, "receipt_hash");
        push_decimal(s, self.receipt_hash);
        assert(s@ =~= before + seq![','] + json_key("source_runtime_performance_hash"@) + spec_decimal(self.source_runtime_performance_hash as nat) + seq![','] + json_key("receipt_hash"@) + spec_decimal(self.receipt_hash as nat));
        assert(s@ =~= before + self.spec_json_part3());
    }

    pub open spec fn spec_to_json(&self) -> Seq<char> {
        seq!['{'] + self.spec_json_part0() + self.spec_json_part1() + self.spec_json_part2() + self.spec_json_part3() + seq!['}']
    }

    pub fn to_json(&self) -> (r: String)
        ensures
            r@ == self.spec_to_json(),
    {
        let mut s = new_string();
        push_char(&mut s, '{');
        self.json_part0(&mut s);
        self.json_part1(&mut s);
        self.json_part2(&mut s);
        self.json_part3(&mut s);
        push_char(&mut s, '}');
        assert(s@ =~= self.spec_to_json());
        s
    }

    /// Joins a scale trace with validation cost and runtime sources; any
    /// failing source is a cost regression.
    pub fn from_scale_and_cost_sources(
        scale_trace: &PolicyReuseScaleTraceReceipt,
        validation_expected_count_guarded_tests: usize,
        estimated_ms_per_guarded_test: u64,
        runtime_budget_status: &'static str,
        validation_cost_verdict: &'static str,
        source_validation_duration_hash: u64,
        source_runtime_performance_hash: u64,
    ) -> (r: Self)
        ensures
            r.schema_version == 1,
            r.record_type@ == "policy_reuse_performance_cost_trend"@,
            r.batch_size == scale_trace.batch_size,
            r.avoided_llm_calls_per_batch == scale_trace.avoided_llm_calls_per_batch,
            r.reuse_rate_bps == scale_trace.reuse_rate_bps,
            r.validation_expected_count_guarded_tests == validation_expected_count_guarded_tests,
            r.estimated_ms_per_guarded_test == estimated_ms_per_guarded_test,
            r.runtime_budget_status == runtime_budget_status,
            r.validation_cost_verdict == validation_cost_verdict,
            r.cost_regression_flag == (scale_trace.regression_flag || !scale_trace.spec_passed()
                || runtime_budget_status@ != "pass"@ || validation_cost_verdict@ != "pass"@),
            r.source_scale_trace_hash == scale_trace.receipt_hash,
            r.source_validation_duration_hash == source_validation_duration_hash,
            r.source_runtime_performance_hash == source_runtime_performance_hash,
            r.receipt_hash == r.spec_receipt_hash(),
    {
        let cost_regression_flag = scale_trace.regression_flag || !scale_trace.passed() || !str_eq(
            runtime_budget_status,
            "pass",
        ) || !str_eq(validation_cost_verdict, "pass");
        let mut receipt = PolicyReusePerformanceCostTrendReceipt {
            schema_version: 1,
            record_type: "policy_reuse_performance_cost_trend",
            batch_size: scale_trace.batch_size,
            avoided_llm_calls_per_batch: scale_trace.avoided_llm_calls_per_batch,
            reuse_rate_bps: scale_trace.reuse_rate_bps,
            validation_expected_count_guarded_tests,
            estimated_ms_per_guarded_test,
            runtime_budget_status,
            validation_cost_verdict,
            cost_regression_flag,
            source_scale_trace_hash: scale_trace.receipt_hash,
            source_validation_duration_hash,
            source_runtime_performance_hash,
            receipt_hash: 0,
        };
        receipt.receipt_hash = receipt.receipt_hash_of();
        receipt
    }

    pub open spec fn spec_is_valid(&self) -> bool {
        &&& self.schema_version == 1
        &&& is_perf_type(self.record_type@)
        &&& self.batch_size > 0
        &&& self.avoided_llm_calls_per_batch <= self.batch_size
        &&& self.reuse_rate_bps <= 10_000
        &&& self.validation_expected_count_guarded_tests > 0
        &&& (self.runtime_budget_status@ == "pass"@ || self.runtime_budget_status@ == "fail"@)
        &&& (self.validation_cost_verdict@ == "pass"@ || self.validation_cost_verdict@ == "fail"@)
        &&& self.source_scale_trace_hash != 0
        &&& self.source_validation_duration_hash != 0
        &&& self.source_runtime_performance_hash != 0
        &&& self.receipt_hash != 0
        &&& self.receipt_hash == self.spec_receipt_hash()
    }

    pub fn is_valid(&self) -> (r: bool)
        ensures
            r == self.spec_is_valid(),
    {
        self.schema_version == 1 && perf_type(self.record_type) && self.batch_size > 0
            && self.avoided_llm_calls_per_batch <= self.batch_size && self.reuse_rate_bps <= 10_000
            && self.validation_expected_count_guarded_tests > 0 && (str_eq(
            self.runtime_budget_status,
            "pass",
        ) || str_eq(self.runtime_budget_status, "fail")) && (str_eq(
            self.validation_cost_verdict,
            "pass",
        ) || str_eq(self.validation_cost_verdict, "fail")) && self.source_scale_trace_hash != 0
            && self.source_validation_duration_hash != 0 && self.source_runtime_performance_hash
            != 0 && self.receipt_hash != 0 && self.receipt_hash == self.receipt_hash_of()
    }

    pub fn passed(&self) -> (r: bool)
        ensures
            r == (self.spec_is_valid() && !self.cost_regression_flag),
    {
        self.is_valid() && !self.cost_regression_flag
    }
}

// ---------------------------------------------------------------------------
// Cost catalog receipt.

impl PolicyReuseCostCatalogReceipt {
    pub open spec fn spec_content_hash(&self) -> u64 {
        let mc = spec_missing_modes_code(self.missing_required_modes@);
        if self.schema_version == 0 || self.catalog_version == 0 || self.source_policy_reuse_hash
            == 0 || self.source_scale_trace_hash == 0 || self.source_performance_cost_trend_hash
            == 0 || self.source_validation_health_hash == 0 || self.source_validation_duration_hash
            == 0 || self.source_runtime_performance_hash == 0 || !is_catalog_type(
            self.record_type@,
        ) || mc == 0 {
            0
        } else {
            let h = spec_mix(0x504f_4c52_4341_5441u64, self.schema_version);
            let h = spec_mix(h, 1);
            let h = spec_mix(h, self.catalog_version);
            let h = spec_mix(h, self.evidence_family_count as u64);
            let h = spec_mix(h, self.healthy_mode_count as u64);
            let h = spec_mix(h, self.regression_mode_count as u64);
            let h = spec_mix(h, self.retained_fixture_count as u64);
            let h = spec_mix(h, b2u(self.required_healthy_modes_present));
            let h = spec_mix(h, b2u(self.required_regression_modes_present));
            let h = spec_mix(h, b2u(self.summary_complete));
            let h = spec_mix(h, mc);
            let h = spec_mix(h, self.source_policy_reuse_hash);
            let h = spec_mix(h, self.source_scale_trace_hash);
            let h = spec_mix(h, self.source_performance_cost_trend_hash);
            let h = spec_mix(h, self.source_validation_health_hash);
            let h = spec_mix(h, self.source_validation_duration_hash);
            let h = spec_mix(h, self.source_runtime_performance_hash);
            nz(h)
        }
    }

    pub fn content_hash(&self) -> (r: u64)
        ensures
            r == self.spec_content_hash(),
    {
        let mc = missing_modes_code(self.missing_required_modes);
        if self.schema_version == 0 || self.catalog_version == 0 || self.source_policy_reuse_hash
            == 0 || self.source_scale_trace_hash == 0 || self.source_performance_cost_trend_hash
            == 0 || self.source_validation_health_hash == 0 || self.source_validation_duration_hash
            == 0 || self.source_runtime_performance_hash == 0 || !catalog_type(self.record_type)
            || mc == 0 {
            return 0;
        }
        let mut h = mix(0x504f_4c52_4341_5441u64, self.schema_version);
        h = mix(h, 1);
        h = mix(h, self.catalog_version);
        h = mix(h, self.evidence_family_count as u64);
        h = mix(h, self.healthy_mode_count as u64);
        h = mix(h, self.regression_mode_count as u64);
        h = mix(h, self.retained_fixture_count as u64);
        h = mix(h, bool_u64(self.required_healthy_modes_present));
        h = mix(h, bool_u64(self.required_regression_modes_present));
        h = mix(h, bool_u64(self.summary_complete));
        h = mix(h, mc);
        h = mix(h, self.source_policy_reuse_hash);
        h = mix(h, self.source_scale_trace_hash);
        h = mix(h, self.source_performance_cost_trend_hash);
        h = mix(h, self.source_validation_health_hash);
        h = mix(h, self.source_validation_duration_hash);
        h = mix(h, self.source_runtime_performance_hash);
        nonzero(h)
    }

    pub open spec fn spec_receipt_hash(&self) -> u64 {
        let c = self.spec_content_hash();
        if c == 0 || self.catalog_hash != c {
            0
        } else {
            nz(spec_mix(0x504f_4c52_4341_5452u64, c))
        }
    }

    pub fn receipt_hash_of(&self) -> (r: u64)
        ensures
            r == self.spec_receipt_hash(),
    {
        let c = self.content_hash();
        if c == 0 || self.catalog_hash != c {
            return 0;
        }
        nonzero(mix(0x504f_4c52_4341_5452u64, c))
    }

    pub open spec fn spec_json_part0(&self) -> Seq<char> {
        json_key("schema_version"@)
            + spec_decimal(self.schema_version as nat)
            + seq![',']
            + json_key("record_type"@)
            + json_quoted(self.record_type@)
            + seq![',']
            + json_key("catalog_version"@)
            + spec_decimal(self.catalog_version as nat)
            + seq![',']
            + json_key("evidence_family_count"@)
            + spec_decimal(self.evidence_family_count as nat)
    }

    fn json_part0(&self, s: &mut String)
        ensures
            final(s)@ == old(s)@ + self.spec_json_part0(),
    {
        let ghost before = s@;
        push_json_key(s, "schema_version");
        push_decimal(s, self.schema_version);
        assert(s@ =~= before + json_key("schema_version"@) + spec_decimal(self.schema_version as nat));
        push_char(s, ',');
        push_json_key(s, "record_type");
        push_json_quoted(s, self.record_type);
        assert(s@ =~= before + json_key("schema_version"@) + spec_decimal(self.schema_version as nat) + seq![','] + json_key("record_type"@) + json_quoted(self.record_type@));
        push_char(s, ',');
        push_json_key(s, "catalog_version");
        push_decimal(s, self.catalog_version);
        assert(s@ =~= before + json_key("schema_version"@) + spec_decimal(self.schema_version as nat) + seq![','] + json_key("record_type"@) + json_quoted(self.record_type@) + seq![','] + json_key("catalog_version"@) + spec_decimal(self.catalog_version as nat));
        push_char(s, ',');
        push_json_key(s, "evidence_family_count");
        push_decimal(s, self.evidence_family_count as u64);
        assert(s@ =~= before + json_key("schema_version"@) + spec_decimal(self.schema_version as nat) + seq![','] + json_key("record_type"@) + json_quoted(self.record_type@) + seq![','] + json_key("catalog_version"@) + spec_decimal(self.catalog_version as nat) + seq![','] + json_key("evidence_family_count"@) + spec_decimal(self.evidence_family_count as nat));
        assert(s@ =~= before + self.spec_json_part0());
    }

    pub open spec fn spec_json_part1(&self) -> Seq<char> {
        seq![',']
            + json_key("healthy_mode_count"@)
            + spec_decimal(self.healthy_mode_count as nat)
            + seq![',']
            + json_key("regression_mode_count"@)
            + spec_decimal(self.regression_mode_count as nat)
            + seq![',']
            + json_key("retained_fixture_count"@)
            + spec_decimal(self.retained_fixture_count as nat)
            + seq![',']
            + json_key("required_healthy_modes_present"@)
            + spec_bool_text(self.required_healthy_modes_present)
    }

    fn json_part1(&self, s: &mut String)
        ensures
            final(s)@ == old(s)@ + self.spec_json_part1(),
    {
        let ghost before = s@;
        push_char(s, ',');
        push_json_key(s, "healthy_mode_count");
        push_decimal(s, self.healthy_mode_count as u64);
        assert(s@ =~= before + seq![','] + json_key("healthy_mode_count"@) + spec_decimal(self.healthy_mode_count as nat));
        push_char(s, ',');
        push_json_key(s, "regression_mode_count");
        push_decimal(s, self.regression_mode_count as u64);
        assert(s@ =~= before + seq![','] + json_key("healthy_mode_count"@) + spec_decimal(self.healthy_mode_count as nat) + seq![','] + json_key("regression_mode_count"@) + spec_decimal(self.regression_mode_count as nat));
        push_char(s, ',');
        push_json_key(s, "retained_fixture_count");
        push_decimal(s, self.retained_fixture_count as u64);
        assert(s@ =~= before + seq![','] + json_key("healthy_mode_count"@) + spec_decimal(self.healthy_mode_count as nat) + seq![','] + json_key("regression_mode_count"@) + spec_decimal(self.regression_mode_count as nat) + seq![','] + json_key("retained_fixture_count"@) + spec_decimal(self.retained_fixture_count as nat));
        push_char(s, ',');
        push_json_key(s, "required_healthy_modes_present");
        push_bool(s, self.required_healthy_modes_present);
        assert(s@ =~= before + seq![','] + json_key("healthy_mode_count"@) + spec_decimal(self.healthy_mode_count as nat) + seq![','] + json_key("regression_mode_count"@) + spec_decimal(self.regression_mode_count as nat) + seq![','] + json_key("retained_fixture_count"@) + spec_decimal(self.retained_fixture_count as nat) + seq![','] + json_key("required_healthy_modes_present"@) + spec_bool_text(self.required_healthy_modes_present));
        assert(s@ =~= before + self.spec_json_part1());
    }

    pub open spec fn spec_json_part2(&self) -> Seq<char> {
        seq![',']
            + json_key("required_regression_modes_present"@)
            + spec_bool_text(self.required_regression_modes_present)
            + seq![',']
            + json_key("summary_complete"@)
            + spec_bool_text(self.summary_complete)
            + seq![',']
            + json_key("missing_required_modes"@)
            + json_quoted(self.missing_required_modes@)
            + seq![',']
            + json_key("source_policy_reuse_hash"@)
            + spec_decimal(self.source_policy_reuse_hash as nat)
    }

    fn json_part2(&self, s: &mut String)
        ensures
            final(s)@ == old(s)@ + self.spec_json_part2(),
    {
        let ghost before = s@;
        push_char(s, ',');
        push_json_key(s, "required_regression_modes_present");
        push_bool(s, self.required_regression_modes_present);
        assert(s@ =~= before + seq![','] + json_key("required_regression_modes_present"@) + spec_bool_text(self.required_regression_modes_present));
        push_char(s, ',');
        push_json_key(s, "summary_complete");
        push_bool(s, self.summary_complete);
        assert(s@ =~= before + seq![','] + json_key("required_regression_modes_present"@) + spec_bool_text(self.required_regression_modes_present) + seq![','] + json_key("summary_complete"@) + spec_bool_text(self.summary_complete));
        push_char(s, ',');
        push_json_key(s, "missing_required_modes");
        push_json_quoted(s, self.missing_required_modes);
        assert(s@ =~= before + seq![','] + json_key("required_regression_modes_present"@) + spec_bool_text(self.required_regression_modes_present) + seq![','] + json_key("summary_complete"@) + spec_bool_text(self.summary_complete) + seq![','] + json_key("missing_required_modes"@) + json_quoted(self.missing_required_modes@));
        push_char(s, ',');
        push_json_key(s, "source_policy_reuse_hash");
        push_decimal(s, self.source_policy_reuse_hash);
        assert(s@ =~= before + seq![','] + json_key("required_regression_modes_present"@) + spec_bool_text(self.required_regression_modes_present) + seq![','] + json_key("summary_complete"@) + spec_bool_text(self.summary_complete) + seq![','] + json_key("missing_required_modes"@) + json_quoted(self.missing_required_modes@) + seq![','] + json_key("source_policy_reuse_hash"@) + spec_decimal(self.source_policy_reuse_hash as nat));
        assert(s@ =~= before + self.spec_json_part2());
    }

    pub open spec fn spec_json_part3(&self) -> Seq<char> {
        seq![',']
            + json_key("source_scale_trace_hash"@)
            + spec_decimal(self.source_scale_trace_hash as nat)
            + seq![',']
            + json_key("source_performance_cost_trend_hash"@)
            + spec_decimal(self.source_performance_cost_trend_hash as nat)
            + seq![',']
            + json_key("source_validation_health_hash"@)
            + spec_decimal(self.source_validation_health_hash as nat)
            + seq![',']
            + json_key("source_validation_duration_hash"@)
            + spec_decimal(self.source_validation_duration_hash as nat)
    }

    fn json_part3(&self, s: &mut String)
        ensures
            final(s)@ == old(s)@ + self.spec_json_part3(),
    {
        let ghost before = s@;
        push_char(s, ',');
        push_json_key(s, "source_scale_trace_hash");
        push_decimal(s, self.source_scale_trace_hash);
        assert(s@ =~= before + seq![','] + json_key("source_scale_trace_hash"@) + spec_decimal(self.source_scale_trace_hash as nat));
        push_char(s, ',');
        push_json_key(s, "source_performance_cost_trend_hash");
        push_decimal(s, self.source_performance_cost_trend_hash);
        assert(s@ =~= before + seq![','] + json_key("source_scale_trace_hash"@) + spec_decimal(self.source_scale_trace_hash as nat) + seq![','] + json_key("source_performance_cost_trend_hash"@) + spec_decimal(self.source_performance_cost_trend_hash as nat));
        push_char(s, ',');
        push_json_key(s, "source_validation_health_hash");
        push_decimal(s, self.source_validation_health_hash);
        assert(s@ =~= before + seq![','] + json_key("source_scale_trace_hash"@) + spec_decimal(self.source_scale_trace_hash as nat) + seq![','] + json_key("source_performance_cost_trend_hash"@) + spec_decimal(self.source_performance_cost_trend_hash as nat) + seq![','] + json_key("source_validation_health_hash"@) + spec_decimal(self.source_validation_health_hash as nat));
        push_char(s, ',');
        push_json_key(s, "source_validation_duration_hash");
        push_decimal(s, self.source_validation_duration_hash);
        assert(s@ =~= before + seq![','] + json_key("source_scale_trace_hash"@) + spec_decimal(self.source_scale_trace_hash as nat) + seq![','] + json_key("source_performance_cost_trend_hash"@) + spec_decimal(self.source_performance_cost_trend_hash as nat) + seq![','] + json_key("source_validation_health_hash"@) + spec_decimal(self.source_validation_health_hash as nat) + seq![','] + json_key("source_validation_duration_hash"@) + spec_decimal(self.source_validation_duration_hash as nat));
        assert(s@ =~= before + self.spec_json_part3());
    }

    pub open spec fn spec_json_part4(&self) -> Seq<char> {
        seq![',']
            + json_key("source_runtime_performance_hash"@)
            + spec_decimal(self.source_runtime_performance_hash as nat)
            + seq![',']
            + json_key("catalog_hash"@)
            + spec_decimal(self.catalog_hash as nat)
            + seq![',']
            + json_key("receipt_hash"@)
            + spec_decimal(self.receipt_hash as nat)
    }

    fn json_part4(&self, s: &mut String)
        ensures
            final(s)@ == old(s)@ + self.spec_json_part4(),
    {
        let ghost before = s@;
        push_char(s, ',');
        push_json_key(s, "source_runtime_performance_hash");
        push_decimal(s, self.source_runtime_performance_hash);
        assert(s@ =~= before + seq![','] + json_key("source_runtime_performance_hash"@) + spec_decimal(self.source_runtime_performance_hash as nat));
        push_char(s, ',');
        push_json_key(s, "catalog_hash");
        push_decimal(s, self.catalog_hash);
        assert(s@ =~= before + seq![','] + json_key("source_runtime_performance_hash"@) + spec_decimal(self.source_runtime_performance_hash as nat) + seq![','] + json_key("catalog_hash"@) + spec_decimal(self.catalog_hash as nat));
        push_char(s, ',');
        push_json_key(s, "receipt_hash");
        push_decimal(s, self.receipt_hash);
        assert(s@ =~= before + seq![','] + json_key("source_runtime_performance_hash"@) + spec_decimal(self.source_runtime_performance_hash as nat) + seq![','] + json_key("catalog_hash"@) + spec_decimal(self.catalog_hash as nat) + seq![','] + json_key("receipt_hash"@) + spec_decimal(self.receipt_hash as nat));
        assert(s@ =~= before + self.spec_json_part4());
    }

    pub open spec fn spec_to_json(&self) -> Seq<char> {
        seq!['{'] + self.spec_json_part0() + self.spec_json_part1() + self.spec_json_part2() + self.spec_json_part3() + self.spec_json_part4() + seq!['}']
    }

    pub fn to_json(&self) -> (r: String)
        ensures
            r@ == self.spec_to_json(),
    {
        let mut s = new_string();
        push_char(&mut s, '{');
        self.json_part0(&mut s);
        self.json_part1(&mut s);
        self.json_part2(&mut s);
        self.json_part3(&mut s);
        self.json_part4(&mut s);
        push_char(&mut s, '}');
        assert(s@ =~= self.spec_to_json());
        s
    }

    /// The catalog is complete when both required mode families are present
    /// and no required mode is reported missing.
    #[allow(clippy::too_many_arguments)]
    pub fn from_source_hashes(
        evidence_family_count: usize,
        healthy_mode_count: usize,
        regression_mode_count: usize,
        retained_fixture_count: usize,
        required_healthy_modes_present: bool,
        required_regression_modes_present: bool,
        missing_required_modes: &'static str,
        source_policy_reuse_hash: u64,
        source_scale_trace_hash: u64,
        source_performance_cost_trend_hash: u64,
        source_validation_health_hash: u64,
        source_validation_duration_hash: u64,
        source_runtime_performance_hash: u64,
    ) -> (r: Self)
        ensures
            r.schema_version == 1,
            r.record_type@ == "policy_reuse_cost_catalog"@,
            r.catalog_version == 1,
            r.evidence_family_count == evidence_family_count,
            r.healthy_mode_count == healthy_mode_count,
            r.regression_mode_count == regression_mode_count,
            r.retained_fixture_count == retained_fixture_count,
            r.required_healthy_modes_present == required_healthy_modes_present,
            r.required_regression_modes_present == required_regression_modes_present,
            r.summary_complete == (required_healthy_modes_present
                && required_regression_modes_present && missing_required_modes@ == "none"@),
            r.missing_required_modes == missing_required_modes,
            r.source_policy_reuse_hash == source_policy_reuse_hash,
            r.source_scale_trace_hash == source_scale_trace_hash,
            r.source_performance_cost_trend_hash == source_performance_cost_trend_hash,
            r.source_validation_health_hash == source_validation_health_hash,
            r.source_validation_duration_hash == source_validation_duration_hash,
            r.source_runtime_performance_hash == source_runtime_performance_hash,
            r.catalog_hash == r.spec_content_hash(),
            r.receipt_hash == r.spec_receipt_hash(),
    {
        let summary_complete = required_healthy_modes_present && required_regression_modes_present
            && str_eq(missing_required_modes, "none");
        let mut receipt = PolicyReuseCostCatalogReceipt {
            schema_version: 1,
            record_type: "policy_reuse_cost_catalog",
            catalog_version: 1,
            evidence_family_count,
            healthy_mode_count,
            regression_mode_count,
            retained_fixture_count,
            required_healthy_modes_present,
            required_regression_modes_present,
            summary_complete,
            missing_required_modes,
            source_policy_reuse_hash,
            source_scale_trace_hash,
            source_performance_cost_trend_hash,
            source_validation_health_hash,
            source_validation_duration_hash,
            source_runtime_performance_hash,
            catalog_hash: 0,
            receipt_hash: 0,
        };
        receipt.catalog_hash = receipt.content_hash();
        receipt.receipt_hash = receipt.receipt_hash_of();
        receipt
    }

    pub open spec fn spec_is_valid(&self) -> bool {
        &&& self.schema_version == 1
        &&& self.catalog_version == 1
        &&& is_catalog_type(self.record_type@)
        &&& self.evidence_family_count > 0
        &&& self.healthy_mode_count > 0
        &&& self.regression_mode_count > 0
        &&& self.retained_fixture_count > 0
        &&& self.summary_complete == (self.required_healthy_modes_present
            && self.required_regression_modes_present && self.missing_required_modes@ == "none"@)
        &&& self.source_policy_reuse_hash != 0
        &&& self.source_scale_trace_hash != 0
        &&& self.source_performance_cost_trend_hash != 0
        &&& self.source_validation_health_hash != 0
        &&& self.source_validation_duration_hash != 0
        &&& self.source_runtime_performance_hash != 0
        &&& self.catalog_hash != 0
        &&& self.receipt_hash != 0
        &&& self.catalog_hash == self.spec_content_hash()
        &&& self.receipt_hash == self.spec_receipt_hash()
    }

    pub fn is_valid(&self) -> (r: bool)
        ensures
            r == self.spec_is_valid(),
    {
        self.schema_version == 1 && self.catalog_version == 1 && catalog_type(self.record_type)
            && self.evidence_family_count > 0 && self.healthy_mode_count > 0
            && self.regression_mode_count > 0 && self.retained_fixture_count > 0
            && self.summary_complete == (self.required_healthy_modes_present
            && self.required_regression_modes_present && str_eq(
            self.missing_required_modes,
            "none",
        )) && self.source_policy_reuse_hash != 0 && self.source_scale_trace_hash != 0
            && self.source_performance_cost_trend_hash != 0 && self.source_validation_health_hash
            != 0 && self.source_validation_duration_hash != 0
            && self.source_runtime_performance_hash != 0 && self.catalog_hash != 0
            && self.receipt_hash != 0 && self.catalog_hash == self.content_hash()
            && self.receipt_hash == self.receipt_hash_of()
    }

    pub fn passed(&self) -> (r: bool)
        ensures
            r == (self.spec_is_valid() && self.summary_complete),
    {
        self.is_valid() && self.summary_complete
    }
}

impl EvidenceProducer for JudgmentRecord {
    type Record = JudgmentRecord;

    fn record(&self) -> (r: &JudgmentRecord)
        ensures
            r == self,
    {
        self
    }

    fn submission(&self) -> (r: EvidenceSubmission)
        ensures
            r == (EvidenceSubmission {
                gate: GateId::Judgment,
                evidence: Evidence::JudgmentRecord,
                passed: self.spec_is_valid(),
                payload_hash: spec_judgment_payload_hash(*self),
                effect: PacketEffect::Noop,
            }),
    {
        JudgmentRecord::submission(self)
    }
}

impl EvidenceProducer for PolicyJudgmentRecord {
    type Record = PolicyJudgmentRecord;

    fn record(&self) -> (r: &PolicyJudgmentRecord)
        ensures
            r == self,
    {
        self
    }

    fn submission(&self) -> (r: EvidenceSubmission)
        ensures
            r == (EvidenceSubmission {
                gate: GateId::Judgment,
                evidence: Evidence::JudgmentRecord,
                passed: self.spec_is_valid(),
                payload_hash: spec_judgment_payload_hash(self.spec_judgment_record()),
                effect: PacketEffect::Noop,
            }),
    {
        PolicyJudgmentRecord::submission(self)
    }
}

} // verus!
