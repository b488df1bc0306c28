//! Deterministic structured record of one LLM judgment turn, and the retry
//! budget rules shared by the provider adapters.
use vstd::prelude::*;
use crate::capability::EvidenceProducer;
use crate::capability::context::record::ContextRecord;
use crate::capability::judgment::record::JudgmentRecord;
use crate::capability::policy::store::{spec_fingerprint, spec_latest_version, PolicyStore};
use crate::kernel::{mix, nonzero, nz, spec_mix, Evidence, EvidenceSubmission, GateId, PacketEffect};

verus! {

pub const LLM_JUDGMENT_SCHEMA_VERSION: u64 = 1;

pub const LLM_JUDGMENT_SCHEMA_HASH: u64 = 0x4f1bbcdd2f5d7a91;

#[derive(Clone, Copy, Debug, PartialEq, Eq, Structural)]
pub enum LlmDecision {
    Structured,
    Refused,
}

#[derive(Clone, Copy, Debug, PartialEq, Eq, Structural)]
pub struct LlmPromptRecord {
    pub schema_version: u64,
    pub context_hash: u64,
    pub policy_version: u64,
    pub policy_hash: u64,
    pub prompt_hash: u64,
}

impl LlmPromptRecord {
    pub open spec fn spec_is_valid(self) -> bool {
        &&& self.schema_version == LLM_JUDGMENT_SCHEMA_VERSION
        &&& self.context_hash != 0
        &&& self.policy_version != 0
        &&& self.policy_hash != 0
        &&& self.prompt_hash != 0
    }

    pub fn is_valid(self) -> (r: bool)
        ensures
            r == self.spec_is_valid(),
    {
        self.schema_version == LLM_JUDGMENT_SCHEMA_VERSION && self.context_hash != 0
            && self.policy_version != 0 && self.policy_hash != 0 && self.prompt_hash != 0
    }
}

#[derive(Clone, Copy, Debug, PartialEq, Eq, Structural)]
pub struct LlmResponseRecord {
    pub model_id: u64,
    pub prompt_hash: u64,
    pub response_hash: u64,
    pub token_count: u32,
    pub schema_hash: u64,
}

impl LlmResponseRecord {
    pub open spec fn spec_is_valid(self) -> bool {
        &&& self.model_id != 0
        &&& self.prompt_hash != 0
        &&& self.response_hash != 0
        &&& self.token_count != 0
        &&& self.schema_hash == LLM_JUDGMENT_SCHEMA_HASH
    }

    pub fn is_valid(self) -> (r: bool)
        ensures
            r == self.spec_is_valid(),
    {
        self.model_id != 0 && self.prompt_hash != 0 && self.response_hash != 0
            && self.token_count != 0 && self.schema_hash == LLM_JUDGMENT_SCHEMA_HASH
    }
}

#[derive(Clone, Copy, Debug, PartialEq, Eq, Structural)]
pub struct LlmRecord {
    pub prompt: LlmPromptRecord,
    pub response: LlmResponseRecord,
    pub judgment: JudgmentRecord,
}

/// Number of one bits of a word.
pub open spec fn popcount(x: nat) -> nat
    decreases x,
{
    if x == 0 {
        0
    } else {
        (x % 2) + popcount(x / 2)
    }
}

proof fn lemma_popcount_bound(x: nat, bits: nat)
    requires
        x < vstd::arithmetic::power2::pow2(bits),
    ensures
        popcount(x) <= bits,
    decreases bits,
{
    if bits == 0 {
        vstd::arithmetic::power2::lemma2_to64();
    } else {
        vstd::arithmetic::power2::lemma_pow2_unfold(bits);
        lemma_popcount_bound(x / 2, (bits - 1) as nat);
    }
}

fn count_ones(x: u64) -> (r: u32)
    ensures
        r == popcount(x as nat),
        r <= 64,
{
    let mut y = x;
    let mut n: u32 = 0;
    proof {
        vstd::arithmetic::power2::lemma2_to64();
        lemma_popcount_bound(x as nat, 64);
    }
    while y != 0
        invariant
            n + popcount(y as nat) == popcount(x as nat),
            popcount(x as nat) <= 64,
        decreases y,
    {
        n = n + (y % 2) as u32;
        y = y / 2;
    }
    n
}

/// Tokens charged for a locally structured turn.
pub open spec fn spec_token_count(context: ContextRecord) -> u32 {
    let bits = popcount(context.context_hash as nat) % 32;
    (context.prior_count + 4 + if bits == 0 { 1 } else { bits }) as u32
}

fn token_count(context: &ContextRecord) -> (r: u32)
    ensures
        r == spec_token_count(*context),
{
    let bits = count_ones(context.context_hash) % 32;
    (context.prior_count as u32) + 4 + if bits == 0 { 1 } else { bits }
}

pub open spec fn spec_prompt_hash(context: ContextRecord, policy_version: u64, policy_hash: u64) -> u64 {
    let h = spec_mix(0x106689d45497fdb5u64, context.objective_id);
    let h = spec_mix(h, context.observation_hash);
    let h = spec_mix(h, context.memory_aggregate_hash);
    let h = spec_mix(h, context.context_hash);
    let h = spec_mix(h, context.prior_count as u64);
    let h = spec_mix(h, policy_version);
    let h = spec_mix(h, policy_hash);
    let h = spec_mix(h, LLM_JUDGMENT_SCHEMA_VERSION);
    nz(h)
}

fn prompt_hash(context: &ContextRecord, policy_version: u64, policy_hash: u64) -> (r: u64)
    ensures
        r == spec_prompt_hash(*context, policy_version, policy_hash),
{
    let mut h = mix(0x106689d45497fdb5u64, context.objective_id);
    h = mix(h, context.observation_hash);
    h = mix(h, context.memory_aggregate_hash);
    h = mix(h, context.context_hash);
    h = mix(h, context.prior_count as u64);
    h = mix(h, policy_version);
    h = mix(h, policy_hash);
    h = mix(h, LLM_JUDGMENT_SCHEMA_VERSION);
    nonzero(h)
}

pub open spec fn spec_response_hash(
    context: ContextRecord,
    model_id: u64,
    prompt_hash: u64,
    policy_hash: u64,
) -> u64 {
    let h = spec_mix(0x6c62272e07bb0142u64, model_id);
    let h = spec_mix(h, prompt_hash);
    let h = spec_mix(h, policy_hash);
    let h = spec_mix(h, context.context_hash);
    let h = spec_mix(h, context.memory_aggregate_hash);
    let h = spec_mix(h, LLM_JUDGMENT_SCHEMA_HASH);
    nz(h)
}

fn response_hash(context: &ContextRecord, model_id: u64, prompt_hash: u64, policy_hash: u64) -> (r:
    u64)
    ensures
        r == spec_response_hash(*context, model_id, prompt_hash, policy_hash),
{
    let mut h = mix(0x6c62272e07bb0142u64, model_id);
    h = mix(h, prompt_hash);
    h = mix(h, policy_hash);
    h = mix(h, context.context_hash);
    h = mix(h, context.memory_aggregate_hash);
    h = mix(h, LLM_JUDGMENT_SCHEMA_HASH);
    nonzero(h)
}

pub open spec fn spec_rationale_hash(
    context: ContextRecord,
    response_hash: u64,
    policy_version: u64,
    policy_hash: u64,
) -> u64 {
    let h = spec_mix(0x80a3dc05d5f2d4f7u64, context.objective_id);
    let h = spec_mix(h, context.context_hash);
    let h = spec_mix(h, response_hash);
    let h = spec_mix(h, policy_version);
    let h = spec_mix(h, policy_hash);
    nz(h)
}

fn rationale_hash(
    context: &ContextRecord,
    response_hash: u64,
    policy_version: u64,
    policy_hash: u64,
) -> (r: u64)
    ensures
        r == spec_rationale_hash(*context, response_hash, policy_version, policy_hash),
{
    let mut h = mix(0x80a3dc05d5f2d4f7u64, context.objective_id);
    h = mix(h, context.context_hash);
    h = mix(h, response_hash);
    h = mix(h, policy_version);
    h = mix(h, policy_hash);
    nonzero(h)
}

pub open spec fn spec_llm_payload_hash(record: LlmRecord) -> u64 {
    let h = spec_mix(0xd6e8_feb8_6659_fd93u64, record.prompt.context_hash);
    let h = spec_mix(h, record.prompt.policy_version);
    let h = spec_mix(h, record.prompt.policy_hash);
    let h = spec_mix(h, record.prompt.prompt_hash);
    let h = spec_mix(h, record.response.model_id);
    let h = spec_mix(h, record.response.response_hash);
    let h = spec_mix(h, record.response.token_count as u64);
    let h = spec_mix(h, record.judgment.decision_id);
    let h = spec_mix(h, record.judgment.rationale_hash);
    nz(h)
}

fn llm_payload_hash(record: &LlmRecord) -> (r: u64)
    ensures
        r == spec_llm_payload_hash(*record),
{
    let mut h = mix(0xd6e8_feb8_6659_fd93u64, record.prompt.context_hash);
    h = mix(h, record.prompt.policy_version);
    h = mix(h, record.prompt.policy_hash);
    h = mix(h, record.prompt.prompt_hash);
    h = mix(h, record.response.model_id);
    h = mix(h, record.response.response_hash);
    h = mix(h, record.response.token_count as u64);
    h = mix(h, record.judgment.decision_id);
    h = mix(h, record.judgment.rationale_hash);
    nonzero(h)
}

/// The policy version a turn is judged under: the latest, or 1 for an empty store.
pub open spec fn spec_turn_policy_version(entries: Seq<crate::capability::policy::store::PolicyEntry>) -> u64 {
    if spec_latest_version(entries) == 0 {
        1
    } else {
        spec_latest_version(entries)
    }
}

/// The record of a turn whose response has the given hash and token count.
pub open spec fn spec_record_with_response(
    context: ContextRecord,
    entries: Seq<crate::capability::policy::store::PolicyEntry>,
    model_id: u64,
    response_hash: u64,
    token_count: u32,
) -> LlmRecord {
    let policy_version = spec_turn_policy_version(entries);
    let policy_hash = spec_fingerprint(entries);
    let prompt_hash = if context.spec_is_valid() {
        spec_prompt_hash(context, policy_version, policy_hash)
    } else {
        0
    };
    LlmRecord {
        prompt: LlmPromptRecord {
            schema_version: LLM_JUDGMENT_SCHEMA_VERSION,
            context_hash: context.context_hash,
            policy_version,
            policy_hash,
            prompt_hash,
        },
        response: LlmResponseRecord {
            model_id,
            prompt_hash,
            response_hash,
            token_count,
            schema_hash: LLM_JUDGMENT_SCHEMA_HASH,
        },
        judgment: JudgmentRecord {
            decision_id: response_hash,
            policy_version,
            rationale_hash: spec_rationale_hash(context, response_hash, policy_version, policy_hash),
        },
    }
}

/// The locally structured record of a turn: its response is derived from the prompt.
pub open spec fn spec_record_from_context(
    context: ContextRecord,
    entries: Seq<crate::capability::policy::store::PolicyEntry>,
    model_id: u64,
) -> LlmRecord {
    let policy_version = spec_turn_policy_version(entries);
    let policy_hash = spec_fingerprint(entries);
    let prompt_hash = if context.spec_is_valid() {
        spec_prompt_hash(context, policy_version, policy_hash)
    } else {
        0
    };
    spec_record_with_response(
        context,
        entries,
        model_id,
        spec_response_hash(context, model_id, prompt_hash, policy_hash),
        spec_token_count(context),
    )
}

impl LlmRecord {
    fn with_response(
        context: &ContextRecord,
        policy: &PolicyStore,
        model_id: u64,
        response_hash: u64,
        token_count: u32,
    ) -> (r: Self)
        ensures
            r == spec_record_with_response(*context, policy@, model_id, response_hash, token_count),
    {
        let latest = policy.latest_version();
        let policy_version = if latest == 0 { 1 } else { latest };
        let policy_hash = policy.fingerprint();
        let prompt_hash = if context.is_valid() {
            prompt_hash(context, policy_version, policy_hash)
        } else {
            0
        };
        let rationale_hash = rationale_hash(context, response_hash, policy_version, policy_hash);
        LlmRecord {
            prompt: LlmPromptRecord {
                schema_version: LLM_JUDGMENT_SCHEMA_VERSION,
                context_hash: context.context_hash,
                policy_version,
                policy_hash,
                prompt_hash,
            },
            response: LlmResponseRecord {
                model_id,
                prompt_hash,
                response_hash,
                token_count,
                schema_hash: LLM_JUDGMENT_SCHEMA_HASH,
            },
            judgment: JudgmentRecord { decision_id: response_hash, policy_version, rationale_hash },
        }
    }

    pub fn from_context_policy(context: &ContextRecord, policy: &PolicyStore, model_id: u64) -> (r:
        Self)
        ensures
            r == spec_record_from_context(*context, policy@, model_id),
    {
        let latest = policy.latest_version();
        let policy_version = if latest == 0 { 1 } else { latest };
        let policy_hash = policy.fingerprint();
        let prompt_hash = if context.is_valid() {
            prompt_hash(context, policy_version, policy_hash)
        } else {
            0
        };
        let response_hash = response_hash(context, model_id, prompt_hash, policy_hash);
        Self::with_response(context, policy, model_id, response_hash, token_count(context))
    }

    pub open spec fn spec_is_valid(&self) -> bool {
        &&& self.prompt.spec_is_valid()
        &&& self.response.spec_is_valid()
        &&& self.response.prompt_hash == self.prompt.prompt_hash
        &&& self.judgment.spec_is_valid()
        &&& self.judgment.policy_version == self.prompt.policy_version
        &&& self.judgment.decision_id == self.response.response_hash
    }

    pub fn is_valid(&self) -> (r: bool)
        ensures
            r == self.spec_is_valid(),
    {
        self.prompt.is_valid() && self.response.is_valid() && self.response.prompt_hash
            == self.prompt.prompt_hash && self.judgment.is_valid() && self.judgment.policy_version
            == self.prompt.policy_version && self.judgment.decision_id
            == self.response.response_hash
    }

    pub open spec fn spec_decision(&self) -> LlmDecision {
        if self.spec_is_valid() {
            LlmDecision::Structured
        } else {
            LlmDecision::Refused
        }
    }

    pub fn decision(&self) -> (r: LlmDecision)
        ensures
            r == self.spec_decision(),
    {
        if self.is_valid() {
            LlmDecision::Structured
        } else {
            LlmDecision::Refused
        }
    }

    pub fn judgment_record(&self) -> (r: JudgmentRecord)
        ensures
            r == self.judgment,
    {
        self.judgment
    }

    pub open spec fn spec_submission(&self) -> EvidenceSubmission {
        EvidenceSubmission {
            gate: GateId::Judgment,
            evidence: Evidence::JudgmentRecord,
            passed: self.spec_is_valid(),
            payload_hash: spec_llm_payload_hash(*self),
            effect: PacketEffect::Noop,
        }
    }

    pub fn submission(&self) -> (r: EvidenceSubmission)
        ensures
            r == self.spec_submission(),
    {
        let structured = match self.decision() {
            LlmDecision::Structured => true,
            LlmDecision::Refused => false,
        };
        EvidenceSubmission::with_payload(
            GateId::Judgment,
            Evidence::JudgmentRecord,
            structured,
            llm_payload_hash(self),
        )
    }
}

#[derive(Clone, Copy, Debug, PartialEq, Eq, Structural)]
pub struct LlmStructuredAdapter;

impl LlmStructuredAdapter {
    /// The locally structured record of a context under a policy.
    pub fn record_from_context(context: &ContextRecord, policy: &PolicyStore, model_id: u64) -> (r:
        LlmRecord)
        ensures
            r == spec_record_from_context(*context, policy@, model_id),
    {
        LlmRecord::from_context_policy(context, policy, model_id)
    }

    /// The record of a turn whose response came from a provider.
    pub fn record_from_external_response(
        context: &ContextRecord,
        policy: &PolicyStore,
        model_id: u64,
        response_hash: u64,
        token_count: u32,
    ) -> (r: LlmRecord)
        ensures
            r == spec_record_with_response(*context, policy@, model_id, response_hash, token_count),
    {
        LlmRecord::with_response(context, policy, model_id, response_hash, token_count)
    }
}

/// A retry policy is usable when it has a timeout and an attempt budget no
/// larger than one first attempt plus the allowed retries.
pub open spec fn spec_retry_budget_policy_valid(timeout_ms: u64, max_retries: u32, attempt_budget: u32) -> bool {
    &&& timeout_ms != 0
    &&& attempt_budget != 0
    &&& attempt_budget <= max_retries + 1
}

pub fn retry_budget_policy_valid(timeout_ms: u64, max_retries: u32, attempt_budget: u32) -> (r: bool)
    ensures
        r == spec_retry_budget_policy_valid(timeout_ms, max_retries, attempt_budget),
{
    timeout_ms != 0 && attempt_budget != 0 && (attempt_budget as u64) <= (max_retries as u64) + 1
}

/// The attempt with this retry count is the last one the budget allows.
pub open spec fn spec_retry_budget_exhausted(retry_count: u32, max_retries: u32, attempt_budget: u32) -> bool {
    retry_count >= max_retries || retry_count + 1 >= attempt_budget
}

pub fn retry_budget_exhausted(retry_count: u32, max_retries: u32, attempt_budget: u32) -> (r: bool)
    ensures
        r == spec_retry_budget_exhausted(retry_count, max_retries, attempt_budget),
{
    retry_count >= max_retries || (retry_count as u64) + 1 >= attempt_budget as u64
}

/// A retry decision is well formed: its policy is usable, its hashes are
/// present, and it allows only a fresh request within the budget.
pub open spec fn spec_retry_budget_decision_valid(
    timeout_ms: u64,
    retry_count: u32,
    max_retries: u32,
    attempt_budget: u32,
    request_identity_hash: u64,
    retry_budget_hash: u64,
    duplicate_request: bool,
    allowed: bool,
) -> bool {
    &&& spec_retry_budget_policy_valid(timeout_ms, max_retries, attempt_budget)
    &&& request_identity_hash != 0
    &&& retry_budget_hash != 0
    &&& (allowed ==> retry_count <= max_retries && retry_count < attempt_budget
        && !duplicate_request)
}

pub fn retry_budget_decision_valid(
    timeout_ms: u64,
    retry_count: u32,
    max_retries: u32,
    attempt_budget: u32,
    request_identity_hash: u64,
    retry_budget_hash: u64,
    duplicate_request: bool,
    allowed: bool,
) -> (r: bool)
    ensures
        r == spec_retry_budget_decision_valid(
            timeout_ms,
            retry_count,
            max_retries,
            attempt_budget,
            request_identity_hash,
            retry_budget_hash,
            duplicate_request,
            allowed,
        ),
{
    retry_budget_policy_valid(timeout_ms, max_retries, attempt_budget) && request_identity_hash != 0
        && retry_budget_hash != 0 && (!allowed || (retry_count <= max_retries && retry_count
        < attempt_budget && !duplicate_request))
}

/// A decision that may back a receipt: well formed and allowed.
pub open spec fn spec_retry_budget_decision_receiptable(
    timeout_ms: u64,
    retry_count: u32,
    max_retries: u32,
    attempt_budget: u32,
    request_identity_hash: u64,
    retry_budget_hash: u64,
    duplicate_request: bool,
    allowed: bool,
) -> bool {
    &&& spec_retry_budget_decision_valid(
        timeout_ms,
        retry_count,
        max_retries,
        attempt_budget,
        request_identity_hash,
        retry_budget_hash,
        duplicate_request,
        allowed,
    )
    &&& allowed
}

pub fn retry_budget_decision_receiptable(
    timeout_ms: u64,
    retry_count: u32,
    max_retries: u32,
    attempt_budget: u32,
    request_identity_hash: u64,
    retry_budget_hash: u64,
    duplicate_request: bool,
    allowed: bool,
) -> (r: bool)
    ensures
        r == spec_retry_budget_decision_receiptable(
            timeout_ms,
            retry_count,
            max_retries,
            attempt_budget,
            request_identity_hash,
            retry_budget_hash,
            duplicate_request,
            allowed,
        ),
{
    retry_budget_decision_valid(
        timeout_ms,
        retry_count,
        max_retries,
        attempt_budget,
        request_identity_hash,
        retry_budget_hash,
        duplicate_request,
        allowed,
    ) && allowed
}

impl EvidenceProducer for LlmRecord {
    type Record = LlmRecord;

    fn record(&self) -> (r: &LlmRecord)
        ensures
            r == self,
    {
        self
    }

    fn submission(&self) -> (r: EvidenceSubmission)
        ensures
            r == self.spec_submission(),
    {
        LlmRecord::submission(self)
    }
}

} // verus!
