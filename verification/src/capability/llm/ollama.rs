//! Ollama adapter over its local OpenAI-compatible chat endpoint: the
//! configuration, retry budgets, request body and reply reader, and the
//! effect receipts and proof events that bind a reply to the judgment log.
//!
//! The socket exchange itself stays outside; everything it sends is built
//! here and everything it receives is read here.
use vstd::prelude::*;
use vstd::string::StringSliceAdditionalSpecFns;
use vstd::utf8::encode_utf8;
use crate::capability::context::record::ContextRecord;
use crate::capability::llm::provider_common::{
    b2u, bool_u64, encode_u64_fields_ndjson, is_persisted_judgment, judgment_prompt,
    parse_u64_fields, persisted_judgment, push_json_escaped, spec_json_escape,
    spec_judgment_prompt, spec_parse_u64_fields, JUDGMENT_SYSTEM_PROMPT, PROOF_FLAG_PHASE_VERIFIED,
    PROOF_FLAG_PROVENANCE_VERIFIED, PROOF_FLAG_RECEIPT_VERIFIED, PROOF_FLAG_TAMPER_REJECTED,
};
use crate::capability::llm::record::{
    retry_budget_decision_receiptable, retry_budget_decision_valid, retry_budget_exhausted,
    retry_budget_policy_valid, spec_llm_payload_hash, spec_record_with_response,
    spec_retry_budget_decision_receiptable, spec_retry_budget_decision_valid,
    spec_retry_budget_exhausted, spec_retry_budget_policy_valid, LlmRecord, LlmStructuredAdapter,
};
use crate::capability::llm::transport::{
    chat_completions_path as shared_chat_completions_path, first_index_of, fold_bytes_mix,
    parse_local_http_endpoint, request_identity_hash as shared_request_identity_hash,
    retry_policy_hash as shared_retry_policy_hash, spec_chat_completions_path,
    spec_parse_endpoint, LocalEndpointError,
};
use crate::capability::llm::openai::{
    decode_json_from, find_char, find_text, json_escape_char, json_escape_text, json_unescape,
    lemma_first_index_after,
    skip_ws, digits_prefix,
};
use crate::capability::llm::provider_common::{find_from, lemma_find_from_found};
use crate::capability::policy::store::PolicyStore;
use crate::codec::{
    digits_value, encode_u64_list, is_blank, is_ws, lemma_u64_list_round_trip, parse_digits, trim,
    trim_end, trim_start,
};
use crate::kernel::{
    fold_mix, mix, nonzero, nz, spec_fold_mix, spec_mix, ControlEvent, EvidenceSubmission,
};
use crate::text::{chars_of, is_digit, new_string, owned, push_char, push_decimal, push_str, spec_decimal};

verus! {

pub const OLLAMA_PROVIDER: &'static str = "ollama";

pub const OLLAMA_LLM_EFFECT_RECEIPT_SCHEMA_VERSION: u64 = 5;

pub const OLLAMA_LLM_EFFECT_RECEIPT_RECORD: u64 = 51;

pub const OLLAMA_JUDGMENT_PROOF_SCHEMA_VERSION: u64 = 3;

pub const OLLAMA_JUDGMENT_PROOF_RECORD: u64 = 52;

pub const OLLAMA_JUDGMENT_PROOF_LINE: &'static str =
    "receipt_verified+tamper_rejected+endpoint_verified+phase_plan";

pub const OLLAMA_DEFAULT_BASE_URL: &'static str = "http://127.0.0.1:11434/v1";

pub const OLLAMA_DEFAULT_MODEL: &'static str = "qwen2.5-coder:7b";

pub const OLLAMA_DEFAULT_TIMEOUT_MS: u64 = 30_000;

pub const OLLAMA_DEFAULT_MAX_RETRIES: u32 = 0;

pub const OLLAMA_DEFAULT_ATTEMPT_BUDGET: u32 = 1;

/// The Ollama text hash: each UTF-8 byte folded into a fixed seed, never zero.
pub open spec fn spec_hash_text(bytes: Seq<u8>) -> u64 {
    nz(fold_bytes_mix(0x91f2_49bb_1f6d_7c35u64, bytes))
}

pub fn hash_text(value: &str) -> (r: u64)
    ensures
        r == spec_hash_text(value.spec_bytes()),
{
    let bytes = value.as_bytes();
    let mut h: u64 = 0x91f2_49bb_1f6d_7c35u64;
    let mut i: usize = 0;
    while i < bytes.len()
        invariant
            i <= bytes@.len(),
            h == fold_bytes_mix(0x91f2_49bb_1f6d_7c35u64, bytes@.take(i as int)),
        decreases bytes@.len() - i,
    {
        assert(bytes@.take(i as int + 1).drop_last() =~= bytes@.take(i as int));
        h = mix(h, bytes[i] as u64);
        i = i + 1;
    }
    assert(bytes@.take(i as int) =~= bytes@);
    nonzero(h)
}

/// Failures of the Ollama adapter.
#[derive(Debug)]
pub enum OllamaError {
    InvalidConfig(&'static str),
    InvalidUrl,
    HttpStatus(u16),
    Io(std::io::Error),
    InvalidResponse,
    InvalidReceipt,
    InvalidReceiptRecord,
    InvalidReplay,
    BudgetExhausted,
    DuplicateRequest,
}

impl OllamaError {
    /// The message of the error, as the adapter reports it.
    pub open spec fn spec_message(&self) -> Seq<char> {
        match self {
            OllamaError::InvalidConfig(reason) => "invalid ollama config: "@ + reason@,
            OllamaError::HttpStatus(status) => "ollama returned HTTP "@ + spec_decimal(*status as nat),
            OllamaError::InvalidUrl => "invalid local ollama url"@,
            OllamaError::Io(_) => "ollama io failed: "@,
            OllamaError::InvalidResponse => "ollama response was not parseable"@,
            OllamaError::InvalidReceipt => "ollama effect receipt is invalid"@,
            OllamaError::InvalidReceiptRecord => "ollama effect receipt record is invalid"@,
            OllamaError::InvalidReplay => "ollama effect receipt failed replay verification"@,
            OllamaError::BudgetExhausted => "ollama retry budget exhausted"@,
            OllamaError::DuplicateRequest => "ollama duplicate request identity rejected"@,
        }
    }

    /// The error's message. For an I/O failure it is the I/O message, then
    /// the text of the I/O error itself.
    pub fn message(&self) -> (r: String)
        ensures
            match self {
                OllamaError::Io(_) => r@.len() >= self.spec_message().len() && r@.subrange(
                    0,
                    self.spec_message().len() as int,
                ) == self.spec_message(),
                _ => r@ == self.spec_message(),
            },
    {
        match self {
            OllamaError::InvalidConfig(reason) => {
                let mut s = owned("invalid ollama config: ");
                push_str(&mut s, reason);
                s
            },
            OllamaError::InvalidUrl => owned("invalid local ollama url"),
            OllamaError::HttpStatus(status) => {
                let mut s = owned("ollama returned HTTP ");
                crate::text::push_decimal(&mut s, *status as u64);
                s
            },
            OllamaError::Io(error) => {
                let mut s = owned("ollama io failed: ");
                let text = crate::error::io_error_text(&error);
                push_str(&mut s, text.as_str());
                s
            },
            OllamaError::InvalidResponse => owned("ollama response was not parseable"),
            OllamaError::InvalidReceipt => owned("ollama effect receipt is invalid"),
            OllamaError::InvalidReceiptRecord => owned(
                "ollama effect receipt record is invalid",
            ),
            OllamaError::InvalidReplay => owned(
                "ollama effect receipt failed replay verification",
            ),
            OllamaError::BudgetExhausted => owned("ollama retry budget exhausted"),
            OllamaError::DuplicateRequest => owned(
                "ollama duplicate request identity rejected",
            ),
        }
    }
}

#[derive(Clone, Debug, PartialEq, Eq)]
pub struct OllamaConfig {
    pub base_url: String,
    pub model: String,
    pub timeout_ms: u64,
}

impl Default for OllamaConfig {
    fn default() -> (r: Self)
        ensures
            r.base_url@ == OLLAMA_DEFAULT_BASE_URL@,
            r.model@ == OLLAMA_DEFAULT_MODEL@,
            r.timeout_ms == OLLAMA_DEFAULT_TIMEOUT_MS,
    {
        OllamaConfig {
            base_url: owned(OLLAMA_DEFAULT_BASE_URL),
            model: owned(OLLAMA_DEFAULT_MODEL),
            timeout_ms: OLLAMA_DEFAULT_TIMEOUT_MS,
        }
    }
}

/// The error a base URL is refused with, if any.
pub open spec fn spec_endpoint_error(base_url: Seq<char>) -> Option<OllamaError> {
    match spec_parse_endpoint(base_url) {
        Ok(_) => None,
        Err(LocalEndpointError::InvalidUrl) => Some(OllamaError::InvalidUrl),
        Err(LocalEndpointError::NonLocalHost) => Some(
            OllamaError::InvalidConfig("ollama base url must be local"),
        ),
    }
}

/// The error a configuration is refused with, if any: an empty model, a
/// zero timeout, then the base URL.
pub open spec fn spec_config_error(config: OllamaConfig) -> Option<OllamaError> {
    if trim(config.model@).len() == 0 {
        Some(OllamaError::InvalidConfig("empty model"))
    } else if config.timeout_ms == 0 {
        Some(OllamaError::InvalidConfig("zero timeout"))
    } else {
        spec_endpoint_error(config.base_url@)
    }
}

fn endpoint_error(err: LocalEndpointError) -> (r: OllamaError)
    ensures
        spec_endpoint_error_of(err) == r,
{
    match err {
        LocalEndpointError::InvalidUrl => OllamaError::InvalidUrl,
        LocalEndpointError::NonLocalHost => OllamaError::InvalidConfig("ollama base url must be local"),
    }
}

pub open spec fn spec_endpoint_error_of(err: LocalEndpointError) -> OllamaError {
    match err {
        LocalEndpointError::InvalidUrl => OllamaError::InvalidUrl,
        LocalEndpointError::NonLocalHost => OllamaError::InvalidConfig("ollama base url must be local"),
    }
}

impl OllamaConfig {
    pub fn validate(&self) -> (r: Result<(), OllamaError>)
        ensures
            match r {
                Ok(_) => spec_config_error(*self) is None,
                Err(e) => spec_config_error(*self) == Some(e),
            },
    {
        if is_blank(self.model.as_str()) {
            return Err(OllamaError::InvalidConfig("empty model"));
        }
        if self.timeout_ms == 0 {
            return Err(OllamaError::InvalidConfig("zero timeout"));
        }
        match parse_local_http_endpoint(self.base_url.as_str()) {
            Ok(_) => Ok(()),
            Err(err) => Err(endpoint_error(err)),
        }
    }

    /// The chat completions path under the configured base URL.
    pub fn chat_completions_path(&self) -> (r: Result<String, OllamaError>)
        ensures
            match (r, spec_parse_endpoint(self.base_url@)) {
                (Ok(p), Ok((_, _, prefix))) => p@ == spec_chat_completions_path(prefix),
                (Err(e), Err(err)) => e == spec_endpoint_error_of(err),
                _ => false,
            },
    {
        match parse_local_http_endpoint(self.base_url.as_str()) {
            Ok(endpoint) => Ok(shared_chat_completions_path(endpoint.path_prefix.as_str())),
            Err(err) => Err(endpoint_error(err)),
        }
    }

    pub fn model_id(&self) -> (r: u64)
        ensures
            r == spec_hash_text(encode_utf8(self.model@)),
    {
        hash_text(self.model.as_str())
    }

    pub fn base_url_id(&self) -> (r: u64)
        ensures
            r == spec_hash_text(encode_utf8(self.base_url@)),
    {
        hash_text(self.base_url.as_str())
    }
}


#[derive(Clone, Copy, Debug, PartialEq, Eq, Structural)]
pub struct OllamaRetryBudgetPolicy {
    pub timeout_ms: u64,
    pub max_retries: u32,
    pub attempt_budget: u32,
}

#[derive(Clone, Copy, Debug, PartialEq, Eq, Structural)]
pub struct OllamaRetryBudgetDecision {
    pub timeout_ms: u64,
    pub retry_count: u32,
    pub max_retries: u32,
    pub attempt_budget: u32,
    pub request_identity_hash: u64,
    pub retry_budget_hash: u64,
    pub budget_exhausted: bool,
    pub duplicate_request: bool,
    pub allowed: bool,
}

impl OllamaRetryBudgetPolicy {
    pub open spec fn spec_policy_hash(self) -> u64 {
        nz(
            spec_fold_mix(
                0x5245_5452_5942_5544u64,
                seq![self.timeout_ms, self.max_retries as u64, self.attempt_budget as u64],
            ),
        )
    }

    pub open spec fn spec_request_identity_hash(
        self,
        provider_hash: u64,
        base_url_hash: u64,
        model_id: u64,
        request_hash: u64,
    ) -> u64 {
        nz(
            spec_fold_mix(
                0x4944_454d_504f_5445u64,
                seq![provider_hash, base_url_hash, model_id, request_hash],
            ),
        )
    }

    /// The decision for an attempt, when it is well formed.
    pub open spec fn spec_decision_for_attempt(
        self,
        provider_hash: u64,
        base_url_hash: u64,
        model_id: u64,
        request_hash: u64,
        retry_count: u32,
        duplicate_request: bool,
    ) -> Option<OllamaRetryBudgetDecision> {
        let request_identity_hash = self.spec_request_identity_hash(
            provider_hash,
            base_url_hash,
            model_id,
            request_hash,
        );
        let budget_allowed = retry_count < self.attempt_budget;
        let decision = OllamaRetryBudgetDecision {
            timeout_ms: self.timeout_ms,
            retry_count,
            max_retries: self.max_retries,
            attempt_budget: self.attempt_budget,
            request_identity_hash,
            retry_budget_hash: self.spec_policy_hash(),
            budget_exhausted: !budget_allowed || spec_retry_budget_exhausted(
                retry_count,
                self.max_retries,
                self.attempt_budget,
            ),
            duplicate_request,
            allowed: request_identity_hash != 0 && retry_count <= self.max_retries
                && budget_allowed && !duplicate_request,
        };
        if decision.spec_is_valid_decision() {
            Some(decision)
        } else {
            None
        }
    }

    pub fn new(timeout_ms: u64, max_retries: u32, attempt_budget: u32) -> (r: Option<Self>)
        ensures
            r == (if spec_retry_budget_policy_valid(timeout_ms, max_retries, attempt_budget) {
                Some(OllamaRetryBudgetPolicy { timeout_ms, max_retries, attempt_budget })
            } else {
                None
            }),
    {
        if !retry_budget_policy_valid(timeout_ms, max_retries, attempt_budget) {
            return None;
        }
        Some(OllamaRetryBudgetPolicy { timeout_ms, max_retries, attempt_budget })
    }

    /// The default budget of a configuration: one attempt, no retries.
    pub fn from_config(config: &OllamaConfig) -> (r: Self)
        ensures
            r == (OllamaRetryBudgetPolicy {
                timeout_ms: config.timeout_ms,
                max_retries: OLLAMA_DEFAULT_MAX_RETRIES,
                attempt_budget: OLLAMA_DEFAULT_ATTEMPT_BUDGET,
            }),
    {
        OllamaRetryBudgetPolicy {
            timeout_ms: config.timeout_ms,
            max_retries: OLLAMA_DEFAULT_MAX_RETRIES,
            attempt_budget: OLLAMA_DEFAULT_ATTEMPT_BUDGET,
        }
    }

    pub fn policy_hash(self) -> (r: u64)
        ensures
            r == self.spec_policy_hash(),
    {
        shared_retry_policy_hash(
            0x5245_5452_5942_5544u64,
            self.timeout_ms,
            self.max_retries,
            self.attempt_budget,
        )
    }

    pub fn request_identity_hash(
        self,
        provider_hash: u64,
        base_url_hash: u64,
        model_id: u64,
        request_hash: u64,
    ) -> (r: u64)
        ensures
            r == self.spec_request_identity_hash(provider_hash, base_url_hash, model_id, request_hash),
    {
        shared_request_identity_hash(
            0x4944_454d_504f_5445u64,
            provider_hash,
            base_url_hash,
            model_id,
            request_hash,
        )
    }

    pub fn decision_for_attempt(
        self,
        provider_hash: u64,
        base_url_hash: u64,
        model_id: u64,
        request_hash: u64,
        retry_count: u32,
        duplicate_request: bool,
    ) -> (r: Option<OllamaRetryBudgetDecision>)
        ensures
            r == self.spec_decision_for_attempt(
                provider_hash,
                base_url_hash,
                model_id,
                request_hash,
                retry_count,
                duplicate_request,
            ),
    {
        let request_identity_hash = self.request_identity_hash(
            provider_hash,
            base_url_hash,
            model_id,
            request_hash,
        );
        let retry_allowed = retry_count <= self.max_retries;
        let budget_allowed = retry_count < self.attempt_budget;
        let allowed = request_identity_hash != 0 && retry_allowed && budget_allowed
            && !duplicate_request;
        let budget_exhausted = !budget_allowed || retry_budget_exhausted(
            retry_count,
            self.max_retries,
            self.attempt_budget,
        );
        let decision = OllamaRetryBudgetDecision {
            timeout_ms: self.timeout_ms,
            retry_count,
            max_retries: self.max_retries,
            attempt_budget: self.attempt_budget,
            request_identity_hash,
            retry_budget_hash: self.policy_hash(),
            budget_exhausted,
            duplicate_request,
            allowed,
        };
        if decision.is_valid_decision() {
            Some(decision)
        } else {
            None
        }
    }

    pub fn first_attempt(
        self,
        provider_hash: u64,
        base_url_hash: u64,
        model_id: u64,
        request_hash: u64,
    ) -> (r: Option<OllamaRetryBudgetDecision>)
        ensures
            r == self.spec_decision_for_attempt(
                provider_hash,
                base_url_hash,
                model_id,
                request_hash,
                0,
                false,
            ),
    {
        self.decision_for_attempt(provider_hash, base_url_hash, model_id, request_hash, 0, false)
    }
}

impl OllamaRetryBudgetDecision {
    pub open spec fn spec_is_valid_decision(self) -> bool {
        spec_retry_budget_decision_valid(
            self.timeout_ms,
            self.retry_count,
            self.max_retries,
            self.attempt_budget,
            self.request_identity_hash,
            self.retry_budget_hash,
            self.duplicate_request,
            self.allowed,
        )
    }

    pub open spec fn spec_is_receiptable_success(self) -> bool {
        spec_retry_budget_decision_receiptable(
            self.timeout_ms,
            self.retry_count,
            self.max_retries,
            self.attempt_budget,
            self.request_identity_hash,
            self.retry_budget_hash,
            self.duplicate_request,
            self.allowed,
        )
    }

    pub fn is_valid_decision(self) -> (r: bool)
        ensures
            r == self.spec_is_valid_decision(),
    {
        retry_budget_decision_valid(
            self.timeout_ms,
            self.retry_count,
            self.max_retries,
            self.attempt_budget,
            self.request_identity_hash,
            self.retry_budget_hash,
            self.duplicate_request,
            self.allowed,
        )
    }

    pub fn is_receiptable_success(self) -> (r: bool)
        ensures
            r == self.spec_is_receiptable_success(),
    {
        retry_budget_decision_receiptable(
            self.timeout_ms,
            self.retry_count,
            self.max_retries,
            self.attempt_budget,
            self.request_identity_hash,
            self.retry_budget_hash,
            self.duplicate_request,
            self.allowed,
        )
    }
}

/// The attempts made under one retry policy: each request identity once,
/// and never more attempts than the budget.
#[derive(Clone, Debug, PartialEq, Eq)]
pub struct OllamaRetryBudgetLedger {
    policy: OllamaRetryBudgetPolicy,
    seen_request_identity_hashes: Vec<u64>,
    attempts_used: u32,
}

impl OllamaRetryBudgetLedger {
    pub closed spec fn spec_policy(&self) -> OllamaRetryBudgetPolicy {
        self.policy
    }

    /// The request identities accepted so far, in order.
    pub closed spec fn spec_seen(&self) -> Seq<u64> {
        self.seen_request_identity_hashes@
    }

    pub closed spec fn spec_attempts_used(&self) -> u32 {
        self.attempts_used
    }

    /// Every accepted attempt is counted once, none twice.
    pub closed spec fn wf(&self) -> bool {
        &&& self.seen_request_identity_hashes@.len() == self.attempts_used
        &&& self.seen_request_identity_hashes@.no_duplicates()
    }

    pub fn new(policy: OllamaRetryBudgetPolicy) -> (r: Self)
        ensures
            r.wf(),
            r.spec_policy() == policy,
            r.spec_seen() == Seq::<u64>::empty(),
            r.spec_attempts_used() == 0,
    {
        OllamaRetryBudgetLedger { policy, seen_request_identity_hashes: Vec::new(), attempts_used: 0 }
    }

    pub fn policy(&self) -> (r: OllamaRetryBudgetPolicy)
        ensures
            r == self.spec_policy(),
    {
        self.policy
    }

    /// The attempts used are the request identities accepted so far.
    pub proof fn lemma_attempts_are_accepted(&self)
        requires
            self.wf(),
        ensures
            self.spec_attempts_used() == self.spec_seen().len(),
    {
    }

    /// Records one request. A request identity seen before is refused, and
    /// so is an attempt beyond the budget; the ledger changes only when the
    /// request is accepted.
    pub fn record_request(
        &mut self,
        provider_hash: u64,
        base_url_hash: u64,
        model_id: u64,
        request_hash: u64,
    ) -> (r: Result<OllamaRetryBudgetDecision, OllamaError>)
        requires
            old(self).wf(),
        ensures
            final(self).wf(),
            final(self).spec_policy() == old(self).spec_policy(),
            final(self).spec_seen().no_duplicates(),
            final(self).spec_attempts_used() <= final(self).spec_policy().attempt_budget
                || final(self).spec_attempts_used() == old(self).spec_attempts_used(),
            final(self).spec_attempts_used() == final(self).spec_seen().len(),
            ({
                let p = old(self).spec_policy();
                let id = p.spec_request_identity_hash(provider_hash, base_url_hash, model_id, request_hash);
                let dup = old(self).spec_seen().contains(id);
                let n = old(self).spec_attempts_used();
                spec_retry_budget_policy_valid(p.timeout_ms, p.max_retries, p.attempt_budget) ==> {
                    &&& dup ==> (r matches Err(OllamaError::DuplicateRequest))
                    &&& !dup && n < p.attempt_budget ==> r is Ok && r->Ok_0.allowed
                        && r->Ok_0.request_identity_hash == id && r->Ok_0.retry_count == n
                    &&& !dup && n >= p.attempt_budget ==> (r matches Err(OllamaError::BudgetExhausted))
                }
            }),
            ({
                let id = old(self).spec_policy().spec_request_identity_hash(
                    provider_hash,
                    base_url_hash,
                    model_id,
                    request_hash,
                );
                let dup = old(self).spec_seen().contains(id);
                let d = old(self).spec_policy().spec_decision_for_attempt(
                    provider_hash,
                    base_url_hash,
                    model_id,
                    request_hash,
                    old(self).spec_attempts_used(),
                    dup,
                );
                match r {
                    Ok(decision) => d == Some(decision) && decision.allowed && !dup
                        && final(self).spec_seen() == old(self).spec_seen().push(id)
                        && final(self).spec_attempts_used() == old(self).spec_attempts_used() + 1,
                    Err(e) => final(self).spec_seen() == old(self).spec_seen()
                        && final(self).spec_attempts_used() == old(self).spec_attempts_used()
                        && match e {
                        OllamaError::InvalidConfig(m) => d is None && m@
                            == "invalid retry budget decision"@,
                        OllamaError::DuplicateRequest => d is Some && dup,
                        OllamaError::BudgetExhausted => d is Some && !dup && !d->0.allowed,
                        _ => false,
                    },
                }
            }),
    {
        let request_identity_hash = self.policy.request_identity_hash(
            provider_hash,
            base_url_hash,
            model_id,
            request_hash,
        );
        let mut duplicate_request = false;
        let mut i: usize = 0;
        while i < self.seen_request_identity_hashes.len()
            invariant
                i <= self.seen_request_identity_hashes@.len(),
                duplicate_request == self.seen_request_identity_hashes@.take(i as int).contains(
                    request_identity_hash,
                ),
            decreases self.seen_request_identity_hashes@.len() - i,
        {
            assert(self.seen_request_identity_hashes@.take(i as int + 1) =~= self.seen_request_identity_hashes@.take(
                i as int,
            ).push(self.seen_request_identity_hashes@[i as int]));
            let ghost prev = self.seen_request_identity_hashes@.take(i as int);
            let ghost next = self.seen_request_identity_hashes@.take(i as int + 1);
            let e = self.seen_request_identity_hashes[i];
            assert(next.contains(request_identity_hash) == (prev.contains(request_identity_hash)
                || e == request_identity_hash)) by {
                if next.contains(request_identity_hash) {
                    let k = choose|k: int| 0 <= k < next.len() && next[k] == request_identity_hash;
                    if k < prev.len() {
                        assert(prev[k] == request_identity_hash);
                    }
                }
                if prev.contains(request_identity_hash) {
                    let k = choose|k: int| 0 <= k < prev.len() && prev[k] == request_identity_hash;
                    assert(next[k] == request_identity_hash);
                }
                if e == request_identity_hash {
                    assert(next[i as int] == request_identity_hash);
                }
            }
            if e == request_identity_hash {
                duplicate_request = true;
            }
            i = i + 1;
        }
        assert(self.seen_request_identity_hashes@.take(i as int) =~= self.seen_request_identity_hashes@);
        let decision = match self.policy.decision_for_attempt(
            provider_hash,
            base_url_hash,
            model_id,
            request_hash,
            self.attempts_used,
            duplicate_request,
        ) {
            Some(d) => d,
            None => {
                return Err(OllamaError::InvalidConfig("invalid retry budget decision"));
            },
        };
        if duplicate_request {
            return Err(OllamaError::DuplicateRequest);
        }
        if !decision.allowed {
            return Err(OllamaError::BudgetExhausted);
        }
        assert(self.attempts_used < self.policy.attempt_budget);
        self.seen_request_identity_hashes.push(request_identity_hash);
        self.attempts_used = self.attempts_used + 1;
        assert(self.seen_request_identity_hashes@.no_duplicates());
        Ok(decision)
    }
}

/// The hash of the provider name that every Ollama record carries.
pub open spec fn ollama_provider_hash() -> u64 {
    spec_hash_text(encode_utf8(OLLAMA_PROVIDER@))
}

/// One accepted turn: the structured record, the endpoint identity, the
/// request and its retry decision, and the reply hashes.
#[derive(Clone, Copy, Debug, PartialEq, Eq, Structural)]
pub struct OllamaLlmCall {
    pub record: LlmRecord,
    pub provider_hash: u64,
    pub base_url_hash: u64,
    pub model_id: u64,
    pub request_hash: u64,
    pub timeout_ms: u64,
    pub retry_count: u32,
    pub max_retries: u32,
    pub attempt_budget: u32,
    pub request_identity_hash: u64,
    pub retry_budget_hash: u64,
    pub budget_exhausted: bool,
    pub duplicate_request: bool,
    pub response_hash: u64,
    pub raw_response_hash: u64,
    pub prompt_hash: u64,
    pub token_count: u32,
    pub payload_hash: u64,
}

/// The call a record, request and reply make.
pub open spec fn spec_new_call(
    record: LlmRecord,
    model_id: u64,
    base_url_hash: u64,
    request_hash: u64,
    raw_response_hash: u64,
    retry_budget: OllamaRetryBudgetDecision,
) -> OllamaLlmCall {
    OllamaLlmCall {
        record,
        provider_hash: ollama_provider_hash(),
        base_url_hash,
        model_id,
        request_hash,
        timeout_ms: retry_budget.timeout_ms,
        retry_count: retry_budget.retry_count,
        max_retries: retry_budget.max_retries,
        attempt_budget: retry_budget.attempt_budget,
        request_identity_hash: retry_budget.request_identity_hash,
        retry_budget_hash: retry_budget.retry_budget_hash,
        budget_exhausted: retry_budget.budget_exhausted,
        duplicate_request: retry_budget.duplicate_request,
        response_hash: record.response.response_hash,
        raw_response_hash,
        prompt_hash: record.prompt.prompt_hash,
        token_count: record.response.token_count,
        payload_hash: spec_llm_payload_hash(record),
    }
}

/// The receipt of a call persisted by an event, before any proof is bound.
pub open spec fn spec_receipt_for_event(
    call: OllamaLlmCall,
    command_hash: u64,
    event: ControlEvent,
) -> Option<OllamaLlmEffectReceipt> {
    if !call.spec_is_valid() || command_hash == 0 {
        None
    } else {
        let unsealed = OllamaLlmEffectReceipt {
            provider_hash: call.provider_hash,
            base_url_hash: call.base_url_hash,
            model_id: call.model_id,
            request_hash: call.request_hash,
            timeout_ms: call.timeout_ms,
            retry_count: call.retry_count,
            max_retries: call.max_retries,
            attempt_budget: call.attempt_budget,
            request_identity_hash: call.request_identity_hash,
            retry_budget_hash: call.retry_budget_hash,
            budget_exhausted: call.budget_exhausted,
            duplicate_request: call.duplicate_request,
            response_hash: call.response_hash,
            raw_response_hash: call.raw_response_hash,
            prompt_hash: call.prompt_hash,
            token_count: call.token_count,
            payload_hash: call.payload_hash,
            command_hash,
            event_seq: event.seq,
            event_hash: event.self_hash,
            proof_event_seq: 0,
            proof_hash: 0,
            receipt_hash: 0,
        };
        let receipt = OllamaLlmEffectReceipt {
            receipt_hash: unsealed.spec_expected_receipt_hash(),
            ..unsealed
        };
        if receipt.spec_matches_event(event) {
            Some(receipt)
        } else {
            None
        }
    }
}

/// The first receipt a log gives for a call: the first event it matches.
pub open spec fn spec_receipt_from_tlog(
    call: OllamaLlmCall,
    config: OllamaConfig,
    command_hash: u64,
    tlog: Seq<ControlEvent>,
) -> Option<OllamaLlmEffectReceipt>
    decreases tlog.len(),
{
    if tlog.len() == 0 {
        None
    } else {
        match spec_receipt_from_tlog(call, config, command_hash, tlog.drop_last()) {
            Some(r) => Some(r),
            None => if call.spec_base_url_provenance_verified(config) {
                spec_receipt_for_event(call, command_hash, tlog.last())
            } else {
                None
            },
        }
    }
}

impl OllamaLlmCall {
    fn new(
        record: LlmRecord,
        model_id: u64,
        base_url_hash: u64,
        request_hash: u64,
        response: &OllamaChatResponse,
        retry_budget: OllamaRetryBudgetDecision,
    ) -> (r: Self)
        ensures
            r == spec_new_call(
                record,
                model_id,
                base_url_hash,
                request_hash,
                response.raw_hash,
                retry_budget,
            ),
    {
        let submission = record.submission();
        OllamaLlmCall {
            prompt_hash: record.prompt.prompt_hash,
            response_hash: record.response.response_hash,
            token_count: record.response.token_count,
            payload_hash: submission.payload_hash,
            record,
            provider_hash: hash_text(OLLAMA_PROVIDER),
            base_url_hash,
            model_id,
            request_hash,
            timeout_ms: retry_budget.timeout_ms,
            retry_count: retry_budget.retry_count,
            max_retries: retry_budget.max_retries,
            attempt_budget: retry_budget.attempt_budget,
            request_identity_hash: retry_budget.request_identity_hash,
            retry_budget_hash: retry_budget.retry_budget_hash,
            budget_exhausted: retry_budget.budget_exhausted,
            duplicate_request: retry_budget.duplicate_request,
            raw_response_hash: response.raw_hash,
        }
    }

    pub open spec fn spec_is_valid(self) -> bool {
        &&& self.record.spec_is_valid()
        &&& self.provider_hash == ollama_provider_hash()
        &&& self.base_url_hash != 0
        &&& self.model_id != 0
        &&& self.model_id == self.record.response.model_id
        &&& self.request_hash != 0
        &&& self.timeout_ms != 0
        &&& self.retry_count <= self.max_retries
        &&& self.attempt_budget != 0
        &&& self.attempt_budget <= self.max_retries + 1
        &&& self.retry_count < self.attempt_budget
        &&& self.request_identity_hash != 0
        &&& self.retry_budget_hash != 0
        &&& spec_retry_budget_binding_is_valid(
            self.provider_hash,
            self.base_url_hash,
            self.model_id,
            self.request_hash,
            self.timeout_ms,
            self.retry_count,
            self.max_retries,
            self.attempt_budget,
            self.request_identity_hash,
            self.retry_budget_hash,
        )
        &&& !self.duplicate_request
        &&& self.response_hash != 0
        &&& self.response_hash == self.record.response.response_hash
        &&& self.raw_response_hash != 0
        &&& self.prompt_hash != 0
        &&& self.prompt_hash == self.record.prompt.prompt_hash
        &&& self.token_count != 0
        &&& self.token_count == self.record.response.token_count
        &&& self.payload_hash != 0
        &&& self.payload_hash == spec_llm_payload_hash(self.record)
    }

    pub fn is_valid(&self) -> (r: bool)
        ensures
            r == self.spec_is_valid(),
    {
        self.record.is_valid() && self.provider_hash == hash_text(OLLAMA_PROVIDER)
            && self.base_url_hash != 0 && self.model_id != 0 && self.model_id
            == self.record.response.model_id && self.request_hash != 0 && self.timeout_ms != 0
            && self.retry_count <= self.max_retries && self.attempt_budget != 0
            && (self.attempt_budget as u64) <= (self.max_retries as u64) + 1 && self.retry_count
            < self.attempt_budget && self.request_identity_hash != 0 && self.retry_budget_hash
            != 0 && retry_budget_binding_is_valid(
            self.provider_hash,
            self.base_url_hash,
            self.model_id,
            self.request_hash,
            self.timeout_ms,
            self.retry_count,
            self.max_retries,
            self.attempt_budget,
            self.request_identity_hash,
            self.retry_budget_hash,
        ) && !self.duplicate_request && self.response_hash != 0 && self.response_hash
            == self.record.response.response_hash && self.raw_response_hash != 0
            && self.prompt_hash != 0 && self.prompt_hash == self.record.prompt.prompt_hash
            && self.token_count != 0 && self.token_count == self.record.response.token_count
            && self.payload_hash != 0 && self.payload_hash == self.record.submission().payload_hash
    }

    pub fn submission(&self) -> (r: EvidenceSubmission)
        ensures
            r == self.record.spec_submission(),
    {
        self.record.submission()
    }

    pub open spec fn spec_base_url_provenance_verified(self, config: OllamaConfig) -> bool {
        &&& spec_config_error(config) is None
        &&& self.spec_is_valid()
        &&& self.base_url_hash == spec_hash_text(encode_utf8(config.base_url@))
        &&& self.model_id == spec_hash_text(encode_utf8(config.model@))
        &&& self.timeout_ms == config.timeout_ms
    }

    /// Whether the call was made to the configured endpoint, model and timeout.
    pub fn base_url_provenance_verified(&self, config: &OllamaConfig) -> (r: bool)
        ensures
            r == self.spec_base_url_provenance_verified(*config),
    {
        config.validate().is_ok() && self.is_valid() && self.provider_hash == hash_text(
            OLLAMA_PROVIDER,
        ) && self.base_url_hash == config.base_url_id() && self.model_id == config.model_id()
            && self.timeout_ms == config.timeout_ms
    }

    fn receipt_for_event_unchecked(&self, command_hash: u64, event: &ControlEvent) -> (r: Option<
        OllamaLlmEffectReceipt,
    >)
        ensures
            r == spec_receipt_for_event(*self, command_hash, *event),
    {
        if !self.is_valid() || command_hash == 0 {
            return None;
        }
        let mut receipt = OllamaLlmEffectReceipt {
            provider_hash: self.provider_hash,
            base_url_hash: self.base_url_hash,
            model_id: self.model_id,
            request_hash: self.request_hash,
            timeout_ms: self.timeout_ms,
            retry_count: self.retry_count,
            max_retries: self.max_retries,
            attempt_budget: self.attempt_budget,
            request_identity_hash: self.request_identity_hash,
            retry_budget_hash: self.retry_budget_hash,
            budget_exhausted: self.budget_exhausted,
            duplicate_request: self.duplicate_request,
            response_hash: self.response_hash,
            raw_response_hash: self.raw_response_hash,
            prompt_hash: self.prompt_hash,
            token_count: self.token_count,
            payload_hash: self.payload_hash,
            command_hash,
            event_seq: event.seq,
            event_hash: event.self_hash,
            proof_event_seq: 0,
            proof_hash: 0,
            receipt_hash: 0,
        };
        receipt.receipt_hash = receipt.expected_receipt_hash();
        if receipt.matches_event(event) {
            Some(receipt)
        } else {
            None
        }
    }

    /// The receipt of this call for the event that persisted it, when the
    /// call was made to the configured endpoint and the event matches.
    pub fn receipt_for_configured_event(
        &self,
        config: &OllamaConfig,
        command_hash: u64,
        event: &ControlEvent,
    ) -> (r: Option<OllamaLlmEffectReceipt>)
        ensures
            r == (if self.spec_base_url_provenance_verified(*config) {
                spec_receipt_for_event(*self, command_hash, *event)
            } else {
                None
            }),
    {
        if self.base_url_provenance_verified(config) {
            self.receipt_for_event_unchecked(command_hash, event)
        } else {
            None
        }
    }

    /// The receipt for the event, when the retry decision the call was made
    /// under is the one it records and could back a receipt.
    pub fn receipt_for_configured_event_with_retry_budget(
        &self,
        config: &OllamaConfig,
        retry_budget: OllamaRetryBudgetDecision,
        command_hash: u64,
        event: &ControlEvent,
    ) -> (r: Option<OllamaLlmEffectReceipt>)
        ensures
            r == (if !retry_budget.spec_is_receiptable_success() || retry_budget.timeout_ms
                != config.timeout_ms || retry_budget.retry_count != self.retry_count
                || retry_budget.max_retries != self.max_retries || retry_budget.attempt_budget
                != self.attempt_budget || retry_budget.request_identity_hash
                != self.request_identity_hash || retry_budget.retry_budget_hash
                != self.retry_budget_hash || retry_budget.budget_exhausted
                != self.budget_exhausted || retry_budget.duplicate_request
                != self.duplicate_request {
                None
            } else if self.spec_base_url_provenance_verified(*config) {
                spec_receipt_for_event(*self, command_hash, *event)
            } else {
                None
            }),
    {
        if !retry_budget.is_receiptable_success() || retry_budget.timeout_ms != config.timeout_ms
            || retry_budget.retry_count != self.retry_count || retry_budget.max_retries
            != self.max_retries || retry_budget.attempt_budget != self.attempt_budget
            || retry_budget.request_identity_hash != self.request_identity_hash
            || retry_budget.retry_budget_hash != self.retry_budget_hash
            || retry_budget.budget_exhausted != self.budget_exhausted
            || retry_budget.duplicate_request != self.duplicate_request {
            return None;
        }
        self.receipt_for_configured_event(config, command_hash, event)
    }

    /// The receipt for the first event of the log that persisted this call.
    pub fn receipt_from_tlog(&self, config: &OllamaConfig, command_hash: u64, tlog: &[ControlEvent]) -> (r:
        Option<OllamaLlmEffectReceipt>)
        ensures
            r == spec_receipt_from_tlog(*self, *config, command_hash, tlog@),
    {
        let mut i: usize = 0;
        while i < tlog.len()
            invariant
                i <= tlog@.len(),
                spec_receipt_from_tlog(*self, *config, command_hash, tlog@.take(i as int)) is None,
            decreases tlog@.len() - i,
        {
            assert(tlog@.take(i as int + 1).drop_last() =~= tlog@.take(i as int));
            let r = self.receipt_for_configured_event(config, command_hash, &tlog[i]);
            if r.is_some() {
                proof {
                    lemma_receipt_from_tlog_prefix(*self, *config, command_hash, tlog@, i as int + 1);
                }
                return r;
            }
            i = i + 1;
        }
        assert(tlog@.take(i as int) =~= tlog@);
        None
    }
}

proof fn lemma_receipt_from_tlog_prefix(
    call: OllamaLlmCall,
    config: OllamaConfig,
    command_hash: u64,
    tlog: Seq<ControlEvent>,
    i: int,
)
    requires
        0 < i <= tlog.len(),
        spec_receipt_from_tlog(call, config, command_hash, tlog.take(i)) is Some,
    ensures
        spec_receipt_from_tlog(call, config, command_hash, tlog) == spec_receipt_from_tlog(
            call,
            config,
            command_hash,
            tlog.take(i),
        ),
    decreases tlog.len() - i,
{
    if i < tlog.len() {
        assert(tlog.take(i + 1).drop_last() =~= tlog.take(i));
        lemma_receipt_from_tlog_prefix(call, config, command_hash, tlog, i + 1);
    } else {
        assert(tlog.take(i) =~= tlog);
    }
}

/// The receipt that binds an accepted call to the log event that persisted it.
#[derive(Clone, Copy, Debug, PartialEq, Eq, Structural)]
pub struct OllamaLlmEffectReceipt {
    pub provider_hash: u64,
    pub base_url_hash: u64,
    pub model_id: u64,
    pub request_hash: u64,
    pub timeout_ms: u64,
    pub retry_count: u32,
    pub max_retries: u32,
    pub attempt_budget: u32,
    pub request_identity_hash: u64,
    pub retry_budget_hash: u64,
    pub budget_exhausted: bool,
    pub duplicate_request: bool,
    pub response_hash: u64,
    pub raw_response_hash: u64,
    pub prompt_hash: u64,
    pub token_count: u32,
    pub payload_hash: u64,
    pub command_hash: u64,
    pub event_seq: u64,
    pub event_hash: u64,
    pub proof_event_seq: u64,
    pub proof_hash: u64,
    pub receipt_hash: u64,
}

/// The retry fields of a receipt are those its own policy gives.
pub open spec fn spec_retry_budget_binding_is_valid(
    provider_hash: u64,
    base_url_hash: u64,
    model_id: u64,
    request_hash: u64,
    timeout_ms: u64,
    retry_count: u32,
    max_retries: u32,
    attempt_budget: u32,
    request_identity_hash: u64,
    retry_budget_hash: u64,
) -> bool {
    let policy = OllamaRetryBudgetPolicy { timeout_ms, max_retries, attempt_budget };
    &&& spec_retry_budget_policy_valid(timeout_ms, max_retries, attempt_budget)
    &&& retry_count <= max_retries
    &&& retry_count < attempt_budget
    &&& retry_budget_hash == policy.spec_policy_hash()
    &&& request_identity_hash == policy.spec_request_identity_hash(
        provider_hash,
        base_url_hash,
        model_id,
        request_hash,
    )
}

fn retry_budget_binding_is_valid(
    provider_hash: u64,
    base_url_hash: u64,
    model_id: u64,
    request_hash: u64,
    timeout_ms: u64,
    retry_count: u32,
    max_retries: u32,
    attempt_budget: u32,
    request_identity_hash: u64,
    retry_budget_hash: u64,
) -> (r: bool)
    ensures
        r == spec_retry_budget_binding_is_valid(
            provider_hash,
            base_url_hash,
            model_id,
            request_hash,
            timeout_ms,
            retry_count,
            max_retries,
            attempt_budget,
            request_identity_hash,
            retry_budget_hash,
        ),
{
    let policy = match OllamaRetryBudgetPolicy::new(timeout_ms, max_retries, attempt_budget) {
        Some(p) => p,
        None => {
            return false;
        },
    };
    retry_count <= max_retries && retry_count < attempt_budget && retry_budget_hash
        == policy.policy_hash() && request_identity_hash == policy.request_identity_hash(
        provider_hash,
        base_url_hash,
        model_id,
        request_hash,
    )
}

impl OllamaLlmEffectReceipt {
    pub open spec fn core_fields(self) -> Seq<u64> {
        seq![
            self.provider_hash,
            self.base_url_hash,
            self.model_id,
            self.request_hash,
            self.timeout_ms,
            self.retry_count as u64,
            self.max_retries as u64,
            self.attempt_budget as u64,
            self.request_identity_hash,
            self.retry_budget_hash,
            b2u(self.budget_exhausted),
            b2u(self.duplicate_request),
            self.response_hash,
            self.raw_response_hash,
            self.prompt_hash,
            self.token_count as u64,
            self.payload_hash,
            self.command_hash,
            self.event_seq,
            self.event_hash,
        ]
    }

    pub open spec fn spec_expected_receipt_core_hash(self) -> u64 {
        nz(spec_fold_mix(0x8e1f_9628_8f75_4b2du64, self.core_fields()))
    }

    pub open spec fn spec_expected_receipt_hash(self) -> u64 {
        nz(
            spec_mix(
                spec_mix(self.spec_expected_receipt_core_hash(), self.proof_event_seq),
                self.proof_hash,
            ),
        )
    }

    pub open spec fn spec_is_valid(self) -> bool {
        &&& self.provider_hash == ollama_provider_hash()
        &&& self.base_url_hash != 0
        &&& self.model_id != 0
        &&& self.request_hash != 0
        &&& self.timeout_ms != 0
        &&& self.retry_count <= self.max_retries
        &&& self.attempt_budget != 0
        &&& self.attempt_budget <= self.max_retries + 1
        &&& self.retry_count < self.attempt_budget
        &&& self.request_identity_hash != 0
        &&& self.retry_budget_hash != 0
        &&& spec_retry_budget_binding_is_valid(
            self.provider_hash,
            self.base_url_hash,
            self.model_id,
            self.request_hash,
            self.timeout_ms,
            self.retry_count,
            self.max_retries,
            self.attempt_budget,
            self.request_identity_hash,
            self.retry_budget_hash,
        )
        &&& !self.duplicate_request
        &&& self.response_hash != 0
        &&& self.raw_response_hash != 0
        &&& self.prompt_hash != 0
        &&& self.token_count != 0
        &&& self.payload_hash != 0
        &&& self.command_hash != 0
        &&& self.event_seq != 0
        &&& self.event_hash != 0
        &&& ((self.proof_event_seq == 0 && self.proof_hash == 0) || (self.proof_event_seq
            > self.event_seq && self.proof_hash != 0))
        &&& self.receipt_hash != 0
        &&& self.receipt_hash == self.spec_expected_receipt_hash()
    }

    pub fn is_valid(self) -> (r: bool)
        ensures
            r == self.spec_is_valid(),
    {
        self.provider_hash == hash_text(OLLAMA_PROVIDER) && self.base_url_hash != 0
            && self.model_id != 0 && self.request_hash != 0 && self.timeout_ms != 0
            && self.retry_count <= self.max_retries && self.attempt_budget != 0
            && (self.attempt_budget as u64) <= (self.max_retries as u64) + 1 && self.retry_count
            < self.attempt_budget && self.request_identity_hash != 0 && self.retry_budget_hash
            != 0 && retry_budget_binding_is_valid(
            self.provider_hash,
            self.base_url_hash,
            self.model_id,
            self.request_hash,
            self.timeout_ms,
            self.retry_count,
            self.max_retries,
            self.attempt_budget,
            self.request_identity_hash,
            self.retry_budget_hash,
        ) && !self.duplicate_request && self.response_hash != 0 && self.raw_response_hash != 0
            && self.prompt_hash != 0 && self.token_count != 0 && self.payload_hash != 0
            && self.command_hash != 0 && self.event_seq != 0 && self.event_hash != 0 && ((
        self.proof_event_seq == 0 && self.proof_hash == 0) || (self.proof_event_seq
            > self.event_seq && self.proof_hash != 0)) && self.receipt_hash != 0
            && self.receipt_hash == self.expected_receipt_hash()
    }

    pub fn has_proof_binding(self) -> (r: bool)
        ensures
            r == (self.spec_is_valid() && self.proof_event_seq != 0 && self.proof_hash != 0),
    {
        self.is_valid() && self.proof_event_seq != 0 && self.proof_hash != 0
    }

    /// The sequence number of the event right after the receipt's own.
    pub fn next_proof_event_seq(self) -> (r: Option<u64>)
        ensures
            r == (if self.event_seq == u64::MAX {
                None
            } else {
                Some((self.event_seq + 1) as u64)
            }),
    {
        if self.event_seq == u64::MAX {
            None
        } else {
            Some(self.event_seq + 1)
        }
    }

    pub fn expected_receipt_core_hash(self) -> (r: u64)
        ensures
            r == self.spec_expected_receipt_core_hash(),
    {
        let fields = [
            self.provider_hash,
            self.base_url_hash,
            self.model_id,
            self.request_hash,
            self.timeout_ms,
            self.retry_count as u64,
            self.max_retries as u64,
            self.attempt_budget as u64,
            self.request_identity_hash,
            self.retry_budget_hash,
            bool_u64(self.budget_exhausted),
            bool_u64(self.duplicate_request),
            self.response_hash,
            self.raw_response_hash,
            self.prompt_hash,
            self.token_count as u64,
            self.payload_hash,
            self.command_hash,
            self.event_seq,
            self.event_hash,
        ];
        assert(fields@ =~= self.core_fields());
        nonzero(fold_mix(0x8e1f_9628_8f75_4b2du64, &fields))
    }

    pub fn expected_receipt_hash(self) -> (r: u64)
        ensures
            r == self.spec_expected_receipt_hash(),
    {
        let mut h = self.expected_receipt_core_hash();
        h = mix(h, self.proof_event_seq);
        h = mix(h, self.proof_hash);
        nonzero(h)
    }

    pub open spec fn spec_bind_proof_event(self, proof_event_seq: u64, proof_hash: u64) -> Option<
        Self,
    > {
        if !self.spec_is_valid() || proof_event_seq == 0 || proof_hash == 0 || proof_event_seq
            <= self.event_seq {
            None
        } else {
            let unsealed = OllamaLlmEffectReceipt {
                proof_event_seq,
                proof_hash,
                receipt_hash: 0,
                ..self
            };
            let receipt = OllamaLlmEffectReceipt {
                receipt_hash: unsealed.spec_expected_receipt_hash(),
                ..unsealed
            };
            if receipt.spec_is_valid() {
                Some(receipt)
            } else {
                None
            }
        }
    }

    /// The receipt bound to a later proof event.
    pub fn bind_proof_event(self, proof_event_seq: u64, proof_hash: u64) -> (r: Option<Self>)
        ensures
            r == self.spec_bind_proof_event(proof_event_seq, proof_hash),
    {
        if !self.is_valid() || proof_event_seq == 0 || proof_hash == 0 || proof_event_seq
            <= self.event_seq {
            return None;
        }
        let mut receipt = OllamaLlmEffectReceipt {
            proof_event_seq,
            proof_hash,
            receipt_hash: 0,
            ..self
        };
        receipt.receipt_hash = receipt.expected_receipt_hash();
        if receipt.is_valid() {
            Some(receipt)
        } else {
            None
        }
    }

    pub open spec fn spec_matches_event(self, event: ControlEvent) -> bool {
        &&& self.spec_is_valid()
        &&& event.seq == self.event_seq
        &&& event.self_hash == self.event_hash
        &&& event.api_command_hash == self.command_hash
        &&& is_persisted_judgment(event)
    }

    /// Whether the event is the one that persisted this receipt's judgment.
    pub fn matches_event(self, event: &ControlEvent) -> (r: bool)
        ensures
            r == self.spec_matches_event(*event),
    {
        self.is_valid() && event.seq == self.event_seq && event.self_hash == self.event_hash
            && event.api_command_hash == self.command_hash && persisted_judgment(event)
    }

    pub open spec fn spec_replay_verified(self, tlog: Seq<ControlEvent>) -> bool {
        self.spec_is_valid() && exists|i: int|
            0 <= i < tlog.len() && self.spec_matches_event(#[trigger] tlog[i])
    }

    /// Whether the log holds the event this receipt binds.
    pub fn replay_verified(self, tlog: &[ControlEvent]) -> (r: bool)
        ensures
            r == self.spec_replay_verified(tlog@),
    {
        if !self.is_valid() {
            return false;
        }
        let mut i: usize = 0;
        while i < tlog.len()
            invariant
                i <= tlog@.len(),
                forall|k: int| 0 <= k < i ==> !self.spec_matches_event(#[trigger] tlog@[k]),
            decreases tlog@.len() - i,
        {
            if self.matches_event(&tlog[i]) {
                return true;
            }
            i = i + 1;
        }
        false
    }

    pub open spec fn spec_base_url_provenance_verified(self, config: OllamaConfig) -> bool {
        &&& spec_config_error(config) is None
        &&& self.spec_is_valid()
        &&& self.base_url_hash == spec_hash_text(encode_utf8(config.base_url@))
        &&& self.model_id == spec_hash_text(encode_utf8(config.model@))
        &&& self.timeout_ms == config.timeout_ms
    }

    pub fn base_url_provenance_verified(self, config: &OllamaConfig) -> (r: bool)
        ensures
            r == self.spec_base_url_provenance_verified(*config),
    {
        config.validate().is_ok() && self.is_valid() && self.provider_hash == hash_text(
            OLLAMA_PROVIDER,
        ) && self.base_url_hash == config.base_url_id() && self.model_id == config.model_id()
            && self.timeout_ms == config.timeout_ms && !self.duplicate_request
    }

}

/// The hash of the proof line every judgment proof event carries.
pub open spec fn ollama_proof_line_hash() -> u64 {
    spec_hash_text(encode_utf8(OLLAMA_JUDGMENT_PROOF_LINE@))
}

/// The event that proves a receipt was checked after the log was written.
#[derive(Clone, Copy, Debug, PartialEq, Eq, Structural)]
pub struct OllamaJudgmentProofEvent {
    pub proof_line_hash: u64,
    pub receipt_core_hash: u64,
    pub receipt_hash: u64,
    pub receipt_event_seq: u64,
    pub proof_event_seq: u64,
    pub receipt_event_hash: u64,
    pub base_url_hash: u64,
    pub model_id: u64,
    pub timeout_ms: u64,
    pub retry_count: u32,
    pub max_retries: u32,
    pub attempt_budget: u32,
    pub request_identity_hash: u64,
    pub retry_budget_hash: u64,
    pub budget_exhausted: bool,
    pub duplicate_request: bool,
    pub receipt_verified: bool,
    pub tamper_rejected: bool,
    pub endpoint_verified: bool,
    pub phase_plan: bool,
    pub proof_hash: u64,
}

/// The proof event and bound receipt for a receipt checked at `proof_event_seq`.
pub open spec fn spec_finalize_receipt_at_seq(
    receipt: OllamaLlmEffectReceipt,
    proof_event_seq: u64,
    receipt_verified: bool,
    tamper_rejected: bool,
    endpoint_verified: bool,
    phase_plan: bool,
) -> Option<(OllamaLlmEffectReceipt, OllamaJudgmentProofEvent)> {
    if !receipt.spec_is_valid() || !receipt_verified || !tamper_rejected || !endpoint_verified
        || !phase_plan || proof_event_seq <= receipt.event_seq {
        None
    } else {
        let unsealed = OllamaJudgmentProofEvent {
            proof_line_hash: ollama_proof_line_hash(),
            receipt_core_hash: receipt.spec_expected_receipt_core_hash(),
            receipt_hash: 0,
            receipt_event_seq: receipt.event_seq,
            proof_event_seq,
            receipt_event_hash: receipt.event_hash,
            base_url_hash: receipt.base_url_hash,
            model_id: receipt.model_id,
            timeout_ms: receipt.timeout_ms,
            retry_count: receipt.retry_count,
            max_retries: receipt.max_retries,
            attempt_budget: receipt.attempt_budget,
            request_identity_hash: receipt.request_identity_hash,
            retry_budget_hash: receipt.retry_budget_hash,
            budget_exhausted: receipt.budget_exhausted,
            duplicate_request: receipt.duplicate_request,
            receipt_verified,
            tamper_rejected,
            endpoint_verified,
            phase_plan,
            proof_hash: 0,
        };
        let proven = OllamaJudgmentProofEvent {
            proof_hash: unsealed.spec_expected_proof_hash(),
            ..unsealed
        };
        match receipt.spec_bind_proof_event(proof_event_seq, proven.proof_hash) {
            None => None,
            Some(bound) => {
                let event = OllamaJudgmentProofEvent { receipt_hash: bound.receipt_hash, ..proven };
                if event.spec_is_valid() {
                    Some((bound, event))
                } else {
                    None
                }
            },
        }
    }
}

impl OllamaJudgmentProofEvent {
    pub open spec fn proof_fields(self) -> Seq<u64> {
        seq![
            self.proof_line_hash,
            self.receipt_core_hash,
            self.receipt_event_seq,
            self.proof_event_seq,
            self.receipt_event_hash,
            self.base_url_hash,
            self.model_id,
            self.timeout_ms,
            self.retry_count as u64,
            self.max_retries as u64,
            self.attempt_budget as u64,
            self.request_identity_hash,
            self.retry_budget_hash,
            b2u(self.budget_exhausted),
            b2u(self.duplicate_request),
            b2u(self.receipt_verified),
            b2u(self.tamper_rejected),
            b2u(self.endpoint_verified),
            b2u(self.phase_plan),
        ]
    }

    pub open spec fn spec_expected_proof_hash(self) -> u64 {
        nz(spec_fold_mix(0x4f4c_4c41_4d41_5652u64, self.proof_fields()))
    }

    pub open spec fn spec_is_valid(self) -> bool {
        &&& self.proof_line_hash == ollama_proof_line_hash()
        &&& self.receipt_core_hash != 0
        &&& self.receipt_hash != 0
        &&& self.receipt_event_seq != 0
        &&& self.proof_event_seq != 0
        &&& self.proof_event_seq > self.receipt_event_seq
        &&& self.receipt_event_hash != 0
        &&& self.base_url_hash != 0
        &&& self.model_id != 0
        &&& self.timeout_ms != 0
        &&& self.retry_count <= self.max_retries
        &&& self.attempt_budget != 0
        &&& self.attempt_budget <= self.max_retries + 1
        &&& self.retry_count < self.attempt_budget
        &&& self.request_identity_hash != 0
        &&& self.retry_budget_hash != 0
        &&& !self.duplicate_request
        &&& self.receipt_verified
        &&& self.tamper_rejected
        &&& self.endpoint_verified
        &&& self.phase_plan
        &&& self.proof_hash != 0
        &&& self.proof_hash == self.spec_expected_proof_hash()
    }

    fn finalize_receipt_at_seq(
        receipt: OllamaLlmEffectReceipt,
        proof_event_seq: u64,
        receipt_verified: bool,
        tamper_rejected: bool,
        endpoint_verified: bool,
        phase_plan: bool,
    ) -> (r: Option<(OllamaLlmEffectReceipt, Self)>)
        ensures
            r == spec_finalize_receipt_at_seq(
                receipt,
                proof_event_seq,
                receipt_verified,
                tamper_rejected,
                endpoint_verified,
                phase_plan,
            ),
    {
        if !receipt.is_valid() || !receipt_verified || !tamper_rejected || !endpoint_verified
            || !phase_plan || proof_event_seq <= receipt.event_seq {
            return None;
        }
        let mut event = OllamaJudgmentProofEvent {
            proof_line_hash: hash_text(OLLAMA_JUDGMENT_PROOF_LINE),
            receipt_core_hash: receipt.expected_receipt_core_hash(),
            receipt_hash: 0,
            receipt_event_seq: receipt.event_seq,
            proof_event_seq,
            receipt_event_hash: receipt.event_hash,
            base_url_hash: receipt.base_url_hash,
            model_id: receipt.model_id,
            timeout_ms: receipt.timeout_ms,
            retry_count: receipt.retry_count,
            max_retries: receipt.max_retries,
            attempt_budget: receipt.attempt_budget,
            request_identity_hash: receipt.request_identity_hash,
            retry_budget_hash: receipt.retry_budget_hash,
            budget_exhausted: receipt.budget_exhausted,
            duplicate_request: receipt.duplicate_request,
            receipt_verified,
            tamper_rejected,
            endpoint_verified,
            phase_plan,
            proof_hash: 0,
        };
        event.proof_hash = event.expected_proof_hash();
        let finalized = match receipt.bind_proof_event(event.proof_event_seq, event.proof_hash) {
            Some(f) => f,
            None => {
                return None;
            },
        };
        event.receipt_hash = finalized.receipt_hash;
        if event.is_valid() {
            Some((finalized, event))
        } else {
            None
        }
    }

    /// The proof event for a receipt checked right after its own event.
    pub fn new(
        receipt: OllamaLlmEffectReceipt,
        receipt_verified: bool,
        tamper_rejected: bool,
        endpoint_verified: bool,
        phase_plan: bool,
    ) -> (r: Option<Self>)
        ensures
            r == (if receipt.event_seq == u64::MAX {
                None
            } else {
                match spec_finalize_receipt_at_seq(
                    receipt,
                    (receipt.event_seq + 1) as u64,
                    receipt_verified,
                    tamper_rejected,
                    endpoint_verified,
                    phase_plan,
                ) {
                    Some((_, event)) => Some(event),
                    None => None,
                }
            }),
    {
        match Self::finalize_receipt(
            receipt,
            receipt_verified,
            tamper_rejected,
            endpoint_verified,
            phase_plan,
        ) {
            Some((_, event)) => Some(event),
            None => None,
        }
    }

    /// Binds a receipt to the proof event right after its own event.
    pub fn finalize_receipt(
        receipt: OllamaLlmEffectReceipt,
        receipt_verified: bool,
        tamper_rejected: bool,
        endpoint_verified: bool,
        phase_plan: bool,
    ) -> (r: Option<(OllamaLlmEffectReceipt, Self)>)
        ensures
            r == (if receipt.event_seq == u64::MAX {
                None
            } else {
                spec_finalize_receipt_at_seq(
                    receipt,
                    (receipt.event_seq + 1) as u64,
                    receipt_verified,
                    tamper_rejected,
                    endpoint_verified,
                    phase_plan,
                )
            }),
    {
        let proof_event_seq = match receipt.next_proof_event_seq() {
            Some(s) => s,
            None => {
                return None;
            },
        };
        Self::finalize_receipt_at_seq(
            receipt,
            proof_event_seq,
            receipt_verified,
            tamper_rejected,
            endpoint_verified,
            phase_plan,
        )
    }

    /// Binds a replayed receipt to the proof event that follows the log.
    pub fn finalize_receipt_after_tlog(
        receipt: OllamaLlmEffectReceipt,
        tlog: &[ControlEvent],
        receipt_verified: bool,
        tamper_rejected: bool,
        endpoint_verified: bool,
        phase_plan: bool,
    ) -> (r: Option<(OllamaLlmEffectReceipt, Self)>)
        ensures
            ({
                let base = if tlog@.len() > 0 {
                    tlog@.last().seq
                } else {
                    receipt.event_seq
                };
                r == (if !receipt.spec_replay_verified(tlog@) || base == u64::MAX {
                    None
                } else {
                    spec_finalize_receipt_at_seq(
                        receipt,
                        (base + 1) as u64,
                        receipt_verified,
                        tamper_rejected,
                        endpoint_verified,
                        phase_plan,
                    )
                })
            }),
    {
        if !receipt.replay_verified(tlog) {
            return None;
        }
        let base = if tlog.len() > 0 {
            tlog[tlog.len() - 1].seq
        } else {
            receipt.event_seq
        };
        if base == u64::MAX {
            return None;
        }
        let proof_event_seq = base + 1;
        Self::finalize_receipt_at_seq(
            receipt,
            proof_event_seq,
            receipt_verified,
            tamper_rejected,
            endpoint_verified,
            phase_plan,
        )
    }

    pub fn is_valid(self) -> (r: bool)
        ensures
            r == self.spec_is_valid(),
    {
        self.proof_line_hash == hash_text(OLLAMA_JUDGMENT_PROOF_LINE) && self.receipt_core_hash
            != 0 && self.receipt_hash != 0 && self.receipt_event_seq != 0 && self.proof_event_seq
            != 0 && self.proof_event_seq > self.receipt_event_seq && self.receipt_event_hash != 0
            && self.base_url_hash != 0 && self.model_id != 0 && self.timeout_ms != 0
            && self.retry_count <= self.max_retries && self.attempt_budget != 0
            && (self.attempt_budget as u64) <= (self.max_retries as u64) + 1 && self.retry_count
            < self.attempt_budget && self.request_identity_hash != 0 && self.retry_budget_hash
            != 0 && !self.duplicate_request && self.receipt_verified && self.tamper_rejected
            && self.endpoint_verified && self.phase_plan && self.proof_hash != 0
            && self.proof_hash == self.expected_proof_hash()
    }

    pub fn expected_proof_hash(self) -> (r: u64)
        ensures
            r == self.spec_expected_proof_hash(),
    {
        let fields = [
            self.proof_line_hash,
            self.receipt_core_hash,
            self.receipt_event_seq,
            self.proof_event_seq,
            self.receipt_event_hash,
            self.base_url_hash,
            self.model_id,
            self.timeout_ms,
            self.retry_count as u64,
            self.max_retries as u64,
            self.attempt_budget as u64,
            self.request_identity_hash,
            self.retry_budget_hash,
            bool_u64(self.budget_exhausted),
            bool_u64(self.duplicate_request),
            bool_u64(self.receipt_verified),
            bool_u64(self.tamper_rejected),
            bool_u64(self.endpoint_verified),
            bool_u64(self.phase_plan),
        ];
        assert(fields@ =~= self.proof_fields());
        nonzero(fold_mix(0x4f4c_4c41_4d41_5652u64, &fields))
    }

    pub open spec fn spec_proof_flags(self) -> u64 {
        let f0: u64 = 0;
        let f1: u64 = if self.receipt_verified {
            f0 | PROOF_FLAG_RECEIPT_VERIFIED
        } else {
            f0
        };
        let f2: u64 = if self.tamper_rejected {
            f1 | PROOF_FLAG_TAMPER_REJECTED
        } else {
            f1
        };
        let f3: u64 = if self.endpoint_verified {
            f2 | PROOF_FLAG_PROVENANCE_VERIFIED
        } else {
            f2
        };
        if self.phase_plan {
            f3 | PROOF_FLAG_PHASE_VERIFIED
        } else {
            f3
        }
    }

    /// The verification flags the event asserts.
    pub fn proof_flags(self) -> (r: u64)
        ensures
            r == self.spec_proof_flags(),
    {
        let mut flags: u64 = 0;
        if self.receipt_verified {
            flags = flags | PROOF_FLAG_RECEIPT_VERIFIED;
        }
        if self.tamper_rejected {
            flags = flags | PROOF_FLAG_TAMPER_REJECTED;
        }
        if self.endpoint_verified {
            flags = flags | PROOF_FLAG_PROVENANCE_VERIFIED;
        }
        if self.phase_plan {
            flags = flags | PROOF_FLAG_PHASE_VERIFIED;
        }
        flags
    }

    pub open spec fn context_fields(self) -> Seq<u64> {
        seq![
            self.base_url_hash,
            self.model_id,
            self.timeout_ms,
            self.retry_count as u64,
            self.max_retries as u64,
            self.attempt_budget as u64,
            self.request_identity_hash,
            self.retry_budget_hash,
            b2u(self.budget_exhausted),
            b2u(self.duplicate_request),
        ]
    }

    /// The hash of the endpoint and budget the verifier checked against.
    pub fn verifier_context_hash(self) -> (r: u64)
        ensures
            r == nz(spec_fold_mix(0x4f4c_4c41_4d41_4354u64, self.context_fields())),
    {
        let fields = [
            self.base_url_hash,
            self.model_id,
            self.timeout_ms,
            self.retry_count as u64,
            self.max_retries as u64,
            self.attempt_budget as u64,
            self.request_identity_hash,
            self.retry_budget_hash,
            bool_u64(self.budget_exhausted),
            bool_u64(self.duplicate_request),
        ];
        assert(fields@ =~= self.context_fields());
        nonzero(fold_mix(0x4f4c_4c41_4d41_4354u64, &fields))
    }

    pub open spec fn spec_matches_receipt(
        self,
        receipt: OllamaLlmEffectReceipt,
        tlog: Seq<ControlEvent>,
    ) -> bool {
        &&& self.spec_is_valid()
        &&& receipt.spec_replay_verified(tlog)
        &&& receipt.spec_is_valid() && receipt.proof_event_seq != 0 && receipt.proof_hash != 0
        &&& self.proof_hash == receipt.proof_hash
        &&& self.receipt_hash == receipt.receipt_hash
        &&& self.receipt_core_hash == receipt.spec_expected_receipt_core_hash()
        &&& self.receipt_event_seq == receipt.event_seq
        &&& self.proof_event_seq == receipt.proof_event_seq
        &&& self.receipt_event_hash == receipt.event_hash
        &&& self.base_url_hash == receipt.base_url_hash
        &&& self.model_id == receipt.model_id
        &&& self.timeout_ms == receipt.timeout_ms
        &&& self.retry_count == receipt.retry_count
        &&& self.max_retries == receipt.max_retries
        &&& self.attempt_budget == receipt.attempt_budget
        &&& self.request_identity_hash == receipt.request_identity_hash
        &&& self.retry_budget_hash == receipt.retry_budget_hash
        &&& self.budget_exhausted == receipt.budget_exhausted
        &&& self.duplicate_request == receipt.duplicate_request
    }

    /// Whether this event proves the given replayed, bound receipt.
    pub fn matches_receipt(self, receipt: OllamaLlmEffectReceipt, tlog: &[ControlEvent]) -> (r:
        bool)
        ensures
            r == self.spec_matches_receipt(receipt, tlog@),
    {
        self.is_valid() && receipt.replay_verified(tlog) && receipt.has_proof_binding()
            && self.proof_hash == receipt.proof_hash && self.receipt_hash == receipt.receipt_hash
            && self.receipt_core_hash == receipt.expected_receipt_core_hash()
            && self.receipt_event_seq == receipt.event_seq && self.proof_event_seq
            == receipt.proof_event_seq && self.receipt_event_hash == receipt.event_hash
            && self.base_url_hash == receipt.base_url_hash && self.model_id == receipt.model_id
            && self.timeout_ms == receipt.timeout_ms && self.retry_count == receipt.retry_count
            && self.max_retries == receipt.max_retries && self.attempt_budget
            == receipt.attempt_budget && self.request_identity_hash
            == receipt.request_identity_hash && self.retry_budget_hash
            == receipt.retry_budget_hash && self.budget_exhausted == receipt.budget_exhausted
            && self.duplicate_request == receipt.duplicate_request
    }
}

/// Checks that every receipt replays against the log; the count of receipts when all do.
pub fn verify_ollama_llm_effect_receipts(
    tlog: &[ControlEvent],
    receipts: &[OllamaLlmEffectReceipt],
) -> (r: Result<usize, OllamaError>)
    ensures
        match r {
            Ok(n) => n == receipts@.len() && forall|i: int|
                0 <= i < receipts@.len() ==> (#[trigger] receipts@[i]).spec_replay_verified(tlog@),
            Err(e) => e is InvalidReplay && exists|i: int|
                0 <= i < receipts@.len() && !(#[trigger] receipts@[i]).spec_replay_verified(
                    tlog@,
                ),
        },
{
    let mut i: usize = 0;
    while i < receipts.len()
        invariant
            i <= receipts@.len(),
            forall|k: int| 0 <= k < i ==> (#[trigger] receipts@[k]).spec_replay_verified(tlog@),
        decreases receipts@.len() - i,
    {
        if !receipts[i].replay_verified(tlog) {
            return Err(OllamaError::InvalidReplay);
        }
        i = i + 1;
    }
    Ok(receipts.len())
}

/// The fields of a receipt's record line.
pub open spec fn receipt_record_fields(r: OllamaLlmEffectReceipt) -> Seq<u64> {
    seq![
        OLLAMA_LLM_EFFECT_RECEIPT_SCHEMA_VERSION,
        OLLAMA_LLM_EFFECT_RECEIPT_RECORD,
        r.provider_hash,
        r.base_url_hash,
        r.model_id,
        r.request_hash,
        r.timeout_ms,
        r.retry_count as u64,
        r.max_retries as u64,
        r.attempt_budget as u64,
        r.request_identity_hash,
        r.retry_budget_hash,
        b2u(r.budget_exhausted),
        b2u(r.duplicate_request),
        r.response_hash,
        r.raw_response_hash,
        r.prompt_hash,
        r.token_count as u64,
        r.payload_hash,
        r.command_hash,
        r.event_seq,
        r.event_hash,
        r.proof_event_seq,
        r.proof_hash,
        r.receipt_hash,
    ]
}

pub fn encode_ollama_llm_effect_receipt_ndjson(receipt: OllamaLlmEffectReceipt) -> (r: String)
    ensures
        r@ == encode_u64_list(receipt_record_fields(receipt)),
{
    let fields = [
        OLLAMA_LLM_EFFECT_RECEIPT_SCHEMA_VERSION,
        OLLAMA_LLM_EFFECT_RECEIPT_RECORD,
        receipt.provider_hash,
        receipt.base_url_hash,
        receipt.model_id,
        receipt.request_hash,
        receipt.timeout_ms,
        receipt.retry_count as u64,
        receipt.max_retries as u64,
        receipt.attempt_budget as u64,
        receipt.request_identity_hash,
        receipt.retry_budget_hash,
        bool_u64(receipt.budget_exhausted),
        bool_u64(receipt.duplicate_request),
        receipt.response_hash,
        receipt.raw_response_hash,
        receipt.prompt_hash,
        receipt.token_count as u64,
        receipt.payload_hash,
        receipt.command_hash,
        receipt.event_seq,
        receipt.event_hash,
        receipt.proof_event_seq,
        receipt.proof_hash,
        receipt.receipt_hash,
    ];
    assert(fields@ =~= receipt_record_fields(receipt));
    encode_u64_fields_ndjson(&fields)
}

/// The fields of a proof event's record line.
pub open spec fn proof_event_record_fields(e: OllamaJudgmentProofEvent) -> Seq<u64> {
    seq![
        OLLAMA_JUDGMENT_PROOF_SCHEMA_VERSION,
        OLLAMA_JUDGMENT_PROOF_RECORD,
        e.proof_line_hash,
        e.receipt_core_hash,
        e.receipt_hash,
        e.receipt_event_seq,
        e.proof_event_seq,
        e.receipt_event_hash,
        e.base_url_hash,
        e.model_id,
        e.timeout_ms,
        e.retry_count as u64,
        e.max_retries as u64,
        e.attempt_budget as u64,
        e.request_identity_hash,
        e.retry_budget_hash,
        b2u(e.budget_exhausted),
        b2u(e.duplicate_request),
        b2u(e.receipt_verified),
        b2u(e.tamper_rejected),
        b2u(e.endpoint_verified),
        b2u(e.phase_plan),
        e.proof_hash,
    ]
}

pub fn encode_ollama_judgment_proof_event_ndjson(event: OllamaJudgmentProofEvent) -> (r: String)
    ensures
        r@ == encode_u64_list(proof_event_record_fields(event)),
{
    let fields = [
        OLLAMA_JUDGMENT_PROOF_SCHEMA_VERSION,
        OLLAMA_JUDGMENT_PROOF_RECORD,
        event.proof_line_hash,
        event.receipt_core_hash,
        event.receipt_hash,
        event.receipt_event_seq,
        event.proof_event_seq,
        event.receipt_event_hash,
        event.base_url_hash,
        event.model_id,
        event.timeout_ms,
        event.retry_count as u64,
        event.max_retries as u64,
        event.attempt_budget as u64,
        event.request_identity_hash,
        event.retry_budget_hash,
        bool_u64(event.budget_exhausted),
        bool_u64(event.duplicate_request),
        bool_u64(event.receipt_verified),
        bool_u64(event.tamper_rejected),
        bool_u64(event.endpoint_verified),
        bool_u64(event.phase_plan),
        event.proof_hash,
    ];
    assert(fields@ =~= proof_event_record_fields(event));
    encode_u64_fields_ndjson(&fields)
}

/// The receipt a record line's fields describe, before its own checks:
/// the right length, schema and tag, and counts that fit in 32 bits.
pub open spec fn spec_receipt_from_fields(f: Seq<u64>) -> Option<OllamaLlmEffectReceipt> {
    if f.len() != 25 || f[0] != OLLAMA_LLM_EFFECT_RECEIPT_SCHEMA_VERSION || f[1]
        != OLLAMA_LLM_EFFECT_RECEIPT_RECORD || f[7] > u32::MAX || f[8] > u32::MAX || f[9]
        > u32::MAX || f[17] > u32::MAX {
        None
    } else {
        Some(
            OllamaLlmEffectReceipt {
                provider_hash: f[2],
                base_url_hash: f[3],
                model_id: f[4],
                request_hash: f[5],
                timeout_ms: f[6],
                retry_count: f[7] as u32,
                max_retries: f[8] as u32,
                attempt_budget: f[9] as u32,
                request_identity_hash: f[10],
                retry_budget_hash: f[11],
                budget_exhausted: f[12] == 1,
                duplicate_request: f[13] == 1,
                response_hash: f[14],
                raw_response_hash: f[15],
                prompt_hash: f[16],
                token_count: f[17] as u32,
                payload_hash: f[18],
                command_hash: f[19],
                event_seq: f[20],
                event_hash: f[21],
                proof_event_seq: f[22],
                proof_hash: f[23],
                receipt_hash: f[24],
            },
        )
    }
}

/// A receipt from a record line's fields, without checking the receipt itself.
pub fn decode_ollama_llm_effect_receipt_fields_unchecked(fields: &[u64]) -> (r: Result<
    OllamaLlmEffectReceipt,
    OllamaError,
>)
    ensures
        match r {
            Ok(receipt) => spec_receipt_from_fields(fields@) == Some(receipt),
            Err(e) => spec_receipt_from_fields(fields@) is None && e is InvalidReceiptRecord,
        },
{
    if fields.len() != 25 || fields[0] != OLLAMA_LLM_EFFECT_RECEIPT_SCHEMA_VERSION || fields[1]
        != OLLAMA_LLM_EFFECT_RECEIPT_RECORD || fields[7] > 0xffff_ffff || fields[8] > 0xffff_ffff
        || fields[9] > 0xffff_ffff || fields[17] > 0xffff_ffff {
        return Err(OllamaError::InvalidReceiptRecord);
    }
    Ok(
        OllamaLlmEffectReceipt {
            provider_hash: fields[2],
            base_url_hash: fields[3],
            model_id: fields[4],
            request_hash: fields[5],
            timeout_ms: fields[6],
            retry_count: fields[7] as u32,
            max_retries: fields[8] as u32,
            attempt_budget: fields[9] as u32,
            request_identity_hash: fields[10],
            retry_budget_hash: fields[11],
            budget_exhausted: fields[12] == 1,
            duplicate_request: fields[13] == 1,
            response_hash: fields[14],
            raw_response_hash: fields[15],
            prompt_hash: fields[16],
            token_count: fields[17] as u32,
            payload_hash: fields[18],
            command_hash: fields[19],
            event_seq: fields[20],
            event_hash: fields[21],
            proof_event_seq: fields[22],
            proof_hash: fields[23],
            receipt_hash: fields[24],
        },
    )
}

/// A valid receipt from a record line's fields.
pub fn decode_ollama_llm_effect_receipt_fields(fields: &[u64]) -> (r: Result<
    OllamaLlmEffectReceipt,
    OllamaError,
>)
    ensures
        match r {
            Ok(receipt) => spec_receipt_from_fields(fields@) == Some(receipt)
                && receipt.spec_is_valid(),
            Err(OllamaError::InvalidReceiptRecord) => spec_receipt_from_fields(fields@) is None,
            Err(OllamaError::InvalidReceipt) => spec_receipt_from_fields(fields@) is Some
                && !spec_receipt_from_fields(fields@)->0.spec_is_valid(),
            Err(_) => false,
        },
{
    let receipt = match decode_ollama_llm_effect_receipt_fields_unchecked(fields) {
        Ok(r) => r,
        Err(e) => {
            return Err(e);
        },
    };
    if receipt.is_valid() {
        Ok(receipt)
    } else {
        Err(OllamaError::InvalidReceipt)
    }
}

/// The fields of a record line, refused when the line is not one.
pub fn parse_ollama_fields(line: &str) -> (r: Result<Vec<u64>, OllamaError>)
    ensures
        match r {
            Ok(v) => spec_parse_u64_fields(line@) == Some(v@),
            Err(e) => spec_parse_u64_fields(line@) is None && e is InvalidReceiptRecord,
        },
{
    match parse_u64_fields(line) {
        Some(v) => Ok(v),
        None => Err(OllamaError::InvalidReceiptRecord),
    }
}

/// The valid receipt a record line holds.
pub fn decode_ollama_llm_effect_receipt_ndjson(line: &str) -> (r: Result<
    OllamaLlmEffectReceipt,
    OllamaError,
>)
    ensures
        match spec_parse_u64_fields(line@) {
            None => r matches Err(OllamaError::InvalidReceiptRecord),
            Some(f) => match r {
                Ok(receipt) => spec_receipt_from_fields(f) == Some(receipt)
                    && receipt.spec_is_valid(),
                Err(OllamaError::InvalidReceiptRecord) => spec_receipt_from_fields(f) is None,
                Err(OllamaError::InvalidReceipt) => spec_receipt_from_fields(f) is Some
                    && !spec_receipt_from_fields(f)->0.spec_is_valid(),
                Err(_) => false,
            },
        },
{
    let fields = match parse_ollama_fields(line) {
        Ok(f) => f,
        Err(e) => {
            return Err(e);
        },
    };
    decode_ollama_llm_effect_receipt_fields(fields.as_slice())
}

/// The proof event a record line's fields describe, before its own checks.
pub open spec fn spec_proof_event_from_fields(f: Seq<u64>) -> Option<OllamaJudgmentProofEvent> {
    if f.len() != 23 || f[0] != OLLAMA_JUDGMENT_PROOF_SCHEMA_VERSION || f[1]
        != OLLAMA_JUDGMENT_PROOF_RECORD || f[11] > u32::MAX || f[12] > u32::MAX || f[13]
        > u32::MAX {
        None
    } else {
        Some(
            OllamaJudgmentProofEvent {
                proof_line_hash: f[2],
                receipt_core_hash: f[3],
                receipt_hash: f[4],
                receipt_event_seq: f[5],
                proof_event_seq: f[6],
                receipt_event_hash: f[7],
                base_url_hash: f[8],
                model_id: f[9],
                timeout_ms: f[10],
                retry_count: f[11] as u32,
                max_retries: f[12] as u32,
                attempt_budget: f[13] as u32,
                request_identity_hash: f[14],
                retry_budget_hash: f[15],
                budget_exhausted: f[16] == 1,
                duplicate_request: f[17] == 1,
                receipt_verified: f[18] == 1,
                tamper_rejected: f[19] == 1,
                endpoint_verified: f[20] == 1,
                phase_plan: f[21] == 1,
                proof_hash: f[22],
            },
        )
    }
}

/// A valid proof event from a record line's fields.
pub fn decode_ollama_judgment_proof_event_fields(fields: &[u64]) -> (r: Result<
    OllamaJudgmentProofEvent,
    OllamaError,
>)
    ensures
        match r {
            Ok(event) => spec_proof_event_from_fields(fields@) == Some(event)
                && event.spec_is_valid(),
            Err(OllamaError::InvalidReceiptRecord) => spec_proof_event_from_fields(fields@) is None,
            Err(OllamaError::InvalidReceipt) => spec_proof_event_from_fields(fields@) is Some
                && !spec_proof_event_from_fields(fields@)->0.spec_is_valid(),
            Err(_) => false,
        },
{
    if fields.len() != 23 || fields[0] != OLLAMA_JUDGMENT_PROOF_SCHEMA_VERSION || fields[1]
        != OLLAMA_JUDGMENT_PROOF_RECORD || fields[11] > 0xffff_ffff || fields[12] > 0xffff_ffff
        || fields[13] > 0xffff_ffff {
        return Err(OllamaError::InvalidReceiptRecord);
    }
    let event = OllamaJudgmentProofEvent {
        proof_line_hash: fields[2],
        receipt_core_hash: fields[3],
        receipt_hash: fields[4],
        receipt_event_seq: fields[5],
        proof_event_seq: fields[6],
        receipt_event_hash: fields[7],
        base_url_hash: fields[8],
        model_id: fields[9],
        timeout_ms: fields[10],
        retry_count: fields[11] as u32,
        max_retries: fields[12] as u32,
        attempt_budget: fields[13] as u32,
        request_identity_hash: fields[14],
        retry_budget_hash: fields[15],
        budget_exhausted: fields[16] == 1,
        duplicate_request: fields[17] == 1,
        receipt_verified: fields[18] == 1,
        tamper_rejected: fields[19] == 1,
        endpoint_verified: fields[20] == 1,
        phase_plan: fields[21] == 1,
        proof_hash: fields[22],
    };
    if event.is_valid() {
        Ok(event)
    } else {
        Err(OllamaError::InvalidReceipt)
    }
}

/// The valid proof event a record line holds.
pub fn decode_ollama_judgment_proof_event_ndjson(line: &str) -> (r: Result<
    OllamaJudgmentProofEvent,
    OllamaError,
>)
    ensures
        match spec_parse_u64_fields(line@) {
            None => r matches Err(OllamaError::InvalidReceiptRecord),
            Some(f) => match r {
                Ok(event) => spec_proof_event_from_fields(f) == Some(event)
                    && event.spec_is_valid(),
                Err(OllamaError::InvalidReceiptRecord) => spec_proof_event_from_fields(f) is None,
                Err(OllamaError::InvalidReceipt) => spec_proof_event_from_fields(f) is Some
                    && !spec_proof_event_from_fields(f)->0.spec_is_valid(),
                Err(_) => false,
            },
        },
{
    let fields = match parse_ollama_fields(line) {
        Ok(f) => f,
        Err(e) => {
            return Err(e);
        },
    };
    decode_ollama_judgment_proof_event_fields(fields.as_slice())
}

/// Error codes of an order check: a line that is not a record, a record
/// that is not valid, a replay out of order.
pub open spec fn ollama_error_code(e: OllamaError) -> u8 {
    match e {
        OllamaError::InvalidReceiptRecord => 1,
        OllamaError::InvalidReceipt => 2,
        OllamaError::InvalidReplay => 3,
        _ => 0,
    }
}

/// One line of a log read for order: transition events move the last event
/// sequence number, receipts are remembered by hash, and each proof event
/// must follow the last event directly and name a remembered receipt.
pub open spec fn ollama_order_step(
    st: Result<(u64, Seq<u64>, nat), u8>,
    line: Seq<char>,
) -> Result<(u64, Seq<u64>, nat), u8> {
    match st {
        Err(e) => Err(e),
        Ok((last, seen, n)) => if trim(line).len() == 0 {
            st
        } else {
            match spec_parse_u64_fields(line) {
                None => Err(1),
                Some(f) => if f.len() < 2 {
                    Err(3)
                } else if f[1] == crate::kernel::TLOG_RECORD_EVENT {
                    if f.len() < 3 {
                        Err(3)
                    } else {
                        Ok((f[2], seen, n))
                    }
                } else if f[1] == OLLAMA_LLM_EFFECT_RECEIPT_RECORD {
                    match spec_receipt_from_fields(f) {
                        None => Err(1),
                        Some(rc) => if !rc.spec_is_valid() {
                            Err(2)
                        } else {
                            Ok((last, seen.push(rc.receipt_hash), n))
                        },
                    }
                } else if f[1] == OLLAMA_JUDGMENT_PROOF_RECORD {
                    match spec_proof_event_from_fields(f) {
                        None => Err(1),
                        Some(ev) => if !ev.spec_is_valid() {
                            Err(2)
                        } else if last + 1 > u64::MAX || ev.proof_event_seq != last + 1
                            || !seen.contains(ev.receipt_hash) {
                            Err(3)
                        } else {
                            Ok((last, seen, n + 1))
                        },
                    }
                } else {
                    st
                }
            }
        },
    }
}

pub open spec fn ollama_order_scan(lines: Seq<Seq<char>>) -> Result<(u64, Seq<u64>, nat), u8>
    decreases lines.len(),
{
    if lines.len() == 0 {
        Ok((0, Seq::empty(), 0))
    } else {
        ollama_order_step(ollama_order_scan(lines.drop_last()), lines.last())
    }
}

/// The number of proof events of a log in order, or the code of why not; a
/// log without proof events is out of order too.
pub open spec fn spec_ollama_proof_order(lines: Seq<Seq<char>>) -> Result<nat, u8> {
    match ollama_order_scan(lines) {
        Err(e) => Err(e),
        Ok((_, _, n)) => if n == 0 {
            Err(3)
        } else {
            Ok(n)
        },
    }
}

fn seen_contains(seen: &Vec<u64>, h: u64) -> (r: bool)
    ensures
        r == seen@.contains(h),
{
    let mut i: usize = 0;
    while i < seen.len()
        invariant
            i <= seen@.len(),
            forall|k: int| 0 <= k < i ==> seen@[k] != h,
        decreases seen@.len() - i,
    {
        if seen[i] == h {
            return true;
        }
        i = i + 1;
    }
    false
}

/// Checks the order of a log's lines: every proof event directly follows
/// the transition event it proves and names a receipt recorded before it.
/// The count of proof events on success.
pub fn verify_ollama_judgment_proof_event_order_lines(lines: &[String]) -> (r: Result<
    usize,
    OllamaError,
>)
    ensures
        match (r, spec_ollama_proof_order(Seq::new(lines@.len(), |i: int| lines@[i]@))) {
            (Ok(n), Ok(m)) => n == m,
            (Err(e), Err(c)) => ollama_error_code(e) == c,
            _ => false,
        },
{
    let ghost views = Seq::new(lines@.len(), |i: int| lines@[i]@);
    let mut last: u64 = 0;
    let mut seen: Vec<u64> = Vec::new();
    let mut verified: usize = 0;
    let mut i: usize = 0;
    assert(views.take(0) =~= Seq::<Seq<char>>::empty());
    while i < lines.len()
        invariant
            i <= lines@.len(),
            views == Seq::new(lines@.len(), |i: int| lines@[i]@),
            ollama_order_scan(views.take(i as int)) == Ok::<(u64, Seq<u64>, nat), u8>(
                (last, seen@, verified as nat),
            ),
            verified <= i,
        decreases lines@.len() - i,
    {
        assert(views.take(i + 1).drop_last() =~= views.take(i as int));
        assert(views.take(i + 1).last() == lines@[i as int]@);
        let line = lines[i].as_str();
        if !crate::codec::is_blank(line) {
            let fields = match parse_ollama_fields(line) {
                Ok(f) => f,
                Err(e) => {
                    proof {
                        lemma_ollama_order_stops(views, i as int + 1);
                    }
                    return Err(e);
                },
            };
            if fields.len() < 2 {
                proof {
                    lemma_ollama_order_stops(views, i as int + 1);
                }
                return Err(OllamaError::InvalidReplay);
            }
            if fields[1] == crate::kernel::TLOG_RECORD_EVENT {
                if fields.len() < 3 {
                    proof {
                        lemma_ollama_order_stops(views, i as int + 1);
                    }
                    return Err(OllamaError::InvalidReplay);
                }
                last = fields[2];
            } else if fields[1] == OLLAMA_LLM_EFFECT_RECEIPT_RECORD {
                match decode_ollama_llm_effect_receipt_fields(fields.as_slice()) {
                    Ok(receipt) => {
                        seen.push(receipt.receipt_hash);
                    },
                    Err(e) => {
                        proof {
                            lemma_ollama_order_stops(views, i as int + 1);
                        }
                        return Err(e);
                    },
                }
            } else if fields[1] == OLLAMA_JUDGMENT_PROOF_RECORD {
                let event = match decode_ollama_judgment_proof_event_fields(fields.as_slice()) {
                    Ok(ev) => ev,
                    Err(e) => {
                        proof {
                            lemma_ollama_order_stops(views, i as int + 1);
                        }
                        return Err(e);
                    },
                };
                let ok = match last.checked_add(1) {
                    Some(next) => event.proof_event_seq == next && seen_contains(
                        &seen,
                        event.receipt_hash,
                    ),
                    None => false,
                };
                if !ok {
                    proof {
                        lemma_ollama_order_stops(views, i as int + 1);
                    }
                    return Err(OllamaError::InvalidReplay);
                }
                verified = verified + 1;
            }
        }
        i = i + 1;
    }
    assert(views.take(i as int) =~= views);
    if verified == 0 {
        return Err(OllamaError::InvalidReplay);
    }
    Ok(verified)
}

proof fn lemma_ollama_order_stops(lines: Seq<Seq<char>>, n: int)
    requires
        0 <= n <= lines.len(),
        ollama_order_scan(lines.take(n)) is Err,
    ensures
        ollama_order_scan(lines) == ollama_order_scan(lines.take(n)),
    decreases lines.len() - n,
{
    if n < lines.len() {
        assert(lines.take(n + 1).drop_last() =~= lines.take(n));
        lemma_ollama_order_stops(lines, n + 1);
    } else {
        assert(lines.take(n) =~= lines);
    }
}

/// A receipt written as a record line reads back as the same receipt: the
/// line parses to the receipt's fields, and those fields describe it.
pub proof fn lemma_ollama_receipt_ndjson_round_trip(receipt: OllamaLlmEffectReceipt)
    ensures
        spec_parse_u64_fields(encode_u64_list(receipt_record_fields(receipt))) == Some(
            receipt_record_fields(receipt),
        ),
        spec_receipt_from_fields(receipt_record_fields(receipt)) == Some(receipt),
{
    lemma_u64_list_round_trip(receipt_record_fields(receipt));
}

/// A proof event written as a record line reads back as the same event.
pub proof fn lemma_ollama_proof_event_ndjson_round_trip(event: OllamaJudgmentProofEvent)
    ensures
        spec_parse_u64_fields(encode_u64_list(proof_event_record_fields(event))) == Some(
            proof_event_record_fields(event),
        ),
        spec_proof_event_from_fields(proof_event_record_fields(event)) == Some(event),
{
    lemma_u64_list_round_trip(proof_event_record_fields(event));
}

#[derive(Clone, Debug, PartialEq, Eq)]
pub struct OllamaMessage {
    pub role: String,
    pub content: String,
}

impl OllamaMessage {
    pub fn system(content: &str) -> (r: Self)
        ensures
            r.role@ == "system"@,
            r.content@ == content@,
    {
        OllamaMessage { role: owned("system"), content: owned(content) }
    }

    pub fn user(content: &str) -> (r: Self)
        ensures
            r.role@ == "user"@,
            r.content@ == content@,
    {
        OllamaMessage { role: owned("user"), content: owned(content) }
    }
}

pub open spec fn ollama_message_json(role: Seq<char>, content: Seq<char>) -> Seq<char> {
    "{\"role\":\""@ + spec_json_escape(role) + "\",\"content\":\""@ + spec_json_escape(content)
        + "\"}"@
}

pub open spec fn join_ollama_messages(ms: Seq<OllamaMessage>) -> Seq<char>
    decreases ms.len(),
{
    if ms.len() == 0 {
        Seq::<char>::empty()
    } else if ms.len() == 1 {
        ollama_message_json(ms[0].role@, ms[0].content@)
    } else {
        join_ollama_messages(ms.drop_last()) + seq![','] + ollama_message_json(
            ms.last().role@,
            ms.last().content@,
        )
    }
}

/// The chat request body: the model, the messages, no streaming.
pub open spec fn spec_ollama_request_json(model: Seq<char>, ms: Seq<OllamaMessage>) -> Seq<char> {
    "{\"model\":\""@ + spec_json_escape(model) + "\",\"messages\":["@ + join_ollama_messages(ms)
        + "],\"stream\":false}"@
}

/// Why a message list cannot be sent, if it cannot.
pub open spec fn spec_ollama_request_fault(ms: Seq<OllamaMessage>) -> Option<OllamaError> {
    if ms.len() == 0 {
        Some(OllamaError::InvalidConfig("empty message list"))
    } else if exists|i: int|
        0 <= i < ms.len() && (trim((#[trigger] ms[i]).role@).len() == 0 || trim(
            ms[i].content@,
        ).len() == 0) {
        Some(OllamaError::InvalidConfig("empty message"))
    } else {
        None
    }
}

/// The request body of the two-message judgment turn.
pub open spec fn spec_judgment_request_json(
    model: Seq<char>,
    context: ContextRecord,
    entries: Seq<crate::capability::policy::store::PolicyEntry>,
) -> Seq<char> {
    "{\"model\":\""@ + spec_json_escape(model) + "\",\"messages\":["@ + ollama_message_json(
        "system"@,
        JUDGMENT_SYSTEM_PROMPT@,
    ) + seq![','] + ollama_message_json("user"@, spec_judgment_prompt(context, entries))
        + "],\"stream\":false}"@
}

/// A string after the first `:` that follows `key_end`: white space, then a
/// quoted string; each `\u` escape reads as one `?`.
pub open spec fn ollama_decode_from(
    s: Seq<char>,
    i: int,
    escaped: bool,
    unicode_remaining: nat,
    out: Seq<char>,
) -> Option<Seq<char>>
    decreases s.len() - i,
{
    if i < 0 || i >= s.len() {
        None
    } else if unicode_remaining != 0 {
        if unicode_remaining == 1 {
            ollama_decode_from(s, i + 1, escaped, 0, out.push('?'))
        } else {
            ollama_decode_from(s, i + 1, escaped, (unicode_remaining - 1) as nat, out)
        }
    } else if escaped {
        if s[i] == 'u' {
            ollama_decode_from(s, i + 1, false, 4, out)
        } else {
            match json_unescape(s[i]) {
                Some(d) => ollama_decode_from(s, i + 1, false, 0, out.push(d)),
                None => None,
            }
        }
    } else if s[i] == '\\' {
        ollama_decode_from(s, i + 1, true, 0, out)
    } else if s[i] == '"' {
        Some(out)
    } else {
        ollama_decode_from(s, i + 1, false, 0, out.push(s[i]))
    }
}

proof fn lemma_ollama_decode_shift(
    p: Seq<char>,
    q: Seq<char>,
    j: int,
    escaped: bool,
    unicode_remaining: nat,
    out: Seq<char>,
)
    requires
        0 <= j,
    ensures
        ollama_decode_from(p + q, p.len() + j, escaped, unicode_remaining, out) == ollama_decode_from(
            q,
            j,
            escaped,
            unicode_remaining,
            out,
        ),
    decreases q.len() - j,
{
    let x = p + q;
    if j < q.len() {
        assert(x[p.len() + j] == q[j]);
        if unicode_remaining != 0 {
            if unicode_remaining == 1 {
                lemma_ollama_decode_shift(p, q, j + 1, escaped, 0, out.push('?'));
            } else {
                lemma_ollama_decode_shift(p, q, j + 1, escaped, (unicode_remaining - 1) as nat, out);
            }
        } else if escaped {
            if q[j] == 'u' {
                lemma_ollama_decode_shift(p, q, j + 1, false, 4, out);
            } else {
                match json_unescape(q[j]) {
                    Some(d) => lemma_ollama_decode_shift(p, q, j + 1, false, 0, out.push(d)),
                    None => {},
                }
            }
        } else if q[j] == '\\' {
            lemma_ollama_decode_shift(p, q, j + 1, true, 0, out);
        } else if q[j] != '"' {
            lemma_ollama_decode_shift(p, q, j + 1, false, 0, out.push(q[j]));
        }
    }
}

proof fn lemma_ollama_escape_decodes(s: Seq<char>, tail: Seq<char>, out: Seq<char>)
    ensures
        ollama_decode_from(json_escape_text(s) + tail, 0, false, 0, out) == ollama_decode_from(
            tail,
            0,
            false,
            0,
            out + s,
        ),
    decreases s.len(),
{
    if s.len() == 0 {
        assert(json_escape_text(s) + tail =~= tail);
        assert(out + s =~= out);
    } else {
        let c = s[0];
        let e = json_escape_char(c);
        let rest = json_escape_text(s.drop_first()) + tail;
        let x = e + rest;
        assert(json_escape_text(s) + tail =~= x);
        lemma_ollama_escape_decodes(s.drop_first(), tail, out.push(c));
        lemma_ollama_decode_shift(e, rest, 0, false, 0, out.push(c));
        assert(out.push(c) + s.drop_first() =~= out + s);
        assert(x[0] == e[0]);
        if e.len() == 2 {
            assert(x[1] == e[1]);
            assert(e[0] == '\\');
            assert(e[1] != 'u');
            assert(json_unescape(e[1]) == Some(c));
            assert(ollama_decode_from(x, 1, true, 0, out) == ollama_decode_from(x, 2, false, 0, out.push(c)));
            assert(ollama_decode_from(x, 0, false, 0, out) == ollama_decode_from(x, 1, true, 0, out));
        } else {
            assert(e.len() == 1 && e[0] == c && c != '\\' && c != '"');
            assert(ollama_decode_from(x, 0, false, 0, out) == ollama_decode_from(x, 1, false, 0, out.push(c)));
        }
    }
}

/// Reading the JSON string literal of any text from just after its opening
/// quote gives the text back: each escape reads as the character it stands
/// for (`\n` a newline, `\t` a tab, `\r` a carriage return, `\b` U+0008,
/// `\f` U+000C, `\"` a quote, `\\` a backslash), and whatever follows the
/// closing quote is not read.
pub proof fn lemma_ollama_json_string_round_trip(s: Seq<char>, after: Seq<char>)
    ensures
        ollama_decode_from(seq!['"'] + json_escape_text(s) + seq!['"'] + after, 1, false, 0, Seq::<char>::empty())
            == Some(s),
{
    let q = json_escape_text(s) + (seq!['"'] + after);
    assert(seq!['"'] + json_escape_text(s) + seq!['"'] + after =~= seq!['"'] + q);
    lemma_ollama_decode_shift(seq!['"'], q, 0, false, 0, Seq::<char>::empty());
    lemma_ollama_escape_decodes(s, seq!['"'] + after, Seq::<char>::empty());
    assert(Seq::<char>::empty() + s =~= s);
    assert((seq!['"'] + after)[0] == '"');
}

/// The string value of the first `key` at or after `start_at`.
pub open spec fn ollama_json_string(body: Seq<char>, key: Seq<char>, start_at: int) -> Option<
    Seq<char>,
> {
    match find_from(body, key, start_at) {
        None => None,
        Some(i) => {
            let s = body.skip(i + key.len());
            match first_index_of(s, ':') {
                None => None,
                Some(c) => {
                    let t = trim_start(s.skip(c + 1));
                    if t.len() > 0 && t[0] == '"' {
                        ollama_decode_from(t, 1, false, 0, Seq::<char>::empty())
                    } else {
                        None
                    }
                },
            }
        },
    }
}

/// A key found in a reply, followed by a colon and any text written as a
/// JSON string literal, has that text as its string value: escapes read as
/// the characters they stand for.
pub proof fn lemma_ollama_json_string_reads_value(
    body: Seq<char>,
    key: Seq<char>,
    start_at: int,
    i: int,
    s: Seq<char>,
    after: Seq<char>,
)
    requires
        find_from(body, key, start_at) == Some(i),
        0 <= i + key.len() <= body.len(),
        body.skip(i + key.len()) == seq![':', '"'] + json_escape_text(s) + seq!['"'] + after,
    ensures
        ollama_json_string(body, key, start_at) == Some(s),
{
    let rest = body.skip(i + key.len());
    lemma_first_index_after(Seq::<char>::empty(), rest, ':');
    assert(Seq::<char>::empty() + rest =~= rest);
    let t = rest.skip(1);
    assert(t =~= seq!['"'] + json_escape_text(s) + seq!['"'] + after);
    assert(!is_ws(t[0]));
    assert(trim_start(t) == t);
    lemma_ollama_json_string_round_trip(s, after);
}

/// The number after the first `:` that follows the first `key`.
pub open spec fn ollama_json_u32(body: Seq<char>, key: Seq<char>) -> Option<u32> {
    match find_from(body, key, 0) {
        None => None,
        Some(i) => {
            let s = body.skip(i + key.len());
            match first_index_of(s, ':') {
                None => None,
                Some(c) => {
                    let d = digits_prefix(trim_start(s.skip(c + 1)));
                    if d.len() > 0 && digits_value(d) <= u32::MAX {
                        Some(digits_value(d) as u32)
                    } else {
                        None
                    }
                },
            }
        },
    }
}

/// Where the reply's message starts: the first `"message"`, else the start.
pub open spec fn ollama_message_start(body: Seq<char>) -> int {
    match find_from(body, "\"message\""@, 0) {
        Some(m) => m,
        None => 0,
    }
}

pub open spec fn u32_or(o: Option<u32>, d: u32) -> u32 {
    match o {
        Some(n) => n,
        None => d,
    }
}

/// The content and token counts of a reply, when it has non-blank content.
pub open spec fn spec_ollama_reply(body: Seq<char>) -> Option<(Seq<char>, u32, u32, u32)> {
    match ollama_json_string(body, "\"content\""@, ollama_message_start(body)) {
        None => None,
        Some(content) => if trim(content).len() == 0 {
            None
        } else {
            let p = u32_or(ollama_json_u32(body, "\"prompt_tokens\""@), 1);
            let c = u32_or(ollama_json_u32(body, "\"completion_tokens\""@), 1);
            let sum: u32 = if p + c > u32::MAX {
                u32::MAX
            } else {
                (p + c) as u32
            };
            let t = match ollama_json_u32(body, "\"total_tokens\""@) {
                Some(t) => t,
                None => if sum == 0 {
                    1
                } else {
                    sum
                },
            };
            Some((content, p, c, t))
        },
    }
}

#[derive(Clone, Debug, PartialEq, Eq)]
pub struct OllamaChatResponse {
    pub content: String,
    pub prompt_tokens: u32,
    pub completion_tokens: u32,
    pub total_tokens: u32,
    pub response_hash: u64,
    pub raw_hash: u64,
}

fn ollama_json_string_exec(v: &Vec<char>, key: &str, start_at: usize) -> (r: Option<String>)
    requires
        start_at <= v@.len(),
        key@.len() > 0,
    ensures
        match r {
            Some(s) => ollama_json_string(v@, key@, start_at as int) == Some(s@),
            None => ollama_json_string(v@, key@, start_at as int) is None,
        },
{
    let i = match find_text(v, key, start_at) {
        Some(i) => i,
        None => return None,
    };
    let n = v.len();
    let klen = key.unicode_len();
    proof {
        lemma_find_from_found(v@, key@, start_at as int, i as int);
    }
    if klen > n - i {
        // The key was found, so it fits.
        assert(false);
        return None;
    }
    let key_end = i + klen;
    let colon = match find_char(v, ':', key_end) {
        Some(k) => k,
        None => return None,
    };
    assert(colon < n);
    let lo = skip_ws(v, colon + 1);
    assert(v@.skip(key_end as int).skip(colon - key_end + 1) =~= v@.skip(colon + 1));
    let ghost t = v@.skip(lo as int);
    if lo >= n || v[lo] != '"' {
        return None;
    }
    let mut out = new_string();
    let mut escaped = false;
    let mut unicode_remaining: u8 = 0;
    let mut k = lo + 1;
    while k < n
        invariant
            lo < k <= n,
            n == v@.len(),
            t == v@.skip(lo as int),
            unicode_remaining <= 4,
            ollama_json_string(v@, key@, start_at as int) == ollama_decode_from(
                t,
                k - lo,
                escaped,
                unicode_remaining as nat,
                out@,
            ),
        decreases n - k,
    {
        let ch = v[k];
        assert(t[k - lo] == ch);
        if unicode_remaining != 0 {
            unicode_remaining = unicode_remaining - 1;
            if unicode_remaining == 0 {
                push_char(&mut out, '?');
            }
        } else if escaped {
            if ch == 'u' {
                unicode_remaining = 4;
            } else if ch == '"' {
                push_char(&mut out, '"');
            } else if ch == '\\' {
                push_char(&mut out, '\\');
            } else if ch == '/' {
                push_char(&mut out, '/');
            } else if ch == 'b' {
                push_char(&mut out, '\u{8}');
            } else if ch == 'f' {
                push_char(&mut out, '\u{c}');
            } else if ch == 'n' {
                push_char(&mut out, '\n');
            } else if ch == 'r' {
                push_char(&mut out, '\r');
            } else if ch == 't' {
                push_char(&mut out, '\t');
            } else {
                return None;
            }
            escaped = false;
        } else if ch == '\\' {
            escaped = true;
        } else if ch == '"' {
            return Some(out);
        } else {
            push_char(&mut out, ch);
        }
        k = k + 1;
    }
    None
}

fn ollama_json_u32_exec(v: &Vec<char>, key: &str) -> (r: Option<u32>)
    requires
        key@.len() > 0,
    ensures
        r == ollama_json_u32(v@, key@),
{
    let i = match find_text(v, key, 0) {
        Some(i) => i,
        None => return None,
    };
    let n = v.len();
    let klen = key.unicode_len();
    proof {
        lemma_find_from_found(v@, key@, 0, i as int);
    }
    if klen > n - i {
        assert(false);
        return None;
    }
    let key_end = i + klen;
    let colon = match find_char(v, ':', key_end) {
        Some(k) => k,
        None => return None,
    };
    assert(colon < n);
    let lo = skip_ws(v, colon + 1);
    assert(v@.skip(key_end as int).skip(colon - key_end + 1) =~= v@.skip(colon + 1));
    let mut hi = lo;
    while hi < n && v[hi] >= '0' && v[hi] <= '9'
        invariant
            lo <= hi <= n,
            n == v@.len(),
            forall|j: int| lo <= j < hi ==> is_digit(#[trigger] v@[j]),
            digits_prefix(v@.skip(lo as int)) == v@.subrange(lo as int, hi as int) + digits_prefix(
                v@.skip(hi as int),
            ),
        decreases n - hi,
    {
        assert(v@.skip(hi as int).drop_first() =~= v@.skip(hi as int + 1));
        assert(v@.subrange(lo as int, hi as int + 1) =~= v@.subrange(lo as int, hi as int) + seq![
            v@[hi as int],
        ]);
        hi = hi + 1;
    }
    assert(digits_prefix(v@.skip(hi as int)) =~= Seq::<char>::empty());
    assert(v@.subrange(lo as int, hi as int) + Seq::<char>::empty() =~= v@.subrange(lo as int, hi as int));
    if lo == hi {
        return None;
    }
    assert(crate::codec::all_digits(v@.subrange(lo as int, hi as int)));
    match parse_digits(v, lo, hi) {
        Some(n) => if n <= 0xffff_ffff {
            Some(n as u32)
        } else {
            None
        },
        None => None,
    }
}

/// Reads a chat reply body: the content after the reply's message, which
/// must not be blank, and the token counts (one when absent).
pub fn parse_chat_response_body(body: &str) -> (r: Result<OllamaChatResponse, OllamaError>)
    ensures
        match (r, spec_ollama_reply(body@)) {
            (Ok(resp), Some((content, p, c, t))) => {
                &&& resp.content@ == content
                &&& resp.prompt_tokens == p
                &&& resp.completion_tokens == c
                &&& resp.total_tokens == t
                &&& resp.response_hash == spec_hash_text(encode_utf8(content))
                &&& resp.raw_hash == spec_hash_text(body.spec_bytes())
            },
            (Err(e), None) => e is InvalidResponse,
            _ => false,
        },
{
    proof {
        reveal_strlit("\"message\"");
        reveal_strlit("\"content\"");
        reveal_strlit("\"prompt_tokens\"");
        reveal_strlit("\"completion_tokens\"");
        reveal_strlit("\"total_tokens\"");
    }
    let v = chars_of(body);
    let start = match find_text(&v, "\"message\"", 0) {
        Some(m) => m,
        None => 0,
    };
    let content = match ollama_json_string_exec(&v, "\"content\"", start) {
        Some(c) => c,
        None => {
            return Err(OllamaError::InvalidResponse);
        },
    };
    if is_blank(content.as_str()) {
        return Err(OllamaError::InvalidResponse);
    }
    let prompt_tokens = match ollama_json_u32_exec(&v, "\"prompt_tokens\"") {
        Some(n) => n,
        None => 1,
    };
    let completion_tokens = match ollama_json_u32_exec(&v, "\"completion_tokens\"") {
        Some(n) => n,
        None => 1,
    };
    let total_tokens = match ollama_json_u32_exec(&v, "\"total_tokens\"") {
        Some(n) => n,
        None => {
            let sum: u64 = prompt_tokens as u64 + completion_tokens as u64;
            let s: u32 = if sum > 0xffff_ffff {
                0xffff_ffffu32
            } else {
                sum as u32
            };
            if s == 0 {
                1
            } else {
                s
            }
        },
    };
    let response_hash = hash_text(content.as_str());
    let raw_hash = hash_text(body);
    Ok(
        OllamaChatResponse {
            content,
            prompt_tokens,
            completion_tokens,
            total_tokens,
            response_hash,
            raw_hash,
        },
    )
}

/// The two messages of a judgment turn: the system role, then the context and policy.
pub fn messages_from_context(context: &ContextRecord, policy: &PolicyStore) -> (r: Vec<
    OllamaMessage,
>)
    ensures
        r@.len() == 2,
        r@[0].role@ == "system"@,
        r@[0].content@ == JUDGMENT_SYSTEM_PROMPT@,
        r@[1].role@ == "user"@,
        r@[1].content@ == spec_judgment_prompt(*context, policy@),
{
    let prompt = judgment_prompt(context, policy);
    let mut v = Vec::new();
    v.push(OllamaMessage::system(JUDGMENT_SYSTEM_PROMPT));
    v.push(OllamaMessage::user(prompt.as_str()));
    v
}

/// A client for one validated configuration.
/// Whether a retry decision can back the call of a request: it is a
/// receiptable success under the configured timeout, bound to the request's
/// identity.
pub open spec fn spec_budget_accepts(cfg: OllamaConfig, request_hash: u64, d: OllamaRetryBudgetDecision) -> bool {
    let identity = (OllamaRetryBudgetPolicy {
        timeout_ms: d.timeout_ms,
        max_retries: d.max_retries,
        attempt_budget: d.attempt_budget,
    }).spec_request_identity_hash(
        ollama_provider_hash(),
        spec_hash_text(encode_utf8(cfg.base_url@)),
        spec_hash_text(encode_utf8(cfg.model@)),
        request_hash,
    );
    d.spec_is_receiptable_success() && d.timeout_ms == cfg.timeout_ms && d.request_identity_hash
        == identity
}

/// For a reply body that parses: the call its first attempt makes and
/// whether the first-attempt decision is accepted; none when the
/// configuration allows no first attempt.
pub open spec fn spec_reply_call(
    cfg: OllamaConfig,
    context: ContextRecord,
    entries: Seq<crate::capability::policy::store::PolicyEntry>,
    body: Seq<char>,
) -> Option<(OllamaLlmCall, bool)> {
    let model_id = spec_hash_text(encode_utf8(cfg.model@));
    let base_url_id = spec_hash_text(encode_utf8(cfg.base_url@));
    let request_hash = spec_hash_text(
        encode_utf8(spec_judgment_request_json(cfg.model@, context, entries)),
    );
    let policy0 = OllamaRetryBudgetPolicy {
        timeout_ms: cfg.timeout_ms,
        max_retries: OLLAMA_DEFAULT_MAX_RETRIES,
        attempt_budget: OLLAMA_DEFAULT_ATTEMPT_BUDGET,
    };
    let d = policy0.spec_decision_for_attempt(
        ollama_provider_hash(),
        base_url_id,
        model_id,
        request_hash,
        0,
        false,
    );
    match (spec_ollama_reply(body), d) {
        (Some((content, _, _, total)), Some(decision)) => Some(
            (
                spec_new_call(
                    spec_record_with_response(
                        context,
                        entries,
                        model_id,
                        spec_hash_text(encode_utf8(content)),
                        if total == 0 {
                            1
                        } else {
                            total
                        },
                    ),
                    model_id,
                    base_url_id,
                    request_hash,
                    spec_hash_text(encode_utf8(body)),
                    decision,
                ),
                spec_budget_accepts(cfg, request_hash, decision),
            ),
        ),
        _ => None,
    }
}

#[derive(Clone, Debug, PartialEq, Eq)]
pub struct OllamaClient {
    config: OllamaConfig,
}

impl OllamaClient {
    pub closed spec fn spec_config(&self) -> OllamaConfig {
        self.config
    }

    pub fn new(config: OllamaConfig) -> (r: Result<Self, OllamaError>)
        ensures
            match r {
                Ok(c) => c.spec_config() == config && spec_config_error(config) is None,
                Err(e) => spec_config_error(config) == Some(e),
            },
    {
        match config.validate() {
            Ok(_) => Ok(OllamaClient { config }),
            Err(e) => Err(e),
        }
    }

    pub fn config(&self) -> (r: &OllamaConfig)
        ensures
            *r == self.spec_config(),
    {
        &self.config
    }

    /// The request body for a message list.
    pub fn request_json(&self, messages: &[OllamaMessage]) -> (r: Result<String, OllamaError>)
        ensures
            match r {
                Ok(s) => spec_ollama_request_fault(messages@) is None && s@
                    == spec_ollama_request_json(self.spec_config().model@, messages@),
                Err(e) => spec_ollama_request_fault(messages@) == Some(e),
            },
    {
        if messages.len() == 0 {
            return Err(OllamaError::InvalidConfig("empty message list"));
        }
        let mut json = new_string();
        push_str(&mut json, "{\"model\":\"");
        push_json_escaped(&mut json, self.config.model.as_str());
        push_str(&mut json, "\",\"messages\":[");
        let ghost base = json@;
        let mut i: usize = 0;
        while i < messages.len()
            invariant
                i <= messages@.len(),
                messages@.len() > 0,
                json@ == base + join_ollama_messages(messages@.take(i as int)),
                forall|k: int|
                    0 <= k < i ==> trim((#[trigger] messages@[k]).role@).len() > 0 && trim(
                        messages@[k].content@,
                    ).len() > 0,
            decreases messages@.len() - i,
        {
            assert(messages@.take(i as int + 1).drop_last() =~= messages@.take(i as int));
            if i > 0 {
                push_char(&mut json, ',');
            }
            let m = &messages[i];
            if is_blank(m.role.as_str()) || is_blank(m.content.as_str()) {
                return Err(OllamaError::InvalidConfig("empty message"));
            }
            let ghost before = json@;
            push_str(&mut json, "{\"role\":\"");
            push_json_escaped(&mut json, m.role.as_str());
            push_str(&mut json, "\",\"content\":\"");
            push_json_escaped(&mut json, m.content.as_str());
            push_str(&mut json, "\"}");
            assert(json@ =~= before + ollama_message_json(m.role@, m.content@));
            proof {
                if i == 0 {
                    assert(join_ollama_messages(messages@.take(1)) == ollama_message_json(
                        messages@[0].role@,
                        messages@[0].content@,
                    ));
                }
            }
            assert(json@ =~= base + join_ollama_messages(messages@.take(i as int + 1)));
            i = i + 1;
        }
        assert(messages@.take(i as int) =~= messages@);
        push_str(&mut json, "],\"stream\":false}");
        assert(json@ =~= spec_ollama_request_json(self.config.model@, messages@));
        Ok(json)
    }

    pub fn request_hash(&self, messages: &[OllamaMessage]) -> (r: Result<u64, OllamaError>)
        ensures
            match r {
                Ok(h) => spec_ollama_request_fault(messages@) is None && h == spec_hash_text(
                    encode_utf8(spec_ollama_request_json(self.spec_config().model@, messages@)),
                ),
                Err(e) => spec_ollama_request_fault(messages@) == Some(e),
            },
    {
        match self.request_json(messages) {
            Ok(json) => Ok(hash_text(json.as_str())),
            Err(e) => Err(e),
        }
    }

    /// The retry decision for one attempt of a request, refused when the
    /// policy does not fit the configuration or the budget does not allow it.
    pub fn attempt_decision(
        &self,
        retry_policy: OllamaRetryBudgetPolicy,
        request_hash: u64,
        retry_count: u32,
    ) -> (r: Result<OllamaRetryBudgetDecision, OllamaError>)
        ensures
            ({
                let d = retry_policy.spec_decision_for_attempt(
                    ollama_provider_hash(),
                    spec_hash_text(encode_utf8(self.spec_config().base_url@)),
                    spec_hash_text(encode_utf8(self.spec_config().model@)),
                    request_hash,
                    retry_count,
                    false,
                );
                match r {
                    Ok(decision) => retry_policy.timeout_ms == self.spec_config().timeout_ms && d
                        == Some(decision) && decision.allowed,
                    Err(OllamaError::InvalidConfig(m)) => (retry_policy.timeout_ms
                        != self.spec_config().timeout_ms && m@ == "retry timeout must match config"@)
                        || (retry_policy.timeout_ms == self.spec_config().timeout_ms && d is None
                        && m@ == "invalid retry budget"@),
                    Err(OllamaError::BudgetExhausted) => retry_policy.timeout_ms
                        == self.spec_config().timeout_ms && d is Some && !d->0.allowed,
                    Err(_) => false,
                }
            }),
    {
        if retry_policy.timeout_ms != self.config.timeout_ms {
            return Err(OllamaError::InvalidConfig("retry timeout must match config"));
        }
        let decision = match retry_policy.decision_for_attempt(
            hash_text(OLLAMA_PROVIDER),
            self.config.base_url_id(),
            self.config.model_id(),
            request_hash,
            retry_count,
            false,
        ) {
            Some(d) => d,
            None => {
                return Err(OllamaError::InvalidConfig("invalid retry budget"));
            },
        };
        if !decision.allowed {
            return Err(OllamaError::BudgetExhausted);
        }
        Ok(decision)
    }

    /// The call a reply makes under its retry decision: refused when the
    /// decision cannot back a receipt, its timeout is not the configured one,
    /// or its request identity is not this request's; and when the
    /// resulting call is not valid.
    pub fn call_from_response_with_budget(
        &self,
        context: &ContextRecord,
        policy: &PolicyStore,
        request_hash: u64,
        response: OllamaChatResponse,
        retry_budget: OllamaRetryBudgetDecision,
    ) -> (r: Result<OllamaLlmCall, OllamaError>)
        ensures
            ({
                let cfg = self.spec_config();
                let model_id = spec_hash_text(encode_utf8(cfg.model@));
                let base_url_id = spec_hash_text(encode_utf8(cfg.base_url@));
                let identity = (OllamaRetryBudgetPolicy {
                    timeout_ms: retry_budget.timeout_ms,
                    max_retries: retry_budget.max_retries,
                    attempt_budget: retry_budget.attempt_budget,
                }).spec_request_identity_hash(
                    ollama_provider_hash(),
                    base_url_id,
                    model_id,
                    request_hash,
                );
                let accepted = retry_budget.spec_is_receiptable_success() && retry_budget.timeout_ms
                    == cfg.timeout_ms && retry_budget.request_identity_hash == identity;
                let call = spec_new_call(
                    spec_record_with_response(
                        *context,
                        policy@,
                        model_id,
                        response.response_hash,
                        if response.total_tokens == 0 {
                            1
                        } else {
                            response.total_tokens
                        },
                    ),
                    model_id,
                    base_url_id,
                    request_hash,
                    response.raw_hash,
                    retry_budget,
                );
                match r {
                    Ok(c) => accepted && c == call && c.spec_is_valid(),
                    Err(OllamaError::BudgetExhausted) => !accepted,
                    Err(OllamaError::InvalidResponse) => accepted && !call.spec_is_valid(),
                    Err(_) => false,
                }
            }),
    {
        let model_id = self.config.model_id();
        let base_url_id = self.config.base_url_id();
        let identity = (OllamaRetryBudgetPolicy {
            timeout_ms: retry_budget.timeout_ms,
            max_retries: retry_budget.max_retries,
            attempt_budget: retry_budget.attempt_budget,
        }).request_identity_hash(hash_text(OLLAMA_PROVIDER), base_url_id, model_id, request_hash);
        if !retry_budget.is_receiptable_success() || retry_budget.timeout_ms
            != self.config.timeout_ms || retry_budget.request_identity_hash != identity {
            return Err(OllamaError::BudgetExhausted);
        }
        let tokens = if response.total_tokens == 0 {
            1
        } else {
            response.total_tokens
        };
        let record = LlmStructuredAdapter::record_from_external_response(
            context,
            policy,
            model_id,
            response.response_hash,
            tokens,
        );
        let call = OllamaLlmCall::new(record, model_id, base_url_id, request_hash, &response, retry_budget);
        if call.is_valid() {
            Ok(call)
        } else {
            Err(OllamaError::InvalidResponse)
        }
    }

    /// The call a raw reply body makes as the first attempt of the judgment
    /// turn for this context and policy: refused as an invalid response when
    /// the body does not parse, for the budget when the configuration allows
    /// no first attempt, as exhausted when the first-attempt decision cannot
    /// back a receipt, and as an invalid response when the call is not valid.
    pub fn call_from_response_body(
        &self,
        context: &ContextRecord,
        policy: &PolicyStore,
        response_body: &str,
    ) -> (r: Result<OllamaLlmCall, OllamaError>)
        ensures
            match spec_ollama_reply(response_body@) {
                None => r matches Err(OllamaError::InvalidResponse),
                Some(_) => match spec_reply_call(self.spec_config(), *context, policy@, response_body@) {
                    None => r matches Err(OllamaError::InvalidConfig(m)) && m@ == "invalid retry budget"@,
                    Some((call, accepted)) => match r {
                        Ok(c) => accepted && c == call && c.spec_is_valid(),
                        Err(OllamaError::BudgetExhausted) => !accepted,
                        Err(OllamaError::InvalidResponse) => accepted && !call.spec_is_valid(),
                        Err(_) => false,
                    },
                },
            },
    {
        let messages = messages_from_context(context, policy);
        proof {
            lemma_judgment_request(self.config.model@, *context, policy@, messages@);
        }
        let request_hash = match self.request_hash(messages.as_slice()) {
            Ok(h) => h,
            Err(e) => {
                return Err(e);
            },
        };
        let response = match parse_chat_response_body(response_body) {
            Ok(resp) => resp,
            Err(e) => {
                return Err(e);
            },
        };
        let retry_budget = match OllamaRetryBudgetPolicy::from_config(&self.config).first_attempt(
            hash_text(OLLAMA_PROVIDER),
            self.config.base_url_id(),
            self.config.model_id(),
            request_hash,
        ) {
            Some(d) => d,
            None => {
                return Err(OllamaError::InvalidConfig("invalid retry budget"));
            },
        };
        self.call_from_response_with_budget(context, policy, request_hash, response, retry_budget)
    }

    /// The structured record of the call a raw reply body makes, refused
    /// exactly as `call_from_response_body` refuses it.
    pub fn record_from_response_body(
        &self,
        context: &ContextRecord,
        policy: &PolicyStore,
        response_body: &str,
    ) -> (r: Result<LlmRecord, OllamaError>)
        ensures
            match spec_ollama_reply(response_body@) {
                None => r matches Err(OllamaError::InvalidResponse),
                Some(_) => match spec_reply_call(self.spec_config(), *context, policy@, response_body@) {
                    None => r matches Err(OllamaError::InvalidConfig(m)) && m@ == "invalid retry budget"@,
                    Some((call, accepted)) => match r {
                        Ok(record) => accepted && record == call.record && call.spec_is_valid(),
                        Err(OllamaError::BudgetExhausted) => !accepted,
                        Err(OllamaError::InvalidResponse) => accepted && !call.spec_is_valid(),
                        Err(_) => false,
                    },
                },
            },
    {
        match self.call_from_response_body(context, policy, response_body) {
            Ok(call) => Ok(call.record),
            Err(e) => Err(e),
        }
    }
}

proof fn lemma_judgment_request(
    model: Seq<char>,
    context: ContextRecord,
    entries: Seq<crate::capability::policy::store::PolicyEntry>,
    messages: Seq<OllamaMessage>,
)
    requires
        messages.len() == 2,
        messages[0].role@ == "system"@,
        messages[0].content@ == JUDGMENT_SYSTEM_PROMPT@,
        messages[1].role@ == "user"@,
        messages[1].content@ == spec_judgment_prompt(context, entries),
    ensures
        spec_ollama_request_fault(messages) is None,
        spec_ollama_request_json(model, messages) == spec_judgment_request_json(
            model,
            context,
            entries,
        ),
{
    lemma_nonblank_judgment_messages(context, entries);
    assert(messages.drop_last().len() == 1);
    assert(messages.drop_last()[0] == messages[0]);
    assert(join_ollama_messages(messages) == join_ollama_messages(messages.drop_last()) + seq![',']
        + ollama_message_json(messages[1].role@, messages[1].content@));
    assert(spec_ollama_request_json(model, messages) =~= spec_judgment_request_json(
        model,
        context,
        entries,
    ));
    assert forall|k: int|
        0 <= k < messages.len() implies trim((#[trigger] messages[k]).role@).len() > 0 && trim(
            messages[k].content@,
        ).len() > 0 by {
        if k == 0 {
        } else {
            assert(k == 1);
        }
    }
}

proof fn lemma_nonblank_first(s: Seq<char>)
    requires
        s.len() > 0,
        !is_ws(s[0]),
    ensures
        trim(s).len() > 0,
        trim_end(s).len() > 0,
    decreases s.len(),
{
    assert(trim_start(s) == s);
    if s.len() > 1 && is_ws(s.last()) {
        lemma_nonblank_first(s.drop_last());
    }
}

proof fn lemma_nonblank_judgment_messages(
    context: ContextRecord,
    entries: Seq<crate::capability::policy::store::PolicyEntry>,
)
    ensures
        trim("system"@).len() > 0,
        trim("user"@).len() > 0,
        trim(JUDGMENT_SYSTEM_PROMPT@).len() > 0,
        trim(spec_judgment_prompt(context, entries)).len() > 0,
{
    reveal_strlit("system");
    reveal_strlit("user");
    reveal_strlit("You are the canon agent judgment capability. Return one concise judgment.");
    reveal_strlit("objective_id=");
    lemma_nonblank_first("system"@);
    lemma_nonblank_first("user"@);
    lemma_nonblank_first(JUDGMENT_SYSTEM_PROMPT@);
    let p = spec_judgment_prompt(context, entries);
    assert(p[0] == 'o');
    lemma_nonblank_first(p);
}
} // verus!
