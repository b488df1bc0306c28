//! OpenAI-compatible adapter for the local browser router: configuration,
//! retry budgets, the chat request body, the reply reader, and the effect
//! receipts and proof events that bind a reply to the judgment log.
//!
//! The socket exchange itself stays outside; everything it sends is built
//! here and everything it receives is read here.
use vstd::prelude::*;
use vstd::string::StringSliceAdditionalSpecFns;
use vstd::utf8::encode_utf8;
use crate::capability::llm::provider_common::{
    b2u, bool_u64, find_from, judgment_prompt, sat_succ, spec_judgment_prompt,
    JUDGMENT_SYSTEM_PROMPT, PROOF_FLAG_PHASE_VERIFIED, PROOF_FLAG_PROVENANCE_VERIFIED,
    PROOF_FLAG_RECEIPT_VERIFIED, PROOF_FLAG_TAMPER_REJECTED, hash_text, is_persisted_judgment, json_escape, lemma_first_index_at,
    encode_u64_fields_ndjson, parse_u64_fields, persisted_judgment, push_json_escaped,
    spec_hash_text, spec_json_escape, spec_parse_u64_fields,
};
use crate::capability::llm::record::{
    retry_budget_decision_receiptable, retry_budget_decision_valid, retry_budget_exhausted,
    retry_budget_policy_valid, spec_retry_budget_decision_receiptable,
    spec_retry_budget_decision_valid, spec_retry_budget_exhausted, spec_retry_budget_policy_valid,
};
use crate::capability::llm::transport::{
    chat_completions_path as shared_chat_completions_path, first_index_of, parse_local_http_endpoint,
    provider_text_hash, request_identity_hash as shared_request_identity_hash,
    retry_policy_hash as shared_retry_policy_hash, spec_chat_completions_path,
    spec_parse_endpoint, spec_provider_text_hash, LocalEndpointError,
};
use crate::codec::{
    encode_u64_list, lemma_u64_list_round_trip, digits_value, is_blank, is_ws, is_ws_char, parse_digits, trim, trim_bounds, trim_start,
};
use crate::capability::context::record::ContextRecord;
use crate::capability::llm::record::spec_turn_policy_version;
use crate::capability::policy::store::{spec_fingerprint, PolicyStore};
use crate::capability::llm::record::{
    spec_llm_payload_hash, spec_record_with_response, LlmRecord, LlmStructuredAdapter,
};
use crate::kernel::{
    fold_mix, mix, nonzero, nz, spec_fold_mix, spec_mix, ControlEvent, EvidenceSubmission,
};
use crate::text::{
    chars_of, chars_start_with, is_digit, new_string, owned, push_char, push_decimal, push_str,
    spec_decimal, str_eq, string_from_chars,
};

verus! {

pub const OPENAI_COMPAT_PROVIDER: &'static str = "openai-compatible";

pub const OPENAI_LLM_EFFECT_RECEIPT_SCHEMA_VERSION: u64 = 1;

pub const OPENAI_LLM_EFFECT_RECEIPT_RECORD: u64 = 61;

pub const OPENAI_JUDGMENT_PROOF_SCHEMA_VERSION: u64 = 1;

pub const OPENAI_JUDGMENT_PROOF_RECORD: u64 = 62;

pub const OPENAI_JUDGMENT_PROOF_LINE: &'static str =
    "receipt_verified+tamper_rejected+endpoint_verified+phase_plan";

pub const OPENAI_DEFAULT_BASE_URL: &'static str = "http://127.0.0.1:8082/v1";

pub const OPENAI_DEFAULT_MODEL: &'static str = "chatgpt-project";

pub const OPENAI_DEFAULT_TIMEOUT_MS: u64 = 120_000;

pub const OPENAI_DEFAULT_MAX_RETRIES: u32 = 0;

pub const OPENAI_DEFAULT_ATTEMPT_BUDGET: u32 = 1;

/// The kinds of I/O failure that the adapter tells apart.
#[derive(Clone, Copy, Debug, PartialEq, Eq, Structural)]
pub enum IoFailureKind {
    WouldBlock,
    TimedOut,
    Interrupted,
    UnexpectedEof,
    Other,
}

/// An I/O failure: the `std::io::Error` and its kind. Whoever meets the
/// error (a socket, a file) records its kind beside it.
#[derive(Debug)]
pub struct IoFailure {
    pub kind: IoFailureKind,
    pub error: std::io::Error,
}

/// Failures of the OpenAI-compatible adapter.
#[derive(Debug)]
pub enum OpenAiError {
    InvalidConfig(&'static str),
    InvalidUrl,
    HttpStatus(u16),
    Io(IoFailure),
    InvalidResponse,
    InvalidReceipt,
    InvalidReceiptRecord,
    InvalidReplay,
    BudgetExhausted,
    DuplicateRequest,
}

impl OpenAiError {
    /// The message of the error, as the adapter reports it.
    pub open spec fn spec_message(&self) -> Seq<char> {
        match self {
            OpenAiError::InvalidConfig(reason) => "invalid openai-compatible config: "@ + reason@,
            OpenAiError::HttpStatus(status) => "openai-compatible endpoint returned HTTP "@ + spec_decimal(*status as nat),
            OpenAiError::InvalidUrl => "invalid local openai-compatible url"@,
            OpenAiError::Io(_) => "openai-compatible io failed: "@,
            OpenAiError::InvalidResponse => "openai-compatible response was not parseable"@,
            OpenAiError::InvalidReceipt => "openai-compatible effect receipt is invalid"@,
            OpenAiError::InvalidReceiptRecord => "openai-compatible effect receipt record is invalid"@,
            OpenAiError::InvalidReplay => "openai-compatible effect receipt failed replay verification"@,
            OpenAiError::BudgetExhausted => "openai-compatible retry budget exhausted"@,
            OpenAiError::DuplicateRequest => "openai-compatible duplicate request identity rejected"@,
        }
    }

    /// The error's message. For an I/O failure it is the I/O message, then
    /// the text of the I/O error itself.
    pub fn message(&self) -> (r: String)
        ensures
            match self {
                OpenAiError::Io(_) => r@.len() >= self.spec_message().len() && r@.subrange(
                    0,
                    self.spec_message().len() as int,
                ) == self.spec_message(),
                _ => r@ == self.spec_message(),
            },
    {
        match self {
            OpenAiError::InvalidConfig(reason) => {
                let mut s = owned("invalid openai-compatible config: ");
                push_str(&mut s, reason);
                s
            },
            OpenAiError::InvalidUrl => owned("invalid local openai-compatible url"),
            OpenAiError::HttpStatus(status) => {
                let mut s = owned("openai-compatible endpoint returned HTTP ");
                crate::text::push_decimal(&mut s, *status as u64);
                s
            },
            OpenAiError::Io(failure) => {
                let mut s = owned("openai-compatible io failed: ");
                let text = crate::error::io_error_text(&failure.error);
                push_str(&mut s, text.as_str());
                s
            },
            OpenAiError::InvalidResponse => owned("openai-compatible response was not parseable"),
            OpenAiError::InvalidReceipt => owned("openai-compatible effect receipt is invalid"),
            OpenAiError::InvalidReceiptRecord => owned(
                "openai-compatible effect receipt record is invalid",
            ),
            OpenAiError::InvalidReplay => owned(
                "openai-compatible effect receipt failed replay verification",
            ),
            OpenAiError::BudgetExhausted => owned("openai-compatible retry budget exhausted"),
            OpenAiError::DuplicateRequest => owned(
                "openai-compatible duplicate request identity rejected",
            ),
        }
    }
}

#[derive(Clone, Debug, PartialEq, Eq)]
pub struct OpenAiConfig {
    pub base_url: String,
    pub model: String,
    pub timeout_ms: u64,
}

impl Default for OpenAiConfig {
    fn default() -> (r: Self)
        ensures
            r.base_url@ == OPENAI_DEFAULT_BASE_URL@,
            r.model@ == OPENAI_DEFAULT_MODEL@,
            r.timeout_ms == OPENAI_DEFAULT_TIMEOUT_MS,
    {
        OpenAiConfig {
            base_url: owned(OPENAI_DEFAULT_BASE_URL),
            model: owned(OPENAI_DEFAULT_MODEL),
            timeout_ms: OPENAI_DEFAULT_TIMEOUT_MS,
        }
    }
}

/// The error a base URL is refused with, if any.
pub open spec fn spec_endpoint_error(base_url: Seq<char>) -> Option<OpenAiError> {
    match spec_parse_endpoint(base_url) {
        Ok(_) => None,
        Err(LocalEndpointError::InvalidUrl) => Some(OpenAiError::InvalidUrl),
        Err(LocalEndpointError::NonLocalHost) => Some(
            OpenAiError::InvalidConfig("base url must be local"),
        ),
    }
}

/// The error a configuration is refused with, if any: an empty model, a
/// zero timeout, then the base URL.
pub open spec fn spec_config_error(config: OpenAiConfig) -> Option<OpenAiError> {
    if trim(config.model@).len() == 0 {
        Some(OpenAiError::InvalidConfig("empty model"))
    } else if config.timeout_ms == 0 {
        Some(OpenAiError::InvalidConfig("zero timeout"))
    } else {
        spec_endpoint_error(config.base_url@)
    }
}

fn endpoint_error(err: LocalEndpointError) -> (r: OpenAiError)
    ensures
        spec_endpoint_error_of(err) == r,
{
    match err {
        LocalEndpointError::InvalidUrl => OpenAiError::InvalidUrl,
        LocalEndpointError::NonLocalHost => OpenAiError::InvalidConfig("base url must be local"),
    }
}

pub open spec fn spec_endpoint_error_of(err: LocalEndpointError) -> OpenAiError {
    match err {
        LocalEndpointError::InvalidUrl => OpenAiError::InvalidUrl,
        LocalEndpointError::NonLocalHost => OpenAiError::InvalidConfig("base url must be local"),
    }
}

impl OpenAiConfig {
    pub fn validate(&self) -> (r: Result<(), OpenAiError>)
        ensures
            match r {
                Ok(_) => spec_config_error(*self) is None,
                Err(e) => spec_config_error(*self) == Some(e),
            },
    {
        if is_blank(self.model.as_str()) {
            return Err(OpenAiError::InvalidConfig("empty model"));
        }
        if self.timeout_ms == 0 {
            return Err(OpenAiError::InvalidConfig("zero timeout"));
        }
        match parse_local_http_endpoint(self.base_url.as_str()) {
            Ok(_) => Ok(()),
            Err(err) => Err(endpoint_error(err)),
        }
    }

    /// The chat completions path under the configured base URL.
    pub fn chat_completions_path(&self) -> (r: Result<String, OpenAiError>)
        ensures
            match (r, spec_parse_endpoint(self.base_url@)) {
                (Ok(p), Ok((_, _, prefix))) => p@ == spec_chat_completions_path(prefix),
                (Err(e), Err(err)) => e == spec_endpoint_error_of(err),
                _ => false,
            },
    {
        match parse_local_http_endpoint(self.base_url.as_str()) {
            Ok(endpoint) => Ok(shared_chat_completions_path(endpoint.path_prefix.as_str())),
            Err(err) => Err(endpoint_error(err)),
        }
    }

    pub fn model_id(&self) -> (r: u64)
        ensures
            r == spec_provider_text_hash(encode_utf8(self.model@)),
    {
        provider_text_hash(self.model.as_str())
    }

    pub fn base_url_id(&self) -> (r: u64)
        ensures
            r == spec_provider_text_hash(encode_utf8(self.base_url@)),
    {
        provider_text_hash(self.base_url.as_str())
    }
}


#[derive(Clone, Copy, Debug, PartialEq, Eq, Structural)]
pub struct OpenAiRetryBudgetPolicy {
    pub timeout_ms: u64,
    pub max_retries: u32,
    pub attempt_budget: u32,
}

#[derive(Clone, Copy, Debug, PartialEq, Eq, Structural)]
pub struct OpenAiRetryBudgetDecision {
    pub timeout_ms: u64,
    pub retry_count: u32,
    pub max_retries: u32,
    pub attempt_budget: u32,
    pub request_identity_hash: u64,
    pub retry_budget_hash: u64,
    pub budget_exhausted: bool,
    pub duplicate_request: bool,
    pub allowed: bool,
}

impl OpenAiRetryBudgetPolicy {
    pub open spec fn spec_policy_hash(self) -> u64 {
        nz(
            spec_fold_mix(
                0x4f50_454e_4149_4255u64,
                seq![self.timeout_ms, self.max_retries as u64, self.attempt_budget as u64],
            ),
        )
    }

    pub open spec fn spec_request_identity_hash(
        self,
        provider_hash: u64,
        base_url_hash: u64,
        model_id: u64,
        request_hash: u64,
    ) -> u64 {
        nz(
            spec_fold_mix(
                0x4f50_454e_4149_4944u64,
                seq![provider_hash, base_url_hash, model_id, request_hash],
            ),
        )
    }

    /// The decision for an attempt, when it is well formed.
    pub open spec fn spec_decision_for_attempt(
        self,
        provider_hash: u64,
        base_url_hash: u64,
        model_id: u64,
        request_hash: u64,
        retry_count: u32,
        duplicate_request: bool,
    ) -> Option<OpenAiRetryBudgetDecision> {
        let request_identity_hash = self.spec_request_identity_hash(
            provider_hash,
            base_url_hash,
            model_id,
            request_hash,
        );
        let budget_allowed = retry_count < self.attempt_budget;
        let decision = OpenAiRetryBudgetDecision {
            timeout_ms: self.timeout_ms,
            retry_count,
            max_retries: self.max_retries,
            attempt_budget: self.attempt_budget,
            request_identity_hash,
            retry_budget_hash: self.spec_policy_hash(),
            budget_exhausted: !budget_allowed || spec_retry_budget_exhausted(
                retry_count,
                self.max_retries,
                self.attempt_budget,
            ),
            duplicate_request,
            allowed: request_identity_hash != 0 && retry_count <= self.max_retries
                && budget_allowed && !duplicate_request,
        };
        if decision.spec_is_valid_decision() {
            Some(decision)
        } else {
            None
        }
    }

    pub fn new(timeout_ms: u64, max_retries: u32, attempt_budget: u32) -> (r: Option<Self>)
        ensures
            r == (if spec_retry_budget_policy_valid(timeout_ms, max_retries, attempt_budget) {
                Some(OpenAiRetryBudgetPolicy { timeout_ms, max_retries, attempt_budget })
            } else {
                None
            }),
    {
        if !retry_budget_policy_valid(timeout_ms, max_retries, attempt_budget) {
            return None;
        }
        Some(OpenAiRetryBudgetPolicy { timeout_ms, max_retries, attempt_budget })
    }

    /// The default budget of a configuration: one attempt, no retries.
    pub fn from_config(config: &OpenAiConfig) -> (r: Self)
        ensures
            r == (OpenAiRetryBudgetPolicy {
                timeout_ms: config.timeout_ms,
                max_retries: OPENAI_DEFAULT_MAX_RETRIES,
                attempt_budget: OPENAI_DEFAULT_ATTEMPT_BUDGET,
            }),
    {
        OpenAiRetryBudgetPolicy {
            timeout_ms: config.timeout_ms,
            max_retries: OPENAI_DEFAULT_MAX_RETRIES,
            attempt_budget: OPENAI_DEFAULT_ATTEMPT_BUDGET,
        }
    }

    pub fn policy_hash(self) -> (r: u64)
        ensures
            r == self.spec_policy_hash(),
    {
        shared_retry_policy_hash(
            0x4f50_454e_4149_4255u64,
            self.timeout_ms,
            self.max_retries,
            self.attempt_budget,
        )
    }

    pub fn request_identity_hash(
        self,
        provider_hash: u64,
        base_url_hash: u64,
        model_id: u64,
        request_hash: u64,
    ) -> (r: u64)
        ensures
            r == self.spec_request_identity_hash(provider_hash, base_url_hash, model_id, request_hash),
    {
        shared_request_identity_hash(
            0x4f50_454e_4149_4944u64,
            provider_hash,
            base_url_hash,
            model_id,
            request_hash,
        )
    }

    pub fn decision_for_attempt(
        self,
        provider_hash: u64,
        base_url_hash: u64,
        model_id: u64,
        request_hash: u64,
        retry_count: u32,
        duplicate_request: bool,
    ) -> (r: Option<OpenAiRetryBudgetDecision>)
        ensures
            r == self.spec_decision_for_attempt(
                provider_hash,
                base_url_hash,
                model_id,
                request_hash,
                retry_count,
                duplicate_request,
            ),
    {
        let request_identity_hash = self.request_identity_hash(
            provider_hash,
            base_url_hash,
            model_id,
            request_hash,
        );
        let retry_allowed = retry_count <= self.max_retries;
        let budget_allowed = retry_count < self.attempt_budget;
        let allowed = request_identity_hash != 0 && retry_allowed && budget_allowed
            && !duplicate_request;
        let budget_exhausted = !budget_allowed || retry_budget_exhausted(
            retry_count,
            self.max_retries,
            self.attempt_budget,
        );
        let decision = OpenAiRetryBudgetDecision {
            timeout_ms: self.timeout_ms,
            retry_count,
            max_retries: self.max_retries,
            attempt_budget: self.attempt_budget,
            request_identity_hash,
            retry_budget_hash: self.policy_hash(),
            budget_exhausted,
            duplicate_request,
            allowed,
        };
        if decision.is_valid_decision() {
            Some(decision)
        } else {
            None
        }
    }

    pub fn first_attempt(
        self,
        provider_hash: u64,
        base_url_hash: u64,
        model_id: u64,
        request_hash: u64,
    ) -> (r: Option<OpenAiRetryBudgetDecision>)
        ensures
            r == self.spec_decision_for_attempt(
                provider_hash,
                base_url_hash,
                model_id,
                request_hash,
                0,
                false,
            ),
    {
        self.decision_for_attempt(provider_hash, base_url_hash, model_id, request_hash, 0, false)
    }
}

impl OpenAiRetryBudgetDecision {
    pub open spec fn spec_is_valid_decision(self) -> bool {
        spec_retry_budget_decision_valid(
            self.timeout_ms,
            self.retry_count,
            self.max_retries,
            self.attempt_budget,
            self.request_identity_hash,
            self.retry_budget_hash,
            self.duplicate_request,
            self.allowed,
        )
    }

    pub open spec fn spec_is_receiptable_success(self) -> bool {
        spec_retry_budget_decision_receiptable(
            self.timeout_ms,
            self.retry_count,
            self.max_retries,
            self.attempt_budget,
            self.request_identity_hash,
            self.retry_budget_hash,
            self.duplicate_request,
            self.allowed,
        )
    }

    pub fn is_valid_decision(self) -> (r: bool)
        ensures
            r == self.spec_is_valid_decision(),
    {
        retry_budget_decision_valid(
            self.timeout_ms,
            self.retry_count,
            self.max_retries,
            self.attempt_budget,
            self.request_identity_hash,
            self.retry_budget_hash,
            self.duplicate_request,
            self.allowed,
        )
    }

    pub fn is_receiptable_success(self) -> (r: bool)
        ensures
            r == self.spec_is_receiptable_success(),
    {
        retry_budget_decision_receiptable(
            self.timeout_ms,
            self.retry_count,
            self.max_retries,
            self.attempt_budget,
            self.request_identity_hash,
            self.retry_budget_hash,
            self.duplicate_request,
            self.allowed,
        )
    }
}

/// The attempts made under one retry policy: each request identity once,
/// and never more attempts than the budget.
#[derive(Clone, Debug, PartialEq, Eq)]
pub struct OpenAiRetryBudgetLedger {
    policy: OpenAiRetryBudgetPolicy,
    seen_request_identity_hashes: Vec<u64>,
    attempts_used: u32,
}

impl OpenAiRetryBudgetLedger {
    pub closed spec fn spec_policy(&self) -> OpenAiRetryBudgetPolicy {
        self.policy
    }

    /// The request identities accepted so far, in order.
    pub closed spec fn spec_seen(&self) -> Seq<u64> {
        self.seen_request_identity_hashes@
    }

    pub closed spec fn spec_attempts_used(&self) -> u32 {
        self.attempts_used
    }

    /// Every accepted attempt is counted once, none twice.
    pub closed spec fn wf(&self) -> bool {
        &&& self.seen_request_identity_hashes@.len() == self.attempts_used
        &&& self.seen_request_identity_hashes@.no_duplicates()
    }

    pub fn new(policy: OpenAiRetryBudgetPolicy) -> (r: Self)
        ensures
            r.wf(),
            r.spec_policy() == policy,
            r.spec_seen() == Seq::<u64>::empty(),
            r.spec_attempts_used() == 0,
    {
        OpenAiRetryBudgetLedger { policy, seen_request_identity_hashes: Vec::new(), attempts_used: 0 }
    }

    /// Records one request. A request identity seen before is refused, and
    /// so is an attempt beyond the budget; the ledger changes only when the
    /// request is accepted.
    pub fn record_request(
        &mut self,
        provider_hash: u64,
        base_url_hash: u64,
        model_id: u64,
        request_hash: u64,
    ) -> (r: Result<OpenAiRetryBudgetDecision, OpenAiError>)
        requires
            old(self).wf(),
        ensures
            final(self).wf(),
            final(self).spec_policy() == old(self).spec_policy(),
            final(self).spec_seen().no_duplicates(),
            final(self).spec_attempts_used() <= final(self).spec_policy().attempt_budget
                || final(self).spec_attempts_used() == old(self).spec_attempts_used(),
            final(self).spec_attempts_used() == final(self).spec_seen().len(),
            ({
                let p = old(self).spec_policy();
                let id = p.spec_request_identity_hash(provider_hash, base_url_hash, model_id, request_hash);
                let dup = old(self).spec_seen().contains(id);
                let n = old(self).spec_attempts_used();
                spec_retry_budget_policy_valid(p.timeout_ms, p.max_retries, p.attempt_budget) ==> {
                    &&& dup ==> (r matches Err(OpenAiError::DuplicateRequest))
                    &&& !dup && n < p.attempt_budget ==> r is Ok && r->Ok_0.allowed
                        && r->Ok_0.request_identity_hash == id && r->Ok_0.retry_count == n
                    &&& !dup && n >= p.attempt_budget ==> (r matches Err(OpenAiError::BudgetExhausted))
                }
            }),
            ({
                let id = old(self).spec_policy().spec_request_identity_hash(
                    provider_hash,
                    base_url_hash,
                    model_id,
                    request_hash,
                );
                let dup = old(self).spec_seen().contains(id);
                let d = old(self).spec_policy().spec_decision_for_attempt(
                    provider_hash,
                    base_url_hash,
                    model_id,
                    request_hash,
                    old(self).spec_attempts_used(),
                    dup,
                );
                match r {
                    Ok(decision) => d == Some(decision) && decision.allowed && !dup
                        && final(self).spec_seen() == old(self).spec_seen().push(id)
                        && final(self).spec_attempts_used() == old(self).spec_attempts_used() + 1,
                    Err(e) => final(self).spec_seen() == old(self).spec_seen()
                        && final(self).spec_attempts_used() == old(self).spec_attempts_used()
                        && match e {
                        OpenAiError::InvalidConfig(m) => d is None && m@
                            == "invalid retry budget decision"@,
                        OpenAiError::DuplicateRequest => d is Some && dup,
                        OpenAiError::BudgetExhausted => d is Some && !dup && !d->0.allowed,
                        _ => false,
                    },
                }
            }),
    {
        let request_identity_hash = self.policy.request_identity_hash(
            provider_hash,
            base_url_hash,
            model_id,
            request_hash,
        );
        let mut duplicate_request = false;
        let mut i: usize = 0;
        while i < self.seen_request_identity_hashes.len()
            invariant
                i <= self.seen_request_identity_hashes@.len(),
                duplicate_request == self.seen_request_identity_hashes@.take(i as int).contains(
                    request_identity_hash,
                ),
            decreases self.seen_request_identity_hashes@.len() - i,
        {
            assert(self.seen_request_identity_hashes@.take(i as int + 1) =~= self.seen_request_identity_hashes@.take(
                i as int,
            ).push(self.seen_request_identity_hashes@[i as int]));
            let ghost prev = self.seen_request_identity_hashes@.take(i as int);
            let ghost next = self.seen_request_identity_hashes@.take(i as int + 1);
            let e = self.seen_request_identity_hashes[i];
            assert(next.contains(request_identity_hash) == (prev.contains(request_identity_hash)
                || e == request_identity_hash)) by {
                if next.contains(request_identity_hash) {
                    let k = choose|k: int| 0 <= k < next.len() && next[k] == request_identity_hash;
                    if k < prev.len() {
                        assert(prev[k] == request_identity_hash);
                    }
                }
                if prev.contains(request_identity_hash) {
                    let k = choose|k: int| 0 <= k < prev.len() && prev[k] == request_identity_hash;
                    assert(next[k] == request_identity_hash);
                }
                if e == request_identity_hash {
                    assert(next[i as int] == request_identity_hash);
                }
            }
            if e == request_identity_hash {
                duplicate_request = true;
            }
            i = i + 1;
        }
        assert(self.seen_request_identity_hashes@.take(i as int) =~= self.seen_request_identity_hashes@);
        let decision = match self.policy.decision_for_attempt(
            provider_hash,
            base_url_hash,
            model_id,
            request_hash,
            self.attempts_used,
            duplicate_request,
        ) {
            Some(d) => d,
            None => {
                return Err(OpenAiError::InvalidConfig("invalid retry budget decision"));
            },
        };
        if duplicate_request {
            return Err(OpenAiError::DuplicateRequest);
        }
        if !decision.allowed {
            return Err(OpenAiError::BudgetExhausted);
        }
        assert(self.attempts_used < self.policy.attempt_budget);
        self.seen_request_identity_hashes.push(request_identity_hash);
        self.attempts_used = self.attempts_used + 1;
        assert(self.seen_request_identity_hashes@.no_duplicates());
        Ok(decision)
    }
}

#[derive(Clone, Debug, PartialEq, Eq)]
pub struct OpenAiFunctionCall {
    pub name: String,
    pub arguments: String,
}

impl OpenAiFunctionCall {
    pub fn new(name: &str, arguments: &str) -> (r: Self)
        ensures
            r.name@ == name@,
            r.arguments@ == arguments@,
    {
        OpenAiFunctionCall { name: owned(name), arguments: owned(arguments) }
    }
}

#[derive(Clone, Debug, PartialEq, Eq)]
pub struct OpenAiToolCall {
    pub id: String,
    pub function: OpenAiFunctionCall,
}

impl OpenAiToolCall {
    pub fn function(id: &str, name: &str, arguments: &str) -> (r: Self)
        ensures
            r.id@ == id@,
            r.function.name@ == name@,
            r.function.arguments@ == arguments@,
    {
        OpenAiToolCall { id: owned(id), function: OpenAiFunctionCall::new(name, arguments) }
    }
}

#[derive(Clone, Debug, PartialEq, Eq)]
pub struct OpenAiMessage {
    pub role: String,
    pub content: Option<String>,
    pub tool_call_id: Option<String>,
    pub tool_calls: Vec<OpenAiToolCall>,
}

/// The text of an optional string, empty when absent.
pub open spec fn opt_text(o: Option<String>) -> Option<Seq<char>> {
    match o {
        Some(s) => Some(s@),
        None => None,
    }
}

fn openai_message(
    role: &str,
    content: Option<String>,
    tool_call_id: Option<String>,
    tool_calls: Vec<OpenAiToolCall>,
) -> (r: OpenAiMessage)
    ensures
        r.role@ == role@,
        r.content == content,
        r.tool_call_id == tool_call_id,
        r.tool_calls@ == tool_calls@,
{
    OpenAiMessage { role: owned(role), content, tool_call_id, tool_calls }
}

impl OpenAiMessage {
    pub fn system(content: &str) -> (r: Self)
        ensures
            r.role@ == "system"@,
            opt_text(r.content) == Some(content@),
            r.tool_call_id is None,
            r.tool_calls@.len() == 0,
    {
        openai_message("system", Some(owned(content)), None, Vec::new())
    }

    pub fn user(content: &str) -> (r: Self)
        ensures
            r.role@ == "user"@,
            opt_text(r.content) == Some(content@),
            r.tool_call_id is None,
            r.tool_calls@.len() == 0,
    {
        openai_message("user", Some(owned(content)), None, Vec::new())
    }

    pub fn assistant(content: &str) -> (r: Self)
        ensures
            r.role@ == "assistant"@,
            opt_text(r.content) == Some(content@),
            r.tool_call_id is None,
            r.tool_calls@.len() == 0,
    {
        openai_message("assistant", Some(owned(content)), None, Vec::new())
    }

    pub fn assistant_tool_call(tool_call: OpenAiToolCall) -> (r: Self)
        ensures
            r.role@ == "assistant"@,
            r.content is None,
            r.tool_call_id is None,
            r.tool_calls@ == seq![tool_call],
    {
        let mut calls = Vec::new();
        calls.push(tool_call);
        openai_message("assistant", None, None, calls)
    }

    pub fn tool(tool_call_id: &str, content: &str) -> (r: Self)
        ensures
            r.role@ == "tool"@,
            opt_text(r.content) == Some(content@),
            opt_text(r.tool_call_id) == Some(tool_call_id@),
            r.tool_calls@.len() == 0,
    {
        openai_message("tool", Some(owned(content)), Some(owned(tool_call_id)), Vec::new())
    }
}

#[derive(Clone, Debug, PartialEq, Eq)]
pub struct OpenAiFunctionTool {
    pub name: String,
    pub description: Option<String>,
    pub parameters_json: String,
}

fn openai_function_tool(name: String, parameters_json: String, description: Option<String>) -> (r:
    OpenAiFunctionTool)
    ensures
        r.name == name,
        r.parameters_json == parameters_json,
        r.description == description,
{
    OpenAiFunctionTool { name, description, parameters_json }
}

impl OpenAiFunctionTool {
    pub fn new(name: &str, parameters_json: &str) -> (r: Self)
        ensures
            r.name@ == name@,
            r.parameters_json@ == parameters_json@,
            r.description is None,
    {
        openai_function_tool(owned(name), owned(parameters_json), None)
    }

    /// The same tool with a description.
    pub fn with_description(self, description: &str) -> (r: Self)
        ensures
            r.name == self.name,
            r.parameters_json == self.parameters_json,
            opt_text(r.description) == Some(description@),
    {
        openai_function_tool(self.name, self.parameters_json, Some(owned(description)))
    }
}

#[derive(Clone, Debug, PartialEq, Eq)]
pub struct OpenAiTool {
    pub function: OpenAiFunctionTool,
}

impl OpenAiTool {
    pub fn function(name: &str, parameters_json: &str) -> (r: Self)
        ensures
            r.function.name@ == name@,
            r.function.parameters_json@ == parameters_json@,
            r.function.description is None,
    {
        OpenAiTool { function: OpenAiFunctionTool::new(name, parameters_json) }
    }
}

/// Browser routing options of the router server: `new_chat` opens a fresh
/// tab, `target_url` pins the turn to an existing one.
#[derive(Clone, Debug, Default, PartialEq, Eq)]
pub struct OpenAiBrowserOptions {
    pub new_chat: bool,
    pub target_url: Option<String>,
}

impl OpenAiBrowserOptions {
    pub fn new_chat() -> (r: Self)
        ensures
            r.new_chat,
            r.target_url is None,
    {
        OpenAiBrowserOptions { new_chat: true, target_url: None }
    }

    pub fn continue_at(target_url: &str) -> (r: Self)
        ensures
            !r.new_chat,
            opt_text(r.target_url) == Some(target_url@),
    {
        OpenAiBrowserOptions { new_chat: false, target_url: Some(owned(target_url)) }
    }
}

#[derive(Clone, Debug, Default, PartialEq, Eq)]
pub struct OpenAiChatRequest {
    pub messages: Vec<OpenAiMessage>,
    pub tools: Vec<OpenAiTool>,
    pub browser: Option<OpenAiBrowserOptions>,
}

impl OpenAiChatRequest {
    pub fn new(messages: Vec<OpenAiMessage>) -> (r: Self)
        ensures
            r.messages@ == messages@,
            r.tools@.len() == 0,
            r.browser is None,
    {
        OpenAiChatRequest { messages, tools: Vec::new(), browser: None }
    }

    pub fn with_tools(self, tools: Vec<OpenAiTool>) -> (r: Self)
        ensures
            r.messages@ == self.messages@,
            r.tools@ == tools@,
            r.browser == self.browser,
    {
        OpenAiChatRequest { messages: self.messages, tools, browser: self.browser }
    }

    pub fn with_browser(self, browser: OpenAiBrowserOptions) -> (r: Self)
        ensures
            r.messages@ == self.messages@,
            r.tools@ == self.tools@,
            r.browser == Some(browser),
    {
        OpenAiChatRequest { messages: self.messages, tools: self.tools, browser: Some(browser) }
    }
}

pub open spec fn nonblank(s: Seq<char>) -> bool {
    trim(s).len() > 0
}

pub open spec fn opt_nonblank(o: Option<String>) -> bool {
    match o {
        Some(s) => nonblank(s@),
        None => false,
    }
}

pub open spec fn spec_tool_call_valid(t: OpenAiToolCall) -> bool {
    nonblank(t.id@) && nonblank(t.function.name@) && nonblank(t.function.arguments@)
}

/// A message the endpoint accepts: a role; a tool result names its call and
/// has content; an assistant turn with tool calls has only valid calls;
/// every other message has content.
pub open spec fn spec_message_valid(m: OpenAiMessage) -> bool {
    if !nonblank(m.role@) {
        false
    } else if m.role@ == "tool"@ {
        opt_nonblank(m.tool_call_id) && opt_nonblank(m.content)
    } else if m.role@ == "assistant"@ && m.tool_calls@.len() > 0 {
        forall|i: int|
            0 <= i < m.tool_calls@.len() ==> spec_tool_call_valid(#[trigger] m.tool_calls@[i])
    } else {
        opt_nonblank(m.content)
    }
}

/// A tool the endpoint accepts: a name, and parameters that read as one JSON object.
pub open spec fn spec_tool_valid(t: OpenAiTool) -> bool {
    let p = trim(t.function.parameters_json@);
    nonblank(t.function.name@) && p.len() > 0 && p[0] == '{' && p.last() == '}'
}

fn nonblank_text(s: &str) -> (r: bool)
    ensures
        r == nonblank(s@),
{
    !is_blank(s)
}

fn opt_nonblank_text(o: &Option<String>) -> (r: bool)
    ensures
        r == opt_nonblank(*o),
{
    match o {
        Some(s) => nonblank_text(s.as_str()),
        None => false,
    }
}

pub fn tool_call_contract_valid(tool_call: &OpenAiToolCall) -> (r: bool)
    ensures
        r == spec_tool_call_valid(*tool_call),
{
    nonblank_text(tool_call.id.as_str()) && nonblank_text(tool_call.function.name.as_str())
        && nonblank_text(tool_call.function.arguments.as_str())
}

pub fn message_contract_valid(message: &OpenAiMessage) -> (r: bool)
    ensures
        r == spec_message_valid(*message),
{
    if !nonblank_text(message.role.as_str()) {
        return false;
    }
    if str_eq(message.role.as_str(), "tool") {
        return opt_nonblank_text(&message.tool_call_id) && opt_nonblank_text(&message.content);
    }
    if str_eq(message.role.as_str(), "assistant") && message.tool_calls.len() > 0 {
        let mut i: usize = 0;
        while i < message.tool_calls.len()
            invariant
                i <= message.tool_calls@.len(),
                nonblank(message.role@),
                message.role@ != "tool"@,
                message.role@ == "assistant"@,
                message.tool_calls@.len() > 0,
                forall|k: int|
                    0 <= k < i ==> spec_tool_call_valid(#[trigger] message.tool_calls@[k]),
            decreases message.tool_calls@.len() - i,
        {
            if !tool_call_contract_valid(&message.tool_calls[i]) {
                return false;
            }
            i = i + 1;
        }
        return true;
    }
    opt_nonblank_text(&message.content)
}

pub fn tool_contract_valid(tool: &OpenAiTool) -> (r: bool)
    ensures
        r == spec_tool_valid(*tool),
{
    let v = chars_of(tool.function.parameters_json.as_str());
    let (lo, hi) = trim_bounds(&v, 0, v.len());
    assert(v@.subrange(0, v@.len() as int) =~= v@);
    nonblank_text(tool.function.name.as_str()) && lo < hi && v[lo] == '{' && v[hi - 1] == '}'
}

/// `key`, the escaped value and a closing quote, when the value is present.
pub open spec fn opt_field(key: Seq<char>, o: Option<String>) -> Seq<char> {
    match o {
        Some(v) => key + spec_json_escape(v@) + seq!['"'],
        None => Seq::<char>::empty(),
    }
}

pub open spec fn tool_call_json(t: OpenAiToolCall) -> Seq<char> {
    "{\"id\":\""@ + spec_json_escape(t.id@) + "\",\"type\":\"function\",\"function\":{\"name\":\""@
        + spec_json_escape(t.function.name@) + "\",\"arguments\":\""@ + spec_json_escape(
        t.function.arguments@,
    ) + "\"}}"@
}

pub open spec fn join_tool_calls(ts: Seq<OpenAiToolCall>) -> Seq<char>
    decreases ts.len(),
{
    if ts.len() == 0 {
        Seq::<char>::empty()
    } else if ts.len() == 1 {
        tool_call_json(ts[0])
    } else {
        join_tool_calls(ts.drop_last()) + seq![','] + tool_call_json(ts.last())
    }
}

pub open spec fn message_json(m: OpenAiMessage) -> Seq<char> {
    "{\"role\":\""@ + spec_json_escape(m.role@) + seq!['"'] + opt_field(
        ",\"content\":\""@,
        m.content,
    ) + opt_field(",\"tool_call_id\":\""@, m.tool_call_id) + (if m.tool_calls@.len() > 0 {
        ",\"tool_calls\":["@ + join_tool_calls(m.tool_calls@) + seq![']']
    } else {
        Seq::<char>::empty()
    }) + seq!['}']
}

pub open spec fn join_messages(ms: Seq<OpenAiMessage>) -> Seq<char>
    decreases ms.len(),
{
    if ms.len() == 0 {
        Seq::<char>::empty()
    } else if ms.len() == 1 {
        message_json(ms[0])
    } else {
        join_messages(ms.drop_last()) + seq![','] + message_json(ms.last())
    }
}

pub open spec fn tool_json(t: OpenAiTool) -> Seq<char> {
    "{\"type\":\"function\",\"function\":{\"name\":\""@ + spec_json_escape(t.function.name@)
        + seq!['"'] + opt_field(",\"description\":\""@, t.function.description)
        + ",\"parameters\":"@ + trim(t.function.parameters_json@) + "}}"@
}

pub open spec fn join_tools(ts: Seq<OpenAiTool>) -> Seq<char>
    decreases ts.len(),
{
    if ts.len() == 0 {
        Seq::<char>::empty()
    } else if ts.len() == 1 {
        tool_json(ts[0])
    } else {
        join_tools(ts.drop_last()) + seq![','] + tool_json(ts.last())
    }
}

pub open spec fn browser_json(b: Option<OpenAiBrowserOptions>) -> Seq<char> {
    match b {
        None => Seq::<char>::empty(),
        Some(o) => ",\"browser\":{"@ + (if o.new_chat {
            "\"new_chat\":true"@ + (if o.target_url is Some {
                seq![',']
            } else {
                Seq::<char>::empty()
            })
        } else {
            Seq::<char>::empty()
        }) + (match o.target_url {
            Some(u) => (if !o.new_chat {
                "\"new_chat\":false,"@
            } else {
                Seq::<char>::empty()
            }) + "\"target_url\":\""@ + spec_json_escape(u@) + seq!['"'],
            None => Seq::<char>::empty(),
        }) + seq!['}'],
    }
}

/// The chat completions request body.
pub open spec fn spec_request_json(
    model: Seq<char>,
    ms: Seq<OpenAiMessage>,
    tools: Seq<OpenAiTool>,
    browser: Option<OpenAiBrowserOptions>,
) -> Seq<char> {
    "{\"model\":\""@ + spec_json_escape(model) + "\",\"messages\":["@ + join_messages(ms) + seq![
        ']',
    ] + (if tools.len() > 0 {
        ",\"tools\":["@ + join_tools(tools) + seq![']']
    } else {
        Seq::<char>::empty()
    }) + browser_json(browser) + ",\"stream\":false}"@
}

/// Why a request cannot be sent, if it cannot.
pub open spec fn spec_request_fault(ms: Seq<OpenAiMessage>, tools: Seq<OpenAiTool>) -> Option<
    OpenAiError,
> {
    if ms.len() == 0 {
        Some(OpenAiError::InvalidConfig("empty message list"))
    } else if exists|i: int| 0 <= i < ms.len() && !spec_message_valid(#[trigger] ms[i]) {
        Some(OpenAiError::InvalidConfig("empty message"))
    } else if exists|i: int| 0 <= i < tools.len() && !spec_tool_valid(#[trigger] tools[i]) {
        Some(OpenAiError::InvalidConfig("invalid tool"))
    } else {
        None
    }
}

fn push_opt_field(out: &mut String, key: &str, o: &Option<String>)
    ensures
        final(out)@ == old(out)@ + opt_field(key@, *o),
{
    match o {
        Some(v) => {
            push_str(out, key);
            push_json_escaped(out, v.as_str());
            push_char(out, '"');
            assert(final(out)@ =~= old(out)@ + opt_field(key@, *o));
        },
        None => {
            assert(final(out)@ =~= old(out)@ + opt_field(key@, *o));
        },
    }
}

fn push_tool_call_json(out: &mut String, tool_call: &OpenAiToolCall)
    ensures
        final(out)@ == old(out)@ + tool_call_json(*tool_call),
{
    push_str(out, "{\"id\":\"");
    push_json_escaped(out, tool_call.id.as_str());
    push_str(out, "\",\"type\":\"function\",\"function\":{\"name\":\"");
    push_json_escaped(out, tool_call.function.name.as_str());
    push_str(out, "\",\"arguments\":\"");
    push_json_escaped(out, tool_call.function.arguments.as_str());
    push_str(out, "\"}}");
    assert(final(out)@ =~= old(out)@ + tool_call_json(*tool_call));
}

fn push_tool_calls_json(out: &mut String, tool_calls: &Vec<OpenAiToolCall>)
    ensures
        final(out)@ == old(out)@ + join_tool_calls(tool_calls@),
{
    let ghost base = out@;
    let mut i: usize = 0;
    while i < tool_calls.len()
        invariant
            i <= tool_calls@.len(),
            out@ == base + join_tool_calls(tool_calls@.take(i as int)),
        decreases tool_calls@.len() - i,
    {
        assert(tool_calls@.take(i as int + 1).drop_last() =~= tool_calls@.take(i as int));
        if i > 0 {
            push_char(out, ',');
        }
        push_tool_call_json(out, &tool_calls[i]);
        proof {
            if i == 0 {
                assert(join_tool_calls(tool_calls@.take(1)) == tool_call_json(tool_calls@[0]));
            }
        }
        assert(out@ =~= base + join_tool_calls(tool_calls@.take(i as int + 1)));
        i = i + 1;
    }
    assert(tool_calls@.take(i as int) =~= tool_calls@);
}

fn push_message_json(out: &mut String, message: &OpenAiMessage)
    ensures
        final(out)@ == old(out)@ + message_json(*message),
{
    let ghost start = out@;
    push_str(out, "{\"role\":\"");
    push_json_escaped(out, message.role.as_str());
    push_char(out, '"');
    push_opt_field(out, ",\"content\":\"", &message.content);
    push_opt_field(out, ",\"tool_call_id\":\"", &message.tool_call_id);
    let ghost mid = out@;
    assert(mid =~= start + "{\"role\":\""@ + spec_json_escape(message.role@) + seq!['"'] + opt_field(
        ",\"content\":\""@,
        message.content,
    ) + opt_field(",\"tool_call_id\":\""@, message.tool_call_id));
    if message.tool_calls.len() > 0 {
        push_str(out, ",\"tool_calls\":[");
        push_tool_calls_json(out, &message.tool_calls);
        push_char(out, ']');
    }
    push_char(out, '}');
    assert(final(out)@ =~= old(out)@ + message_json(*message));
}

fn push_tool_json(out: &mut String, tool: &OpenAiTool)
    ensures
        final(out)@ == old(out)@ + tool_json(*tool),
{
    push_str(out, "{\"type\":\"function\",\"function\":{\"name\":\"");
    push_json_escaped(out, tool.function.name.as_str());
    push_char(out, '"');
    push_opt_field(out, ",\"description\":\"", &tool.function.description);
    push_str(out, ",\"parameters\":");
    let v = chars_of(tool.function.parameters_json.as_str());
    let (lo, hi) = trim_bounds(&v, 0, v.len());
    assert(v@.subrange(0, v@.len() as int) =~= v@);
    let trimmed = string_from_chars(&v, lo, hi);
    push_str(out, trimmed.as_str());
    push_str(out, "}}");
    assert(final(out)@ =~= old(out)@ + tool_json(*tool));
}

fn push_browser_json(out: &mut String, browser: &Option<OpenAiBrowserOptions>)
    ensures
        final(out)@ == old(out)@ + browser_json(*browser),
{
    match browser {
        None => {
            assert(final(out)@ =~= old(out)@ + browser_json(*browser));
        },
        Some(b) => {
            let ghost start = out@;
            push_str(out, ",\"browser\":{");
            if b.new_chat {
                push_str(out, "\"new_chat\":true");
                if b.target_url.is_some() {
                    push_char(out, ',');
                }
            }
            let ghost mid = out@;
            match &b.target_url {
                Some(url) => {
                    if !b.new_chat {
                        push_str(out, "\"new_chat\":false,");
                    }
                    push_str(out, "\"target_url\":\"");
                    push_json_escaped(out, url.as_str());
                    push_char(out, '"');
                },
                None => {},
            }
            push_char(out, '}');
            assert(final(out)@ =~= old(out)@ + browser_json(*browser));
        },
    }
}

proof fn lemma_no_fault_all_valid(ms: Seq<OpenAiMessage>, tools: Seq<OpenAiTool>)
    requires
        ms.len() > 0,
        forall|k: int| 0 <= k < ms.len() ==> spec_message_valid(#[trigger] ms[k]),
        forall|k: int| 0 <= k < tools.len() ==> spec_tool_valid(#[trigger] tools[k]),
    ensures
        spec_request_fault(ms, tools) is None,
{
}

/// The request body for the configured model, or why it cannot be sent.
pub fn request_json_parts(
    model: &str,
    messages: &[OpenAiMessage],
    tools: &[OpenAiTool],
    browser: &Option<OpenAiBrowserOptions>,
) -> (r: Result<String, OpenAiError>)
    ensures
        match r {
            Ok(s) => spec_request_fault(messages@, tools@) is None && s@ == spec_request_json(
                model@,
                messages@,
                tools@,
                *browser,
            ),
            Err(e) => spec_request_fault(messages@, tools@) == Some(e),
        },
{
    if messages.len() == 0 {
        return Err(OpenAiError::InvalidConfig("empty message list"));
    }
    let mut json = new_string();
    push_str(&mut json, "{\"model\":\"");
    push_json_escaped(&mut json, model);
    push_str(&mut json, "\",\"messages\":[");
    let ghost base = json@;
    let mut i: usize = 0;
    while i < messages.len()
        invariant
            i <= messages@.len(),
            messages@.len() > 0,
            json@ == base + join_messages(messages@.take(i as int)),
            forall|k: int| 0 <= k < i ==> spec_message_valid(#[trigger] messages@[k]),
        decreases messages@.len() - i,
    {
        assert(messages@.take(i as int + 1).drop_last() =~= messages@.take(i as int));
        if i > 0 {
            push_char(&mut json, ',');
        }
        if !message_contract_valid(&messages[i]) {
            assert(!spec_message_valid(messages@[i as int]));
            return Err(OpenAiError::InvalidConfig("empty message"));
        }
        push_message_json(&mut json, &messages[i]);
        proof {
            if i == 0 {
                assert(join_messages(messages@.take(1)) == message_json(messages@[0]));
            }
        }
        assert(json@ =~= base + join_messages(messages@.take(i as int + 1)));
        i = i + 1;
    }
    assert(messages@.take(i as int) =~= messages@);
    push_char(&mut json, ']');
    let ghost after_messages = json@;
    if tools.len() > 0 {
        push_str(&mut json, ",\"tools\":[");
        let ghost tbase = json@;
        let mut j: usize = 0;
        while j < tools.len()
            invariant
                j <= tools@.len(),
                messages@.len() > 0,
                json@ == tbase + join_tools(tools@.take(j as int)),
                forall|k: int| 0 <= k < j ==> spec_tool_valid(#[trigger] tools@[k]),
                forall|k: int| 0 <= k < messages@.len() ==> spec_message_valid(#[trigger] messages@[k]),
            decreases tools@.len() - j,
        {
            assert(tools@.take(j as int + 1).drop_last() =~= tools@.take(j as int));
            if j > 0 {
                push_char(&mut json, ',');
            }
            if !tool_contract_valid(&tools[j]) {
                assert(!spec_tool_valid(tools@[j as int]));
                return Err(OpenAiError::InvalidConfig("invalid tool"));
            }
            push_tool_json(&mut json, &tools[j]);
            proof {
                if j == 0 {
                    assert(join_tools(tools@.take(1)) == tool_json(tools@[0]));
                }
            }
            assert(json@ =~= tbase + join_tools(tools@.take(j as int + 1)));
            j = j + 1;
        }
        assert(tools@.take(j as int) =~= tools@);
        push_char(&mut json, ']');
    }
    proof {
        lemma_no_fault_all_valid(messages@, tools@);
    }
    let ghost before_browser = json@;
    push_browser_json(&mut json, browser);
    push_str(&mut json, ",\"stream\":false}");
    assert(json@ =~= spec_request_json(model@, messages@, tools@, *browser));
    Ok(json)
}

/// The character an escape sequence `\c` stands for, if it is one the reader knows.
pub open spec fn json_unescape(c: char) -> Option<char> {
    if c == '"' {
        Some('"')
    } else if c == '\\' {
        Some('\\')
    } else if c == '/' {
        Some('/')
    } else if c == 'b' {
        Some('\u{8}')
    } else if c == 'f' {
        Some('\u{c}')
    } else if c == 'n' {
        Some('\n')
    } else if c == 'r' {
        Some('\r')
    } else if c == 't' {
        Some('\t')
    } else {
        None
    }
}

/// Reads the rest of a JSON string from `s[i..]`, having read `out`.
pub open spec fn decode_json_from(s: Seq<char>, i: int, escaped: bool, out: Seq<char>) -> Option<
    Seq<char>,
>
    decreases s.len() - i,
{
    if i < 0 || i >= s.len() {
        None
    } else if escaped {
        match json_unescape(s[i]) {
            Some(d) => decode_json_from(s, i + 1, false, out.push(d)),
            None => None,
        }
    } else if s[i] == '\\' {
        decode_json_from(s, i + 1, true, out)
    } else if s[i] == '"' {
        Some(out)
    } else {
        decode_json_from(s, i + 1, false, out.push(s[i]))
    }
}

/// The JSON string a text starts with; `\u` escapes are not read.
pub open spec fn spec_decode_json_string(raw: Seq<char>) -> Option<Seq<char>> {
    if raw.len() > 0 && raw[0] == '"' {
        decode_json_from(raw, 1, false, Seq::<char>::empty())
    } else {
        None
    }
}

/// How a JSON string literal writes one character: the quote, the
/// backslash and the control characters that have a short escape as a
/// backslash pair, any other character as itself.
pub open spec fn json_escape_char(c: char) -> Seq<char> {
    if c == '"' {
        seq!['\\', '"']
    } else if c == '\\' {
        seq!['\\', '\\']
    } else if c == '\n' {
        seq!['\\', 'n']
    } else if c == '\t' {
        seq!['\\', 't']
    } else if c == '\r' {
        seq!['\\', 'r']
    } else if c == '\u{8}' {
        seq!['\\', 'b']
    } else if c == '\u{c}' {
        seq!['\\', 'f']
    } else {
        seq![c]
    }
}

/// The body of a JSON string literal that holds `s`.
pub open spec fn json_escape_text(s: Seq<char>) -> Seq<char>
    decreases s.len(),
{
    if s.len() == 0 {
        Seq::<char>::empty()
    } else {
        json_escape_char(s[0]) + json_escape_text(s.drop_first())
    }
}

proof fn lemma_decode_json_shift(p: Seq<char>, q: Seq<char>, j: int, escaped: bool, out: Seq<char>)
    requires
        0 <= j,
    ensures
        decode_json_from(p + q, p.len() + j, escaped, out) == decode_json_from(q, j, escaped, out),
    decreases q.len() - j,
{
    let x = p + q;
    if j < q.len() {
        assert(x[p.len() + j] == q[j]);
        if escaped {
            match json_unescape(q[j]) {
                Some(d) => lemma_decode_json_shift(p, q, j + 1, false, out.push(d)),
                None => {},
            }
        } else if q[j] == '\\' {
            lemma_decode_json_shift(p, q, j + 1, true, out);
        } else if q[j] != '"' {
            lemma_decode_json_shift(p, q, j + 1, false, out.push(q[j]));
        }
    }
}

proof fn lemma_json_escape_decodes(s: Seq<char>, tail: Seq<char>, out: Seq<char>)
    ensures
        decode_json_from(json_escape_text(s) + tail, 0, false, out) == decode_json_from(
            tail,
            0,
            false,
            out + s,
        ),
    decreases s.len(),
{
    if s.len() == 0 {
        assert(json_escape_text(s) + tail =~= tail);
        assert(out + s =~= out);
    } else {
        let c = s[0];
        let e = json_escape_char(c);
        let rest = json_escape_text(s.drop_first()) + tail;
        let x = e + rest;
        assert(json_escape_text(s) + tail =~= x);
        lemma_json_escape_decodes(s.drop_first(), tail, out.push(c));
        lemma_decode_json_shift(e, rest, 0, false, out.push(c));
        assert(out.push(c) + s.drop_first() =~= out + s);
        assert(x[0] == e[0]);
        if e.len() == 2 {
            assert(x[1] == e[1]);
            assert(e[0] == '\\');
            assert(json_unescape(e[1]) == Some(c));
            assert(decode_json_from(x, 1, true, out) == decode_json_from(x, 2, false, out.push(c)));
            assert(decode_json_from(x, 0, false, out) == decode_json_from(x, 1, true, out));
        } else {
            assert(e.len() == 1 && e[0] == c && c != '\\' && c != '"');
            assert(decode_json_from(x, 0, false, out) == decode_json_from(x, 1, false, out.push(c)));
        }
    }
}

/// Decoding the JSON string literal of any text gives the text back: each
/// escape reads as the character it stands for (`\n` a newline, `\t` a tab,
/// `\r` a carriage return, `\b` U+0008, `\f` U+000C, `\"` a quote, `\\` a
/// backslash), and whatever follows the closing quote is not read.
pub proof fn lemma_json_string_round_trip(s: Seq<char>, after: Seq<char>)
    ensures
        spec_decode_json_string(seq!['"'] + json_escape_text(s) + seq!['"'] + after) == Some(s),
{
    let q = json_escape_text(s) + (seq!['"'] + after);
    assert(seq!['"'] + json_escape_text(s) + seq!['"'] + after =~= seq!['"'] + q);
    lemma_decode_json_shift(seq!['"'], q, 0, false, Seq::<char>::empty());
    lemma_json_escape_decodes(s, seq!['"'] + after, Seq::<char>::empty());
    assert(Seq::<char>::empty() + s =~= s);
    assert((seq!['"'] + after)[0] == '"');
}

/// The string value after the first `:` that follows `field_idx`.
pub open spec fn json_string_at(body: Seq<char>, field_idx: int) -> Option<Seq<char>> {
    let after = body.skip(field_idx);
    match first_index_of(after, ':') {
        Some(c) => spec_decode_json_string(trim_start(after.skip(c + 1))),
        None => None,
    }
}

/// The first `c` in a text that begins with `k`, where `k` holds no `c`,
/// and continues with `c`, is right after `k`.
pub proof fn lemma_first_index_after(k: Seq<char>, rest: Seq<char>, c: char)
    requires
        !k.contains(c),
        rest.len() > 0,
        rest[0] == c,
    ensures
        first_index_of(k + rest, c) == Some(k.len() as int),
    decreases k.len(),
{
    if k.len() == 0 {
        assert(k + rest =~= rest);
    } else {
        assert((k + rest)[0] == k[0]);
        assert(k[0] != c);
        assert((k + rest).drop_first() =~= k.drop_first() + rest);
        assert(!k.drop_first().contains(c)) by {
            if k.drop_first().contains(c) {
                let j = choose|j: int| 0 <= j < k.drop_first().len() && k.drop_first()[j] == c;
                assert(k[j + 1] == c);
            }
        }
        lemma_first_index_after(k.drop_first(), rest, c);
    }
}

/// The value after a field name holds any text written as a JSON string
/// literal right after the colon: reading it gives the text back, escapes
/// turned into the characters they stand for.
pub proof fn lemma_json_string_at_reads_value(
    body: Seq<char>,
    field_idx: int,
    name: Seq<char>,
    s: Seq<char>,
    after: Seq<char>,
)
    requires
        0 <= field_idx <= body.len(),
        !name.contains(':'),
        body.skip(field_idx) == name + seq![':', '"'] + json_escape_text(s) + seq!['"'] + after,
    ensures
        json_string_at(body, field_idx) == Some(s),
{
    let a = body.skip(field_idx);
    let rest = seq![':', '"'] + json_escape_text(s) + seq!['"'] + after;
    assert(a =~= name + rest);
    lemma_first_index_after(name, rest, ':');
    let t = a.skip(name.len() as int + 1);
    assert(t =~= seq!['"'] + json_escape_text(s) + seq!['"'] + after);
    assert(!is_ws(t[0]));
    assert(trim_start(t) == t);
    lemma_json_string_round_trip(s, after);
}

/// The string value of the first `field` at or after `start`.
pub open spec fn scoped_json_string_field(body: Seq<char>, start: int, field: Seq<char>) -> Option<
    Seq<char>,
> {
    match find_from(body, field, start) {
        Some(i) => json_string_at(body, i),
        None => None,
    }
}

/// The content of the reply message: the first `"content"` after the first `"message"`.
pub open spec fn message_content_field(body: Seq<char>) -> Option<Seq<char>> {
    match find_from(body, "\"message\""@, 0) {
        Some(m) => scoped_json_string_field(body, m, "\"content\""@),
        None => None,
    }
}

/// The leading decimal digits of a text.
pub open spec fn digits_prefix(s: Seq<char>) -> Seq<char>
    decreases s.len(),
{
    if s.len() > 0 && is_digit(s[0]) {
        seq![s[0]] + digits_prefix(s.drop_first())
    } else {
        Seq::<char>::empty()
    }
}

/// The number after the first `:` that follows the first `field`.
pub open spec fn json_u32_field(body: Seq<char>, field: Seq<char>) -> Option<u32> {
    match find_from(body, field, 0) {
        Some(i) => {
            let after = body.skip(i);
            match first_index_of(after, ':') {
                Some(c) => {
                    let d = digits_prefix(trim_start(after.skip(c + 1)));
                    if d.len() > 0 && digits_value(d) <= u32::MAX {
                        Some(digits_value(d) as u32)
                    } else {
                        None
                    }
                },
                None => None,
            }
        },
        None => None,
    }
}

/// The first index at or after `from` where `pat` occurs.
pub(crate) fn find_text(v: &Vec<char>, pat: &str, from: usize) -> (r: Option<usize>)
    requires
        from <= v@.len(),
        pat@.len() > 0,
    ensures
        match r {
            Some(i) => find_from(v@, pat@, from as int) == Some(i as int) && i < v@.len(),
            None => find_from(v@, pat@, from as int) is None,
        },
{
    let mut i = from;
    while i < v.len()
        invariant
            from <= i <= v@.len(),
            pat@.len() > 0,
            find_from(v@, pat@, from as int) == find_from(v@, pat@, i as int),
        decreases v@.len() - i,
    {
        if chars_start_with(v, i, pat) {
            return Some(i);
        }
        i = i + 1;
    }
    None
}

/// The index of the first `c` at or after `from`.
pub(crate) fn find_char(v: &Vec<char>, c: char, from: usize) -> (r: Option<usize>)
    requires
        from <= v@.len(),
    ensures
        match r {
            Some(k) => from <= k < v@.len() && first_index_of(v@.skip(from as int), c) == Some(
                k - from,
            ),
            None => first_index_of(v@.skip(from as int), c) is None,
        },
{
    let ghost after = v@.skip(from as int);
    let mut k = from;
    while k < v.len() && v[k] != c
        invariant
            from <= k <= v@.len(),
            after == v@.skip(from as int),
            forall|j: int| 0 <= j < k - from ==> after[j] != c,
        decreases v@.len() - k,
    {
        k = k + 1;
    }
    proof {
        lemma_first_index_at(after, c, k - from);
    }
    if k < v.len() {
        Some(k)
    } else {
        None
    }
}

/// The first index at or after `from` that is not white space.
pub(crate) fn skip_ws(v: &Vec<char>, from: usize) -> (r: usize)
    requires
        from <= v@.len(),
    ensures
        from <= r <= v@.len(),
        trim_start(v@.skip(from as int)) == v@.skip(r as int),
{
    let mut lo = from;
    while lo < v.len() && is_ws_char(v[lo])
        invariant
            from <= lo <= v@.len(),
            trim_start(v@.skip(from as int)) == trim_start(v@.skip(lo as int)),
        decreases v@.len() - lo,
    {
        assert(v@.skip(lo as int).drop_first() =~= v@.skip(lo as int + 1));
        lo = lo + 1;
    }
    lo
}

/// Reads the JSON string that starts at `lo`.
fn decode_json_string_at(v: &Vec<char>, lo: usize) -> (r: Option<String>)
    requires
        lo <= v@.len(),
    ensures
        match r {
            Some(s) => spec_decode_json_string(v@.skip(lo as int)) == Some(s@),
            None => spec_decode_json_string(v@.skip(lo as int)) is None,
        },
{
    let ghost raw = v@.skip(lo as int);
    if lo >= v.len() || v[lo] != '"' {
        return None;
    }
    let mut out = new_string();
    let mut escaped = false;
    let mut i = lo + 1;
    while i < v.len()
        invariant
            lo < i <= v@.len(),
            raw == v@.skip(lo as int),
            spec_decode_json_string(raw) == decode_json_from(raw, i - lo, escaped, out@),
        decreases v@.len() - i,
    {
        let c = v[i];
        assert(raw[i - lo] == c);
        if escaped {
            if c == '"' {
                push_char(&mut out, '"');
            } else if c == '\\' {
                push_char(&mut out, '\\');
            } else if c == '/' {
                push_char(&mut out, '/');
            } else if c == 'b' {
                push_char(&mut out, '\u{8}');
            } else if c == 'f' {
                push_char(&mut out, '\u{c}');
            } else if c == 'n' {
                push_char(&mut out, '\n');
            } else if c == 'r' {
                push_char(&mut out, '\r');
            } else if c == 't' {
                push_char(&mut out, '\t');
            } else {
                return None;
            }
            escaped = false;
        } else if c == '\\' {
            escaped = true;
        } else if c == '"' {
            return Some(out);
        } else {
            push_char(&mut out, c);
        }
        i = i + 1;
    }
    None
}

/// The string value after the first `:` that follows `field_idx`.
fn json_string_at_exec(v: &Vec<char>, field_idx: usize) -> (r: Option<String>)
    requires
        field_idx <= v@.len(),
    ensures
        match r {
            Some(s) => json_string_at(v@, field_idx as int) == Some(s@),
            None => json_string_at(v@, field_idx as int) is None,
        },
{
    let colon = match find_char(v, ':', field_idx) {
        Some(k) => k,
        None => return None,
    };
    let n = v.len();
    assert(colon < n);
    let lo = skip_ws(v, colon + 1);
    assert(v@.skip(field_idx as int).skip(colon - field_idx + 1) =~= v@.skip(colon + 1));
    decode_json_string_at(v, lo)
}

fn scoped_json_string_field_exec(v: &Vec<char>, start: usize, field: &str) -> (r: Option<String>)
    requires
        start <= v@.len(),
        field@.len() > 0,
    ensures
        match r {
            Some(s) => scoped_json_string_field(v@, start as int, field@) == Some(s@),
            None => scoped_json_string_field(v@, start as int, field@) is None,
        },
{
    match find_text(v, field, start) {
        Some(i) => json_string_at_exec(v, i),
        None => None,
    }
}

fn json_u32_field_exec(v: &Vec<char>, field: &str) -> (r: Option<u32>)
    requires
        field@.len() > 0,
    ensures
        r == json_u32_field(v@, field@),
{
    let i = match find_text(v, field, 0) {
        Some(i) => i,
        None => return None,
    };
    let colon = match find_char(v, ':', i) {
        Some(k) => k,
        None => return None,
    };
    let n = v.len();
    assert(colon < n);
    let lo = skip_ws(v, colon + 1);
    assert(v@.skip(i as int).skip(colon - i + 1) =~= v@.skip(colon + 1));
    let mut hi = lo;
    while hi < v.len() && v[hi] >= '0' && v[hi] <= '9'
        invariant
            lo <= hi <= v@.len(),
            forall|j: int| lo <= j < hi ==> is_digit(#[trigger] v@[j]),
            digits_prefix(v@.skip(lo as int)) == v@.subrange(lo as int, hi as int) + digits_prefix(
                v@.skip(hi as int),
            ),
        decreases v@.len() - hi,
    {
        assert(v@.skip(hi as int).drop_first() =~= v@.skip(hi as int + 1));
        assert(v@.subrange(lo as int, hi as int + 1) =~= v@.subrange(lo as int, hi as int) + seq![
            v@[hi as int],
        ]);
        hi = hi + 1;
    }
    assert(digits_prefix(v@.skip(hi as int)) =~= Seq::<char>::empty());
    assert(v@.subrange(lo as int, hi as int) + Seq::<char>::empty() =~= v@.subrange(lo as int, hi as int));
    if lo == hi {
        return None;
    }
    assert(crate::codec::all_digits(v@.subrange(lo as int, hi as int)));
    match parse_digits(v, lo, hi) {
        Some(n) => if n <= 0xffff_ffff {
            Some(n as u32)
        } else {
            None
        },
        None => None,
    }
}

#[derive(Clone, Debug, PartialEq, Eq)]
pub struct OpenAiChatResponse {
    pub id: String,
    pub content: String,
    pub prompt_tokens: u32,
    pub completion_tokens: u32,
    pub total_tokens: u32,
    pub response_hash: u64,
    pub raw_hash: u64,
    /// The browser tab the router used for the turn; pass it to the next
    /// turn with `OpenAiBrowserOptions::continue_at`.
    pub target_url: Option<String>,
}

pub open spec fn text_or_empty(o: Option<Seq<char>>) -> Seq<char> {
    match o {
        Some(t) => t,
        None => Seq::<char>::empty(),
    }
}

pub open spec fn u32_or_zero(o: Option<u32>) -> u32 {
    match o {
        Some(n) => n,
        None => 0,
    }
}

/// The total token count of a reply: the reported total, else prompt plus
/// completion (saturating), and at least one.
pub open spec fn spec_total_tokens(body: Seq<char>) -> u32 {
    let p = u32_or_zero(json_u32_field(body, "\"prompt_tokens\""@));
    let c = u32_or_zero(json_u32_field(body, "\"completion_tokens\""@));
    let t = match json_u32_field(body, "\"total_tokens\""@) {
        Some(t) => t,
        None => if p + c > u32::MAX {
            u32::MAX
        } else {
            (p + c) as u32
        },
    };
    if t == 0 {
        1
    } else {
        t
    }
}

/// The browser tab a reply names, when it names a non-empty one.
pub open spec fn spec_target_url(body: Seq<char>) -> Option<Seq<char>> {
    match scoped_json_string_field(body, 0, "\"target_url\""@) {
        Some(u) => if u.len() > 0 {
            Some(u)
        } else {
            None
        },
        None => None,
    }
}

/// Reads a chat completions reply body. The content is the message-scoped
/// `"content"`; a reply without one is refused.
pub fn parse_chat_response_body(body: &str) -> (r: Result<OpenAiChatResponse, OpenAiError>)
    ensures
        match r {
            Ok(resp) => {
                &&& message_content_field(body@) == Some(resp.content@)
                &&& resp.id@ == text_or_empty(scoped_json_string_field(body@, 0, "\"id\""@))
                &&& resp.prompt_tokens == u32_or_zero(json_u32_field(body@, "\"prompt_tokens\""@))
                &&& resp.completion_tokens == u32_or_zero(
                    json_u32_field(body@, "\"completion_tokens\""@),
                )
                &&& resp.total_tokens == spec_total_tokens(body@)
                &&& opt_text(resp.target_url) == spec_target_url(body@)
                &&& resp.response_hash == spec_hash_text(encode_utf8(resp.content@))
                &&& resp.raw_hash == spec_hash_text(body.spec_bytes())
            },
            Err(e) => message_content_field(body@) is None && e is InvalidResponse,
        },
{
    proof {
        reveal_strlit("\"id\"");
        reveal_strlit("\"message\"");
        reveal_strlit("\"content\"");
        reveal_strlit("\"prompt_tokens\"");
        reveal_strlit("\"completion_tokens\"");
        reveal_strlit("\"total_tokens\"");
        reveal_strlit("\"target_url\"");
    }
    let v = chars_of(body);
    let id = match scoped_json_string_field_exec(&v, 0, "\"id\"") {
        Some(id) => id,
        None => new_string(),
    };
    let content = match find_text(&v, "\"message\"", 0) {
        Some(m) => match scoped_json_string_field_exec(&v, m, "\"content\"") {
            Some(c) => c,
            None => {
                return Err(OpenAiError::InvalidResponse);
            },
        },
        None => {
            return Err(OpenAiError::InvalidResponse);
        },
    };
    let prompt_tokens = match json_u32_field_exec(&v, "\"prompt_tokens\"") {
        Some(n) => n,
        None => 0,
    };
    let completion_tokens = match json_u32_field_exec(&v, "\"completion_tokens\"") {
        Some(n) => n,
        None => 0,
    };
    let total = match json_u32_field_exec(&v, "\"total_tokens\"") {
        Some(n) => n,
        None => {
            let sum: u64 = prompt_tokens as u64 + completion_tokens as u64;
            if sum > 0xffff_ffff {
                0xffff_ffffu32
            } else {
                sum as u32
            }
        },
    };
    let total_tokens = if total == 0 {
        1
    } else {
        total
    };
    let target_url = match scoped_json_string_field_exec(&v, 0, "\"target_url\"") {
        Some(u) => if u.as_str().unicode_len() > 0 {
            Some(u)
        } else {
            None
        },
        None => None,
    };
    let response_hash = hash_text(content.as_str());
    let raw_hash = hash_text(body);
    Ok(
        OpenAiChatResponse {
            id,
            content,
            prompt_tokens,
            completion_tokens,
            total_tokens,
            response_hash,
            raw_hash,
            target_url,
        },
    )
}

/// A client for one validated configuration.
#[derive(Clone, Debug, PartialEq, Eq)]
pub struct OpenAiClient {
    config: OpenAiConfig,
}

impl OpenAiClient {
    pub closed spec fn spec_config(&self) -> OpenAiConfig {
        self.config
    }

    pub fn new(config: OpenAiConfig) -> (r: Result<Self, OpenAiError>)
        ensures
            match r {
                Ok(c) => c.spec_config() == config && spec_config_error(config) is None,
                Err(e) => spec_config_error(config) == Some(e),
            },
    {
        match config.validate() {
            Ok(_) => Ok(OpenAiClient { config }),
            Err(e) => Err(e),
        }
    }

    pub fn config(&self) -> (r: &OpenAiConfig)
        ensures
            *r == self.spec_config(),
    {
        &self.config
    }

    /// The request body for a plain message list.
    pub fn request_json(&self, messages: &[OpenAiMessage]) -> (r: Result<String, OpenAiError>)
        ensures
            match r {
                Ok(s) => spec_request_fault(messages@, Seq::empty()) is None && s@
                    == spec_request_json(self.spec_config().model@, messages@, Seq::empty(), None),
                Err(e) => spec_request_fault(messages@, Seq::empty()) == Some(e),
            },
    {
        let tools: Vec<OpenAiTool> = Vec::new();
        assert(tools@ =~= Seq::<OpenAiTool>::empty());
        request_json_parts(self.config.model.as_str(), messages, tools.as_slice(), &None)
    }

    /// The request body for a full request.
    pub fn request_json_for(&self, request: &OpenAiChatRequest) -> (r: Result<String, OpenAiError>)
        ensures
            match r {
                Ok(s) => spec_request_fault(request.messages@, request.tools@) is None && s@
                    == spec_request_json(
                    self.spec_config().model@,
                    request.messages@,
                    request.tools@,
                    request.browser,
                ),
                Err(e) => spec_request_fault(request.messages@, request.tools@) == Some(e),
            },
    {
        request_json_parts(
            self.config.model.as_str(),
            request.messages.as_slice(),
            request.tools.as_slice(),
            &request.browser,
        )
    }

    pub fn request_hash(&self, messages: &[OpenAiMessage]) -> (r: Result<u64, OpenAiError>)
        ensures
            match r {
                Ok(h) => spec_request_fault(messages@, Seq::empty()) is None && h == spec_hash_text(
                    encode_utf8(
                        spec_request_json(self.spec_config().model@, messages@, Seq::empty(), None),
                    ),
                ),
                Err(e) => spec_request_fault(messages@, Seq::empty()) == Some(e),
            },
    {
        match self.request_json(messages) {
            Ok(json) => Ok(hash_text(json.as_str())),
            Err(e) => Err(e),
        }
    }

    pub fn request_hash_for(&self, request: &OpenAiChatRequest) -> (r: Result<u64, OpenAiError>)
        ensures
            match r {
                Ok(h) => spec_request_fault(request.messages@, request.tools@) is None && h
                    == spec_hash_text(
                    encode_utf8(
                        spec_request_json(
                            self.spec_config().model@,
                            request.messages@,
                            request.tools@,
                            request.browser,
                        ),
                    ),
                ),
                Err(e) => spec_request_fault(request.messages@, request.tools@) == Some(e),
            },
    {
        match self.request_json_for(request) {
            Ok(json) => Ok(hash_text(json.as_str())),
            Err(e) => Err(e),
        }
    }

    /// The retry decision for one attempt of a request, refused when the
    /// policy does not fit the configuration or the budget does not allow it.
    pub fn attempt_decision(
        &self,
        retry_policy: OpenAiRetryBudgetPolicy,
        request_hash: u64,
        retry_count: u32,
    ) -> (r: Result<OpenAiRetryBudgetDecision, OpenAiError>)
        ensures
            ({
                let d = retry_policy.spec_decision_for_attempt(
                    spec_hash_text(encode_utf8(OPENAI_COMPAT_PROVIDER@)),
                    spec_provider_text_hash(encode_utf8(self.spec_config().base_url@)),
                    spec_provider_text_hash(encode_utf8(self.spec_config().model@)),
                    request_hash,
                    retry_count,
                    false,
                );
                match r {
                    Ok(decision) => retry_policy.timeout_ms == self.spec_config().timeout_ms && d
                        == Some(decision) && decision.allowed,
                    Err(OpenAiError::InvalidConfig(m)) => (retry_policy.timeout_ms
                        != self.spec_config().timeout_ms && m@ == "retry timeout must match config"@)
                        || (retry_policy.timeout_ms == self.spec_config().timeout_ms && d is None
                        && m@ == "invalid retry budget"@),
                    Err(OpenAiError::BudgetExhausted) => retry_policy.timeout_ms
                        == self.spec_config().timeout_ms && d is Some && !d->0.allowed,
                    Err(_) => false,
                }
            }),
    {
        if retry_policy.timeout_ms != self.config.timeout_ms {
            return Err(OpenAiError::InvalidConfig("retry timeout must match config"));
        }
        let decision = match retry_policy.decision_for_attempt(
            hash_text(OPENAI_COMPAT_PROVIDER),
            self.config.base_url_id(),
            self.config.model_id(),
            request_hash,
            retry_count,
            false,
        ) {
            Some(d) => d,
            None => {
                return Err(OpenAiError::InvalidConfig("invalid retry budget"));
            },
        };
        if !decision.allowed {
            return Err(OpenAiError::BudgetExhausted);
        }
        Ok(decision)
    }
}

/// The two messages of a judgment turn: the system role, then the context and policy.
pub fn messages_from_context(context: &ContextRecord, policy: &PolicyStore) -> (r: Vec<
    OpenAiMessage,
>)
    ensures
        r@.len() == 2,
        r@[0].role@ == "system"@,
        opt_text(r@[0].content) == Some(JUDGMENT_SYSTEM_PROMPT@),
        r@[0].tool_call_id is None,
        r@[0].tool_calls@.len() == 0,
        r@[1].role@ == "user"@,
        opt_text(r@[1].content) == Some(spec_judgment_prompt(*context, policy@)),
        r@[1].tool_call_id is None,
        r@[1].tool_calls@.len() == 0,
{
    let prompt = judgment_prompt(context, policy);
    let mut v = Vec::new();
    v.push(OpenAiMessage::system(JUDGMENT_SYSTEM_PROMPT));
    v.push(OpenAiMessage::user(prompt.as_str()));
    v
}

/// The hash of the provider name that every OpenAI-compatible record carries.
pub open spec fn openai_provider_hash() -> u64 {
    spec_hash_text(encode_utf8(OPENAI_COMPAT_PROVIDER@))
}

/// One accepted turn: the structured record, the endpoint identity, the
/// request and its retry decision, and the reply hashes.
#[derive(Clone, Copy, Debug, PartialEq, Eq, Structural)]
pub struct OpenAiLlmCall {
    pub record: LlmRecord,
    pub provider_hash: u64,
    pub base_url_hash: u64,
    pub model_id: u64,
    pub request_hash: u64,
    pub timeout_ms: u64,
    pub retry_count: u32,
    pub max_retries: u32,
    pub attempt_budget: u32,
    pub request_identity_hash: u64,
    pub retry_budget_hash: u64,
    pub budget_exhausted: bool,
    pub duplicate_request: bool,
    pub response_hash: u64,
    pub raw_response_hash: u64,
    pub prompt_hash: u64,
    pub token_count: u32,
    pub payload_hash: u64,
}

/// The call a record, request and reply make.
pub open spec fn spec_new_call(
    record: LlmRecord,
    model_id: u64,
    base_url_hash: u64,
    request_hash: u64,
    raw_response_hash: u64,
    retry_budget: OpenAiRetryBudgetDecision,
) -> OpenAiLlmCall {
    OpenAiLlmCall {
        record,
        provider_hash: openai_provider_hash(),
        base_url_hash,
        model_id,
        request_hash,
        timeout_ms: retry_budget.timeout_ms,
        retry_count: retry_budget.retry_count,
        max_retries: retry_budget.max_retries,
        attempt_budget: retry_budget.attempt_budget,
        request_identity_hash: retry_budget.request_identity_hash,
        retry_budget_hash: retry_budget.retry_budget_hash,
        budget_exhausted: retry_budget.budget_exhausted,
        duplicate_request: retry_budget.duplicate_request,
        response_hash: record.response.response_hash,
        raw_response_hash,
        prompt_hash: record.prompt.prompt_hash,
        token_count: record.response.token_count,
        payload_hash: spec_llm_payload_hash(record),
    }
}

/// The receipt of a call persisted by an event, before any proof is bound.
pub open spec fn spec_receipt_for_event(
    call: OpenAiLlmCall,
    command_hash: u64,
    event: ControlEvent,
) -> Option<OpenAiLlmEffectReceipt> {
    if !call.spec_is_valid() || command_hash == 0 {
        None
    } else {
        let unsealed = OpenAiLlmEffectReceipt {
            provider_hash: call.provider_hash,
            base_url_hash: call.base_url_hash,
            model_id: call.model_id,
            request_hash: call.request_hash,
            timeout_ms: call.timeout_ms,
            retry_count: call.retry_count,
            max_retries: call.max_retries,
            attempt_budget: call.attempt_budget,
            request_identity_hash: call.request_identity_hash,
            retry_budget_hash: call.retry_budget_hash,
            budget_exhausted: call.budget_exhausted,
            duplicate_request: call.duplicate_request,
            response_hash: call.response_hash,
            raw_response_hash: call.raw_response_hash,
            prompt_hash: call.prompt_hash,
            token_count: call.token_count,
            payload_hash: call.payload_hash,
            command_hash,
            event_seq: event.seq,
            event_hash: event.self_hash,
            proof_event_seq: 0,
            proof_hash: 0,
            receipt_hash: 0,
        };
        let receipt = OpenAiLlmEffectReceipt {
            receipt_hash: unsealed.spec_expected_receipt_hash(),
            ..unsealed
        };
        if receipt.spec_matches_event(event) {
            Some(receipt)
        } else {
            None
        }
    }
}

/// The first receipt a log gives for a call: the first event it matches.
pub open spec fn spec_receipt_from_tlog(
    call: OpenAiLlmCall,
    config: OpenAiConfig,
    command_hash: u64,
    tlog: Seq<ControlEvent>,
) -> Option<OpenAiLlmEffectReceipt>
    decreases tlog.len(),
{
    if tlog.len() == 0 {
        None
    } else {
        match spec_receipt_from_tlog(call, config, command_hash, tlog.drop_last()) {
            Some(r) => Some(r),
            None => if call.spec_base_url_provenance_verified(config) {
                spec_receipt_for_event(call, command_hash, tlog.last())
            } else {
                None
            },
        }
    }
}

impl OpenAiLlmCall {
    fn new(
        record: LlmRecord,
        model_id: u64,
        base_url_hash: u64,
        request_hash: u64,
        response: &OpenAiChatResponse,
        retry_budget: OpenAiRetryBudgetDecision,
    ) -> (r: Self)
        ensures
            r == spec_new_call(
                record,
                model_id,
                base_url_hash,
                request_hash,
                response.raw_hash,
                retry_budget,
            ),
    {
        let submission = record.submission();
        OpenAiLlmCall {
            prompt_hash: record.prompt.prompt_hash,
            response_hash: record.response.response_hash,
            token_count: record.response.token_count,
            payload_hash: submission.payload_hash,
            record,
            provider_hash: hash_text(OPENAI_COMPAT_PROVIDER),
            base_url_hash,
            model_id,
            request_hash,
            timeout_ms: retry_budget.timeout_ms,
            retry_count: retry_budget.retry_count,
            max_retries: retry_budget.max_retries,
            attempt_budget: retry_budget.attempt_budget,
            request_identity_hash: retry_budget.request_identity_hash,
            retry_budget_hash: retry_budget.retry_budget_hash,
            budget_exhausted: retry_budget.budget_exhausted,
            duplicate_request: retry_budget.duplicate_request,
            raw_response_hash: response.raw_hash,
        }
    }

    pub open spec fn spec_is_valid(self) -> bool {
        &&& self.record.spec_is_valid()
        &&& self.provider_hash == openai_provider_hash()
        &&& self.base_url_hash != 0
        &&& self.model_id != 0
        &&& self.request_hash != 0
        &&& self.timeout_ms != 0
        &&& self.retry_count <= self.max_retries
        &&& self.attempt_budget != 0
        &&& self.attempt_budget <= self.max_retries + 1
        &&& self.retry_count < self.attempt_budget
        &&& self.request_identity_hash != 0
        &&& self.retry_budget_hash != 0
        &&& !self.duplicate_request
        &&& self.response_hash != 0
        &&& self.raw_response_hash != 0
        &&& self.prompt_hash != 0
        &&& self.token_count != 0
        &&& self.payload_hash == spec_llm_payload_hash(self.record)
    }

    pub fn is_valid(&self) -> (r: bool)
        ensures
            r == self.spec_is_valid(),
    {
        self.record.is_valid() && self.provider_hash == hash_text(OPENAI_COMPAT_PROVIDER)
            && self.base_url_hash != 0 && self.model_id != 0 && self.request_hash != 0
            && self.timeout_ms != 0 && self.retry_count <= self.max_retries && self.attempt_budget
            != 0 && (self.attempt_budget as u64) <= (self.max_retries as u64) + 1
            && self.retry_count < self.attempt_budget && self.request_identity_hash != 0
            && self.retry_budget_hash != 0 && !self.duplicate_request && self.response_hash != 0
            && self.raw_response_hash != 0 && self.prompt_hash != 0 && self.token_count != 0
            && self.payload_hash == self.record.submission().payload_hash
    }

    pub fn submission(&self) -> (r: EvidenceSubmission)
        ensures
            r == self.record.spec_submission(),
    {
        self.record.submission()
    }

    pub open spec fn spec_base_url_provenance_verified(self, config: OpenAiConfig) -> bool {
        &&& spec_config_error(config) is None
        &&& self.spec_is_valid()
        &&& self.base_url_hash == spec_provider_text_hash(encode_utf8(config.base_url@))
        &&& self.model_id == spec_provider_text_hash(encode_utf8(config.model@))
        &&& self.timeout_ms == config.timeout_ms
    }

    /// Whether the call was made to the configured endpoint, model and timeout.
    pub fn base_url_provenance_verified(&self, config: &OpenAiConfig) -> (r: bool)
        ensures
            r == self.spec_base_url_provenance_verified(*config),
    {
        config.validate().is_ok() && self.is_valid() && self.provider_hash == hash_text(
            OPENAI_COMPAT_PROVIDER,
        ) && self.base_url_hash == config.base_url_id() && self.model_id == config.model_id()
            && self.timeout_ms == config.timeout_ms
    }

    fn receipt_for_event_unchecked(&self, command_hash: u64, event: &ControlEvent) -> (r: Option<
        OpenAiLlmEffectReceipt,
    >)
        ensures
            r == spec_receipt_for_event(*self, command_hash, *event),
    {
        if !self.is_valid() || command_hash == 0 {
            return None;
        }
        let mut receipt = OpenAiLlmEffectReceipt {
            provider_hash: self.provider_hash,
            base_url_hash: self.base_url_hash,
            model_id: self.model_id,
            request_hash: self.request_hash,
            timeout_ms: self.timeout_ms,
            retry_count: self.retry_count,
            max_retries: self.max_retries,
            attempt_budget: self.attempt_budget,
            request_identity_hash: self.request_identity_hash,
            retry_budget_hash: self.retry_budget_hash,
            budget_exhausted: self.budget_exhausted,
            duplicate_request: self.duplicate_request,
            response_hash: self.response_hash,
            raw_response_hash: self.raw_response_hash,
            prompt_hash: self.prompt_hash,
            token_count: self.token_count,
            payload_hash: self.payload_hash,
            command_hash,
            event_seq: event.seq,
            event_hash: event.self_hash,
            proof_event_seq: 0,
            proof_hash: 0,
            receipt_hash: 0,
        };
        receipt.receipt_hash = receipt.expected_receipt_hash();
        if receipt.matches_event(event) {
            Some(receipt)
        } else {
            None
        }
    }

    /// The receipt of this call for the event that persisted it, when the
    /// call was made to the configured endpoint and the event matches.
    pub fn receipt_for_configured_event(
        &self,
        config: &OpenAiConfig,
        command_hash: u64,
        event: &ControlEvent,
    ) -> (r: Option<OpenAiLlmEffectReceipt>)
        ensures
            r == (if self.spec_base_url_provenance_verified(*config) {
                spec_receipt_for_event(*self, command_hash, *event)
            } else {
                None
            }),
    {
        if self.base_url_provenance_verified(config) {
            self.receipt_for_event_unchecked(command_hash, event)
        } else {
            None
        }
    }

    /// The receipt for the first event of the log that persisted this call.
    pub fn receipt_from_tlog(&self, config: &OpenAiConfig, command_hash: u64, tlog: &[ControlEvent]) -> (r:
        Option<OpenAiLlmEffectReceipt>)
        ensures
            r == spec_receipt_from_tlog(*self, *config, command_hash, tlog@),
    {
        let mut i: usize = 0;
        while i < tlog.len()
            invariant
                i <= tlog@.len(),
                spec_receipt_from_tlog(*self, *config, command_hash, tlog@.take(i as int)) is None,
            decreases tlog@.len() - i,
        {
            assert(tlog@.take(i as int + 1).drop_last() =~= tlog@.take(i as int));
            let r = self.receipt_for_configured_event(config, command_hash, &tlog[i]);
            if r.is_some() {
                proof {
                    lemma_receipt_from_tlog_prefix(*self, *config, command_hash, tlog@, i as int + 1);
                }
                return r;
            }
            i = i + 1;
        }
        assert(tlog@.take(i as int) =~= tlog@);
        None
    }
}

proof fn lemma_receipt_from_tlog_prefix(
    call: OpenAiLlmCall,
    config: OpenAiConfig,
    command_hash: u64,
    tlog: Seq<ControlEvent>,
    i: int,
)
    requires
        0 < i <= tlog.len(),
        spec_receipt_from_tlog(call, config, command_hash, tlog.take(i)) is Some,
    ensures
        spec_receipt_from_tlog(call, config, command_hash, tlog) == spec_receipt_from_tlog(
            call,
            config,
            command_hash,
            tlog.take(i),
        ),
    decreases tlog.len() - i,
{
    if i < tlog.len() {
        assert(tlog.take(i + 1).drop_last() =~= tlog.take(i));
        lemma_receipt_from_tlog_prefix(call, config, command_hash, tlog, i + 1);
    } else {
        assert(tlog.take(i) =~= tlog);
    }
}

/// The receipt that binds an accepted call to the log event that persisted it.
#[derive(Clone, Copy, Debug, PartialEq, Eq, Structural)]
pub struct OpenAiLlmEffectReceipt {
    pub provider_hash: u64,
    pub base_url_hash: u64,
    pub model_id: u64,
    pub request_hash: u64,
    pub timeout_ms: u64,
    pub retry_count: u32,
    pub max_retries: u32,
    pub attempt_budget: u32,
    pub request_identity_hash: u64,
    pub retry_budget_hash: u64,
    pub budget_exhausted: bool,
    pub duplicate_request: bool,
    pub response_hash: u64,
    pub raw_response_hash: u64,
    pub prompt_hash: u64,
    pub token_count: u32,
    pub payload_hash: u64,
    pub command_hash: u64,
    pub event_seq: u64,
    pub event_hash: u64,
    pub proof_event_seq: u64,
    pub proof_hash: u64,
    pub receipt_hash: u64,
}

/// The retry fields of a receipt are those its own policy gives.
pub open spec fn spec_retry_budget_binding_is_valid(
    provider_hash: u64,
    base_url_hash: u64,
    model_id: u64,
    request_hash: u64,
    timeout_ms: u64,
    retry_count: u32,
    max_retries: u32,
    attempt_budget: u32,
    request_identity_hash: u64,
    retry_budget_hash: u64,
) -> bool {
    let policy = OpenAiRetryBudgetPolicy { timeout_ms, max_retries, attempt_budget };
    &&& spec_retry_budget_policy_valid(timeout_ms, max_retries, attempt_budget)
    &&& retry_count <= max_retries
    &&& retry_count < attempt_budget
    &&& retry_budget_hash == policy.spec_policy_hash()
    &&& request_identity_hash == policy.spec_request_identity_hash(
        provider_hash,
        base_url_hash,
        model_id,
        request_hash,
    )
}

fn retry_budget_binding_is_valid(
    provider_hash: u64,
    base_url_hash: u64,
    model_id: u64,
    request_hash: u64,
    timeout_ms: u64,
    retry_count: u32,
    max_retries: u32,
    attempt_budget: u32,
    request_identity_hash: u64,
    retry_budget_hash: u64,
) -> (r: bool)
    ensures
        r == spec_retry_budget_binding_is_valid(
            provider_hash,
            base_url_hash,
            model_id,
            request_hash,
            timeout_ms,
            retry_count,
            max_retries,
            attempt_budget,
            request_identity_hash,
            retry_budget_hash,
        ),
{
    let policy = match OpenAiRetryBudgetPolicy::new(timeout_ms, max_retries, attempt_budget) {
        Some(p) => p,
        None => {
            return false;
        },
    };
    retry_count <= max_retries && retry_count < attempt_budget && retry_budget_hash
        == policy.policy_hash() && request_identity_hash == policy.request_identity_hash(
        provider_hash,
        base_url_hash,
        model_id,
        request_hash,
    )
}

impl OpenAiLlmEffectReceipt {
    pub open spec fn core_fields(self) -> Seq<u64> {
        seq![
            self.provider_hash,
            self.base_url_hash,
            self.model_id,
            self.request_hash,
            self.timeout_ms,
            self.retry_count as u64,
            self.max_retries as u64,
            self.attempt_budget as u64,
            self.request_identity_hash,
            self.retry_budget_hash,
            b2u(self.budget_exhausted),
            b2u(self.duplicate_request),
            self.response_hash,
            self.raw_response_hash,
            self.prompt_hash,
            self.token_count as u64,
            self.payload_hash,
            self.command_hash,
            self.event_seq,
            self.event_hash,
        ]
    }

    pub open spec fn spec_expected_receipt_core_hash(self) -> u64 {
        nz(spec_fold_mix(0x4f50_454e_4149_5243u64, self.core_fields()))
    }

    pub open spec fn spec_expected_receipt_hash(self) -> u64 {
        nz(
            spec_mix(
                spec_mix(self.spec_expected_receipt_core_hash(), self.proof_event_seq),
                self.proof_hash,
            ),
        )
    }

    pub open spec fn spec_is_valid(self) -> bool {
        &&& self.provider_hash == openai_provider_hash()
        &&& self.base_url_hash != 0
        &&& self.model_id != 0
        &&& self.request_hash != 0
        &&& self.timeout_ms != 0
        &&& self.retry_count <= self.max_retries
        &&& self.attempt_budget != 0
        &&& self.attempt_budget <= self.max_retries + 1
        &&& self.retry_count < self.attempt_budget
        &&& self.request_identity_hash != 0
        &&& self.retry_budget_hash != 0
        &&& spec_retry_budget_binding_is_valid(
            self.provider_hash,
            self.base_url_hash,
            self.model_id,
            self.request_hash,
            self.timeout_ms,
            self.retry_count,
            self.max_retries,
            self.attempt_budget,
            self.request_identity_hash,
            self.retry_budget_hash,
        )
        &&& !self.duplicate_request
        &&& self.response_hash != 0
        &&& self.raw_response_hash != 0
        &&& self.prompt_hash != 0
        &&& self.token_count != 0
        &&& self.payload_hash != 0
        &&& self.command_hash != 0
        &&& self.event_seq != 0
        &&& self.event_hash != 0
        &&& ((self.proof_event_seq == 0 && self.proof_hash == 0) || (self.proof_event_seq
            > self.event_seq && self.proof_hash != 0))
        &&& self.receipt_hash != 0
        &&& self.receipt_hash == self.spec_expected_receipt_hash()
    }

    pub fn is_valid(self) -> (r: bool)
        ensures
            r == self.spec_is_valid(),
    {
        self.provider_hash == hash_text(OPENAI_COMPAT_PROVIDER) && self.base_url_hash != 0
            && self.model_id != 0 && self.request_hash != 0 && self.timeout_ms != 0
            && self.retry_count <= self.max_retries && self.attempt_budget != 0
            && (self.attempt_budget as u64) <= (self.max_retries as u64) + 1 && self.retry_count
            < self.attempt_budget && self.request_identity_hash != 0 && self.retry_budget_hash
            != 0 && retry_budget_binding_is_valid(
            self.provider_hash,
            self.base_url_hash,
            self.model_id,
            self.request_hash,
            self.timeout_ms,
            self.retry_count,
            self.max_retries,
            self.attempt_budget,
            self.request_identity_hash,
            self.retry_budget_hash,
        ) && !self.duplicate_request && self.response_hash != 0 && self.raw_response_hash != 0
            && self.prompt_hash != 0 && self.token_count != 0 && self.payload_hash != 0
            && self.command_hash != 0 && self.event_seq != 0 && self.event_hash != 0 && ((
        self.proof_event_seq == 0 && self.proof_hash == 0) || (self.proof_event_seq
            > self.event_seq && self.proof_hash != 0)) && self.receipt_hash != 0
            && self.receipt_hash == self.expected_receipt_hash()
    }

    pub fn has_proof_binding(self) -> (r: bool)
        ensures
            r == (self.spec_is_valid() && self.proof_event_seq != 0 && self.proof_hash != 0),
    {
        self.is_valid() && self.proof_event_seq != 0 && self.proof_hash != 0
    }

    pub fn expected_receipt_core_hash(self) -> (r: u64)
        ensures
            r == self.spec_expected_receipt_core_hash(),
    {
        let fields = [
            self.provider_hash,
            self.base_url_hash,
            self.model_id,
            self.request_hash,
            self.timeout_ms,
            self.retry_count as u64,
            self.max_retries as u64,
            self.attempt_budget as u64,
            self.request_identity_hash,
            self.retry_budget_hash,
            bool_u64(self.budget_exhausted),
            bool_u64(self.duplicate_request),
            self.response_hash,
            self.raw_response_hash,
            self.prompt_hash,
            self.token_count as u64,
            self.payload_hash,
            self.command_hash,
            self.event_seq,
            self.event_hash,
        ];
        assert(fields@ =~= self.core_fields());
        nonzero(fold_mix(0x4f50_454e_4149_5243u64, &fields))
    }

    pub fn expected_receipt_hash(self) -> (r: u64)
        ensures
            r == self.spec_expected_receipt_hash(),
    {
        let mut h = self.expected_receipt_core_hash();
        h = mix(h, self.proof_event_seq);
        h = mix(h, self.proof_hash);
        nonzero(h)
    }

    pub open spec fn spec_bind_proof_event(self, proof_event_seq: u64, proof_hash: u64) -> Option<
        Self,
    > {
        if !self.spec_is_valid() || proof_event_seq == 0 || proof_hash == 0 || proof_event_seq
            <= self.event_seq {
            None
        } else {
            let unsealed = OpenAiLlmEffectReceipt {
                proof_event_seq,
                proof_hash,
                receipt_hash: 0,
                ..self
            };
            let receipt = OpenAiLlmEffectReceipt {
                receipt_hash: unsealed.spec_expected_receipt_hash(),
                ..unsealed
            };
            if receipt.spec_is_valid() {
                Some(receipt)
            } else {
                None
            }
        }
    }

    /// The receipt bound to a later proof event.
    pub fn bind_proof_event(self, proof_event_seq: u64, proof_hash: u64) -> (r: Option<Self>)
        ensures
            r == self.spec_bind_proof_event(proof_event_seq, proof_hash),
    {
        if !self.is_valid() || proof_event_seq == 0 || proof_hash == 0 || proof_event_seq
            <= self.event_seq {
            return None;
        }
        let mut receipt = OpenAiLlmEffectReceipt {
            proof_event_seq,
            proof_hash,
            receipt_hash: 0,
            ..self
        };
        receipt.receipt_hash = receipt.expected_receipt_hash();
        if receipt.is_valid() {
            Some(receipt)
        } else {
            None
        }
    }

    pub open spec fn spec_matches_event(self, event: ControlEvent) -> bool {
        &&& self.spec_is_valid()
        &&& event.seq == self.event_seq
        &&& event.self_hash == self.event_hash
        &&& event.api_command_hash == self.command_hash
        &&& is_persisted_judgment(event)
    }

    /// Whether the event is the one that persisted this receipt's judgment.
    pub fn matches_event(self, event: &ControlEvent) -> (r: bool)
        ensures
            r == self.spec_matches_event(*event),
    {
        self.is_valid() && event.seq == self.event_seq && event.self_hash == self.event_hash
            && event.api_command_hash == self.command_hash && persisted_judgment(event)
    }

    pub open spec fn spec_replay_verified(self, tlog: Seq<ControlEvent>) -> bool {
        self.spec_is_valid() && exists|i: int|
            0 <= i < tlog.len() && self.spec_matches_event(#[trigger] tlog[i])
    }

    /// Whether the log holds the event this receipt binds.
    pub fn replay_verified(self, tlog: &[ControlEvent]) -> (r: bool)
        ensures
            r == self.spec_replay_verified(tlog@),
    {
        if !self.is_valid() {
            return false;
        }
        let mut i: usize = 0;
        while i < tlog.len()
            invariant
                i <= tlog@.len(),
                forall|k: int| 0 <= k < i ==> !self.spec_matches_event(#[trigger] tlog@[k]),
            decreases tlog@.len() - i,
        {
            if self.matches_event(&tlog[i]) {
                return true;
            }
            i = i + 1;
        }
        false
    }

    pub open spec fn spec_base_url_provenance_verified(self, config: OpenAiConfig) -> bool {
        &&& spec_config_error(config) is None
        &&& self.spec_is_valid()
        &&& self.base_url_hash == spec_provider_text_hash(encode_utf8(config.base_url@))
        &&& self.model_id == spec_provider_text_hash(encode_utf8(config.model@))
        &&& self.timeout_ms == config.timeout_ms
    }

    pub fn base_url_provenance_verified(self, config: &OpenAiConfig) -> (r: bool)
        ensures
            r == self.spec_base_url_provenance_verified(*config),
    {
        config.validate().is_ok() && self.is_valid() && self.provider_hash == hash_text(
            OPENAI_COMPAT_PROVIDER,
        ) && self.base_url_hash == config.base_url_id() && self.model_id == config.model_id()
            && self.timeout_ms == config.timeout_ms && !self.duplicate_request
    }

    pub open spec fn authority_fields(self) -> Seq<u64> {
        seq![
            self.provider_hash,
            self.base_url_hash,
            self.model_id,
            self.timeout_ms,
            self.max_retries as u64,
            self.attempt_budget as u64,
            self.retry_budget_hash,
        ]
    }

    /// The hash of who the call was made to and under what budget.
    pub fn canonical_authority_hash(self) -> (r: Option<u64>)
        ensures
            r == (if self.spec_is_valid() {
                Some(nz(spec_fold_mix(0x4f50_454e_4149_4155u64, self.authority_fields())))
            } else {
                None
            }),
    {
        if !self.is_valid() {
            return None;
        }
        let fields = [
            self.provider_hash,
            self.base_url_hash,
            self.model_id,
            self.timeout_ms,
            self.max_retries as u64,
            self.attempt_budget as u64,
            self.retry_budget_hash,
        ];
        assert(fields@ =~= self.authority_fields());
        Some(nonzero(fold_mix(0x4f50_454e_4149_4155u64, &fields)))
    }

    /// The hash of what was asked and by which command.
    pub fn canonical_request_hash(self) -> (r: Option<u64>)
        ensures
            r == (if self.spec_is_valid() {
                Some(
                    nz(
                        spec_fold_mix(
                            0x4f50_454e_4149_5251u64,
                            seq![self.request_hash, self.command_hash, self.request_identity_hash],
                        ),
                    ),
                )
            } else {
                None
            }),
    {
        if !self.is_valid() {
            return None;
        }
        let fields = [self.request_hash, self.command_hash, self.request_identity_hash];
        assert(fields@ =~= seq![self.request_hash, self.command_hash, self.request_identity_hash]);
        Some(nonzero(fold_mix(0x4f50_454e_4149_5251u64, &fields)))
    }
}

impl OpenAiClient {
    /// The call a reply makes under its retry decision: refused when the
    /// decision cannot back a receipt or its timeout is not the configured
    /// one, and when the resulting call is not valid.
    pub fn call_from_response(
        &self,
        context: &ContextRecord,
        policy: &PolicyStore,
        request_hash: u64,
        response: OpenAiChatResponse,
        retry_budget: OpenAiRetryBudgetDecision,
    ) -> (r: Result<OpenAiLlmCall, OpenAiError>)
        ensures
            ({
                let cfg = self.spec_config();
                let model_id = spec_provider_text_hash(encode_utf8(cfg.model@));
                let accepted = retry_budget.spec_is_receiptable_success() && retry_budget.timeout_ms
                    == cfg.timeout_ms;
                let call = spec_new_call(
                    spec_record_with_response(
                        *context,
                        policy@,
                        model_id,
                        response.response_hash,
                        if response.total_tokens == 0 {
                            1
                        } else {
                            response.total_tokens
                        },
                    ),
                    model_id,
                    spec_provider_text_hash(encode_utf8(cfg.base_url@)),
                    request_hash,
                    response.raw_hash,
                    retry_budget,
                );
                match r {
                    Ok(c) => accepted && c == call && c.spec_is_valid(),
                    Err(OpenAiError::BudgetExhausted) => !accepted,
                    Err(OpenAiError::InvalidResponse) => accepted && !call.spec_is_valid(),
                    Err(_) => false,
                }
            }),
    {
        if !retry_budget.is_receiptable_success() || retry_budget.timeout_ms
            != self.config.timeout_ms {
            return Err(OpenAiError::BudgetExhausted);
        }
        let model_id = self.config.model_id();
        let tokens = if response.total_tokens == 0 {
            1
        } else {
            response.total_tokens
        };
        let record = LlmStructuredAdapter::record_from_external_response(
            context,
            policy,
            model_id,
            response.response_hash,
            tokens,
        );
        let call = OpenAiLlmCall::new(
            record,
            model_id,
            self.config.base_url_id(),
            request_hash,
            &response,
            retry_budget,
        );
        if call.is_valid() {
            Ok(call)
        } else {
            Err(OpenAiError::InvalidResponse)
        }
    }
}

/// The hash of the proof line every judgment proof event carries.
pub open spec fn openai_proof_line_hash() -> u64 {
    spec_hash_text(encode_utf8(OPENAI_JUDGMENT_PROOF_LINE@))
}

/// The event that proves a receipt was checked after the log was written.
#[derive(Clone, Copy, Debug, PartialEq, Eq, Structural)]
pub struct OpenAiJudgmentProofEvent {
    pub proof_line_hash: u64,
    pub receipt_core_hash: u64,
    pub receipt_hash: u64,
    pub receipt_event_seq: u64,
    pub proof_event_seq: u64,
    pub receipt_event_hash: u64,
    pub base_url_hash: u64,
    pub model_id: u64,
    pub timeout_ms: u64,
    pub retry_count: u32,
    pub max_retries: u32,
    pub attempt_budget: u32,
    pub request_identity_hash: u64,
    pub retry_budget_hash: u64,
    pub budget_exhausted: bool,
    pub duplicate_request: bool,
    pub receipt_verified: bool,
    pub tamper_rejected: bool,
    pub endpoint_verified: bool,
    pub phase_plan: bool,
    pub proof_hash: u64,
}

/// The proof event and bound receipt for a receipt checked at `proof_event_seq`.
pub open spec fn spec_finalize_receipt_at_seq(
    receipt: OpenAiLlmEffectReceipt,
    proof_event_seq: u64,
    receipt_verified: bool,
    tamper_rejected: bool,
    endpoint_verified: bool,
    phase_plan: bool,
) -> Option<(OpenAiLlmEffectReceipt, OpenAiJudgmentProofEvent)> {
    if !receipt.spec_is_valid() || !receipt_verified || !tamper_rejected || !endpoint_verified
        || !phase_plan || proof_event_seq <= receipt.event_seq {
        None
    } else {
        let unsealed = OpenAiJudgmentProofEvent {
            proof_line_hash: openai_proof_line_hash(),
            receipt_core_hash: receipt.spec_expected_receipt_core_hash(),
            receipt_hash: 0,
            receipt_event_seq: receipt.event_seq,
            proof_event_seq,
            receipt_event_hash: receipt.event_hash,
            base_url_hash: receipt.base_url_hash,
            model_id: receipt.model_id,
            timeout_ms: receipt.timeout_ms,
            retry_count: receipt.retry_count,
            max_retries: receipt.max_retries,
            attempt_budget: receipt.attempt_budget,
            request_identity_hash: receipt.request_identity_hash,
            retry_budget_hash: receipt.retry_budget_hash,
            budget_exhausted: receipt.budget_exhausted,
            duplicate_request: receipt.duplicate_request,
            receipt_verified,
            tamper_rejected,
            endpoint_verified,
            phase_plan,
            proof_hash: 0,
        };
        let proven = OpenAiJudgmentProofEvent {
            proof_hash: unsealed.spec_expected_proof_hash(),
            ..unsealed
        };
        match receipt.spec_bind_proof_event(proof_event_seq, proven.proof_hash) {
            None => None,
            Some(bound) => {
                let event = OpenAiJudgmentProofEvent { receipt_hash: bound.receipt_hash, ..proven };
                if event.spec_is_valid() {
                    Some((bound, event))
                } else {
                    None
                }
            },
        }
    }
}

impl OpenAiJudgmentProofEvent {
    pub open spec fn proof_fields(self) -> Seq<u64> {
        seq![
            self.proof_line_hash,
            self.receipt_core_hash,
            self.receipt_event_seq,
            self.proof_event_seq,
            self.receipt_event_hash,
            self.base_url_hash,
            self.model_id,
            self.timeout_ms,
            self.retry_count as u64,
            self.max_retries as u64,
            self.attempt_budget as u64,
            self.request_identity_hash,
            self.retry_budget_hash,
            b2u(self.budget_exhausted),
            b2u(self.duplicate_request),
            b2u(self.receipt_verified),
            b2u(self.tamper_rejected),
            b2u(self.endpoint_verified),
            b2u(self.phase_plan),
        ]
    }

    pub open spec fn spec_expected_proof_hash(self) -> u64 {
        nz(spec_fold_mix(0x4f50_454e_4149_5052u64, self.proof_fields()))
    }

    pub open spec fn spec_is_valid(self) -> bool {
        &&& self.proof_line_hash == openai_proof_line_hash()
        &&& self.receipt_core_hash != 0
        &&& self.receipt_hash != 0
        &&& self.receipt_event_seq != 0
        &&& self.proof_event_seq > self.receipt_event_seq
        &&& self.receipt_event_hash != 0
        &&& self.base_url_hash != 0
        &&& self.model_id != 0
        &&& self.timeout_ms != 0
        &&& self.retry_count <= self.max_retries
        &&& self.attempt_budget != 0
        &&& self.request_identity_hash != 0
        &&& self.retry_budget_hash != 0
        &&& self.receipt_verified
        &&& self.tamper_rejected
        &&& self.endpoint_verified
        &&& self.phase_plan
        &&& self.proof_hash == self.spec_expected_proof_hash()
    }

    fn finalize_receipt_at_seq(
        receipt: OpenAiLlmEffectReceipt,
        proof_event_seq: u64,
        receipt_verified: bool,
        tamper_rejected: bool,
        endpoint_verified: bool,
        phase_plan: bool,
    ) -> (r: Option<(OpenAiLlmEffectReceipt, Self)>)
        ensures
            r == spec_finalize_receipt_at_seq(
                receipt,
                proof_event_seq,
                receipt_verified,
                tamper_rejected,
                endpoint_verified,
                phase_plan,
            ),
    {
        if !receipt.is_valid() || !receipt_verified || !tamper_rejected || !endpoint_verified
            || !phase_plan || proof_event_seq <= receipt.event_seq {
            return None;
        }
        let mut event = OpenAiJudgmentProofEvent {
            proof_line_hash: hash_text(OPENAI_JUDGMENT_PROOF_LINE),
            receipt_core_hash: receipt.expected_receipt_core_hash(),
            receipt_hash: 0,
            receipt_event_seq: receipt.event_seq,
            proof_event_seq,
            receipt_event_hash: receipt.event_hash,
            base_url_hash: receipt.base_url_hash,
            model_id: receipt.model_id,
            timeout_ms: receipt.timeout_ms,
            retry_count: receipt.retry_count,
            max_retries: receipt.max_retries,
            attempt_budget: receipt.attempt_budget,
            request_identity_hash: receipt.request_identity_hash,
            retry_budget_hash: receipt.retry_budget_hash,
            budget_exhausted: receipt.budget_exhausted,
            duplicate_request: receipt.duplicate_request,
            receipt_verified,
            tamper_rejected,
            endpoint_verified,
            phase_plan,
            proof_hash: 0,
        };
        event.proof_hash = event.expected_proof_hash();
        let finalized = match receipt.bind_proof_event(event.proof_event_seq, event.proof_hash) {
            Some(f) => f,
            None => {
                return None;
            },
        };
        event.receipt_hash = finalized.receipt_hash;
        if event.is_valid() {
            Some((finalized, event))
        } else {
            None
        }
    }

    /// Binds a replayed receipt to the proof event that follows the log.
    pub fn finalize_receipt_after_tlog(
        receipt: OpenAiLlmEffectReceipt,
        tlog: &[ControlEvent],
        receipt_verified: bool,
        tamper_rejected: bool,
        endpoint_verified: bool,
        phase_plan: bool,
    ) -> (r: Option<(OpenAiLlmEffectReceipt, Self)>)
        ensures
            r == (if !receipt.spec_replay_verified(tlog@) {
                None
            } else {
                spec_finalize_receipt_at_seq(
                    receipt,
                    if tlog@.len() > 0 {
                        sat_succ(tlog@.last().seq)
                    } else {
                        sat_succ(receipt.event_seq)
                    },
                    receipt_verified,
                    tamper_rejected,
                    endpoint_verified,
                    phase_plan,
                )
            }),
    {
        if !receipt.replay_verified(tlog) {
            return None;
        }
        let base = if tlog.len() > 0 {
            tlog[tlog.len() - 1].seq
        } else {
            receipt.event_seq
        };
        let proof_event_seq = if base == u64::MAX {
            u64::MAX
        } else {
            base + 1
        };
        Self::finalize_receipt_at_seq(
            receipt,
            proof_event_seq,
            receipt_verified,
            tamper_rejected,
            endpoint_verified,
            phase_plan,
        )
    }

    pub fn is_valid(self) -> (r: bool)
        ensures
            r == self.spec_is_valid(),
    {
        self.proof_line_hash == hash_text(OPENAI_JUDGMENT_PROOF_LINE) && self.receipt_core_hash
            != 0 && self.receipt_hash != 0 && self.receipt_event_seq != 0 && self.proof_event_seq
            > self.receipt_event_seq && self.receipt_event_hash != 0 && self.base_url_hash != 0
            && self.model_id != 0 && self.timeout_ms != 0 && self.retry_count <= self.max_retries
            && self.attempt_budget != 0 && self.request_identity_hash != 0
            && self.retry_budget_hash != 0 && self.receipt_verified && self.tamper_rejected
            && self.endpoint_verified && self.phase_plan && self.proof_hash
            == self.expected_proof_hash()
    }

    pub fn expected_proof_hash(self) -> (r: u64)
        ensures
            r == self.spec_expected_proof_hash(),
    {
        let fields = [
            self.proof_line_hash,
            self.receipt_core_hash,
            self.receipt_event_seq,
            self.proof_event_seq,
            self.receipt_event_hash,
            self.base_url_hash,
            self.model_id,
            self.timeout_ms,
            self.retry_count as u64,
            self.max_retries as u64,
            self.attempt_budget as u64,
            self.request_identity_hash,
            self.retry_budget_hash,
            bool_u64(self.budget_exhausted),
            bool_u64(self.duplicate_request),
            bool_u64(self.receipt_verified),
            bool_u64(self.tamper_rejected),
            bool_u64(self.endpoint_verified),
            bool_u64(self.phase_plan),
        ];
        assert(fields@ =~= self.proof_fields());
        nonzero(fold_mix(0x4f50_454e_4149_5052u64, &fields))
    }

    pub open spec fn spec_proof_flags(self) -> u64 {
        let f0: u64 = 0;
        let f1: u64 = if self.receipt_verified {
            f0 | PROOF_FLAG_RECEIPT_VERIFIED
        } else {
            f0
        };
        let f2: u64 = if self.tamper_rejected {
            f1 | PROOF_FLAG_TAMPER_REJECTED
        } else {
            f1
        };
        let f3: u64 = if self.endpoint_verified {
            f2 | PROOF_FLAG_PROVENANCE_VERIFIED
        } else {
            f2
        };
        if self.phase_plan {
            f3 | PROOF_FLAG_PHASE_VERIFIED
        } else {
            f3
        }
    }

    /// The verification flags the event asserts.
    pub fn proof_flags(self) -> (r: u64)
        ensures
            r == self.spec_proof_flags(),
    {
        let mut flags: u64 = 0;
        if self.receipt_verified {
            flags = flags | PROOF_FLAG_RECEIPT_VERIFIED;
        }
        if self.tamper_rejected {
            flags = flags | PROOF_FLAG_TAMPER_REJECTED;
        }
        if self.endpoint_verified {
            flags = flags | PROOF_FLAG_PROVENANCE_VERIFIED;
        }
        if self.phase_plan {
            flags = flags | PROOF_FLAG_PHASE_VERIFIED;
        }
        flags
    }

    pub open spec fn context_fields(self) -> Seq<u64> {
        seq![
            self.base_url_hash,
            self.model_id,
            self.timeout_ms,
            self.retry_count as u64,
            self.max_retries as u64,
            self.attempt_budget as u64,
            self.request_identity_hash,
            self.retry_budget_hash,
            b2u(self.budget_exhausted),
            b2u(self.duplicate_request),
        ]
    }

    /// The hash of the endpoint and budget the verifier checked against.
    pub fn verifier_context_hash(self) -> (r: u64)
        ensures
            r == nz(spec_fold_mix(0x4f50_454e_4149_4354u64, self.context_fields())),
    {
        let fields = [
            self.base_url_hash,
            self.model_id,
            self.timeout_ms,
            self.retry_count as u64,
            self.max_retries as u64,
            self.attempt_budget as u64,
            self.request_identity_hash,
            self.retry_budget_hash,
            bool_u64(self.budget_exhausted),
            bool_u64(self.duplicate_request),
        ];
        assert(fields@ =~= self.context_fields());
        nonzero(fold_mix(0x4f50_454e_4149_4354u64, &fields))
    }

    pub open spec fn spec_matches_receipt(
        self,
        receipt: OpenAiLlmEffectReceipt,
        tlog: Seq<ControlEvent>,
    ) -> bool {
        &&& self.spec_is_valid()
        &&& receipt.spec_replay_verified(tlog)
        &&& receipt.spec_is_valid() && receipt.proof_event_seq != 0 && receipt.proof_hash != 0
        &&& self.proof_hash == receipt.proof_hash
        &&& self.receipt_hash == receipt.receipt_hash
        &&& self.receipt_core_hash == receipt.spec_expected_receipt_core_hash()
        &&& self.receipt_event_seq == receipt.event_seq
        &&& self.proof_event_seq == receipt.proof_event_seq
        &&& self.receipt_event_hash == receipt.event_hash
        &&& self.base_url_hash == receipt.base_url_hash
        &&& self.model_id == receipt.model_id
        &&& self.timeout_ms == receipt.timeout_ms
        &&& self.retry_count == receipt.retry_count
        &&& self.max_retries == receipt.max_retries
        &&& self.attempt_budget == receipt.attempt_budget
        &&& self.request_identity_hash == receipt.request_identity_hash
        &&& self.retry_budget_hash == receipt.retry_budget_hash
        &&& self.budget_exhausted == receipt.budget_exhausted
        &&& self.duplicate_request == receipt.duplicate_request
    }

    /// Whether this event proves the given replayed, bound receipt.
    pub fn matches_receipt(self, receipt: OpenAiLlmEffectReceipt, tlog: &[ControlEvent]) -> (r:
        bool)
        ensures
            r == self.spec_matches_receipt(receipt, tlog@),
    {
        self.is_valid() && receipt.replay_verified(tlog) && receipt.has_proof_binding()
            && self.proof_hash == receipt.proof_hash && self.receipt_hash == receipt.receipt_hash
            && self.receipt_core_hash == receipt.expected_receipt_core_hash()
            && self.receipt_event_seq == receipt.event_seq && self.proof_event_seq
            == receipt.proof_event_seq && self.receipt_event_hash == receipt.event_hash
            && self.base_url_hash == receipt.base_url_hash && self.model_id == receipt.model_id
            && self.timeout_ms == receipt.timeout_ms && self.retry_count == receipt.retry_count
            && self.max_retries == receipt.max_retries && self.attempt_budget
            == receipt.attempt_budget && self.request_identity_hash
            == receipt.request_identity_hash && self.retry_budget_hash
            == receipt.retry_budget_hash && self.budget_exhausted == receipt.budget_exhausted
            && self.duplicate_request == receipt.duplicate_request
    }
}

/// Checks that every receipt replays against the log; the count of receipts when all do.
pub fn verify_openai_llm_effect_receipts(
    tlog: &[ControlEvent],
    receipts: &[OpenAiLlmEffectReceipt],
) -> (r: Result<usize, OpenAiError>)
    ensures
        match r {
            Ok(n) => n == receipts@.len() && forall|i: int|
                0 <= i < receipts@.len() ==> (#[trigger] receipts@[i]).spec_replay_verified(tlog@),
            Err(e) => e is InvalidReplay && exists|i: int|
                0 <= i < receipts@.len() && !(#[trigger] receipts@[i]).spec_replay_verified(
                    tlog@,
                ),
        },
{
    let mut i: usize = 0;
    while i < receipts.len()
        invariant
            i <= receipts@.len(),
            forall|k: int| 0 <= k < i ==> (#[trigger] receipts@[k]).spec_replay_verified(tlog@),
        decreases receipts@.len() - i,
    {
        if !receipts[i].replay_verified(tlog) {
            return Err(OpenAiError::InvalidReplay);
        }
        i = i + 1;
    }
    Ok(receipts.len())
}

/// The fields of a receipt's record line.
pub open spec fn receipt_record_fields(r: OpenAiLlmEffectReceipt) -> Seq<u64> {
    seq![
        OPENAI_LLM_EFFECT_RECEIPT_SCHEMA_VERSION,
        OPENAI_LLM_EFFECT_RECEIPT_RECORD,
        r.provider_hash,
        r.base_url_hash,
        r.model_id,
        r.request_hash,
        r.timeout_ms,
        r.retry_count as u64,
        r.max_retries as u64,
        r.attempt_budget as u64,
        r.request_identity_hash,
        r.retry_budget_hash,
        b2u(r.budget_exhausted),
        b2u(r.duplicate_request),
        r.response_hash,
        r.raw_response_hash,
        r.prompt_hash,
        r.token_count as u64,
        r.payload_hash,
        r.command_hash,
        r.event_seq,
        r.event_hash,
        r.proof_event_seq,
        r.proof_hash,
        r.receipt_hash,
    ]
}

pub fn encode_openai_llm_effect_receipt_ndjson(receipt: OpenAiLlmEffectReceipt) -> (r: String)
    ensures
        r@ == encode_u64_list(receipt_record_fields(receipt)),
{
    let fields = [
        OPENAI_LLM_EFFECT_RECEIPT_SCHEMA_VERSION,
        OPENAI_LLM_EFFECT_RECEIPT_RECORD,
        receipt.provider_hash,
        receipt.base_url_hash,
        receipt.model_id,
        receipt.request_hash,
        receipt.timeout_ms,
        receipt.retry_count as u64,
        receipt.max_retries as u64,
        receipt.attempt_budget as u64,
        receipt.request_identity_hash,
        receipt.retry_budget_hash,
        bool_u64(receipt.budget_exhausted),
        bool_u64(receipt.duplicate_request),
        receipt.response_hash,
        receipt.raw_response_hash,
        receipt.prompt_hash,
        receipt.token_count as u64,
        receipt.payload_hash,
        receipt.command_hash,
        receipt.event_seq,
        receipt.event_hash,
        receipt.proof_event_seq,
        receipt.proof_hash,
        receipt.receipt_hash,
    ];
    assert(fields@ =~= receipt_record_fields(receipt));
    encode_u64_fields_ndjson(&fields)
}

/// The fields of a proof event's record line.
pub open spec fn proof_event_record_fields(e: OpenAiJudgmentProofEvent) -> Seq<u64> {
    seq![
        OPENAI_JUDGMENT_PROOF_SCHEMA_VERSION,
        OPENAI_JUDGMENT_PROOF_RECORD,
        e.proof_line_hash,
        e.receipt_core_hash,
        e.receipt_hash,
        e.receipt_event_seq,
        e.proof_event_seq,
        e.receipt_event_hash,
        e.base_url_hash,
        e.model_id,
        e.timeout_ms,
        e.retry_count as u64,
        e.max_retries as u64,
        e.attempt_budget as u64,
        e.request_identity_hash,
        e.retry_budget_hash,
        b2u(e.budget_exhausted),
        b2u(e.duplicate_request),
        b2u(e.receipt_verified),
        b2u(e.tamper_rejected),
        b2u(e.endpoint_verified),
        b2u(e.phase_plan),
        e.proof_hash,
    ]
}

pub fn encode_openai_judgment_proof_event_ndjson(event: OpenAiJudgmentProofEvent) -> (r: String)
    ensures
        r@ == encode_u64_list(proof_event_record_fields(event)),
{
    let fields = [
        OPENAI_JUDGMENT_PROOF_SCHEMA_VERSION,
        OPENAI_JUDGMENT_PROOF_RECORD,
        event.proof_line_hash,
        event.receipt_core_hash,
        event.receipt_hash,
        event.receipt_event_seq,
        event.proof_event_seq,
        event.receipt_event_hash,
        event.base_url_hash,
        event.model_id,
        event.timeout_ms,
        event.retry_count as u64,
        event.max_retries as u64,
        event.attempt_budget as u64,
        event.request_identity_hash,
        event.retry_budget_hash,
        bool_u64(event.budget_exhausted),
        bool_u64(event.duplicate_request),
        bool_u64(event.receipt_verified),
        bool_u64(event.tamper_rejected),
        bool_u64(event.endpoint_verified),
        bool_u64(event.phase_plan),
        event.proof_hash,
    ];
    assert(fields@ =~= proof_event_record_fields(event));
    encode_u64_fields_ndjson(&fields)
}

/// The receipt a record line's fields describe, before its own checks:
/// the right length, schema and tag, and counts that fit in 32 bits.
pub open spec fn spec_receipt_from_fields(f: Seq<u64>) -> Option<OpenAiLlmEffectReceipt> {
    if f.len() != 25 || f[0] != OPENAI_LLM_EFFECT_RECEIPT_SCHEMA_VERSION || f[1]
        != OPENAI_LLM_EFFECT_RECEIPT_RECORD || f[7] > u32::MAX || f[8] > u32::MAX || f[9]
        > u32::MAX || f[17] > u32::MAX {
        None
    } else {
        Some(
            OpenAiLlmEffectReceipt {
                provider_hash: f[2],
                base_url_hash: f[3],
                model_id: f[4],
                request_hash: f[5],
                timeout_ms: f[6],
                retry_count: f[7] as u32,
                max_retries: f[8] as u32,
                attempt_budget: f[9] as u32,
                request_identity_hash: f[10],
                retry_budget_hash: f[11],
                budget_exhausted: f[12] == 1,
                duplicate_request: f[13] == 1,
                response_hash: f[14],
                raw_response_hash: f[15],
                prompt_hash: f[16],
                token_count: f[17] as u32,
                payload_hash: f[18],
                command_hash: f[19],
                event_seq: f[20],
                event_hash: f[21],
                proof_event_seq: f[22],
                proof_hash: f[23],
                receipt_hash: f[24],
            },
        )
    }
}

/// A receipt from a record line's fields, without checking the receipt itself.
pub fn decode_openai_llm_effect_receipt_fields_unchecked(fields: &[u64]) -> (r: Result<
    OpenAiLlmEffectReceipt,
    OpenAiError,
>)
    ensures
        match r {
            Ok(receipt) => spec_receipt_from_fields(fields@) == Some(receipt),
            Err(e) => spec_receipt_from_fields(fields@) is None && e is InvalidReceiptRecord,
        },
{
    if fields.len() != 25 || fields[0] != OPENAI_LLM_EFFECT_RECEIPT_SCHEMA_VERSION || fields[1]
        != OPENAI_LLM_EFFECT_RECEIPT_RECORD || fields[7] > 0xffff_ffff || fields[8] > 0xffff_ffff
        || fields[9] > 0xffff_ffff || fields[17] > 0xffff_ffff {
        return Err(OpenAiError::InvalidReceiptRecord);
    }
    Ok(
        OpenAiLlmEffectReceipt {
            provider_hash: fields[2],
            base_url_hash: fields[3],
            model_id: fields[4],
            request_hash: fields[5],
            timeout_ms: fields[6],
            retry_count: fields[7] as u32,
            max_retries: fields[8] as u32,
            attempt_budget: fields[9] as u32,
            request_identity_hash: fields[10],
            retry_budget_hash: fields[11],
            budget_exhausted: fields[12] == 1,
            duplicate_request: fields[13] == 1,
            response_hash: fields[14],
            raw_response_hash: fields[15],
            prompt_hash: fields[16],
            token_count: fields[17] as u32,
            payload_hash: fields[18],
            command_hash: fields[19],
            event_seq: fields[20],
            event_hash: fields[21],
            proof_event_seq: fields[22],
            proof_hash: fields[23],
            receipt_hash: fields[24],
        },
    )
}

/// A valid receipt from a record line's fields.
pub fn decode_openai_llm_effect_receipt_fields(fields: &[u64]) -> (r: Result<
    OpenAiLlmEffectReceipt,
    OpenAiError,
>)
    ensures
        match r {
            Ok(receipt) => spec_receipt_from_fields(fields@) == Some(receipt)
                && receipt.spec_is_valid(),
            Err(OpenAiError::InvalidReceiptRecord) => spec_receipt_from_fields(fields@) is None,
            Err(OpenAiError::InvalidReceipt) => spec_receipt_from_fields(fields@) is Some
                && !spec_receipt_from_fields(fields@)->0.spec_is_valid(),
            Err(_) => false,
        },
{
    let receipt = match decode_openai_llm_effect_receipt_fields_unchecked(fields) {
        Ok(r) => r,
        Err(e) => {
            return Err(e);
        },
    };
    if receipt.is_valid() {
        Ok(receipt)
    } else {
        Err(OpenAiError::InvalidReceipt)
    }
}

/// The fields of a record line, refused when the line is not one.
pub fn parse_openai_fields(line: &str) -> (r: Result<Vec<u64>, OpenAiError>)
    ensures
        match r {
            Ok(v) => spec_parse_u64_fields(line@) == Some(v@),
            Err(e) => spec_parse_u64_fields(line@) is None && e is InvalidReceiptRecord,
        },
{
    match parse_u64_fields(line) {
        Some(v) => Ok(v),
        None => Err(OpenAiError::InvalidReceiptRecord),
    }
}

/// The valid receipt a record line holds.
pub fn decode_openai_llm_effect_receipt_ndjson(line: &str) -> (r: Result<
    OpenAiLlmEffectReceipt,
    OpenAiError,
>)
    ensures
        match spec_parse_u64_fields(line@) {
            None => r matches Err(OpenAiError::InvalidReceiptRecord),
            Some(f) => match r {
                Ok(receipt) => spec_receipt_from_fields(f) == Some(receipt)
                    && receipt.spec_is_valid(),
                Err(OpenAiError::InvalidReceiptRecord) => spec_receipt_from_fields(f) is None,
                Err(OpenAiError::InvalidReceipt) => spec_receipt_from_fields(f) is Some
                    && !spec_receipt_from_fields(f)->0.spec_is_valid(),
                Err(_) => false,
            },
        },
{
    let fields = match parse_openai_fields(line) {
        Ok(f) => f,
        Err(e) => {
            return Err(e);
        },
    };
    decode_openai_llm_effect_receipt_fields(fields.as_slice())
}

/// The proof event a record line's fields describe, before its own checks.
pub open spec fn spec_proof_event_from_fields(f: Seq<u64>) -> Option<OpenAiJudgmentProofEvent> {
    if f.len() != 23 || f[0] != OPENAI_JUDGMENT_PROOF_SCHEMA_VERSION || f[1]
        != OPENAI_JUDGMENT_PROOF_RECORD || f[11] > u32::MAX || f[12] > u32::MAX || f[13]
        > u32::MAX {
        None
    } else {
        Some(
            OpenAiJudgmentProofEvent {
                proof_line_hash: f[2],
                receipt_core_hash: f[3],
                receipt_hash: f[4],
                receipt_event_seq: f[5],
                proof_event_seq: f[6],
                receipt_event_hash: f[7],
                base_url_hash: f[8],
                model_id: f[9],
                timeout_ms: f[10],
                retry_count: f[11] as u32,
                max_retries: f[12] as u32,
                attempt_budget: f[13] as u32,
                request_identity_hash: f[14],
                retry_budget_hash: f[15],
                budget_exhausted: f[16] == 1,
                duplicate_request: f[17] == 1,
                receipt_verified: f[18] == 1,
                tamper_rejected: f[19] == 1,
                endpoint_verified: f[20] == 1,
                phase_plan: f[21] == 1,
                proof_hash: f[22],
            },
        )
    }
}

/// A valid proof event from a record line's fields.
pub fn decode_openai_judgment_proof_event_fields(fields: &[u64]) -> (r: Result<
    OpenAiJudgmentProofEvent,
    OpenAiError,
>)
    ensures
        match r {
            Ok(event) => spec_proof_event_from_fields(fields@) == Some(event)
                && event.spec_is_valid(),
            Err(OpenAiError::InvalidReceiptRecord) => spec_proof_event_from_fields(fields@) is None,
            Err(OpenAiError::InvalidReceipt) => spec_proof_event_from_fields(fields@) is Some
                && !spec_proof_event_from_fields(fields@)->0.spec_is_valid(),
            Err(_) => false,
        },
{
    if fields.len() != 23 || fields[0] != OPENAI_JUDGMENT_PROOF_SCHEMA_VERSION || fields[1]
        != OPENAI_JUDGMENT_PROOF_RECORD || fields[11] > 0xffff_ffff || fields[12] > 0xffff_ffff
        || fields[13] > 0xffff_ffff {
        return Err(OpenAiError::InvalidReceiptRecord);
    }
    let event = OpenAiJudgmentProofEvent {
        proof_line_hash: fields[2],
        receipt_core_hash: fields[3],
        receipt_hash: fields[4],
        receipt_event_seq: fields[5],
        proof_event_seq: fields[6],
        receipt_event_hash: fields[7],
        base_url_hash: fields[8],
        model_id: fields[9],
        timeout_ms: fields[10],
        retry_count: fields[11] as u32,
        max_retries: fields[12] as u32,
        attempt_budget: fields[13] as u32,
        request_identity_hash: fields[14],
        retry_budget_hash: fields[15],
        budget_exhausted: fields[16] == 1,
        duplicate_request: fields[17] == 1,
        receipt_verified: fields[18] == 1,
        tamper_rejected: fields[19] == 1,
        endpoint_verified: fields[20] == 1,
        phase_plan: fields[21] == 1,
        proof_hash: fields[22],
    };
    if event.is_valid() {
        Ok(event)
    } else {
        Err(OpenAiError::InvalidReceipt)
    }
}

/// The valid proof event a record line holds.
pub fn decode_openai_judgment_proof_event_ndjson(line: &str) -> (r: Result<
    OpenAiJudgmentProofEvent,
    OpenAiError,
>)
    ensures
        match spec_parse_u64_fields(line@) {
            None => r matches Err(OpenAiError::InvalidReceiptRecord),
            Some(f) => match r {
                Ok(event) => spec_proof_event_from_fields(f) == Some(event)
                    && event.spec_is_valid(),
                Err(OpenAiError::InvalidReceiptRecord) => spec_proof_event_from_fields(f) is None,
                Err(OpenAiError::InvalidReceipt) => spec_proof_event_from_fields(f) is Some
                    && !spec_proof_event_from_fields(f)->0.spec_is_valid(),
                Err(_) => false,
            },
        },
{
    let fields = match parse_openai_fields(line) {
        Ok(f) => f,
        Err(e) => {
            return Err(e);
        },
    };
    decode_openai_judgment_proof_event_fields(fields.as_slice())
}

/// Error codes of an order check: a line that is not a record, a record
/// that is not valid, a replay out of order.
pub open spec fn openai_error_code(e: OpenAiError) -> u8 {
    match e {
        OpenAiError::InvalidReceiptRecord => 1,
        OpenAiError::InvalidReceipt => 2,
        OpenAiError::InvalidReplay => 3,
        _ => 0,
    }
}

/// One line of a log read for order: transition events move the last event
/// sequence number, receipts are remembered by hash, and each proof event
/// must follow the last event directly and name a remembered receipt.
pub open spec fn openai_order_step(
    st: Result<(u64, Seq<u64>, nat), u8>,
    line: Seq<char>,
) -> Result<(u64, Seq<u64>, nat), u8> {
    match st {
        Err(e) => Err(e),
        Ok((last, seen, n)) => if trim(line).len() == 0 {
            st
        } else {
            match spec_parse_u64_fields(line) {
                None => Err(1),
                Some(f) => if f.len() < 2 {
                    Err(3)
                } else if f[1] == crate::kernel::TLOG_RECORD_EVENT {
                    if f.len() < 3 {
                        Err(3)
                    } else {
                        Ok((f[2], seen, n))
                    }
                } else if f[1] == OPENAI_LLM_EFFECT_RECEIPT_RECORD {
                    match spec_receipt_from_fields(f) {
                        None => Err(1),
                        Some(rc) => if !rc.spec_is_valid() {
                            Err(2)
                        } else {
                            Ok((last, seen.push(rc.receipt_hash), n))
                        },
                    }
                } else if f[1] == OPENAI_JUDGMENT_PROOF_RECORD {
                    match spec_proof_event_from_fields(f) {
                        None => Err(1),
                        Some(ev) => if !ev.spec_is_valid() {
                            Err(2)
                        } else if last + 1 > u64::MAX || ev.proof_event_seq != last + 1
                            || !seen.contains(ev.receipt_hash) {
                            Err(3)
                        } else {
                            Ok((last, seen, n + 1))
                        },
                    }
                } else {
                    st
                }
            }
        },
    }
}

pub open spec fn openai_order_scan(lines: Seq<Seq<char>>) -> Result<(u64, Seq<u64>, nat), u8>
    decreases lines.len(),
{
    if lines.len() == 0 {
        Ok((0, Seq::empty(), 0))
    } else {
        openai_order_step(openai_order_scan(lines.drop_last()), lines.last())
    }
}

/// The number of proof events of a log in order, or the code of why not; a
/// log without proof events is out of order too.
pub open spec fn spec_openai_proof_order(lines: Seq<Seq<char>>) -> Result<nat, u8> {
    match openai_order_scan(lines) {
        Err(e) => Err(e),
        Ok((_, _, n)) => if n == 0 {
            Err(3)
        } else {
            Ok(n)
        },
    }
}

fn seen_contains(seen: &Vec<u64>, h: u64) -> (r: bool)
    ensures
        r == seen@.contains(h),
{
    let mut i: usize = 0;
    while i < seen.len()
        invariant
            i <= seen@.len(),
            forall|k: int| 0 <= k < i ==> seen@[k] != h,
        decreases seen@.len() - i,
    {
        if seen[i] == h {
            return true;
        }
        i = i + 1;
    }
    false
}

/// Checks the order of a log's lines: every proof event directly follows
/// the transition event it proves and names a receipt recorded before it.
/// The count of proof events on success.
pub fn verify_openai_judgment_proof_event_order_lines(lines: &[String]) -> (r: Result<
    usize,
    OpenAiError,
>)
    ensures
        match (r, spec_openai_proof_order(Seq::new(lines@.len(), |i: int| lines@[i]@))) {
            (Ok(n), Ok(m)) => n == m,
            (Err(e), Err(c)) => openai_error_code(e) == c,
            _ => false,
        },
{
    let ghost views = Seq::new(lines@.len(), |i: int| lines@[i]@);
    let mut last: u64 = 0;
    let mut seen: Vec<u64> = Vec::new();
    let mut verified: usize = 0;
    let mut i: usize = 0;
    assert(views.take(0) =~= Seq::<Seq<char>>::empty());
    while i < lines.len()
        invariant
            i <= lines@.len(),
            views == Seq::new(lines@.len(), |i: int| lines@[i]@),
            openai_order_scan(views.take(i as int)) == Ok::<(u64, Seq<u64>, nat), u8>(
                (last, seen@, verified as nat),
            ),
            verified <= i,
        decreases lines@.len() - i,
    {
        assert(views.take(i + 1).drop_last() =~= views.take(i as int));
        assert(views.take(i + 1).last() == lines@[i as int]@);
        let line = lines[i].as_str();
        if !crate::codec::is_blank(line) {
            let fields = match parse_openai_fields(line) {
                Ok(f) => f,
                Err(e) => {
                    proof {
                        lemma_openai_order_stops(views, i as int + 1);
                    }
                    return Err(e);
                },
            };
            if fields.len() < 2 {
                proof {
                    lemma_openai_order_stops(views, i as int + 1);
                }
                return Err(OpenAiError::InvalidReplay);
            }
            if fields[1] == crate::kernel::TLOG_RECORD_EVENT {
                if fields.len() < 3 {
                    proof {
                        lemma_openai_order_stops(views, i as int + 1);
                    }
                    return Err(OpenAiError::InvalidReplay);
                }
                last = fields[2];
            } else if fields[1] == OPENAI_LLM_EFFECT_RECEIPT_RECORD {
                match decode_openai_llm_effect_receipt_fields(fields.as_slice()) {
                    Ok(receipt) => {
                        seen.push(receipt.receipt_hash);
                    },
                    Err(e) => {
                        proof {
                            lemma_openai_order_stops(views, i as int + 1);
                        }
                        return Err(e);
                    },
                }
            } else if fields[1] == OPENAI_JUDGMENT_PROOF_RECORD {
                let event = match decode_openai_judgment_proof_event_fields(fields.as_slice()) {
                    Ok(ev) => ev,
                    Err(e) => {
                        proof {
                            lemma_openai_order_stops(views, i as int + 1);
                        }
                        return Err(e);
                    },
                };
                let ok = match last.checked_add(1) {
                    Some(next) => event.proof_event_seq == next && seen_contains(
                        &seen,
                        event.receipt_hash,
                    ),
                    None => false,
                };
                if !ok {
                    proof {
                        lemma_openai_order_stops(views, i as int + 1);
                    }
                    return Err(OpenAiError::InvalidReplay);
                }
                verified = verified + 1;
            }
        }
        i = i + 1;
    }
    assert(views.take(i as int) =~= views);
    if verified == 0 {
        return Err(OpenAiError::InvalidReplay);
    }
    Ok(verified)
}

proof fn lemma_openai_order_stops(lines: Seq<Seq<char>>, n: int)
    requires
        0 <= n <= lines.len(),
        openai_order_scan(lines.take(n)) is Err,
    ensures
        openai_order_scan(lines) == openai_order_scan(lines.take(n)),
    decreases lines.len() - n,
{
    if n < lines.len() {
        assert(lines.take(n + 1).drop_last() =~= lines.take(n));
        lemma_openai_order_stops(lines, n + 1);
    } else {
        assert(lines.take(n) =~= lines);
    }
}

/// A receipt written as a record line reads back as the same receipt: the
/// line parses to the receipt's fields, and those fields describe it.
pub proof fn lemma_openai_receipt_ndjson_round_trip(receipt: OpenAiLlmEffectReceipt)
    ensures
        spec_parse_u64_fields(encode_u64_list(receipt_record_fields(receipt))) == Some(
            receipt_record_fields(receipt),
        ),
        spec_receipt_from_fields(receipt_record_fields(receipt)) == Some(receipt),
{
    lemma_u64_list_round_trip(receipt_record_fields(receipt));
}

/// A proof event written as a record line reads back as the same event.
pub proof fn lemma_openai_proof_event_ndjson_round_trip(event: OpenAiJudgmentProofEvent)
    ensures
        spec_parse_u64_fields(encode_u64_list(proof_event_record_fields(event))) == Some(
            proof_event_record_fields(event),
        ),
        spec_proof_event_from_fields(proof_event_record_fields(event)) == Some(event),
{
    lemma_u64_list_round_trip(proof_event_record_fields(event));
}
} // verus!
