//! Live action calls: the request a tool call makes to a worker, the receipt
//! of its response, and the receipt's record line.
use vstd::prelude::*;
use vstd::string::StringSliceAdditionalSpecFns;
use vstd::utf8::encode_utf8;
use crate::capability::execution::record::{
    bytes_hash, flag, flag_u64, spec_bytes_hash, spec_tool_effect_kind_from_u64, string_hash,
    tool_effect_kind_from_u64, Effect, ToolEffectKind, ToolSandboxError,
};
use crate::capability::llm::provider_common::{
    encode_u64_fields_ndjson, parse_u64_fields, spec_parse_u64_fields,
};
use crate::capability::EvidenceProducer;
use crate::codec::{encode_u64_list, lemma_u64_list_round_trip, string_views};
use crate::kernel::{
    fold_mix, nonzero, nz, spec_fold_mix, Evidence, EvidenceSubmission, GateId, PacketEffect,
};
use crate::text::{chars_of, owned, str_eq};

verus! {

pub const ACTION_RECEIPT_SCHEMA_VERSION: u64 = 1;

pub const ACTION_RECEIPT_RECORD: u64 = 4;

/// The number of fields of an action receipt line.
pub const ACTION_RECEIPT_FIELDS: usize = 17;

/// The capability registry's number for the tooling capability, the one
/// that action calls run under.
pub const TOOLING_CAPABILITY: u64 = 5;

/// Seed of a request's contract hash.
pub const ACTION_REQUEST_SEED: u64 = 0x8c9d_f84d_7b6a_12e3;

/// Seed of a receipt's hash.
pub const ACTION_RECEIPT_SEED: u64 = 0x9142_6c18_4ed9_f3a5;

/// Seed of a receipt's evidence payload hash.
pub const ACTION_PAYLOAD_SEED: u64 = 0x7651_aa62_43ec_d91b;

/// A tool call to a worker, by the hashes of what it names.
#[derive(Clone, Copy, Debug, PartialEq, Eq, Structural)]
pub struct ActionCallRequest {
    pub capability: u64,
    pub registry_policy_hash: u64,
    pub worker_url_hash: u64,
    pub tool_name_hash: u64,
    pub args_hash: u64,
    pub timeout_ms: u64,
    pub max_output_bytes: u64,
}

impl ActionCallRequest {
    /// The request of a tool call under the registry with this policy hash.
    pub open spec fn spec_new(
        registry_policy_hash: u64,
        worker_url: Seq<u8>,
        tool_name: Seq<u8>,
        args_json: Seq<u8>,
        timeout_ms: u64,
        max_output_bytes: u64,
    ) -> ActionCallRequest {
        ActionCallRequest {
            capability: TOOLING_CAPABILITY,
            registry_policy_hash,
            worker_url_hash: spec_bytes_hash(worker_url),
            tool_name_hash: spec_bytes_hash(tool_name),
            args_hash: spec_bytes_hash(args_json),
            timeout_ms,
            max_output_bytes,
        }
    }

    pub fn new(
        registry_policy_hash: u64,
        worker_url: &str,
        tool_name: &str,
        args_json: &str,
        timeout_ms: u64,
        max_output_bytes: u64,
    ) -> (r: Self)
        ensures
            r == ActionCallRequest::spec_new(
                registry_policy_hash,
                worker_url.spec_bytes(),
                tool_name.spec_bytes(),
                args_json.spec_bytes(),
                timeout_ms,
                max_output_bytes,
            ),
    {
        ActionCallRequest {
            capability: TOOLING_CAPABILITY,
            registry_policy_hash,
            worker_url_hash: string_hash(worker_url),
            tool_name_hash: string_hash(tool_name),
            args_hash: string_hash(args_json),
            timeout_ms,
            max_output_bytes,
        }
    }

    pub open spec fn spec_contract_hash(self) -> u64 {
        nz(
            spec_fold_mix(
                ACTION_REQUEST_SEED,
                seq![
                    self.capability,
                    self.registry_policy_hash,
                    self.worker_url_hash,
                    self.tool_name_hash,
                    self.args_hash,
                    self.timeout_ms,
                    self.max_output_bytes,
                ],
            ),
        )
    }

    pub fn contract_hash(&self) -> (r: u64)
        ensures
            r == self.spec_contract_hash(),
    {
        nonzero(
            fold_mix(
                ACTION_REQUEST_SEED,
                &[
                    self.capability,
                    self.registry_policy_hash,
                    self.worker_url_hash,
                    self.tool_name_hash,
                    self.args_hash,
                    self.timeout_ms,
                    self.max_output_bytes,
                ],
            ),
        )
    }

    /// A tooling request whose hashes and limits are all present.
    pub open spec fn spec_is_admissible(self) -> bool {
        &&& self.capability == TOOLING_CAPABILITY
        &&& self.registry_policy_hash != 0
        &&& self.worker_url_hash != 0
        &&& self.tool_name_hash != 0
        &&& self.args_hash != 0
        &&& self.timeout_ms != 0
        &&& self.max_output_bytes != 0
    }

    pub fn is_admissible(&self) -> (r: bool)
        ensures
            r == self.spec_is_admissible(),
    {
        self.capability == TOOLING_CAPABILITY && self.registry_policy_hash != 0
            && self.worker_url_hash != 0 && self.tool_name_hash != 0 && self.args_hash != 0
            && self.timeout_ms != 0 && self.max_output_bytes != 0
    }
}

/// The receipt of one tool call: the request it answers and what the worker
/// sent back.
#[derive(Clone, Copy, Debug, PartialEq, Eq, Structural)]
pub struct ActionReceipt {
    pub request_hash: u64,
    pub registry_policy_hash: u64,
    pub worker_url_hash: u64,
    pub tool_name_hash: u64,
    pub args_hash: u64,
    pub timeout_ms: u64,
    pub max_output_bytes: u64,
    pub effect: Effect,
    pub response_hash: u64,
    pub response_bytes: u64,
    pub exit_status: u64,
    pub timed_out: bool,
    pub receipt_hash: u64,
}

impl ActionReceipt {
    /// The fields the receipt hash covers, in order.
    pub open spec fn spec_hashed_fields(self) -> Seq<u64> {
        seq![
            self.request_hash,
            self.registry_policy_hash,
            self.worker_url_hash,
            self.tool_name_hash,
            self.args_hash,
            self.timeout_ms,
            self.max_output_bytes,
            self.effect.kind.spec_id(),
            self.effect.digest,
            self.effect.metadata,
            self.effect.spec_contract_hash(),
            self.response_hash,
            self.response_bytes,
            self.exit_status,
            flag(self.timed_out),
        ]
    }

    /// The hash a receipt with these fields must carry.
    pub open spec fn spec_expected_hash(self) -> u64 {
        nz(spec_fold_mix(ACTION_RECEIPT_SEED, self.spec_hashed_fields()))
    }

    fn expected_hash(&self) -> (r: u64)
        ensures
            r == self.spec_expected_hash(),
    {
        let fields = [
            self.request_hash,
            self.registry_policy_hash,
            self.worker_url_hash,
            self.tool_name_hash,
            self.args_hash,
            self.timeout_ms,
            self.max_output_bytes,
            self.effect.kind.id(),
            self.effect.digest,
            self.effect.metadata,
            self.effect.contract_hash(),
            self.response_hash,
            self.response_bytes,
            self.exit_status,
            flag_u64(self.timed_out),
        ];
        assert(fields@ =~= self.spec_hashed_fields());
        nonzero(fold_mix(ACTION_RECEIPT_SEED, &fields))
    }

    /// The receipt of a response to `request`, sealed with its hash.
    pub open spec fn spec_from_response(
        request: ActionCallRequest,
        response: Seq<u8>,
        exit_status: u64,
        timed_out: bool,
    ) -> ActionReceipt {
        let response_hash = spec_bytes_hash(response);
        let unsealed = ActionReceipt {
            request_hash: request.spec_contract_hash(),
            registry_policy_hash: request.registry_policy_hash,
            worker_url_hash: request.worker_url_hash,
            tool_name_hash: request.tool_name_hash,
            args_hash: request.args_hash,
            timeout_ms: request.timeout_ms,
            max_output_bytes: request.max_output_bytes,
            effect: Effect::spec_process(
                response_hash,
                0,
                response.len() as u64,
                0,
                exit_status,
                timed_out,
            ),
            response_hash,
            response_bytes: response.len() as u64,
            exit_status,
            timed_out,
            receipt_hash: 0,
        };
        ActionReceipt { receipt_hash: unsealed.spec_expected_hash(), ..unsealed }
    }

    pub fn from_response(
        request: &ActionCallRequest,
        response: &[u8],
        exit_status: u64,
        timed_out: bool,
    ) -> (r: Self)
        requires
            response@.len() <= u64::MAX,
        ensures
            r == ActionReceipt::spec_from_response(*request, response@, exit_status, timed_out),
    {
        let response_hash = bytes_hash(response);
        let response_bytes = response.len() as u64;
        let effect = Effect::process(response_hash, 0, response_bytes, 0, exit_status, timed_out);
        let mut receipt = ActionReceipt {
            request_hash: request.contract_hash(),
            registry_policy_hash: request.registry_policy_hash,
            worker_url_hash: request.worker_url_hash,
            tool_name_hash: request.tool_name_hash,
            args_hash: request.args_hash,
            timeout_ms: request.timeout_ms,
            max_output_bytes: request.max_output_bytes,
            effect,
            response_hash,
            response_bytes,
            exit_status,
            timed_out,
            receipt_hash: 0,
        };
        receipt.receipt_hash = receipt.expected_hash();
        receipt
    }

    pub fn contract_hash(&self) -> (r: u64)
        ensures
            r == self.receipt_hash,
    {
        self.receipt_hash
    }

    /// The effect is the process effect of the recorded response.
    pub open spec fn spec_effect_is_normalized(self) -> bool {
        self.effect == Effect::spec_process(
            self.response_hash,
            0,
            self.response_bytes,
            0,
            self.exit_status,
            self.timed_out,
        )
    }

    pub fn effect_is_normalized(&self) -> (r: bool)
        ensures
            r == self.spec_effect_is_normalized(),
    {
        let expected = Effect::process(
            self.response_hash,
            0,
            self.response_bytes,
            0,
            self.exit_status,
            self.timed_out,
        );
        self.effect.kind == expected.kind && self.effect.digest == expected.digest
            && self.effect.metadata == expected.metadata
    }

    /// Well formed: every hash and limit present, the effect valid and
    /// normalized, the response within the limit, and the receipt hash the
    /// one its fields give.
    pub open spec fn spec_is_contract_valid(self) -> bool {
        &&& self.request_hash != 0
        &&& self.registry_policy_hash != 0
        &&& self.worker_url_hash != 0
        &&& self.tool_name_hash != 0
        &&& self.args_hash != 0
        &&& self.timeout_ms != 0
        &&& self.max_output_bytes != 0
        &&& self.effect.spec_is_valid()
        &&& self.spec_effect_is_normalized()
        &&& self.response_hash != 0
        &&& self.response_bytes <= self.max_output_bytes
        &&& self.receipt_hash == self.spec_expected_hash()
    }

    pub fn is_contract_valid(&self) -> (r: bool)
        ensures
            r == self.spec_is_contract_valid(),
    {
        self.request_hash != 0 && self.registry_policy_hash != 0 && self.worker_url_hash != 0
            && self.tool_name_hash != 0 && self.args_hash != 0 && self.timeout_ms != 0
            && self.max_output_bytes != 0 && self.effect.is_valid() && self.effect_is_normalized()
            && self.response_hash != 0 && self.response_bytes <= self.max_output_bytes
            && self.receipt_hash == self.expected_hash()
    }

    /// A well-formed receipt of a call that exited with status 0 in time.
    pub open spec fn spec_is_success(self) -> bool {
        self.spec_is_contract_valid() && self.exit_status == 0 && !self.timed_out
    }

    pub fn is_success(&self) -> (r: bool)
        ensures
            r == self.spec_is_success(),
    {
        self.is_contract_valid() && self.exit_status == 0 && !self.timed_out
    }

    /// The receipt answers `request`: the request is admissible, the receipt
    /// carries its hash and each of its fields, and it is well formed.
    pub open spec fn spec_is_valid_for(self, request: ActionCallRequest) -> bool {
        &&& request.spec_is_admissible()
        &&& self.request_hash == request.spec_contract_hash()
        &&& self.registry_policy_hash == request.registry_policy_hash
        &&& self.worker_url_hash == request.worker_url_hash
        &&& self.tool_name_hash == request.tool_name_hash
        &&& self.args_hash == request.args_hash
        &&& self.timeout_ms == request.timeout_ms
        &&& self.max_output_bytes == request.max_output_bytes
        &&& self.spec_is_contract_valid()
    }

    pub fn is_valid_for(&self, request: &ActionCallRequest) -> (r: bool)
        ensures
            r == self.spec_is_valid_for(*request),
    {
        request.is_admissible() && self.request_hash == request.contract_hash()
            && self.registry_policy_hash == request.registry_policy_hash && self.worker_url_hash
            == request.worker_url_hash && self.tool_name_hash == request.tool_name_hash
            && self.args_hash == request.args_hash && self.timeout_ms == request.timeout_ms
            && self.max_output_bytes == request.max_output_bytes && self.is_contract_valid()
    }

    /// The fields the evidence payload hash covers, in order.
    pub open spec fn spec_payload_fields(self) -> Seq<u64> {
        seq![
            self.request_hash,
            self.registry_policy_hash,
            self.worker_url_hash,
            self.tool_name_hash,
            self.args_hash,
            self.timeout_ms,
            self.max_output_bytes,
            self.effect.kind.spec_id(),
            self.effect.digest,
            self.effect.metadata,
            self.response_hash,
            self.response_bytes,
            self.exit_status,
            flag(self.timed_out),
            self.receipt_hash,
        ]
    }

    pub open spec fn spec_payload_hash(self) -> u64 {
        nz(spec_fold_mix(ACTION_PAYLOAD_SEED, self.spec_payload_fields()))
    }

    fn payload_hash(&self) -> (r: u64)
        ensures
            r == self.spec_payload_hash(),
    {
        let fields = [
            self.request_hash,
            self.registry_policy_hash,
            self.worker_url_hash,
            self.tool_name_hash,
            self.args_hash,
            self.timeout_ms,
            self.max_output_bytes,
            self.effect.kind.id(),
            self.effect.digest,
            self.effect.metadata,
            self.response_hash,
            self.response_bytes,
            self.exit_status,
            flag_u64(self.timed_out),
            self.receipt_hash,
        ];
        assert(fields@ =~= self.spec_payload_fields());
        nonzero(fold_mix(ACTION_PAYLOAD_SEED, &fields))
    }

    /// The execution evidence the receipt submits: it passes when the call
    /// succeeded, and it leaves the packet as it is.
    pub open spec fn spec_submission(self) -> EvidenceSubmission {
        EvidenceSubmission {
            gate: GateId::Execution,
            evidence: Evidence::ExecutionReceipt,
            passed: self.spec_is_success(),
            payload_hash: self.spec_payload_hash(),
            effect: PacketEffect::Noop,
        }
    }

    pub fn submission(&self) -> (r: EvidenceSubmission)
        ensures
            r == self.spec_submission(),
    {
        EvidenceSubmission::with_effect_payload(
            GateId::Execution,
            Evidence::ExecutionReceipt,
            self.is_success(),
            PacketEffect::Noop,
            self.payload_hash(),
        )
    }
}

impl EvidenceProducer for ActionReceipt {
    type Record = ActionReceipt;

    fn record(&self) -> (r: &ActionReceipt)
        ensures
            r == self,
    {
        self
    }

    fn submission(&self) -> (r: EvidenceSubmission)
        ensures
            r == self.spec_submission(),
    {
        ActionReceipt::submission(self)
    }
}

/// Whether a text is one JSON document, as `serde_json` reads it. A
/// function of the text alone.
pub uninterp spec fn json_parses(text: Seq<char>) -> bool;

/// `serde_json::from_str::<serde_json::Value>`: whether the text parses as
/// JSON. The contract names the answer and says nothing of which texts
/// parse.
#[verifier::external_body]
fn args_are_json(text: &str) -> (r: bool)
    ensures
        r == json_parses(text@),
{
    serde_json::from_str::<serde_json::Value>(text).is_ok()
}

/// Default time limit of a worker call, in milliseconds.
pub const ACTION_DEFAULT_TIMEOUT_MS: u64 = 1000;

/// Default limit on the bytes of a worker's response and of the arguments.
pub const ACTION_DEFAULT_MAX_OUTPUT_BYTES: u64 = 65536;

/// Calls tools on a worker: which tools it may call, with what limits, and
/// under which capability registry.
#[derive(Clone, Debug, PartialEq, Eq)]
pub struct LiveActionExecutor {
    pub worker_url: String,
    pub allowed_tools: Vec<String>,
    pub timeout_ms: u64,
    pub max_output_bytes: u64,
    pub registry_policy_hash: u64,
}

/// The first check a tool call fails, in the order the executor checks:
/// an empty tool name or one holding NUL, a tool not allowed, arguments
/// longer than the output limit.
pub open spec fn spec_action_request_error(
    allowed_tools: Seq<Seq<char>>,
    max_output_bytes: u64,
    tool_name: Seq<char>,
    args_len: nat,
) -> Option<ToolSandboxError> {
    if tool_name.len() == 0 || tool_name.contains('\0') {
        Some(ToolSandboxError::InvalidCommand)
    } else if !allowed_tools.contains(tool_name) {
        Some(ToolSandboxError::CommandDenied)
    } else if args_len > max_output_bytes {
        Some(ToolSandboxError::ArtifactTooLarge)
    } else {
        None
    }
}

/// How the worker exchange went: a response with its success and body, a
/// send that failed (timed out or not), or a local I/O failure.
#[derive(Clone, Debug, PartialEq, Eq)]
pub enum ActionExchange {
    Response { success: bool, body: Vec<u8> },
    SendFailed { timed_out: bool },
    Io,
}

impl LiveActionExecutor {
    pub fn new(worker_url: &str, registry_policy_hash: u64) -> (r: Self)
        ensures
            r.worker_url@ == worker_url@,
            r.allowed_tools@.len() == 0,
            r.timeout_ms == ACTION_DEFAULT_TIMEOUT_MS,
            r.max_output_bytes == ACTION_DEFAULT_MAX_OUTPUT_BYTES,
            r.registry_policy_hash == registry_policy_hash,
    {
        LiveActionExecutor {
            worker_url: owned(worker_url),
            allowed_tools: Vec::new(),
            timeout_ms: ACTION_DEFAULT_TIMEOUT_MS,
            max_output_bytes: ACTION_DEFAULT_MAX_OUTPUT_BYTES,
            registry_policy_hash,
        }
    }

    pub fn with_allowed_tool(self, tool_name: &str) -> (r: Self)
        ensures
            string_views(r.allowed_tools@) == string_views(self.allowed_tools@).push(tool_name@),
            r.worker_url@ == self.worker_url@,
            r.timeout_ms == self.timeout_ms,
            r.max_output_bytes == self.max_output_bytes,
            r.registry_policy_hash == self.registry_policy_hash,
    {
        let mut r = self;
        r.allowed_tools.push(owned(tool_name));
        assert(string_views(r.allowed_tools@) =~= string_views(self.allowed_tools@).push(
            tool_name@,
        ));
        r
    }

    pub fn with_timeout_ms(self, timeout_ms: u64) -> (r: Self)
        ensures
            r.worker_url@ == self.worker_url@,
            r.allowed_tools@ == self.allowed_tools@,
            r.timeout_ms == timeout_ms,
            r.max_output_bytes == self.max_output_bytes,
            r.registry_policy_hash == self.registry_policy_hash,
    {
        let mut r = self;
        r.timeout_ms = timeout_ms;
        r
    }

    pub fn with_max_output_bytes(self, max_output_bytes: u64) -> (r: Self)
        ensures
            r.worker_url@ == self.worker_url@,
            r.allowed_tools@ == self.allowed_tools@,
            r.timeout_ms == self.timeout_ms,
            r.max_output_bytes == max_output_bytes,
            r.registry_policy_hash == self.registry_policy_hash,
    {
        let mut r = self;
        r.max_output_bytes = max_output_bytes;
        r
    }

    pub fn with_registry(self, registry_policy_hash: u64) -> (r: Self)
        ensures
            r.worker_url@ == self.worker_url@,
            r.allowed_tools@ == self.allowed_tools@,
            r.timeout_ms == self.timeout_ms,
            r.max_output_bytes == self.max_output_bytes,
            r.registry_policy_hash == registry_policy_hash,
    {
        let mut r = self;
        r.registry_policy_hash = registry_policy_hash;
        r
    }

    /// The request of a tool call, or the first check it fails.
    pub open spec fn spec_request_for(self, tool_name: Seq<char>, tool_bytes: Seq<u8>, args_bytes: Seq<u8>) -> Result<
        ActionCallRequest,
        ToolSandboxError,
    > {
        match spec_action_request_error(
            string_views(self.allowed_tools@),
            self.max_output_bytes,
            tool_name,
            args_bytes.len(),
        ) {
            Some(e) => Err(e),
            None => Ok(
                ActionCallRequest::spec_new(
                    self.registry_policy_hash,
                    encode_utf8(self.worker_url@),
                    tool_bytes,
                    args_bytes,
                    self.timeout_ms,
                    self.max_output_bytes,
                ),
            ),
        }
    }

    pub fn request_for(&self, tool_name: &str, args_json: &str) -> (r: Result<
        ActionCallRequest,
        ToolSandboxError,
    >)
        ensures
            r == self.spec_request_for(tool_name@, tool_name.spec_bytes(), args_json.spec_bytes()),
    {
        let chars = chars_of(tool_name);
        if chars.len() == 0 {
            return Err(ToolSandboxError::InvalidCommand);
        }
        let mut i: usize = 0;
        while i < chars.len()
            invariant
                i <= chars@.len(),
                chars@ == tool_name@,
                forall|j: int| 0 <= j < i ==> chars@[j] != '\0',
            decreases chars@.len() - i,
        {
            if chars[i] == '\0' {
                assert(tool_name@.contains('\0')) by {
                    assert(tool_name@[i as int] == '\0');
                }
                return Err(ToolSandboxError::InvalidCommand);
            }
            i = i + 1;
        }
        assert(!tool_name@.contains('\0'));
        let ghost views = string_views(self.allowed_tools@);
        let mut allowed = false;
        let mut k: usize = 0;
        while k < self.allowed_tools.len()
            invariant
                k <= self.allowed_tools@.len(),
                views == string_views(self.allowed_tools@),
                allowed == exists|j: int| 0 <= j < k && views[j] == tool_name@,
            decreases self.allowed_tools@.len() - k,
        {
            if str_eq(self.allowed_tools[k].as_str(), tool_name) {
                assert(views[k as int] == tool_name@);
                allowed = true;
            }
            k = k + 1;
        }
        if !allowed {
            assert(!views.contains(tool_name@)) by {
                if views.contains(tool_name@) {
                    let j = choose|j: int| 0 <= j < views.len() && views[j] == tool_name@;
                    assert(0 <= j < k && views[j] == tool_name@);
                }
            }
            return Err(ToolSandboxError::CommandDenied);
        }
        assert(views.contains(tool_name@)) by {
            let j = choose|j: int| 0 <= j < k && views[j] == tool_name@;
        }
        if args_json.as_bytes().len() as u64 > self.max_output_bytes {
            return Err(ToolSandboxError::ArtifactTooLarge);
        }
        Ok(
            ActionCallRequest::new(
                self.registry_policy_hash,
                self.worker_url.as_str(),
                tool_name,
                args_json,
                self.timeout_ms,
                self.max_output_bytes,
            ),
        )
    }

    /// Whether a stored receipt answers the request this call would make.
    pub fn replay_receipt(&self, receipt: &ActionReceipt, tool_name: &str, args_json: &str) -> (r:
        Result<bool, ToolSandboxError>)
        ensures
            r == (match self.spec_request_for(
                tool_name@,
                tool_name.spec_bytes(),
                args_json.spec_bytes(),
            ) {
                Ok(request) => Ok(receipt.spec_is_valid_for(request)),
                Err(e) => Err::<bool, ToolSandboxError>(e),
            }),
    {
        let request = match self.request_for(tool_name, args_json) {
            Ok(request) => request,
            Err(e) => {
                return Err(e);
            },
        };
        Ok(receipt.is_valid_for(&request))
    }

    /// The request of a call that may go to the worker: the checks of
    /// `request_for`, then arguments that parse as JSON.
    pub open spec fn spec_prepare_call(self, tool_name: Seq<char>, tool_bytes: Seq<u8>, args: Seq<char>, args_bytes: Seq<u8>) -> Result<
        ActionCallRequest,
        ToolSandboxError,
    > {
        match self.spec_request_for(tool_name, tool_bytes, args_bytes) {
            Err(e) => Err(e),
            Ok(request) => if json_parses(args) {
                Ok(request)
            } else {
                Err(ToolSandboxError::InvalidCommand)
            },
        }
    }

    pub fn prepare_call(&self, tool_name: &str, args_json: &str) -> (r: Result<
        ActionCallRequest,
        ToolSandboxError,
    >)
        ensures
            r == self.spec_prepare_call(
                tool_name@,
                tool_name.spec_bytes(),
                args_json@,
                args_json.spec_bytes(),
            ),
    {
        let request = match self.request_for(tool_name, args_json) {
            Ok(request) => request,
            Err(e) => {
                return Err(e);
            },
        };
        if !args_are_json(args_json) {
            return Err(ToolSandboxError::InvalidCommand);
        }
        Ok(request)
    }

    /// The outcome of a call given how the worker exchange went: the
    /// request's error, else invalid JSON arguments, else a local I/O
    /// failure, else a response body over the output limit; otherwise the
    /// receipt of the body (exit status 0 on success, else 1), or of an
    /// empty body with exit status 1 when the send failed.
    pub open spec fn spec_call_outcome(
        self,
        tool_name: Seq<char>,
        tool_bytes: Seq<u8>,
        args: Seq<char>,
        args_bytes: Seq<u8>,
        exchange: ActionExchange,
    ) -> Result<ActionReceipt, ToolSandboxError> {
        match self.spec_prepare_call(tool_name, tool_bytes, args, args_bytes) {
            Err(e) => Err(e),
            Ok(request) => match exchange {
                ActionExchange::Io => Err(ToolSandboxError::SandboxIo),
                ActionExchange::SendFailed { timed_out } => Ok(
                    ActionReceipt::spec_from_response(request, Seq::empty(), 1, timed_out),
                ),
                ActionExchange::Response { success, body } => if body@.len()
                    > self.max_output_bytes {
                    Err(ToolSandboxError::OutputTooLarge)
                } else {
                    Ok(
                        ActionReceipt::spec_from_response(
                            request,
                            body@,
                            if success {
                                0
                            } else {
                                1
                            },
                            false,
                        ),
                    )
                },
            },
        }
    }

    pub fn call_outcome(&self, tool_name: &str, args_json: &str, exchange: &ActionExchange) -> (r:
        Result<ActionReceipt, ToolSandboxError>)
        ensures
            r == self.spec_call_outcome(
                tool_name@,
                tool_name.spec_bytes(),
                args_json@,
                args_json.spec_bytes(),
                *exchange,
            ),
    {
        let request = match self.prepare_call(tool_name, args_json) {
            Ok(request) => request,
            Err(e) => {
                return Err(e);
            },
        };
        match exchange {
            ActionExchange::Io => Err(ToolSandboxError::SandboxIo),
            ActionExchange::SendFailed { timed_out } => {
                let empty: Vec<u8> = Vec::new();
                let r = ActionReceipt::from_response(&request, empty.as_slice(), 1, *timed_out);
                assert(empty@ =~= Seq::<u8>::empty());
                Ok(r)
            },
            ActionExchange::Response { success, body } => {
                if body.len() as u64 > self.max_output_bytes {
                    return Err(ToolSandboxError::OutputTooLarge);
                }
                let status: u64 = if *success {
                    0
                } else {
                    1
                };
                Ok(ActionReceipt::from_response(&request, body.as_slice(), status, false))
            },
        }
    }
}

/// `Ok` with the count when every receipt is well formed, else a failed
/// replay.
pub fn verify_action_receipts(receipts: &[ActionReceipt]) -> (r: Result<usize, ToolSandboxError>)
    ensures
        r == (if forall|i: int| 0 <= i < receipts@.len() ==> (#[trigger] receipts@[i]).spec_is_contract_valid() {
            Ok(receipts@.len() as usize)
        } else {
            Err(ToolSandboxError::InvalidReplay)
        }),
{
    let mut i: usize = 0;
    while i < receipts.len()
        invariant
            i <= receipts@.len(),
            forall|j: int| 0 <= j < i ==> (#[trigger] receipts@[j]).spec_is_contract_valid(),
        decreases receipts@.len() - i,
    {
        if !receipts[i].is_contract_valid() {
            return Err(ToolSandboxError::InvalidReplay);
        }
        i = i + 1;
    }
    Ok(receipts.len())
}

/// The fields of a receipt's record line, in order.
pub open spec fn spec_action_receipt_fields(r: ActionReceipt) -> Seq<u64> {
    seq![
        ACTION_RECEIPT_SCHEMA_VERSION,
        ACTION_RECEIPT_RECORD,
        r.request_hash,
        r.registry_policy_hash,
        r.worker_url_hash,
        r.tool_name_hash,
        r.args_hash,
        r.timeout_ms,
        r.max_output_bytes,
        r.effect.kind.spec_id(),
        r.effect.digest,
        r.effect.metadata,
        r.response_hash,
        r.response_bytes,
        r.exit_status,
        flag(r.timed_out),
        r.receipt_hash,
    ]
}

pub fn encode_action_receipt_ndjson(receipt: &ActionReceipt) -> (r: String)
    ensures
        r@ == encode_u64_list(spec_action_receipt_fields(*receipt)),
{
    let fields = [
        ACTION_RECEIPT_SCHEMA_VERSION,
        ACTION_RECEIPT_RECORD,
        receipt.request_hash,
        receipt.registry_policy_hash,
        receipt.worker_url_hash,
        receipt.tool_name_hash,
        receipt.args_hash,
        receipt.timeout_ms,
        receipt.max_output_bytes,
        receipt.effect.kind.id(),
        receipt.effect.digest,
        receipt.effect.metadata,
        receipt.response_hash,
        receipt.response_bytes,
        receipt.exit_status,
        flag_u64(receipt.timed_out),
        receipt.receipt_hash,
    ];
    assert(fields@ =~= spec_action_receipt_fields(*receipt));
    encode_u64_fields_ndjson(&fields)
}

/// The receipt a line's fields give, with the effect kind already read.
pub open spec fn spec_receipt_from_fields(f: Seq<u64>, kind: ToolEffectKind) -> ActionReceipt {
    ActionReceipt {
        request_hash: f[2],
        registry_policy_hash: f[3],
        worker_url_hash: f[4],
        tool_name_hash: f[5],
        args_hash: f[6],
        timeout_ms: f[7],
        max_output_bytes: f[8],
        effect: Effect { kind, digest: f[10], metadata: f[11] },
        response_hash: f[12],
        response_bytes: f[13],
        exit_status: f[14],
        timed_out: f[15] != 0,
        receipt_hash: f[16],
    }
}

/// What a record line reads as: a malformed line, a wrong header or an
/// unknown effect kind is an invalid record; a receipt that is not well
/// formed is an invalid receipt.
pub open spec fn spec_decode_action_receipt(line: Seq<char>) -> Result<ActionReceipt, ToolSandboxError> {
    match spec_parse_u64_fields(line) {
        None => Err(ToolSandboxError::InvalidToolReceiptRecord),
        Some(f) => if !(f.len() == ACTION_RECEIPT_FIELDS && f[0] == ACTION_RECEIPT_SCHEMA_VERSION
            && f[1] == ACTION_RECEIPT_RECORD) {
            Err(ToolSandboxError::InvalidToolReceiptRecord)
        } else {
            match spec_tool_effect_kind_from_u64(f[9]) {
                None => Err(ToolSandboxError::InvalidToolReceiptRecord),
                Some(kind) => {
                    let receipt = spec_receipt_from_fields(f, kind);
                    if receipt.spec_is_contract_valid() {
                        Ok(receipt)
                    } else {
                        Err(ToolSandboxError::InvalidToolReceipt)
                    }
                },
            }
        },
    }
}

pub fn decode_action_receipt_ndjson(line: &str) -> (r: Result<ActionReceipt, ToolSandboxError>)
    ensures
        r == spec_decode_action_receipt(line@),
{
    let fields = match parse_u64_fields(line) {
        Some(f) => f,
        None => {
            return Err(ToolSandboxError::InvalidToolReceiptRecord);
        },
    };
    if !(fields.len() == ACTION_RECEIPT_FIELDS && fields[0] == ACTION_RECEIPT_SCHEMA_VERSION
        && fields[1] == ACTION_RECEIPT_RECORD) {
        return Err(ToolSandboxError::InvalidToolReceiptRecord);
    }
    let kind = match tool_effect_kind_from_u64(fields[9]) {
        Ok(k) => k,
        Err(e) => {
            return Err(e);
        },
    };
    let receipt = ActionReceipt {
        request_hash: fields[2],
        registry_policy_hash: fields[3],
        worker_url_hash: fields[4],
        tool_name_hash: fields[5],
        args_hash: fields[6],
        timeout_ms: fields[7],
        max_output_bytes: fields[8],
        effect: Effect { kind, digest: fields[10], metadata: fields[11] },
        response_hash: fields[12],
        response_bytes: fields[13],
        exit_status: fields[14],
        timed_out: fields[15] != 0,
        receipt_hash: fields[16],
    };
    if !receipt.is_contract_valid() {
        return Err(ToolSandboxError::InvalidToolReceipt);
    }
    Ok(receipt)
}

/// Reading back the line of a well-formed receipt gives the receipt.
pub proof fn lemma_action_receipt_round_trip(receipt: ActionReceipt)
    requires
        receipt.spec_is_contract_valid(),
    ensures
        spec_decode_action_receipt(encode_u64_list(spec_action_receipt_fields(receipt)))
            == Ok::<ActionReceipt, ToolSandboxError>(receipt),
{
    let fs = spec_action_receipt_fields(receipt);
    lemma_u64_list_round_trip(fs);
    let line = encode_u64_list(fs);
    assert(spec_parse_u64_fields(line) == Some(fs));
    assert(spec_tool_effect_kind_from_u64(receipt.effect.kind.spec_id()) == Some(receipt.effect.kind));
    assert(spec_receipt_from_fields(fs, receipt.effect.kind) == receipt);
}

} // verus!
