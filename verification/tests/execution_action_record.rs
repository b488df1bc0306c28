use canon_agent::capability::execution::action::record::{
    decode_action_receipt_ndjson, encode_action_receipt_ndjson, verify_action_receipts,
    ActionCallRequest, ActionExchange, ActionReceipt, LiveActionExecutor,
    ACTION_DEFAULT_MAX_OUTPUT_BYTES, ACTION_DEFAULT_TIMEOUT_MS,
};
use canon_agent::capability::execution::record::{string_hash, bytes_hash, ToolEffectKind, ToolSandboxError};
use canon_agent::capability::EvidenceProducer;
use canon_agent::kernel::{Evidence, GateId};

const WORKER: &str = "http://127.0.0.1:9000/rpc";

fn executor() -> LiveActionExecutor {
    LiveActionExecutor::new(WORKER, 0x5eed).with_allowed_tool("read_file")
}

#[test]
fn executor_defaults_and_builders() {
    let ex = LiveActionExecutor::new(WORKER, 7);
    assert_eq!(ex.timeout_ms, ACTION_DEFAULT_TIMEOUT_MS);
    assert_eq!(ex.max_output_bytes, ACTION_DEFAULT_MAX_OUTPUT_BYTES);
    assert!(ex.allowed_tools.is_empty());
    let ex = ex.with_timeout_ms(250).with_max_output_bytes(10).with_registry(9).with_allowed_tool("a");
    assert_eq!(ex.timeout_ms, 250);
    assert_eq!(ex.max_output_bytes, 10);
    assert_eq!(ex.registry_policy_hash, 9);
    assert_eq!(ex.allowed_tools, vec!["a".to_string()]);
}

#[test]
fn request_for_checks_in_order() {
    let ex = executor().with_max_output_bytes(8);
    assert_eq!(ex.request_for("", "{}"), Err(ToolSandboxError::InvalidCommand));
    assert_eq!(ex.request_for("read\0file", "{}"), Err(ToolSandboxError::InvalidCommand));
    assert_eq!(ex.request_for("write_file", "{}"), Err(ToolSandboxError::CommandDenied));
    assert_eq!(ex.request_for("write_file", "{\"path\":\"long\"}"), Err(ToolSandboxError::CommandDenied));
    assert_eq!(ex.request_for("read_file", "{\"path\":\"long\"}"), Err(ToolSandboxError::ArtifactTooLarge));

    let request = ex.request_for("read_file", "{}").unwrap();
    assert_eq!(request, ActionCallRequest::new(0x5eed, WORKER, "read_file", "{}", 1000, 8));
    assert_eq!(request.worker_url_hash, string_hash(WORKER));
    assert_eq!(request.tool_name_hash, string_hash("read_file"));
    assert_eq!(request.args_hash, string_hash("{}"));
    assert!(request.is_admissible());
    assert_ne!(request.contract_hash(), 0);
}

#[test]
fn request_without_registry_is_not_admissible() {
    let request = ActionCallRequest::new(0, WORKER, "read_file", "{}", 1000, 64);
    assert!(!request.is_admissible());
}

#[test]
fn receipt_from_response_binds_request_and_body() {
    let ex = executor();
    let request = ex.request_for("read_file", "{\"path\":\"a\"}").unwrap();
    let receipt = ActionReceipt::from_response(&request, b"hello", 0, false);

    assert_eq!(receipt.request_hash, request.contract_hash());
    assert_eq!(receipt.response_hash, bytes_hash(b"hello"));
    assert_eq!(receipt.response_bytes, 5);
    assert_eq!(receipt.effect.kind, ToolEffectKind::Process);
    assert_eq!(receipt.contract_hash(), receipt.receipt_hash);
    assert!(receipt.effect_is_normalized());
    assert!(receipt.is_contract_valid());
    assert!(receipt.is_success());
    assert!(receipt.is_valid_for(&request));

    let other = ex.request_for("read_file", "{\"path\":\"b\"}").unwrap();
    assert!(!receipt.is_valid_for(&other));

    let submission = receipt.submission();
    assert_eq!(submission.gate, GateId::Execution);
    assert_eq!(submission.evidence, Evidence::ExecutionReceipt);
    assert!(submission.passed);
    assert_ne!(submission.payload_hash, 0);
    assert_eq!(EvidenceProducer::submission(&receipt), submission);
}

#[test]
fn failed_or_tampered_receipts_do_not_pass() {
    let request = executor().request_for("read_file", "{}").unwrap();
    let failed = ActionReceipt::from_response(&request, b"err", 1, false);
    assert!(failed.is_contract_valid());
    assert!(!failed.is_success());
    assert!(!failed.submission().passed);

    let mut tampered = ActionReceipt::from_response(&request, b"ok", 0, false);
    tampered.exit_status = 1;
    assert!(!tampered.effect_is_normalized());
    assert!(!tampered.is_contract_valid());

    let mut rehashed = ActionReceipt::from_response(&request, b"ok", 0, false);
    rehashed.receipt_hash ^= 1;
    assert!(!rehashed.is_contract_valid());
}

#[test]
fn action_receipt_line_round_trips() {
    let request = executor().request_for("read_file", "{}").unwrap();
    let receipt = ActionReceipt::from_response(&request, b"payload", 0, true);
    let line = encode_action_receipt_ndjson(&receipt);
    assert!(line.starts_with("[1,4,"));
    assert!(line.ends_with(']'));
    assert_eq!(decode_action_receipt_ndjson(&line), Ok(receipt));
    assert_eq!(decode_action_receipt_ndjson(&format!("  {line} ")), Ok(receipt));
}

#[test]
fn action_receipt_decode_errors() {
    let request = executor().request_for("read_file", "{}").unwrap();
    let receipt = ActionReceipt::from_response(&request, b"x", 0, false);
    let line = encode_action_receipt_ndjson(&receipt);

    assert_eq!(decode_action_receipt_ndjson("not a line"), Err(ToolSandboxError::InvalidToolReceiptRecord));
    assert_eq!(decode_action_receipt_ndjson("[1,4,2]"), Err(ToolSandboxError::InvalidToolReceiptRecord));
    let wrong_kind = line.replacen("[1,4,", "[1,5,", 1);
    assert_eq!(decode_action_receipt_ndjson(&wrong_kind), Err(ToolSandboxError::InvalidToolReceiptRecord));

    let mut fields: Vec<String> = line[1..line.len() - 1].split(',').map(str::to_string).collect();
    fields[9] = "7".to_string();
    let bad_effect = format!("[{}]", fields.join(","));
    assert_eq!(decode_action_receipt_ndjson(&bad_effect), Err(ToolSandboxError::InvalidToolReceiptRecord));

    let mut fields: Vec<String> = line[1..line.len() - 1].split(',').map(str::to_string).collect();
    fields[16] = "1".to_string();
    let bad_hash = format!("[{}]", fields.join(","));
    assert_eq!(decode_action_receipt_ndjson(&bad_hash), Err(ToolSandboxError::InvalidToolReceipt));
}

#[test]
fn verify_action_receipts_counts_or_refuses() {
    let request = executor().request_for("read_file", "{}").unwrap();
    let a = ActionReceipt::from_response(&request, b"a", 0, false);
    let b = ActionReceipt::from_response(&request, b"b", 1, true);
    assert_eq!(verify_action_receipts(&[]), Ok(0));
    assert_eq!(verify_action_receipts(&[a, b]), Ok(2));
    let mut bad = b;
    bad.response_bytes += 1;
    assert_eq!(verify_action_receipts(&[a, bad]), Err(ToolSandboxError::InvalidReplay));
}

#[test]
fn replay_receipt_checks_the_call_it_would_make() {
    let ex = executor();
    let request = ex.request_for("read_file", "{}").unwrap();
    let receipt = ActionReceipt::from_response(&request, b"ok", 0, false);
    assert_eq!(ex.replay_receipt(&receipt, "read_file", "{}"), Ok(true));
    assert_eq!(ex.replay_receipt(&receipt, "read_file", "{\"x\":1}"), Ok(false));
    assert_eq!(ex.replay_receipt(&receipt, "rm", "{}"), Err(ToolSandboxError::CommandDenied));
}

#[test]
fn call_outcome_follows_the_exchange() {
    let ex = executor().with_max_output_bytes(16);
    let request = ex.request_for("read_file", "{}").unwrap();

    assert_eq!(ex.prepare_call("read_file", "{not json"), Err(ToolSandboxError::InvalidCommand));
    assert_eq!(ex.prepare_call("read_file", "{}"), Ok(request));
    let ok = ActionExchange::Response { success: true, body: b"done".to_vec() };
    assert_eq!(ex.call_outcome("rm", "{}", &ok), Err(ToolSandboxError::CommandDenied));
    assert_eq!(ex.call_outcome("read_file", "{not json", &ok), Err(ToolSandboxError::InvalidCommand));
    assert_eq!(
        ex.call_outcome("read_file", "{}", &ok),
        Ok(ActionReceipt::from_response(&request, b"done", 0, false))
    );
    let refused = ActionExchange::Response { success: false, body: b"no".to_vec() };
    assert_eq!(
        ex.call_outcome("read_file", "{}", &refused),
        Ok(ActionReceipt::from_response(&request, b"no", 1, false))
    );
    let big = ActionExchange::Response { success: true, body: vec![b'x'; 17] };
    assert_eq!(ex.call_outcome("read_file", "{}", &big), Err(ToolSandboxError::OutputTooLarge));
    let timeout = ActionExchange::SendFailed { timed_out: true };
    let receipt = ex.call_outcome("read_file", "{}", &timeout).unwrap();
    assert_eq!(receipt, ActionReceipt::from_response(&request, b"", 1, true));
    assert!(receipt.timed_out);
    assert!(!receipt.is_success());
    assert_eq!(ex.call_outcome("read_file", "{}", &ActionExchange::Io), Err(ToolSandboxError::SandboxIo));
}
