use canon_agent::capability::llm::openai::{IoFailureKind, OpenAiError};
use canon_agent::capability::llm::sse::{
    chunked_body_splits_on_char_boundaries, decode_chunked_body, decode_json_string,
    finalize_streaming_bytes, finalize_streaming_is_safe, finalize_streaming_response,
    parse_sse_body, SseResult,
};

fn parse_fixture(body: &str) -> SseResult {
    parse_sse_body(body).0
}

#[test]
fn complete_stream_requires_done_and_message_stream_complete() {
    let result = parse_fixture(
        "data: {\"object\":\"chat.completion.chunk\",\"choices\":[{\"delta\":{\"content\":\"ok\"},\"finish_reason\":null}]}\n\n\
         data: {\"object\":\"chat.completion.chunk\",\"choices\":[{\"delta\":{},\"finish_reason\":\"stop\"}]}\n\n\
         data: {\"object\":\"x-turn\",\"message_stream_complete\":true,\"target_url\":\"http://127.0.0.1/thread\"}\n\n\
         data: [DONE]\n\n",
    );
    assert_eq!(result.content, "ok");
    assert_eq!(result.target_url.as_deref(), Some("http://127.0.0.1/thread"));
    assert!(result.is_complete());
    assert_eq!(result.completion_reason(), "ok");
    assert!(!result.retry_is_safe(false));
}

#[test]
fn x_turn_preserves_target_id_for_close_path() {
    let result = parse_fixture(
        "data: {\"object\":\"x-turn\",\"message_stream_complete\":true,\"target_url\":\"https://chatgpt.com/c/current\",\"browser\":{\"target_id\":\"target-1\",\"target_url\":\"https://chatgpt.com/c/current\"}}\n\n\
         data: [DONE]\n\n",
    );
    assert_eq!(result.target_id.as_deref(), Some("target-1"));
    assert_eq!(result.target_url.as_deref(), Some("https://chatgpt.com/c/current"));
}

#[test]
fn truncated_stream_missing_done_is_retry_safe_for_new_chat_without_target_url() {
    let result = parse_fixture(
        "data: {\"object\":\"chat.completion.chunk\",\"choices\":[{\"delta\":{\"content\":\"partial\"},\"finish_reason\":null}]}\n\n",
    );
    assert_eq!(result.content, "partial");
    assert!(!result.is_complete());
    assert_eq!(result.completion_reason(), "missing_done_frame");
    assert!(result.retry_is_safe(false));
    assert!(!result.retry_is_safe(true));
}

#[test]
fn missing_message_stream_complete_is_retry_safe_only_without_target_url() {
    let result = parse_fixture(
        "data: {\"object\":\"chat.completion.chunk\",\"choices\":[{\"delta\":{\"content\":\"body\"},\"finish_reason\":\"stop\"}]}\n\n\
         data: [DONE]\n\n",
    );
    assert!(!result.is_complete());
    assert_eq!(result.completion_reason(), "missing_message_stream_complete");
    assert!(result.retry_is_safe(false));
    assert!(!result.retry_is_safe(true));
}

#[test]
fn target_url_preserves_evidence_and_blocks_retry_even_when_stream_metadata_is_missing() {
    let result = parse_fixture(
        "data: {\"object\":\"chat.completion.chunk\",\"choices\":[{\"delta\":{\"content\":\"body\"},\"finish_reason\":\"stop\"}]}\n\n\
         data: {\"object\":\"x-turn\",\"target_url\":\"http://127.0.0.1/thread\"}\n\n\
         data: [DONE]\n\n",
    );
    assert!(!result.is_complete());
    assert_eq!(result.completion_reason(), "missing_message_stream_complete");
    assert!(result.target_url.is_some());
    assert!(!result.retry_is_safe(false));
}

#[test]
fn length_finished_output_is_incomplete_and_never_retry_safe() {
    let result = parse_fixture(
        "data: {\"object\":\"chat.completion.chunk\",\"choices\":[{\"delta\":{\"content\":\"too long\"},\"finish_reason\":\"length\"}]}\n\n\
         data: {\"object\":\"x-turn\",\"message_stream_complete\":true}\n\n\
         data: [DONE]\n\n",
    );
    assert_eq!(result.finish_reason.as_deref(), Some("length"));
    assert!(!result.is_complete());
    assert_eq!(result.completion_reason(), "length_finished");
    assert!(!result.retry_is_safe(false));
    assert!(!result.retry_is_safe(true));
}

#[test]
fn partial_chunked_body_preserves_available_payload_for_retry_evidence() {
    let body = "5\r\nhello\r\n9\r\nworld";
    assert_eq!(decode_chunked_body(body).as_deref(), Some("helloworld"));
}

#[test]
fn chunked_bodies_decode_sizes_extensions_and_errors() {
    assert_eq!(decode_chunked_body("3;ext=1\r\nabc\r\n0\r\n\r\n").as_deref(), Some("abc"));
    assert_eq!(decode_chunked_body("A\r\n0123456789\r\n0\r\n").as_deref(), Some("0123456789"));
    assert_eq!(decode_chunked_body("zz\r\nabc"), None);
    assert_eq!(decode_chunked_body("no size line"), None);
    assert_eq!(decode_chunked_body("2\r\né\r\n0\r\n").as_deref(), Some("é"));
    assert!(chunked_body_splits_on_char_boundaries("2\r\né\r\n0\r\n"));
    assert!(!chunked_body_splits_on_char_boundaries("1\r\né\r\n0\r\n"));
}

#[test]
fn frame_logs_follow_the_frames_read() {
    let (result, logs) = parse_sse_body(
        "data: {\"object\":\"x-turn\",\"message_stream_complete\":false}\n\n\n\ndata: [DONE]",
    );
    assert!(result.done);
    assert_eq!(
        logs,
        vec![
            "\"parsed_type\":\"x-turn\",\"message_stream_complete\":false".to_string(),
            "\"done\":true".to_string()
        ]
    );
    assert_eq!(decode_json_string("\"a\\/b\\q\\n\" tail").as_deref(), Some("a/b\\q\n"));
    assert_eq!(decode_json_string("\"open"), None);
}

#[test]
fn finished_streams_check_status_done_frame_and_chunking() {
    let ok = "HTTP/1.1 200 OK\r\nTransfer-Encoding: chunked\r\n\r\n1b\r\ndata: {\"object\":\"x-turn\"}\n\n\r\ne\r\ndata: [DONE]\n\n\r\n0\r\n\r\n";
    assert!(finalize_streaming_is_safe(ok));
    let (result, _) = finalize_streaming_response(ok).unwrap();
    assert!(result.done);
    assert!(matches!(
        finalize_streaming_response("HTTP/1.1 502 Bad\r\n\r\ndata: [DONE]\n"),
        Err(OpenAiError::HttpStatus(502))
    ));
    assert!(matches!(
        finalize_streaming_response("HTTP/1.1 200 OK\r\n\r\ndata: partial\n"),
        Err(OpenAiError::Io(_))
    ));
    assert!(matches!(finalize_streaming_response("no head"), Err(OpenAiError::InvalidResponse)));
}

fn response_200(body: &str) -> String {
    format!(
        "HTTP/1.1 200 OK\r\nContent-Type: text/event-stream\r\nContent-Length: {}\r\n\r\n{}",
        body.len(),
        body
    )
}

#[test]
fn finalize_streaming_response_accepts_in_memory_sse_done_response() {
    let mut body = String::new();
    body.push_str(r#"data: {"object":"chat.completion.chunk","choices":[{"delta":{"content":"Hello "},"finish_reason":null}]}"#);
    body.push_str("\n\n");
    body.push_str(r#"data: {"object":"chat.completion.chunk","choices":[{"delta":{"content":"world"},"finish_reason":"stop"}]}"#);
    body.push_str("\n\n");
    body.push_str(r#"data: {"object":"x-turn","target_url":"thread-1","message_stream_complete":true}"#);
    body.push_str("\n\n");
    body.push_str("data: [DONE]\n\n");
    let response = response_200(&body);
    assert!(finalize_streaming_is_safe(&response));
    let (result, _) = finalize_streaming_response(&response)
        .expect("complete in-memory SSE response finalizes successfully");
    assert_eq!(result.content, "Hello world");
    assert_eq!(result.target_url.as_deref(), Some("thread-1"));
    assert!(result.message_stream_complete);
    assert!(result.done);
    assert_eq!(result.finish_reason.as_deref(), Some("stop"));
    assert!(result.is_complete());
    assert_eq!(result.completion_reason(), "ok");
}

#[test]
fn finalize_streaming_response_rejects_non_200_status() {
    let response = "HTTP/1.1 503 Service Unavailable\r\nContent-Type: text/plain\r\nContent-Length: 11\r\n\r\nunavailable";
    assert!(finalize_streaming_is_safe(response));
    let err = finalize_streaming_response(response)
        .err()
        .expect("non-200 in-memory response should be rejected");
    assert!(matches!(err, OpenAiError::HttpStatus(503)));
}

#[test]
fn finalize_streaming_response_rejects_missing_done_frame() {
    let mut body = String::new();
    body.push_str(r#"data: {"object":"chat.completion.chunk","choices":[{"delta":{"content":"partial"},"finish_reason":null}]}"#);
    body.push_str("\n\n");
    let response = response_200(&body);
    let err = finalize_streaming_response(&response)
        .err()
        .expect("200 in-memory response without [DONE] should be rejected");
    match err {
        OpenAiError::Io(failure) => {
            assert_eq!(failure.kind, IoFailureKind::UnexpectedEof);
            assert_eq!(failure.error.kind(), std::io::ErrorKind::UnexpectedEof);
        }
        other => panic!("expected missing [DONE] to return UnexpectedEof, got {other:?}"),
    }
}

#[test]
fn finalize_streaming_bytes_replaces_invalid_utf8() {
    let mut bytes = b"HTTP/1.1 200 OK\r\n\r\n".to_vec();
    bytes.extend_from_slice(br#"data: {"object":"chat.completion.chunk","choices":[{"delta":{"content":"a"#);
    bytes.push(0xff);
    bytes.extend_from_slice(br#"b"},"finish_reason":"stop"}]}"#);
    bytes.extend_from_slice(b"\n\ndata: [DONE]\n\n");
    let (result, _) = finalize_streaming_bytes(&bytes).unwrap().unwrap();
    assert_eq!(result.content, "a\u{fffd}b");
    assert!(result.done);
    assert!(matches!(
        finalize_streaming_bytes(b"HTTP/1.1 503 Busy\r\n\r\n"),
        Some(Err(OpenAiError::HttpStatus(503)))
    ));
}
