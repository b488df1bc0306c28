use canon_agent::capability::llm::browser_router::{
    browser_router_path, browser_router_target_id_for_url, build_router_request,
    build_streaming_http_request, build_streaming_request_json, devtools_page_target,
    is_transient_router_error, parse_router_response, response_bytes_have_done_frame,
    response_text_has_done_frame, router_retry_policy_from, router_retry_step, tab_close_outcome,
    target_url_changed, RouterRetryPolicy, RouterStreamingResult, RouterTabCloseOutcome,
};
use canon_agent::capability::llm::openai::{
    IoFailure, IoFailureKind, OpenAiBrowserOptions, OpenAiChatRequest, OpenAiConfig, OpenAiError, OpenAiMessage,
};
use std::io;

#[test]
fn devtools_page_target_extracts_local_target_id() {
    assert_eq!(
        devtools_page_target("http://127.0.0.1:9222/devtools/page/ABC123"),
        Some(("127.0.0.1".to_string(), 9222, "ABC123".to_string()))
    );
    assert_eq!(devtools_page_target("https://chatgpt.com/c/abc123"), None);
}

#[test]
fn browser_router_target_id_matches_target_url_from_tabs_response() {
    let body = r#"{
      "targets": [
        {"id":"old","url":"https://example.invalid/old"},
        {"id":"target-1","url":"https://chatgpt.com/c/current"}
      ]
    }"#;
    assert_eq!(
        browser_router_target_id_for_url(body, "https://chatgpt.com/c/current"),
        Some("target-1".to_string())
    );
    assert_eq!(browser_router_target_id_for_url(body, "https://missing.invalid"), None);
}

#[test]
fn target_url_changed_only_for_distinct_urls() {
    assert!(!target_url_changed("https://chatgpt.com/c/current", "https://chatgpt.com/c/current"));
    assert!(target_url_changed("https://chatgpt.com/c/old", "https://chatgpt.com/c/new"));
}

#[test]
fn response_done_frame_detection_accepts_chunked_raw_body() {
    let response =
        "HTTP/1.1 200 OK\r\nTransfer-Encoding: chunked\r\n\r\ne\r\ndata: [DONE]\n\n\r\n0\r\n\r\n";
    assert!(response_bytes_have_done_frame(response.as_bytes()));
    assert!(response_text_has_done_frame(response));
}

#[test]
fn response_done_frame_detection_rejects_partial_stream() {
    let response = "HTTP/1.1 200 OK\r\nTransfer-Encoding: chunked\r\n\r\n22\r\ndata: {\"object\":\"chat.completion.chunk\"}\n\n\r\n";
    assert!(!response_bytes_have_done_frame(response.as_bytes()));
    assert!(!response_text_has_done_frame(response));
}

#[test]
fn streaming_http_request_builder_preserves_post_headers_and_body() {
    let body = r#"{"model":"gpt-test","stream":true}"#;

    let request = build_streaming_http_request("/v1/chat/completions", "127.0.0.1", 8080, body);

    let (head, actual_body) = request
        .split_once("\r\n\r\n")
        .expect("streaming HTTP request separates headers and body");
    let mut lines = head.lines();
    assert_eq!(lines.next(), Some("POST /v1/chat/completions HTTP/1.1"));

    let headers: Vec<&str> = lines.collect();
    assert!(headers.contains(&"Host: 127.0.0.1:8080"));
    assert!(headers.contains(&"Content-Type: application/json"));
    assert!(headers.contains(&"Accept: text/event-stream"));
    assert!(headers.contains(&"Connection: close"));

    let content_length = headers
        .iter()
        .find_map(|header| header.strip_prefix("Content-Length: "))
        .expect("streaming HTTP request includes Content-Length")
        .parse::<usize>()
        .expect("Content-Length is numeric");
    assert_eq!(content_length, body.len());
    assert_eq!(content_length, actual_body.len());
    assert_eq!(actual_body.as_bytes(), body.as_bytes());
}

#[test]
fn transient_router_classifier_accepts_retryable_io_errors() {
    for kind in [io::ErrorKind::WouldBlock, io::ErrorKind::TimedOut, io::ErrorKind::Interrupted] {
        let failure_kind = match kind {
            io::ErrorKind::WouldBlock => IoFailureKind::WouldBlock,
            io::ErrorKind::TimedOut => IoFailureKind::TimedOut,
            _ => IoFailureKind::Interrupted,
        };
        let err = OpenAiError::Io(IoFailure {
            kind: failure_kind,
            error: io::Error::new(kind, "transient router io"),
        });
        assert!(is_transient_router_error(&err));
    }
}

#[test]
fn transient_router_classifier_accepts_retryable_http_errors() {
    for status in [408, 409, 425, 429, 500, 502, 503, 504] {
        assert!(is_transient_router_error(&OpenAiError::HttpStatus(status)));
    }
}

#[test]
fn transient_router_classifier_rejects_non_retryable_errors() {
    let err = OpenAiError::Io(IoFailure {
        kind: IoFailureKind::Other,
        error: io::Error::new(io::ErrorKind::ConnectionRefused, "router is down"),
    });
    assert!(!is_transient_router_error(&err));
    assert!(!is_transient_router_error(&OpenAiError::HttpStatus(400)));
}

#[test]
fn retry_policy_backoff_caps_exponential_growth() {
    let policy = RouterRetryPolicy { attempts: 8, base_backoff_ms: 500, max_backoff_ms: 2_000 };

    assert_eq!(policy.backoff_ms(1), 500);
    assert_eq!(policy.backoff_ms(2), 1_000);
    assert_eq!(policy.backoff_ms(3), 2_000);
    assert_eq!(policy.backoff_ms(4), 2_000);
}

#[test]
fn retry_steps_stop_at_the_attempt_limit() {
    let policy = RouterRetryPolicy { attempts: 3, base_backoff_ms: 0, max_backoff_ms: 0 };
    assert_eq!(router_retry_step(policy, 0, true), Some((1, 0)));
    assert_eq!(router_retry_step(policy, 1, true), Some((2, 0)));
    assert_eq!(router_retry_step(policy, 2, true), None);
    assert_eq!(router_retry_step(policy, 0, false), None);
    let defaults = router_retry_policy_from(Some(0), None, None);
    assert_eq!(defaults, RouterRetryPolicy { attempts: 1, base_backoff_ms: 500, max_backoff_ms: 4_000 });
    let huge = RouterRetryPolicy { attempts: 2, base_backoff_ms: u64::MAX / 2, max_backoff_ms: u64::MAX };
    assert_eq!(huge.backoff_ms(20), u64::MAX);
}

#[test]
fn router_paths_requests_and_responses() {
    assert_eq!(browser_router_path("/v1/", "/tabs"), "/tabs");
    assert_eq!(browser_router_path("/router/v1", "tabs/x"), "/router/tabs/x");
    assert_eq!(browser_router_path("", "tabs"), "/tabs");
    assert_eq!(
        build_router_request("GET", "127.0.0.1", 9, "/tabs"),
        "GET /tabs HTTP/1.1\r\nHost: 127.0.0.1:9\r\nAccept: application/json\r\nConnection: close\r\n\r\n"
    );
    let (status, body) = parse_router_response("HTTP/1.1 404 Not Found\r\nA: b\r\n\r\n{}").unwrap();
    assert_eq!(status, 404);
    assert_eq!(body, "{}");
    assert!(matches!(parse_router_response("garbage"), Err(OpenAiError::InvalidResponse)));
    assert_eq!(tab_close_outcome(200), RouterTabCloseOutcome::Closed);
    assert_eq!(tab_close_outcome(500), RouterTabCloseOutcome::CloseHttpStatus(500));
}

#[test]
fn streaming_request_json_lists_messages_and_browser_options() {
    let config = OpenAiConfig { base_url: "http://127.0.0.1:1/v1".to_string(), model: "m\"x".to_string(), timeout_ms: 5 };
    let request = OpenAiChatRequest::new(vec![OpenAiMessage::system("be\nbrief"), OpenAiMessage::user("hi")]);
    let browser = OpenAiBrowserOptions { new_chat: true, target_url: Some("u".to_string()) };
    let json = build_streaming_request_json(&config, &request, &browser, 1, 2, 3).unwrap();
    assert_eq!(
        json,
        "{\"model\":\"m\\\"x\",\"messages\":[{\"role\":\"system\",\"content\":\"be\\nbrief\"},{\"role\":\"user\",\"content\":\"hi\"}],\"stream\":true,\"browser\":{\"new_chat\":true,\"max_ms\":1,\"first_capture_ms\":2,\"idle_ms\":3,\"target_url\":\"u\"}}"
    );
    let empty = OpenAiChatRequest::new(Vec::new());
    assert!(matches!(
        build_streaming_request_json(&config, &empty, &browser, 1, 2, 3),
        Err(OpenAiError::InvalidConfig("empty message list"))
    ));
}

#[test]
fn retry_safety_of_incomplete_turns() {
    let result = RouterStreamingResult {
        content: String::new(),
        target_url: None,
        complete: false,
        reason: "missing done".to_string(),
        finish_reason: None,
    };
    assert!(result.retry_is_safe(false));
    assert!(!result.retry_is_safe(true));
    let length = RouterStreamingResult { finish_reason: Some("length".to_string()), ..result };
    assert!(!length.retry_is_safe(false));
}

#[test]
fn router_retry_policy_from_keeps_values_and_defaults() {
    let parsed = router_retry_policy_from(Some(11), Some(1200), Some(3400));
    assert_eq!(parsed.attempts, 11);
    assert_eq!(parsed.base_backoff_ms, 1200);
    assert_eq!(parsed.max_backoff_ms, 3400);
    let defaults = router_retry_policy_from(None, None, None);
    assert_eq!(defaults.attempts, 8);
    assert_eq!(defaults.base_backoff_ms, 500);
    assert_eq!(defaults.max_backoff_ms, 4_000);
    assert_eq!(router_retry_policy_from(Some(0), None, None).attempts, 1);
}

/// Runs a retry loop driven by the retry step over scripted outcomes and
/// returns the result and the number of calls.
fn drive(policy: RouterRetryPolicy, mut outcomes: Vec<Result<&'static str, OpenAiError>>) -> (Result<&'static str, OpenAiError>, usize) {
    outcomes.reverse();
    let mut attempt = 0u32;
    let mut calls = 0usize;
    loop {
        calls += 1;
        match outcomes.pop().expect("scripted outcome") {
            Ok(value) => return (Ok(value), calls),
            Err(err) => match router_retry_step(policy, attempt, is_transient_router_error(&err)) {
                Some((next, _)) => attempt = next,
                None => return (Err(err), calls),
            },
        }
    }
}

#[test]
fn retry_loop_retries_transient_then_stops() {
    let policy = router_retry_policy_from(Some(3), Some(0), Some(0));
    let would_block = || {
        OpenAiError::Io(IoFailure {
            kind: IoFailureKind::WouldBlock,
            error: io::Error::new(io::ErrorKind::WouldBlock, "router temporarily unavailable"),
        })
    };
    let (result, calls) = drive(policy, vec![Err(would_block()), Ok("ok")]);
    assert_eq!(result.expect("second call succeeds"), "ok");
    assert_eq!(calls, 2);

    let refused = OpenAiError::Io(IoFailure {
        kind: IoFailureKind::Other,
        error: io::Error::new(io::ErrorKind::ConnectionRefused, "router is down"),
    });
    let (result, calls) = drive(policy, vec![Err(refused)]);
    assert!(result.is_err());
    assert_eq!(calls, 1);

    let (result, calls) = drive(
        policy,
        vec![
            Err(OpenAiError::HttpStatus(502)),
            Err(OpenAiError::HttpStatus(502)),
            Err(OpenAiError::HttpStatus(502)),
        ],
    );
    assert!(matches!(result, Err(OpenAiError::HttpStatus(502))));
    assert_eq!(calls, 3);
}
