use canon_agent::capability::llm::provider_common::{
    encode_u64_fields_ndjson, hash_text, json_escape, parse_u64_fields, split_http_response,
};

#[test]
fn split_http_response_extracts_status_and_body() {
    assert_eq!(
        split_http_response("HTTP/1.1 200 OK\r\nX: y\r\n\r\nbody"),
        Some((200, "body".to_string()))
    );
    assert_eq!(split_http_response("not-http"), None);
}

#[test]
fn u64_fields_round_trip() {
    let encoded = encode_u64_fields_ndjson(&[1, 2, 3]);
    assert_eq!(encoded, "[1,2,3]");
    assert_eq!(parse_u64_fields(&encoded), Some(vec![1, 2, 3]));
}

#[test]
fn json_escape_handles_common_sequences() {
    assert_eq!(json_escape("a\"b\\c\n"), "a\\\"b\\\\c\\n");
}

#[test]
fn split_http_response_reads_the_second_word_of_the_status_line() {
    assert_eq!(
        split_http_response("HTTP/1.1  404 Not Found\r\n\r\n"),
        Some((404, String::new()))
    );
    assert_eq!(split_http_response("HTTP/1.1 abc\r\n\r\nx"), None);
    assert_eq!(split_http_response("\r\n\r\nx"), None);
}

#[test]
fn blank_record_body_reads_as_no_fields() {
    assert_eq!(parse_u64_fields(" [  ] "), Some(Vec::new()));
    assert_eq!(parse_u64_fields("[1,,2]"), None);
    assert_eq!(parse_u64_fields("1,2"), None);
}

#[test]
fn json_escape_blanks_other_control_characters() {
    assert_eq!(json_escape("a\u{1}b\tc"), "a b\\tc");
}

#[test]
fn text_hash_depends_on_every_byte_and_is_never_zero() {
    assert_ne!(hash_text(""), 0);
    assert_ne!(hash_text("ab"), hash_text("ba"));
    assert_eq!(hash_text("canon"), hash_text("canon"));
}
