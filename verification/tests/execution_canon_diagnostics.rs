use canon_agent::capability::execution::action::canon_diagnostics::{
    bounded_usize, diagnostic_line, matching_tail_lines, redact, redact_token, tail_lines,
};

#[test]
fn bounded_usize_clamps_values() {
    assert_eq!(bounded_usize(Some(0), 5, 10), 1);
    assert_eq!(bounded_usize(Some(99), 5, 10), 10);
    assert_eq!(bounded_usize(None, 5, 10), 5);
}

#[test]
fn redacts_obvious_secret_tokens() {
    assert_eq!(redact("OPENAI_API_KEY=sk-test value"), "OPENAI_API_KEY=<redacted> value");
    assert_eq!(redact("authorization:Bearer abc"), "authorization:<redacted> abc");
}

#[test]
fn redaction_collapses_whitespace_and_hides_long_tokens() {
    assert_eq!(redact("  a \t b\n"), "a b");
    assert_eq!(redact(""), "");
    assert_eq!(redact("sk-abc ok"), "<redacted> ok");
    let long = "x".repeat(81);
    assert_eq!(redact(&long), "<redacted>");
    let eighty = "x".repeat(80);
    assert_eq!(redact(&eighty), eighty);
    let chars: Vec<char> = "Password".chars().collect();
    assert_eq!(redact_token(&chars), "<redacted>");
}

#[test]
fn diagnostic_lines_are_selected_case_insensitively() {
    assert!(diagnostic_line("Build FAILED"));
    assert!(diagnostic_line("{\"status\":503}"));
    assert!(diagnostic_line("Connection Refused by peer"));
    assert!(!diagnostic_line("all good"));
}

#[test]
fn tails_keep_the_last_lines_redacted() {
    let lines: Vec<String> = vec!["one", "error token=abc", "two", "failed  here"]
        .into_iter()
        .map(String::from)
        .collect();
    assert_eq!(tail_lines(&lines, 2), vec!["two".to_string(), "failed here".to_string()]);
    assert_eq!(tail_lines(&lines, 10).len(), 4);
    assert_eq!(
        matching_tail_lines(&lines, 5),
        vec!["error token=<redacted>".to_string(), "failed here".to_string()]
    );
    assert_eq!(matching_tail_lines(&lines, 1), vec!["failed here".to_string()]);
}
