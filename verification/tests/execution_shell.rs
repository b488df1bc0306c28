use canon_agent::capability::execution::shell::shell_output;

#[test]
fn stdout_is_trimmed_at_the_end() {
    let r = shell_output(b"hello\n", b"", 100, 0);
    assert_eq!(r.text, "hello");
    assert!(!r.stdout_truncated);
    assert!(!r.stderr_truncated);
}

#[test]
fn empty_streams_report_the_exit_code() {
    assert_eq!(shell_output(b"", b"", 100, 3).text, "(exit 3)");
    assert_eq!(shell_output(b"", b"", 100, -1).text, "(exit -1)");
    assert_eq!(shell_output(b"  \n", b"", 100, 0).text, "(exit 0)");
}

#[test]
fn long_stdout_is_cut_and_flagged() {
    let r = shell_output(b"abcdef", b"", 3, 0);
    assert_eq!(r.text, "abc\n... (stdout truncated)");
    assert!(r.stdout_truncated);
    assert!(!r.stderr_truncated);
}

#[test]
fn stderr_gets_its_own_heading() {
    assert_eq!(shell_output(b"", b"oops\n", 100, 1).text, "--- stderr ---\noops");
    assert_eq!(
        shell_output(b"out\n", b"err\n", 100, 1).text,
        "out\n--- stderr ---\nerr"
    );
    let r = shell_output(b"out", b"error text", 5, 1);
    assert_eq!(r.text, "out\n--- stderr ---\nerror\n... (stderr truncated)");
    assert!(r.stderr_truncated);
}

#[test]
fn invalid_utf8_is_replaced() {
    let r = shell_output(&[0x66, 0xff, 0x67], b"", 100, 0);
    assert_eq!(r.text, "f\u{FFFD}g");
}
