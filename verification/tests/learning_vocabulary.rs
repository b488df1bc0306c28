use canon_agent::capability::learning::vocabulary::{
    task_words_from_title, tool_words_from_sequence, COST_WORDS, OUTCOME_WORDS, SYMBOL_WORDS,
    TASK_WORDS, TOOL_WORDS,
};

#[test]
fn task_words_extracted_from_title() {
    let words = task_words_from_title("fix HirRecord deserialization and refactor codec");
    assert!(words.contains(&"fix"));
    assert!(words.contains(&"refactor"));
    assert!(!words.contains(&"move"));
}

#[test]
fn tool_words_extracted_from_sequence() {
    let seq = ["apply_patch", "cargo_check", "get_landmarks"];
    let words = tool_words_from_sequence(&seq);
    assert!(words.contains(&"apply_patch"));
    assert!(words.contains(&"cargo_check"));
    assert!(!words.contains(&"shell"));
}

#[test]
fn task_words_follow_vocabulary_order() {
    let words = task_words_from_title("validate then rollback, then fix");
    assert_eq!(words, vec!["fix", "validate", "rollback"]);
    assert!(task_words_from_title("").is_empty());
    assert_eq!(task_words_from_title("prefix"), vec!["fix"]);
}

#[test]
fn tool_words_need_exact_names() {
    let seq = ["validate", "shell", "apply", "cargo_test "];
    assert_eq!(tool_words_from_sequence(&seq), vec!["shell", "validate"]);
    let none: [&str; 0] = [];
    assert!(tool_words_from_sequence(&none).is_empty());
}

#[test]
fn vocabulary_families_have_their_sizes() {
    assert_eq!(TASK_WORDS.len(), 8);
    assert_eq!(SYMBOL_WORDS.len(), 7);
    assert_eq!(TOOL_WORDS.len(), 6);
    assert_eq!(OUTCOME_WORDS.len(), 6);
    assert_eq!(COST_WORDS.len(), 7);
}
