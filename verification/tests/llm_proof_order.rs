use canon_agent::capability::llm::ollama::{verify_ollama_judgment_proof_event_order_lines, OllamaError};
use canon_agent::capability::llm::openai::{verify_openai_judgment_proof_event_order_lines, OpenAiError};

fn lines(text: &[&str]) -> Vec<String> {
    text.iter().map(|l| l.to_string()).collect()
}

#[test]
fn order_check_needs_at_least_one_proof_event() {
    assert!(matches!(
        verify_ollama_judgment_proof_event_order_lines(&lines(&["", "  ", "[1,1,4]", "[1,99]"])),
        Err(OllamaError::InvalidReplay)
    ));
    assert!(matches!(
        verify_openai_judgment_proof_event_order_lines(&lines(&["[1,1,4]"])),
        Err(OpenAiError::InvalidReplay)
    ));
}

#[test]
fn order_check_rejects_malformed_lines() {
    assert!(matches!(
        verify_ollama_judgment_proof_event_order_lines(&lines(&["not a record"])),
        Err(OllamaError::InvalidReceiptRecord)
    ));
    assert!(matches!(
        verify_ollama_judgment_proof_event_order_lines(&lines(&["[1]"])),
        Err(OllamaError::InvalidReplay)
    ));
    assert!(matches!(
        verify_openai_judgment_proof_event_order_lines(&lines(&["[1,1]"])),
        Err(OpenAiError::InvalidReplay)
    ));
    assert!(matches!(
        verify_openai_judgment_proof_event_order_lines(&lines(&["[1,61,0]"])),
        Err(OpenAiError::InvalidReceiptRecord)
    ));
    assert!(matches!(
        verify_ollama_judgment_proof_event_order_lines(&lines(&["[1,52,0]"])),
        Err(OllamaError::InvalidReceiptRecord)
    ));
}
