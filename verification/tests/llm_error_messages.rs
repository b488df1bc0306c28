use std::io;

use canon_agent::capability::llm::ollama::OllamaError;
use canon_agent::capability::llm::openai::{IoFailure, IoFailureKind, OpenAiError};

#[test]
fn io_error_messages_carry_the_error_text() {
    let openai = OpenAiError::Io(IoFailure {
        kind: IoFailureKind::Other,
        error: io::Error::new(io::ErrorKind::Other, "socket closed"),
    });
    assert_eq!(openai.message(), "openai-compatible io failed: socket closed");

    let ollama = OllamaError::Io(io::Error::new(io::ErrorKind::Other, "socket closed"));
    assert_eq!(ollama.message(), "ollama io failed: socket closed");
}

#[test]
fn other_error_messages_are_fixed_texts() {
    assert_eq!(OpenAiError::HttpStatus(502).message(), "openai-compatible endpoint returned HTTP 502");
    assert_eq!(OllamaError::BudgetExhausted.message(), "ollama retry budget exhausted");
}
