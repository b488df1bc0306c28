use canon_agent::capability::llm::ollama::{
    OllamaConfig, OllamaError, OllamaRetryBudgetLedger, OllamaRetryBudgetPolicy,
};
use canon_agent::capability::llm::openai::{
    OpenAiError, OpenAiRetryBudgetLedger, OpenAiRetryBudgetPolicy,
};

#[test]
fn ollama_ledger_refuses_repeat_and_counts_accepted_attempts() {
    let policy = OllamaRetryBudgetPolicy::new(1_000, 2, 3).unwrap();
    let mut ledger = OllamaRetryBudgetLedger::new(policy);

    let first = ledger.record_request(1, 2, 3, 4).unwrap();
    assert!(first.allowed);
    assert_eq!(first.retry_count, 0);
    assert_eq!(first.request_identity_hash, policy.request_identity_hash(1, 2, 3, 4));

    let before = ledger.clone();
    assert!(matches!(ledger.record_request(1, 2, 3, 4), Err(OllamaError::DuplicateRequest)));
    assert_eq!(ledger, before);

    let second = ledger.record_request(1, 2, 3, 5).unwrap();
    assert_eq!(second.retry_count, 1);
    let third = ledger.record_request(1, 2, 3, 6).unwrap();
    assert_eq!(third.retry_count, 2);

    let before = ledger.clone();
    assert!(matches!(ledger.record_request(1, 2, 3, 7), Err(OllamaError::BudgetExhausted)));
    assert_eq!(ledger, before);
}

#[test]
fn ollama_default_budget_allows_one_request() {
    let config = OllamaConfig::default();
    let mut ledger = OllamaRetryBudgetLedger::new(OllamaRetryBudgetPolicy::from_config(&config));

    assert!(ledger.record_request(9, 8, 7, 6).is_ok());
    assert!(matches!(ledger.record_request(9, 8, 7, 5), Err(OllamaError::BudgetExhausted)));
    assert!(matches!(ledger.record_request(9, 8, 7, 6), Err(OllamaError::DuplicateRequest)));
}

#[test]
fn openai_ledger_refuses_repeat_and_counts_accepted_attempts() {
    let policy = OpenAiRetryBudgetPolicy::new(1_000, 1, 2).unwrap();
    let mut ledger = OpenAiRetryBudgetLedger::new(policy);

    assert_eq!(ledger.record_request(1, 2, 3, 4).unwrap().retry_count, 0);
    assert!(matches!(ledger.record_request(1, 2, 3, 4), Err(OpenAiError::DuplicateRequest)));
    assert_eq!(ledger.record_request(1, 2, 3, 5).unwrap().retry_count, 1);
    assert!(matches!(ledger.record_request(1, 2, 3, 6), Err(OpenAiError::BudgetExhausted)));
}
