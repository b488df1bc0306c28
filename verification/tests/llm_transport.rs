use canon_agent::capability::llm::transport::{
    chat_completions_path, parse_local_http_endpoint, provider_config_hash, request_identity_hash,
    retry_policy_hash, LocalEndpointError,
};

#[test]
fn endpoint_parser_accepts_local_openai_compatible_base_urls() {
    let endpoint = parse_local_http_endpoint("http://127.0.0.1:11434/v1")
        .expect("test setup should succeed");
    assert_eq!(endpoint.host, "127.0.0.1");
    assert_eq!(endpoint.port, 11434);
    assert_eq!(endpoint.path_prefix, "/v1");
    assert_eq!(
        chat_completions_path(&endpoint.path_prefix),
        "/v1/chat/completions"
    );
}

#[test]
fn endpoint_parser_rejects_non_local_hosts_and_zero_ports() {
    assert_eq!(
        parse_local_http_endpoint("http://example.com:11434/v1"),
        Err(LocalEndpointError::NonLocalHost)
    );
    assert_eq!(
        parse_local_http_endpoint("http://127.0.0.1:0/v1"),
        Err(LocalEndpointError::InvalidUrl)
    );
}

#[test]
fn shared_hashes_are_deterministic_and_provider_scoped() {
    let ollama = provider_config_hash("ollama", "http://127.0.0.1:11434/v1", "qwen");
    let openai = provider_config_hash("openai-compatible", "http://127.0.0.1:11434/v1", "qwen");
    assert_ne!(ollama, openai);
    assert_eq!(
        ollama,
        provider_config_hash("ollama", "http://127.0.0.1:11434/v1", "qwen")
    );
}

#[test]
fn transport_hash_helpers_preserve_retry_and_request_identity_boundaries() {
    let retry_seed = 0x7472_616e_7370_0001u64;
    let retry_hash = retry_policy_hash(retry_seed, 30_000, 2, 3);
    assert_ne!(retry_hash, 0);
    assert_eq!(retry_hash, retry_policy_hash(retry_seed, 30_000, 2, 3));
    assert_ne!(retry_hash, retry_policy_hash(retry_seed, 30_001, 2, 3));
    assert_ne!(retry_hash, retry_policy_hash(retry_seed, 30_000, 3, 3));
    assert_ne!(retry_hash, retry_policy_hash(retry_seed, 30_000, 2, 4));
    assert_ne!(retry_hash, retry_policy_hash(retry_seed + 1, 30_000, 2, 3));

    let provider_hash =
        provider_config_hash("openai-compatible", "http://127.0.0.1:11434/v1", "qwen");
    let alternate_provider_hash =
        provider_config_hash("ollama", "http://127.0.0.1:11434/v1", "qwen");
    let base_url_hash =
        provider_config_hash("base-url", "http://127.0.0.1:11434/v1", "transport");
    let alternate_base_url_hash =
        provider_config_hash("base-url", "http://localhost:11434/v1", "transport");
    let request_seed = 0x7472_616e_7370_0002u64;
    let request_identity =
        request_identity_hash(request_seed, provider_hash, base_url_hash, 17, 0xabcdu64);

    assert_ne!(request_identity, 0);
    assert_eq!(
        request_identity,
        request_identity_hash(request_seed, provider_hash, base_url_hash, 17, 0xabcdu64)
    );
    assert_ne!(
        request_identity,
        request_identity_hash(
            request_seed,
            alternate_provider_hash,
            base_url_hash,
            17,
            0xabcdu64,
        )
    );
    assert_ne!(
        request_identity,
        request_identity_hash(
            request_seed,
            provider_hash,
            alternate_base_url_hash,
            17,
            0xabcdu64,
        )
    );
    assert_ne!(
        request_identity,
        request_identity_hash(request_seed, provider_hash, base_url_hash, 18, 0xabcdu64)
    );
    assert_ne!(
        request_identity,
        request_identity_hash(request_seed, provider_hash, base_url_hash, 17, 0xabceu64)
    );
    assert_ne!(
        request_identity,
        request_identity_hash(
            request_seed + 1,
            provider_hash,
            base_url_hash,
            17,
            0xabcdu64
        )
    );
    assert_ne!(retry_hash, request_identity);
}

