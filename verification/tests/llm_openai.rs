use canon_agent::capability::llm::openai::{
    message_contract_valid, parse_chat_response_body, OpenAiConfig, OpenAiFunctionTool,
    OpenAiMessage, OpenAiTool, OpenAiToolCall,
};
use canon_agent::capability::llm::provider_common::hash_text;

#[test]
fn openai_config_id_helpers_preserve_distinct_field_boundaries() {
    let config = OpenAiConfig {
        base_url: "http://127.0.0.1:8082/v1".to_string(),
        model: "chatgpt-project".to_string(),
        timeout_ms: 120_000,
    };

    let model_id = config.model_id();
    let base_url_id = config.base_url_id();

    assert_ne!(model_id, 0);
    assert_ne!(base_url_id, 0);
    assert_eq!(model_id, config.model_id());
    assert_eq!(base_url_id, config.base_url_id());
    assert_ne!(model_id, base_url_id);

    let model_changed = OpenAiConfig {
        model: "chatgpt-project-alt".to_string(),
        ..config.clone()
    };
    assert_ne!(model_changed.model_id(), model_id);
    assert_eq!(model_changed.base_url_id(), base_url_id);

    let base_url_changed = OpenAiConfig {
        base_url: "http://127.0.0.1:8083/v1".to_string(),
        ..config.clone()
    };
    assert_eq!(base_url_changed.model_id(), model_id);
    assert_ne!(base_url_changed.base_url_id(), base_url_id);
}

#[test]
fn openai_message_constructors_preserve_role_boundaries() {
    let system = OpenAiMessage::system("system prompt");
    assert_eq!(system.role, "system");
    assert_eq!(system.content.as_deref(), Some("system prompt"));
    assert_eq!(system.tool_call_id, None);
    assert!(system.tool_calls.is_empty());
    assert!(message_contract_valid(&system));

    let user = OpenAiMessage::user("user prompt");
    assert_eq!(user.role, "user");
    assert_eq!(user.content.as_deref(), Some("user prompt"));
    assert_eq!(user.tool_call_id, None);
    assert!(user.tool_calls.is_empty());
    assert!(message_contract_valid(&user));

    let assistant = OpenAiMessage::assistant("assistant answer");
    assert_eq!(assistant.role, "assistant");
    assert_eq!(assistant.content.as_deref(), Some("assistant answer"));
    assert_eq!(assistant.tool_call_id, None);
    assert!(assistant.tool_calls.is_empty());
    assert!(message_contract_valid(&assistant));

    let tool_call = OpenAiToolCall::function("call-1", "lookup", "{\"query\":\"canon\"}");
    let assistant_tool_call = OpenAiMessage::assistant_tool_call(tool_call.clone());
    assert_eq!(assistant_tool_call.role, "assistant");
    assert_eq!(assistant_tool_call.content, None);
    assert_eq!(assistant_tool_call.tool_call_id, None);
    assert_eq!(assistant_tool_call.tool_calls, vec![tool_call]);
    assert!(message_contract_valid(&assistant_tool_call));

    let tool = OpenAiMessage::tool("call-1", "tool result");
    assert_eq!(tool.role, "tool");
    assert_eq!(tool.content.as_deref(), Some("tool result"));
    assert_eq!(tool.tool_call_id.as_deref(), Some("call-1"));
    assert!(tool.tool_calls.is_empty());
    assert!(message_contract_valid(&tool));
}

#[test]
fn openai_chat_response_parser_preserves_message_scoped_content_fields() {
    let body = r#"{
        "id":"chatcmpl-parser-scope",
        "metadata":{"content":"outer content must not win"},
        "choices":[{
            "message":{
                "role":"assistant",
                "content":"message scoped content wins"
            }
        }],
        "usage":{
            "prompt_tokens":7,
            "completion_tokens":11,
            "total_tokens":18
        },
        "browser":{"target_url":"http://127.0.0.1:9222/devtools/page/abc"}
    }"#;

    let response = parse_chat_response_body(body).expect("body should parse");

    assert_eq!(response.id, "chatcmpl-parser-scope");
    assert_eq!(response.content, "message scoped content wins");
    assert_ne!(response.content, "outer content must not win");
    assert_eq!(response.prompt_tokens, 7);
    assert_eq!(response.completion_tokens, 11);
    assert_eq!(response.total_tokens, 18);
    assert_eq!(
        response.target_url.as_deref(),
        Some("http://127.0.0.1:9222/devtools/page/abc")
    );
    assert_eq!(response.response_hash, hash_text(&response.content));
    assert_eq!(response.raw_hash, hash_text(body));

    let repeated = parse_chat_response_body(body).expect("body should parse deterministically");
    assert_eq!(repeated, response);
}

#[test]
fn openai_function_tool_constructors_preserve_description_boundary() {
    let parameters_json = r#"{"type":"object","properties":{"query":{"type":"string"}}}"#;
    let bare = OpenAiFunctionTool::new("lookup", parameters_json);

    assert_eq!(bare.name, "lookup");
    assert_eq!(bare.parameters_json, parameters_json);
    assert_eq!(bare.description, None);
    assert_eq!(
        bare,
        OpenAiTool::function("lookup", parameters_json).function
    );

    let described = bare
        .clone()
        .with_description("Lookup local indexed records");

    assert_eq!(described.name, bare.name);
    assert_eq!(described.parameters_json, bare.parameters_json);
    assert_eq!(
        described.description.as_deref(),
        Some("Lookup local indexed records")
    );

    let mut expected = bare.clone();
    expected.description = Some("Lookup local indexed records".to_string());
    assert_eq!(described, expected);
    assert_ne!(described, bare);
}

