use familyclaw_agent::completion::{Completion, CompletionStep};
use familyclaw_agent::encode::{call_json, chat_json, envelope_json, gemini_json};
use familyclaw_agent::json::{from_value, parse, Json};
use familyclaw_agent::llm::{
    max_continuations, CompletionResult, FinishReason, LlmConfig, LlmError, LlmFailureClass,
    ArgumentsWire, LlmMessage, LlmRole, LlmWireFormat, TimeSpan, ToolCall, ToolCallWire,
    ToolDefinition,
    DEFAULT_CONNECT_TIMEOUT_MS, DEFAULT_MAX_CONTINUATIONS, DEFAULT_MAX_TOKENS,
    DEFAULT_REQUEST_TIMEOUT_MS,
};
use familyclaw_agent::stream::{chunk_delta, sse_payload};
use familyclaw_agent::wire::{
    tool_reply, ChatChoice, ChatRequest, GeminiCandidate, GeminiContent,
    GeminiGenerateContentRequest, GeminiPart, HttpRequest, LlmClient, ReplyBody, RequestBody,
    ToolEnvelope,
};

/// The library's value of a JSON text.
fn parsed(text: &str) -> Json {
    parse(text).expect("valid JSON")
}

/// The value as `serde_json` reads the text that the library writes.
fn value(j: &Json) -> serde_json::Value {
    serde_json::from_str(&j.to_text()).expect("valid JSON")
}

/// What a provider that answers the n-th request with the n-th body makes of a completion,
/// and how many requests it got. A missing body is a refused connection.
fn scripted(
    client: &LlmClient,
    messages: &[LlmMessage],
    rounds: u32,
    bodies: &[&str],
) -> (Result<String, LlmError>, usize) {
    let mut sent: usize = 0;
    let (mut completion, mut step) = client.complete(messages, rounds);
    loop {
        match step {
            CompletionStep::Done(text) => return (Ok(text), sent),
            CompletionStep::Failed(error) => return (Err(error), sent),
            CompletionStep::Call(to_send) => {
                let reply = match client.complete_once(&to_send) {
                    Err(error) => Err(error),
                    Ok(request) => {
                        sent += 1;
                        answer(&request, bodies.get(sent - 1).copied())
                    }
                };
                step = completion.on_reply(reply);
            }
        }
    }
}

/// What a body means for the request that it answers.
fn answer(request: &HttpRequest, body: Option<&str>) -> Result<(String, FinishReason), LlmError> {
    let body = match body {
        Some(b) => b,
        None => return Err(LlmError::from_transport("request failed", "refused", false)),
    };
    reply_to(request, body).text_reply()
}

/// A string member.
fn text_in(v: &serde_json::Value) -> Option<String> {
    v.as_str().map(|s| s.to_string())
}

/// The call that stands on the wire.
fn wire_call(v: &serde_json::Value) -> ToolCall {
    ToolCall::from_wire(ToolCallWire {
        id: text_in(&v["id"]).expect("an id"),
        kind: text_in(&v["type"]).unwrap_or_else(|| "function".to_string()),
        name: text_in(&v["function"]["name"]).expect("a name"),
        arguments: match text_in(&v["function"]["arguments"]) {
            Some(s) => ArgumentsWire::Str(s),
            None => ArgumentsWire::Value(from_value(&v["function"]["arguments"])),
        },
    })
    .expect("arguments that are JSON")
}

/// The choices of a well-formed chat-completions body.
fn chat_choices(body: &str) -> Vec<ChatChoice> {
    let v: serde_json::Value = serde_json::from_str(body).expect("valid JSON");
    let choices = v["choices"].as_array().expect("choices");
    choices
        .iter()
        .map(|c| ChatChoice {
            content: text_in(&c["message"]["content"]),
            tool_calls: c["message"]["tool_calls"]
                .as_array()
                .map(|calls| calls.iter().map(wire_call).collect()),
            finish_reason: text_in(&c["finish_reason"]),
        })
        .collect()
}

/// The candidates of a well-formed Gemini body.
fn gemini_candidates(body: &str) -> Vec<GeminiCandidate> {
    let v: serde_json::Value = serde_json::from_str(body).expect("valid JSON");
    let candidates = v["candidates"].as_array().expect("candidates");
    candidates
        .iter()
        .map(|c| GeminiCandidate {
            content: c["content"]["parts"].as_array().map(|parts| GeminiContent {
                role: text_in(&c["content"]["role"]).expect("a role"),
                parts: parts
                    .iter()
                    .map(|p| GeminiPart {
                        text: text_in(&p["text"]),
                    })
                    .collect(),
            }),
            finish_reason: text_in(&c["finishReason"]),
        })
        .collect()
}

/// What a well-formed body holds for a request.
fn reply_to(request: &HttpRequest, body: &str) -> ReplyBody {
    match request.body {
        RequestBody::Chat(_) => ReplyBody::Chat(chat_choices(body)),
        RequestBody::Gemini(_) => ReplyBody::Gemini(gemini_candidates(body)),
    }
}

/// The text that a line of a stream carries.
fn sse_delta(line: &str) -> Option<String> {
    let payload = sse_payload(line)?;
    let v: serde_json::Value = serde_json::from_str(&payload).ok()?;
    let choices = v["choices"].as_array()?;
    chunk_delta(&Some(
        choices
            .iter()
            .map(|c| text_in(&c["delta"]["content"]))
            .collect(),
    ))
}

#[test]
fn test_llm_config_creation() {
    let config = LlmConfig::new("https://api.openai.com/v1", "sk-test123", "gpt-4o");
    assert_eq!(config.api_base, "https://api.openai.com/v1");
    assert_eq!(config.model, "gpt-4o");
    assert_eq!(config.max_tokens, DEFAULT_MAX_TOKENS);
    assert_eq!(config.max_tokens, 4096);

    let config_with_tokens =
        LlmConfig::new("https://api.openai.com/v1", "key", "model").with_max_tokens(4096);
    assert_eq!(config_with_tokens.max_tokens, 4096);
}

#[test]
fn test_llm_message_creation() {
    let system = LlmMessage::system("You are helpful.");
    assert_eq!(system.role, LlmRole::System);
    assert_eq!(system.content, "You are helpful.");

    let user = LlmMessage::user("Hello!");
    assert_eq!(user.role, LlmRole::User);
    assert_eq!(user.content, "Hello!");

    let assistant = LlmMessage::assistant("Hi there!");
    assert_eq!(assistant.role, LlmRole::Assistant);

    let tool = LlmMessage::tool_result("call_123", "result data");
    assert_eq!(tool.role, LlmRole::Tool);
    assert_eq!(tool.tool_call_id, Some("call_123".into()));
}

#[test]
fn test_llm_message_tool_calls() {
    let calls = vec![ToolCall {
        id: "call_1".into(),
        name: "search".into(),
        arguments: parsed(r#"{"q": "test"}"#),
    }];

    let msg = LlmMessage::assistant("Let me check.").with_tool_calls(calls);
    assert!(msg.has_tool_calls());
    assert_eq!(msg.tool_calls.as_ref().unwrap().len(), 1);
}

#[test]
fn test_completion_result() {
    let result_text = CompletionResult {
        content: Some("hello".into()),
        tool_calls: None,
    };
    assert_eq!(result_text.text(), "hello");
    assert!(!result_text.has_tool_calls());

    let result_tools = CompletionResult {
        content: None,
        tool_calls: Some(vec![ToolCall {
            id: "c1".into(),
            name: "test".into(),
            arguments: parsed(r#"{}"#),
        }]),
    };
    assert!(result_tools.has_tool_calls());
    assert_eq!(result_tools.text(), "");
}

#[test]
fn parse_sse_delta_line_extracts_content_delta() {
    let line = r#"data: {"choices":[{"delta":{"content":"hello"}}]}"#;
    assert_eq!(sse_delta(line).as_deref(), Some("hello"));
    assert_eq!(sse_delta("data: [DONE]"), None);
    assert_eq!(sse_delta("event: ping"), None);
    assert_eq!(sse_delta(""), None);
}

#[test]
fn test_llm_client_compiles() {
    let config = LlmConfig::new("http://localhost:8000/v1", "test-key", "test-model");
    let _client = LlmClient::new(config);
}

#[test]
fn test_build_endpoint_no_trailing_slash() {
    let endpoint = LlmClient::build_endpoint("https://api.openai.com/v1");
    assert_eq!(endpoint, "https://api.openai.com/v1/chat/completions");
}

#[test]
fn test_tool_definition_serializes_to_openai_envelope() {
    let def = ToolDefinition {
        name: "fs_read".into(),
        description: "Read a file".into(),
        input_schema: parsed(r#"{ "type": "object", "properties": { "path": { "type": "string" } }, "required": ["path"] }"#),
    };
    let envelope = ToolEnvelope::of(&def);
    let json = value(&envelope_json(&envelope));
    assert_eq!(json["type"], "function");
    assert_eq!(json["function"]["name"], "fs_read");
    assert_eq!(json["function"]["description"], "Read a file");
    assert_eq!(json["function"]["parameters"]["required"][0], "path");
}

#[test]
fn test_request_without_tools_omits_tool_fields() {
    let messages = vec![LlmMessage::user("hi")];
    let req = ChatRequest {
        model: "m".into(),
        messages,
        max_tokens: 100,
        stream: false,
        tools: Vec::new(),
        tool_choice: None,
    };
    let json = value(&chat_json(&req));
    assert!(
        json.get("tools").is_none(),
        "tools must be omitted when empty"
    );
    assert!(
        json.get("tool_choice").is_none(),
        "tool_choice must be omitted when None"
    );
    assert_eq!(json["model"], "m");
    assert_eq!(json["max_tokens"], 100);
}

#[test]
fn test_request_with_tools_includes_them() {
    let messages = vec![LlmMessage::user("hi")];
    let def = ToolDefinition {
        name: "echo".into(),
        description: "Echo".into(),
        input_schema: parsed(r#"{"type": "object"}"#),
    };
    let req = ChatRequest {
        model: "m".into(),
        messages,
        max_tokens: 100,
        stream: false,
        tools: vec![ToolEnvelope::of(&def)],
        tool_choice: Some("auto".into()),
    };
    let json = value(&chat_json(&req));
    assert_eq!(json["tools"][0]["function"]["name"], "echo");
    assert_eq!(json["tool_choice"], "auto");
}

#[test]
fn test_tool_less_request_exact_string_serialization() {
    let messages = vec![LlmMessage::user("hi")];
    let req = ChatRequest {
        model: "m".into(),
        messages,
        max_tokens: 100,
        stream: false,
        tools: Vec::new(),
        tool_choice: None,
    };
    let json = chat_json(&req).to_text();
    assert_eq!(
        json,
        r#"{"model":"m","messages":[{"role":"user","content":"hi"}],"max_tokens":100}"#
    );
}

#[test]
fn test_tool_definition_validate_rejects_bad_name() {
    let bad_chars = ToolDefinition {
        name: "fs read!".into(),
        description: "d".into(),
        input_schema: parsed(r#"{"type": "object"}"#),
    };
    assert!(matches!(
        bad_chars.validate(),
        Err(LlmError::InvalidTool(_))
    ));

    let empty = ToolDefinition {
        name: String::new(),
        description: "d".into(),
        input_schema: parsed(r#"{"type": "object"}"#),
    };
    assert!(matches!(empty.validate(), Err(LlmError::InvalidTool(_))));

    let too_long = ToolDefinition {
        name: "a".repeat(65),
        description: "d".into(),
        input_schema: parsed(r#"{"type": "object"}"#),
    };
    assert!(matches!(too_long.validate(), Err(LlmError::InvalidTool(_))));
}

#[test]
fn test_tool_definition_validate_rejects_non_object_schema() {
    let scalar = ToolDefinition {
        name: "echo".into(),
        description: "d".into(),
        input_schema: parsed(r#""not an object""#),
    };
    assert!(matches!(scalar.validate(), Err(LlmError::InvalidTool(_))));

    let array = ToolDefinition {
        name: "echo".into(),
        description: "d".into(),
        input_schema: parsed(r#"[1, 2, 3]"#),
    };
    assert!(matches!(array.validate(), Err(LlmError::InvalidTool(_))));
}

#[test]
fn test_tool_definition_validate_accepts_good() {
    let good = ToolDefinition {
        name: "fs_read-v1".into(),
        description: "Read a file".into(),
        input_schema: parsed(r#"{"type": "object", "properties": {}}"#),
    };
    assert!(good.validate().is_ok());
}

#[test]
fn test_invalid_tool_is_not_retryable() {
    assert!(!LlmError::InvalidTool("bad".into()).is_retryable());
}

#[test]
fn test_build_endpoint_with_trailing_slash() {
    let endpoint = LlmClient::build_endpoint("https://api.openai.com/v1/");
    assert_eq!(endpoint, "https://api.openai.com/v1/chat/completions");
}

#[test]
fn test_build_endpoint_no_whitespace() {
    let endpoint = LlmClient::build_endpoint("https://api.openai.com/v1");
    assert!(
        !endpoint.contains(' '),
        "endpoint must not contain whitespace"
    );
    assert_eq!(endpoint, "https://api.openai.com/v1/chat/completions");
}

#[test]
fn test_build_endpoint_custom_base() {
    let endpoint = LlmClient::build_endpoint("http://localhost:8080/v1");
    assert_eq!(endpoint, "http://localhost:8080/v1/chat/completions");
}

#[test]
fn test_build_endpoint_custom_base_with_slash() {
    let endpoint = LlmClient::build_endpoint("http://localhost:8080/v1/");
    assert_eq!(endpoint, "http://localhost:8080/v1/chat/completions");
}

#[test]
fn config_defaults_timeouts_when_unset() {
    let cfg = LlmConfig::new("http://x/v1", "k", "m");
    assert_eq!(cfg.request_timeout_ms, None);
    assert_eq!(cfg.connect_timeout_ms, None);
    assert_eq!(
        cfg.request_timeout(),
        TimeSpan::from_millis(DEFAULT_REQUEST_TIMEOUT_MS)
    );
    assert_eq!(
        cfg.connect_timeout(),
        TimeSpan::from_millis(DEFAULT_CONNECT_TIMEOUT_MS)
    );
}

#[test]
fn config_timeouts_are_configurable_per_llmconfig() {
    let cfg = LlmConfig::new("http://x/v1", "k", "m")
        .with_request_timeout_ms(2_500)
        .with_connect_timeout_ms(500);
    assert_eq!(cfg.request_timeout(), TimeSpan::from_millis(2_500));
    assert_eq!(cfg.connect_timeout(), TimeSpan::from_millis(500));
}

#[test]
fn timeout_error_is_retryable() {
    assert!(LlmError::Timeout("slow primary".into()).is_retryable());
}

#[test]
fn http_and_nocontent_errors_are_retryable() {
    assert!(LlmError::Http("connection refused".into()).is_retryable());
    assert!(LlmError::NoContent.is_retryable());
}

#[test]
fn parse_error_is_not_retryable() {
    assert!(!LlmError::Parse("bad json".into()).is_retryable());
}

#[test]
fn timeout_error_displays_distinctly() {
    let e = LlmError::Timeout("request failed: operation timed out".into());
    let s = e.to_text();
    assert!(s.starts_with("Timeout error:"), "got: {s}");
}

#[test]
fn new_variants_are_retryable_today() {
    assert!(LlmError::RateLimited {
        message: "429".into(),
        retry_after: Some(3),
    }
    .is_retryable());
    assert!(LlmError::AuthFailed("bad key".into()).is_retryable());
    assert!(LlmError::Overloaded("503".into()).is_retryable());
}

#[test]
fn from_status_maps_429_to_rate_limited_with_retry_after() {
    let e = LlmError::from_status(429, "slow down", Some(12));
    match e {
        LlmError::RateLimited {
            message,
            retry_after,
        } => {
            assert_eq!(retry_after, Some(12));
            assert!(message.contains("429"), "got: {message}");
            assert!(message.contains("slow down"), "got: {message}");
        }
        other => panic!("expected RateLimited, got {other:?}"),
    }
}

#[test]
fn from_status_maps_429_without_retry_after() {
    let e = LlmError::from_status(429, "limited", None);
    assert!(matches!(
        e,
        LlmError::RateLimited {
            retry_after: None,
            ..
        }
    ));
}

#[test]
fn from_status_maps_auth_codes() {
    assert!(matches!(
        LlmError::from_status(401, "[redacted]", None),
        LlmError::AuthFailed(_)
    ));
    assert!(matches!(
        LlmError::from_status(403, "[redacted]", None),
        LlmError::AuthFailed(_)
    ));
}

#[test]
fn from_status_maps_overload_codes() {
    assert!(matches!(
        LlmError::from_status(503, "busy", None),
        LlmError::Overloaded(_)
    ));
    assert!(matches!(
        LlmError::from_status(529, "busy", None),
        LlmError::Overloaded(_)
    ));
}

#[test]
fn from_status_falls_back_to_http_for_other_codes() {
    for code in [400_u16, 418, 500, 502] {
        assert!(
            matches!(LlmError::from_status(code, "x", None), LlmError::Http(_)),
            "status {code} should map to Http"
        );
    }
}

#[test]
fn from_status_maps_404_to_not_found() {
    let e = LlmError::from_status(404, "[redacted]", None);
    assert!(matches!(e, LlmError::NotFound(_)));
    assert!(
        e.is_retryable(),
        "NotFound must stay retryable at chain level"
    );
    assert_eq!(e.failure_class(), LlmFailureClass::ProviderNotFound);
    assert_eq!(e.redacted_status_line(), "HTTP 404");
}

#[test]
fn from_status_maps_400_model_not_found_body_to_not_found() {
    let e = LlmError::from_status(
        400,
        "Function id 'acct-abc123/retired-model' not found",
        None,
    );
    assert!(matches!(e, LlmError::NotFound(_)));
    assert_eq!(e.redacted_status_line(), "HTTP 400");
}

#[test]
fn from_status_400_without_not_found_wording_stays_generic_http() {
    let e = LlmError::from_status(400, "invalid request: max_tokens must be positive", None);
    assert!(matches!(e, LlmError::Http(_)));
}

#[test]
fn redacted_status_line_never_contains_raw_body() {
    let e = LlmError::from_status(404, "acct_9f8e7d6c5b4a leaked account id in body", None);
    let line = e.redacted_status_line();
    assert_eq!(line, "HTTP 404");
    assert!(!line.contains("acct_9f8e7d6c5b4a"));
}

#[test]
fn redacted_status_line_falls_back_to_class_word_without_status() {
    assert_eq!(
        LlmError::Timeout("slow".into()).redacted_status_line(),
        "timeout"
    );
    assert_eq!(LlmError::NoContent.redacted_status_line(), "no_content");
}

#[test]
fn parse_retry_after_handles_integer_seconds() {
    assert_eq!(LlmError::parse_retry_after(Some("30")), Some(30));
    assert_eq!(LlmError::parse_retry_after(Some("  7 ")), Some(7));
}

#[test]
fn parse_retry_after_rejects_non_integer_and_missing() {
    assert_eq!(
        LlmError::parse_retry_after(Some("Wed, 21 Oct 2026 07:28:00 GMT")),
        None
    );
    assert_eq!(LlmError::parse_retry_after(Some("")), None);
    assert_eq!(LlmError::parse_retry_after(None), None);
}

#[test]
fn cooldown_hint_uses_retry_after_when_present() {
    let e = LlmError::RateLimited {
        message: "429".into(),
        retry_after: Some(15),
    };
    assert_eq!(e.cooldown_hint(), Some(TimeSpan::from_secs(15)));
}

#[test]
fn cooldown_hint_defaults_for_rate_limit_without_retry_after() {
    let e = LlmError::RateLimited {
        message: "429".into(),
        retry_after: None,
    };
    assert_eq!(
        e.cooldown_hint(),
        Some(TimeSpan::from_secs(LlmError::DEFAULT_RATE_LIMIT_COOLDOWN))
    );
}

#[test]
fn cooldown_hint_for_overloaded_uses_default() {
    assert_eq!(
        LlmError::Overloaded("503".into()).cooldown_hint(),
        Some(TimeSpan::from_secs(LlmError::DEFAULT_OVERLOAD_COOLDOWN))
    );
}

#[test]
fn cooldown_hint_is_none_for_non_rate_errors() {
    assert!(LlmError::AuthFailed("bad".into()).cooldown_hint().is_none());
    assert!(LlmError::Http("conn".into()).cooldown_hint().is_none());
    assert!(LlmError::Timeout("slow".into()).cooldown_hint().is_none());
    assert!(LlmError::NoContent.cooldown_hint().is_none());
    assert!(LlmError::Parse("bad".into()).cooldown_hint().is_none());
    assert!(LlmError::InvalidTool("bad".into())
        .cooldown_hint()
        .is_none());
}

#[test]
fn new_variants_display_distinctly() {
    let rl = LlmError::RateLimited {
        message: "429: limited".into(),
        retry_after: Some(9),
    };
    let s = rl.to_text();
    assert!(s.contains("Rate limited"), "got: {s}");
    assert!(s.contains("retry after 9s"), "got: {s}");

    assert!(
        LlmError::AuthFailed("HTTP 401: [redacted]".into()).to_text()
            .starts_with("Auth failed:")
    );
    assert!(LlmError::Overloaded("HTTP 503: x".into()).to_text()
        .starts_with("Provider overloaded:"));
}

#[test]
fn deserializes_response_with_tool_calls_and_null_content() {
    let body = r#"{
        "choices": [{
            "message": {
                "role": "assistant",
                "content": null,
                "tool_calls": [{
                    "id": "call_abc123",
                    "type": "function",
                    "function": {
                        "name": "web_fetch",
                        "arguments": "{\"url\":\"https://example.com\"}"
                    }
                }]
            },
            "finish_reason": "tool_calls"
        }]
    }"#;

    let choices = chat_choices(body);

    let choice = choices.into_iter().next().expect("one choice");
    assert!(
        choice.content.is_none(),
        "content should decode as None"
    );
    let calls = choice.tool_calls.expect("tool_calls present");
    assert_eq!(calls.len(), 1);
    assert_eq!(calls[0].id, "call_abc123");
    assert_eq!(calls[0].name, "web_fetch");
    assert_eq!(value(&calls[0].arguments)["url"], "https://example.com");
}

#[test]
fn deserializes_tool_call_with_object_arguments_and_missing_type() {
    let json = r#"{
        "id": "c1",
        "function": { "name": "fs_read", "arguments": {"path": "a.txt"} }
    }"#;
    let call: ToolCall = wire_call(&value(&parsed(json)));
    assert_eq!(call.id, "c1");
    assert_eq!(call.name, "fs_read");
    assert_eq!(value(&call.arguments)["path"], "a.txt");
}

#[test]
fn deserializes_tool_call_with_empty_string_arguments() {
    let json = r#"{
        "id": "c2",
        "type": "function",
        "function": { "name": "ping", "arguments": "" }
    }"#;
    let call: ToolCall = wire_call(&value(&parsed(json)));
    assert_eq!(call.arguments, parsed(r#"{}"#));
}

#[test]
fn tool_call_serializes_to_openai_wire_shape() {
    let call = ToolCall {
        id: "call_xyz".into(),
        name: "search".into(),
        arguments: parsed(r#"{"q": "rust serde"}"#),
    };
    let v = value(&call_json(&call));
    assert_eq!(v["id"], "call_xyz");
    assert_eq!(v["type"], "function");
    assert_eq!(v["function"]["name"], "search");
    let args = v["function"]["arguments"]
        .as_str()
        .expect("arguments must serialize as a JSON string");
    assert_eq!(
        serde_json::from_str::<serde_json::Value>(args).unwrap()["q"],
        "rust serde"
    );
}

#[test]
fn tool_call_wire_roundtrips_through_serde() {
    let call = ToolCall {
        id: "c3".into(),
        name: "calc".into(),
        arguments: parsed(r#"{"a": 1, "b": 2.5}"#),
    };
    let json = call_json(&call).to_text();
    let back: ToolCall = wire_call(&value(&parsed(&json)));
    assert_eq!(call, back);
}

#[test]
fn deserializes_finish_reason_length_and_stop() {
    let body = r#"{"choices":[{"message":{"role":"assistant","content":"hi"},"finish_reason":"length"}]}"#;
    let resp = chat_choices(body);
    let choice = resp.into_iter().next().expect("one choice");
    assert_eq!(
        FinishReason::from_wire(choice.finish_reason.as_deref()),
        FinishReason::Length
    );

    let body2 = r#"{"choices":[{"message":{"role":"assistant","content":"hi"},"finish_reason":"stop"}]}"#;
    let resp2 = chat_choices(body2);
    let choice2 = resp2.into_iter().next().expect("one choice");
    assert_eq!(
        FinishReason::from_wire(choice2.finish_reason.as_deref()),
        FinishReason::Stop
    );
}

#[test]
fn finish_reason_absent_defaults_to_stop_backward_compat() {
    let body = r#"{"choices":[{"message":{"role":"assistant","content":"hi"}}]}"#;
    let resp = chat_choices(body);
    let choice = resp.into_iter().next().expect("one choice");
    assert!(choice.finish_reason.is_none());
    assert_eq!(
        FinishReason::from_wire(choice.finish_reason.as_deref()),
        FinishReason::Stop
    );
}

#[test]
fn finish_reason_tool_calls_and_unknown() {
    assert_eq!(
        FinishReason::from_wire(Some("tool_calls")),
        FinishReason::ToolCalls
    );
    assert_eq!(
        FinishReason::from_wire(Some("content_filter")),
        FinishReason::Other("content_filter".to_string())
    );
    assert!(!FinishReason::Other("content_filter".to_string()).is_length());
    assert!(FinishReason::Length.is_length());
}

#[test]
fn gemini_wire_format_is_default_openai_chat() {
    let cfg = LlmConfig::new("https://api.openai.com/v1", "k", "m");
    assert_eq!(cfg.wire_format, LlmWireFormat::OpenAiChat);
}

#[test]
fn gemini_endpoint_builds_generate_content_path() {
    let url = LlmClient::gemini_endpoint(
        "https://generativelanguage.googleapis.com/v1beta",
        "gemini-2.5-pro",
    );
    assert_eq!(
        url,
        "https://generativelanguage.googleapis.com/v1beta/models/gemini-2.5-pro:generateContent"
    );
    let url2 = LlmClient::gemini_endpoint(
        "https://generativelanguage.googleapis.com/v1beta/",
        "gemini-2.5-pro",
    );
    assert_eq!(url2, url);
}

#[test]
fn gemini_request_maps_system_user_assistant_roles() {
    let messages = vec![
        LlmMessage::system("You are a helpful sibling."),
        LlmMessage::user("hei"),
        LlmMessage::assistant("hei sisko"),
        LlmMessage::user("mitä kuuluu?"),
    ];
    let req = GeminiGenerateContentRequest::from_messages(&messages, 2048);
    let sys = req
        .system_instruction
        .as_ref()
        .expect("system instruction present");
    assert_eq!(sys.parts[0].text.as_deref(), Some("You are a helpful sibling."));

    assert_eq!(req.contents.len(), 3, "system message excluded from contents");
    assert_eq!(req.contents[0].role, "user");
    assert_eq!(req.contents[0].parts[0].text.as_deref(), Some("hei"));
    assert_eq!(req.contents[1].role, "model", "assistant -> Gemini's 'model' role");
    assert_eq!(req.contents[1].parts[0].text.as_deref(), Some("hei sisko"));
    assert_eq!(req.contents[2].role, "user");

    assert_eq!(req.generation_config.max_output_tokens, 2048);
}

#[test]
fn gemini_request_omits_system_instruction_when_no_system_messages() {
    let messages = vec![LlmMessage::user("hei")];
    let req = GeminiGenerateContentRequest::from_messages(&messages, 4096);
    assert!(req.system_instruction.is_none());
}

#[test]
fn gemini_request_serializes_camel_case_field_names() {
    let messages = vec![LlmMessage::system("be nice"), LlmMessage::user("hei")];
    let req = GeminiGenerateContentRequest::from_messages(&messages, 1024);
    let v = value(&gemini_json(&req));
    assert!(v.get("contents").is_some());
    assert!(v.get("systemInstruction").is_some(), "camelCase field, got: {v}");
    assert_eq!(v["generationConfig"]["maxOutputTokens"], 1024);
}

#[test]
fn gemini_response_parses_text_and_stop_finish_reason() {
    let body = r#"{
        "candidates": [{
            "content": {"role": "model", "parts": [{"text": "hei sisko"}]},
            "finishReason": "STOP"
        }]
    }"#;
    let resp = gemini_candidates(body);
    let candidate = resp.into_iter().next().expect("one candidate");
    assert_eq!(
        candidate.content.expect("content").parts[0].text.as_deref(),
        Some("hei sisko")
    );
    assert_eq!(
        FinishReason::from_gemini_wire(candidate.finish_reason.as_deref()),
        FinishReason::Stop
    );
}

#[test]
fn gemini_response_maps_max_tokens_to_length_finish_reason() {
    assert_eq!(
        FinishReason::from_gemini_wire(Some("MAX_TOKENS")),
        FinishReason::Length
    );
    assert!(FinishReason::from_gemini_wire(Some("MAX_TOKENS")).is_length());
    assert_eq!(FinishReason::from_gemini_wire(None), FinishReason::Stop);
    assert_eq!(
        FinishReason::from_gemini_wire(Some("SAFETY")),
        FinishReason::Other("SAFETY".to_string())
    );
}

#[test]
fn gemini_response_multi_part_text_is_concatenated() {
    let body = r#"{
        "candidates": [{
            "content": {"role": "model", "parts": [{"text": "hei "}, {"text": "sisko"}]},
            "finishReason": "STOP"
        }]
    }"#;
    let resp = gemini_candidates(body);
    let candidate = resp.into_iter().next().expect("candidate");
    let joined: String = candidate
        .content
        .expect("content")
        .parts
        .into_iter()
        .filter_map(|p| p.text)
        .collect();
    assert_eq!(joined, "hei sisko");
}

#[test]
fn llm_wire_format_as_word_is_stable() {
    assert_eq!(LlmWireFormat::OpenAiChat.as_word(), "openai_chat");
    assert_eq!(LlmWireFormat::GeminiGenerate.as_word(), "gemini_generate");
    assert_eq!(LlmWireFormat::AnthropicMessages.as_word(), "anthropic_messages");
    assert_eq!(LlmWireFormat::Bedrock.as_word(), "bedrock");
}

#[test]
fn empty_choices_is_retryable_nocontent_not_parse() {
    let client = LlmClient::new(LlmConfig::new("http://127.0.0.1:1/v1", "k", "m"));
    let (result, _) = scripted(
        &client,
        &[LlmMessage::user("hei")],
        DEFAULT_MAX_CONTINUATIONS,
        &[r#"{"choices":[]}"#],
    );
    let err = result.expect_err("empty choices must be an error");
    assert!(
        matches!(err, LlmError::NoContent),
        "empty choices must be retryable NoContent (not terminal Parse), got {err:?}"
    );
    assert!(
        err.is_retryable(),
        "NoContent must be retryable for failover"
    );
}

#[test]
fn max_continuations_reads_env_override_and_allows_zero() {
    assert_eq!(max_continuations(Some("7")), 7);
    assert_eq!(max_continuations(Some("0")), 0);
    assert_eq!(max_continuations(None), DEFAULT_MAX_CONTINUATIONS);
}

#[test]
fn continuation_concatenates_length_then_stop() {
    let body1 = r#"{"choices":[{"message":{"role":"assistant","content":"partial-one "},"finish_reason":"length"}]}"#;
    let body2 = r#"{"choices":[{"message":{"role":"assistant","content":"final-part"},"finish_reason":"stop"}]}"#;
    let client = LlmClient::new(LlmConfig::new("http://127.0.0.1:1/v1", "k", "m"));
    let (text, calls) = scripted(
        &client,
        &[LlmMessage::user("hi")],
        max_continuations(None),
        &[body1, body2],
    );
    assert_eq!(text.expect("completes"), "partial-one final-part");
    assert_eq!(calls, 2, "exactly one continuation round (length -> stop)");
}

#[test]
fn continuation_disabled_when_max_continuations_zero() {
    let body1 = r#"{"choices":[{"message":{"role":"assistant","content":"only-part"},"finish_reason":"length"}]}"#;
    let client = LlmClient::new(LlmConfig::new("http://127.0.0.1:1/v1", "k", "m"));
    let (text, calls) = scripted(
        &client,
        &[LlmMessage::user("hi")],
        max_continuations(Some("0")),
        &[body1],
    );
    assert_eq!(text.expect("completes even without continuation"), "only-part");
    assert_eq!(calls, 1, "zero must disable continuation entirely");
}

#[test]
fn continuation_failure_returns_accumulated_partial_not_error() {
    let body = r#"{"choices":[{"message":{"role":"assistant","content":"partial-only"},"finish_reason":"length"}]}"#;
    let client = LlmClient::new(LlmConfig::new("http://127.0.0.1:1/v1", "k", "m"));
    let (text, calls) = scripted(
        &client,
        &[LlmMessage::user("hi")],
        DEFAULT_MAX_CONTINUATIONS,
        &[body],
    );
    assert_eq!(
        text.expect("must return the accumulated partial, not an error"),
        "partial-only",
        "a failed continuation call must not lose the already-accumulated partial text"
    );
    assert_eq!(calls, 2);
}

#[test]
fn gemini_wire_format_completes_end_to_end_via_mock_server() {
    let body = r#"{"candidates":[{"content":{"role":"model","parts":[{"text":"hei sisko!"}]},"finishReason":"STOP"}]}"#;
    let cfg = LlmConfig::new("http://127.0.0.1:1/v1beta", "test-key", "gemini-2.5-pro")
        .with_wire_format(LlmWireFormat::GeminiGenerate);
    let client = LlmClient::new(cfg);
    let (text, calls) = scripted(
        &client,
        &[LlmMessage::system("be nice"), LlmMessage::user("hei")],
        DEFAULT_MAX_CONTINUATIONS,
        &[body],
    );
    assert_eq!(
        text.expect("gemini wire format must complete via the same public entry point"),
        "hei sisko!"
    );
    assert_eq!(calls, 1);
}

#[test]
fn gemini_wire_format_complete_with_tools_empty_delegates_to_text_path() {
    let body = r#"{"candidates":[{"content":{"role":"model","parts":[{"text":"no tools needed"}]},"finishReason":"STOP"}]}"#;
    let cfg = LlmConfig::new("http://127.0.0.1:1/v1beta", "k", "gemini-2.5-pro")
        .with_wire_format(LlmWireFormat::GeminiGenerate);
    let client = LlmClient::new(cfg);
    let request = client
        .complete_with_tools(&[LlmMessage::user("hei")], &[])
        .expect("empty tools list must delegate to the tool-less Gemini path");
    let result = reply_to(&request, body).tool_reply().expect("a reply");
    assert_eq!(result.text(), "no tools needed");
    assert!(!result.has_tool_calls());
}

#[test]
fn gemini_wire_format_complete_with_tools_nonempty_is_unimplemented() {
    let cfg = LlmConfig::new("http://127.0.0.1:1", "k", "gemini-2.5-pro")
        .with_wire_format(LlmWireFormat::GeminiGenerate);
    let client = LlmClient::new(cfg);
    let tool = ToolDefinition {
        name: "ping".into(),
        description: "ping".into(),
        input_schema: parsed(r#"{"type": "object", "properties": {}}"#),
    };
    let err = client
        .complete_with_tools(&[LlmMessage::user("hei")], &[tool])
        .expect_err("Gemini function calling must not be silently attempted");
    assert!(
        matches!(err, LlmError::Http(_)),
        "expected a clear Http error, got {err:?}"
    );
    assert!(
        err.to_text().contains("gemini_generate"),
        "error should name the unimplemented wire format, got: {}",
        err.to_text()
    );
}

#[test]
fn gemini_wire_format_streaming_is_unimplemented() {
    let cfg = LlmConfig::new("http://127.0.0.1:1", "k", "gemini-2.5-pro")
        .with_wire_format(LlmWireFormat::GeminiGenerate);
    let client = LlmClient::new(cfg);
    match client.complete_stream(&[LlmMessage::user("hei")]) {
        Ok(_) => panic!("Gemini streaming must not be silently attempted as OpenAI SSE"),
        Err(err) => assert!(matches!(err, LlmError::Http(_))),
    }
}

#[test]
fn anthropic_and_bedrock_wire_formats_error_before_any_network_call() {
    for format in [LlmWireFormat::AnthropicMessages, LlmWireFormat::Bedrock] {
        let cfg = LlmConfig::new("http://127.0.0.1:1", "k", "m").with_wire_format(format);
        let client = LlmClient::new(cfg);
        let (result, calls) = scripted(
            &client,
            &[LlmMessage::user("hei")],
            DEFAULT_MAX_CONTINUATIONS,
            &[],
        );
        let err = result.expect_err("unimplemented wire format must error, not silently fall back");
        assert_eq!(calls, 0);
        assert!(matches!(err, LlmError::Http(_)));
        let msg = err.to_text();
        assert!(
            msg.contains("multi-provider-wire-formats.md"),
            "error should point at the design doc, got: {msg}"
        );
    }
}

#[test]
fn a_tool_reply_keeps_text_and_calls() {
    let body = r#"{"choices":[{"message":{"content":"one moment","tool_calls":[{"id":"c","function":{"name":"f","arguments":{}}}]}}]}"#;
    let result = tool_reply(&chat_choices(body)).expect("a reply");
    assert_eq!(result.text(), "one moment");
    assert!(result.has_tool_calls());
    assert!(matches!(tool_reply(&vec![]), Err(LlmError::NoContent)));
}

#[test]
fn an_endpoint_holds_no_white_space() {
    assert_eq!(
        LlmClient::build_endpoint(" https://api.openai.com/ v1/\n"),
        "https://api.openai.com/v1/chat/completions"
    );
    assert_eq!(
        LlmClient::gemini_endpoint("a b//", "m"),
        "a b/models/m:generateContent"
    );
}

#[test]
fn a_sensitive_body_leaves_no_trace() {
    for status in [401, 403, 404] {
        let e = LlmClient::error_from_response(status, None, "acct_9f8e7d6c5b4a");
        assert_eq!(e.redacted_status_line(), format!("HTTP {status}"));
        assert!(!e.to_text().contains("acct_9f8e7d6c5b4a"));
    }
    match LlmClient::error_from_response(429, Some(" 12 "), "slow down") {
        LlmError::RateLimited {
            message,
            retry_after,
        } => {
            assert_eq!(message, "HTTP 429: slow down");
            assert_eq!(retry_after, Some(12));
        }
        other => panic!("{other:?}"),
    }
}

#[test]
fn a_transport_that_fails_is_a_timeout_or_not() {
    assert!(matches!(
        LlmError::from_transport("request failed", "slow", true),
        LlmError::Timeout(m) if m == "request failed: slow"
    ));
    assert!(matches!(
        LlmError::from_transport("request failed", "refused", false),
        LlmError::Http(_)
    ));
    assert!(matches!(
        LlmError::from_body("slow", true),
        LlmError::Timeout(m) if m == "response read timed out: slow"
    ));
}

#[test]
fn continued_output_is_bounded() {
    let big = "x".repeat(70_000);
    let (mut completion, _) = Completion::new(&[LlmMessage::user("q")], 3);
    match completion.on_reply(Ok((big, FinishReason::Length))) {
        CompletionStep::Done(text) => assert_eq!(text.len(), 64_000),
        other => panic!("{other:?}"),
    }
}
