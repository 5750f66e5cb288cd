use serde_json::{Number, Value};
use sweet::anthropic::caching::apply_prompt_caching;
use sweet::anthropic::provider::{
    AnthropicProvider, SamplingFields, WireThinking, DEFAULT_API_KEY_ENV, DEFAULT_BASE_URL,
    DEFAULT_MAX_TOKENS, MIN_THINKING_BUDGET,
};
use sweet::anthropic::response::{
    map_stop_reason, parse_response, MessagesResponse, ResponseBlock, Usage,
};
use sweet::anthropic::stream::{
    Emitted, MessageDeltaInner, MessageStream, StreamDelta, StreamEvent,
};
use sweet::anthropic::thinking::ThinkingConfig;
use sweet::anthropic::wire::convert_messages;
use sweet::error::ProviderError;
use sweet::gemini::provider::GeminiProvider;
use sweet::json::Json;
use sweet::message::{
    ContentBlock, FinishReason, Message, Role, ThinkingContent, ToolCall, ToolSpec, SWEET_VERSION,
};
use sweet::openai::provider::OpenAIProvider;
use sweet::reasoning::ReasoningConfig;
use sweet::sampling::{Real, SamplingConfig};
use sweet::structured_output::StructuredOutput;
use sweet::tool_choice::ToolChoice;

const MODEL: &str = "sonnet-test";

fn provider(key: &str) -> AnthropicProvider {
    AnthropicProvider::new(key, MODEL)
}

fn value(text: &str) -> Value {
    serde_json::from_str(text).unwrap()
}

fn json(text: &str) -> Json {
    Json::from_value(value(text))
}

/// Whether `actual` has everything that `expected` has: members may be more,
/// items may not.
fn covers(actual: &Value, expected: &Value) -> bool {
    match (actual, expected) {
        (Value::Object(a), Value::Object(e)) => {
            e.iter().all(|(k, v)| a.get(k).is_some_and(|x| covers(x, v)))
        }
        (Value::Array(a), Value::Array(e)) => {
            a.len() == e.len() && a.iter().zip(e).all(|(x, y)| covers(x, y))
        }
        _ => actual == expected,
    }
}

fn finite(x: f64) -> Real {
    Real::Finite(Number::from_f64(x).unwrap())
}

fn headers_of(p: &AnthropicProvider, messages: &Vec<Message>) -> Vec<(String, String)> {
    p.request_headers(messages)
}

fn has_header(headers: &Vec<(String, String)>, name: &str, value: &str) -> bool {
    headers.iter().any(|h| h.0.eq_ignore_ascii_case(name) && h.1 == value)
}

fn text_response(text: &str, input: usize, output: usize) -> MessagesResponse {
    MessagesResponse {
        content: vec![ResponseBlock::Text { text: text.to_string() }],
        stop_reason: Some("end_turn".to_string()),
        usage: Some(usage(input, output)),
    }
}

fn usage(input: usize, output: usize) -> Usage {
    Usage {
        input_tokens: Some(input),
        output_tokens: Some(output),
        cache_creation_input_tokens: None,
        cache_read_input_tokens: None,
    }
}

#[test]
fn mod_default_user_agent_is_sweet_version() {
    let expected = format!("sweet/{}", SWEET_VERSION);
    assert_eq!(provider("k").user_agent, expected);
    assert_eq!(GeminiProvider::new("k").user_agent, expected);
    assert_eq!(OpenAIProvider::new("k").user_agent, expected);
}

#[test]
fn mod_with_user_agent_overwrites() {
    assert_eq!(provider("k").with_user_agent("custom/1.0").user_agent, "custom/1.0");
    assert_eq!(GeminiProvider::new("k").with_user_agent("custom/1.0").user_agent, "custom/1.0");
    assert_eq!(OpenAIProvider::new("k").with_user_agent("custom/1.0").user_agent, "custom/1.0");
}

#[test]
fn mod_prepend_user_agent_prepends_with_space() {
    let expected = format!("app/1.0 sweet/{}", SWEET_VERSION);
    assert_eq!(provider("k").prepend_user_agent("app/1.0").user_agent, expected);
    assert_eq!(GeminiProvider::new("k").prepend_user_agent("app/1.0").user_agent, expected);
    assert_eq!(OpenAIProvider::new("k").prepend_user_agent("app/1.0").user_agent, expected);
}

#[test]
fn toggle_on_uses_adaptive_thinking() {
    let p = provider("k").with_reasoning(ReasoningConfig::Toggle(true));
    assert!(matches!(p.wire_thinking(), Some(WireThinking::Adaptive)));
    assert!(p.wire_output_config().is_none());
}

#[test]
fn toggle_off_disables_thinking() {
    let p = provider("k").with_reasoning(ReasoningConfig::Toggle(false));
    assert!(matches!(p.wire_thinking(), Some(WireThinking::Disabled)));
    assert!(p.wire_output_config().is_none());
}

#[test]
fn budget_enables_thinking_with_budget_tokens() {
    let p = provider("k").with_max_tokens(64_000).with_reasoning(ReasoningConfig::Budget(4096));
    assert!(matches!(p.wire_thinking(), Some(WireThinking::Enabled { budget_tokens: 4096 })));
    assert!(p.wire_output_config().is_none());
}

#[test]
fn effort_sets_output_config_not_thinking() {
    let p = provider("k").with_reasoning(ReasoningConfig::Effort("high".into()));
    assert_eq!(p.wire_output_config().and_then(|o| o.effort), Some("high".to_string()));
    assert!(p.wire_thinking().is_none());
}

#[test]
fn no_reasoning_by_default() {
    let p = provider("k");
    assert!(p.wire_thinking().is_none());
    assert!(p.wire_output_config().is_none());
}

#[test]
fn budget_below_minimum_is_clamped() {
    let p = provider("k").with_reasoning(ReasoningConfig::Budget(500));
    assert!(matches!(
        p.wire_thinking(),
        Some(WireThinking::Enabled { budget_tokens: MIN_THINKING_BUDGET })
    ));
}

#[test]
fn with_max_tokens_sets_output_ceiling() {
    let p = provider("k").with_max_tokens(64_000).with_reasoning(ReasoningConfig::Budget(8_000));
    assert_eq!(p.max_tokens(), 64_000);
    assert_eq!(p.thinking_budget(), 8_000);
    assert!(p.thinking_budget() < p.max_tokens());
}

#[test]
fn budget_sent_verbatim() {
    let p = provider("k").with_max_tokens(64_000).with_reasoning(ReasoningConfig::Budget(8_000));
    assert!(matches!(p.wire_thinking(), Some(WireThinking::Enabled { budget_tokens: 8_000 })));
}

#[test]
fn budget_is_clamped_below_max_tokens() {
    let p = provider("k").with_reasoning(ReasoningConfig::Budget(50_000));
    assert!(p.thinking_budget() < p.max_tokens());
    assert_eq!(p.thinking_budget(), p.max_tokens() - 1);
}

#[test]
fn budget_clamped_below_sampling_max_tokens_override() {
    let p = provider("k")
        .with_max_tokens(64_000)
        .with_sampling(SamplingConfig { max_tokens: Some(1000), ..Default::default() })
        .with_reasoning(ReasoningConfig::Budget(8_000));
    assert_eq!(p.thinking_budget(), 0);
    assert!(p.wire_thinking().is_none());
}

#[test]
fn stop_reason_maps_refusal_and_length() {
    assert_eq!(map_stop_reason("end_turn"), FinishReason::Stop);
    assert_eq!(map_stop_reason("max_tokens"), FinishReason::Length);
    assert_eq!(map_stop_reason("tool_use"), FinishReason::ToolCalls);
    assert_eq!(map_stop_reason("refusal"), FinishReason::Refusal);
    assert_eq!(map_stop_reason("???"), FinishReason::Other("???".to_string()));
}

#[test]
fn sampling_dropped_when_thinking_on() {
    let p = provider("k").with_reasoning(ReasoningConfig::Toggle(true)).with_sampling(
        SamplingConfig {
            temperature: Some(finite(0.7)),
            top_p: Some(finite(0.9)),
            top_k: Some(40),
            ..Default::default()
        },
    );
    let SamplingFields { temperature: t, top_p, top_k, .. } = p.sampling_fields();
    assert!(t.is_none() && top_p.is_none() && top_k.is_none());
}

#[test]
fn temperature_and_top_p_mutually_exclusive() {
    let p = provider("k").with_sampling(SamplingConfig {
        temperature: Some(finite(0.7)),
        top_p: Some(finite(0.9)),
        ..Default::default()
    });
    let SamplingFields { temperature: t, top_p, .. } = p.sampling_fields();
    match t {
        Some(Real::Finite(n)) => assert_eq!(n.as_f64(), Some(0.7)),
        _ => panic!("temperature is set"),
    }
    assert!(top_p.is_none());
}

#[test]
fn sampling_max_tokens_overrides_ceiling() {
    let p = provider("k")
        .with_max_tokens(64_000)
        .with_sampling(SamplingConfig { max_tokens: Some(1000), ..Default::default() });
    assert_eq!(p.request_max_tokens(), 1000);
}

#[test]
fn tool_choice_maps_to_anthropic_wire() {
    let p = provider("k").with_tool_choice(ToolChoice::Required);
    assert_eq!(
        p.tool_choice_value(true).map(|j| j.into_value()),
        Some(value(r#"{ "type": "any" }"#))
    );
    assert!(p.tool_choice_value(false).is_none());

    let p = provider("k").with_tool_choice(ToolChoice::Tool("x".into()));
    assert_eq!(
        p.tool_choice_value(true).map(|j| j.into_value()),
        Some(value(r#"{ "type": "tool", "name": "x" }"#))
    );
}

#[test]
fn structured_output_sets_output_config_format_and_beta() {
    let p = provider("k")
        .with_structured_output(StructuredOutput::new(json(r#"{ "type": "object" }"#)));
    let oc = p.wire_output_config().expect("output_config present");
    let format = oc.format.expect("format present").into_value();
    assert_eq!(format["type"], "json_schema");
    assert_eq!(format["schema"]["type"], "object");
    assert_eq!(p.betas(&vec![]), vec!["structured-outputs-2025-11-13".to_string()]);
}

#[test]
fn betas_include_custom_and_pdf() {
    let p = provider("k").with_beta("custom-beta");
    assert_eq!(p.betas(&vec![Message::user("hi")]), vec!["custom-beta".to_string()]);
    let with_file = Message::user_blocks(vec![ContentBlock::File {
        data: vec![1, 2, 3],
        media_type: "application/pdf".into(),
        filename: "d.pdf".into(),
    }]);
    let betas = p.betas(&vec![with_file]);
    assert!(betas.contains(&"custom-beta".to_string()));
    assert!(betas.contains(&"pdfs-2024-09-25".to_string()));
}

#[test]
fn auth_token_takes_precedence_over_api_key() {
    let p = provider("api-key").with_auth_token("bearer-tok");
    assert_eq!(p.auth_token.as_deref(), Some("bearer-tok"));
    let headers = headers_of(&p, &vec![]);
    assert!(has_header(&headers, "authorization", "Bearer bearer-tok"));
    assert!(!headers.iter().any(|h| h.0 == "x-api-key"));
}

#[test]
fn apply_prompt_caching_sets_three_breakpoints() {
    let mut body = json(
        r#"{
            "system": "you are helpful",
            "tools": [{ "name": "a" }, { "name": "b" }],
            "messages": [
                { "role": "user", "content": "first" },
                { "role": "user", "content": "latest" }
            ]
        }"#,
    );
    apply_prompt_caching(&mut body);
    let body = body.into_value();

    assert_eq!(body["system"][0]["type"], "text");
    assert_eq!(body["system"][0]["text"], "you are helpful");
    assert_eq!(body["system"][0]["cache_control"]["type"], "ephemeral");

    assert!(body["tools"][0].get("cache_control").is_none());
    assert_eq!(body["tools"][1]["cache_control"]["type"], "ephemeral");

    assert!(body["messages"][0]["content"].is_string());
    assert_eq!(body["messages"][1]["content"][0]["type"], "text");
    assert_eq!(body["messages"][1]["content"][0]["text"], "latest");
    assert_eq!(body["messages"][1]["content"][0]["cache_control"]["type"], "ephemeral");
}

#[test]
fn apply_prompt_caching_caches_last_block_of_array_content() {
    let mut body = json(
        r#"{
            "messages": [
                { "role": "user", "content": [
                    { "type": "tool_result", "tool_use_id": "t", "content": "r" }
                ] }
            ]
        }"#,
    );
    apply_prompt_caching(&mut body);
    let body = body.into_value();
    assert_eq!(body["messages"][0]["content"][0]["cache_control"]["type"], "ephemeral");
}

#[test]
fn apply_prompt_caching_skips_assistant_last_message() {
    let mut body = json(
        r#"{
            "messages": [
                { "role": "user", "content": "hi" },
                { "role": "assistant", "content": [
                    { "type": "text", "text": "hello" }
                ] }
            ]
        }"#,
    );
    apply_prompt_caching(&mut body);
    let body = body.into_value();
    assert!(body["messages"][1]["content"][0].get("cache_control").is_none());
}

#[test]
fn caching_twice_is_caching_once() {
    let mut body = json(r#"{"system": "s", "messages": [{"role": "user", "content": "x"}]}"#);
    apply_prompt_caching(&mut body);
    let once = body.copy().into_value();
    apply_prompt_caching(&mut body);
    assert_eq!(body.into_value(), once);
}

#[test]
fn usage_total_input_sums_cache_tokens() {
    let usage = Usage {
        input_tokens: Some(100),
        output_tokens: Some(50),
        cache_creation_input_tokens: Some(200),
        cache_read_input_tokens: Some(700),
    };
    assert_eq!(usage.total_input(), Some(1000));
}

#[test]
fn redacted_thinking_replays_to_wire() {
    let mut msg = Message::assistant("answer");
    msg.thinking_content = vec![ThinkingContent {
        text: String::new(),
        signature: None,
        redacted_data: Some("ENC".to_string()),
        details: None,
    }];
    let (_system, wire) = convert_messages(&vec![msg]);
    let json = wire[0].copy().into_value();
    let blocks = json["content"].as_array().unwrap();
    assert!(blocks.iter().any(|b| b["type"] == "redacted_thinking" && b["data"] == "ENC"));
}

#[test]
fn redacted_thinking_parsed_from_response() {
    let resp = MessagesResponse {
        content: vec![
            ResponseBlock::RedactedThinking { data: "ENC".to_string() },
            ResponseBlock::Text { text: "hi".to_string() },
        ],
        stop_reason: Some("end_turn".to_string()),
        usage: Some(usage(1, 1)),
    };
    let msg = parse_response(resp);
    assert_eq!(msg.text_content(), "hi");
    assert_eq!(msg.thinking_content.len(), 1);
    assert_eq!(msg.thinking_content[0].redacted_data.as_deref(), Some("ENC"));
}

#[test]
fn anthropic_complete_posts_correct_request_and_returns_assistant_message() {
    let p = provider("test-key")
        .with_base_url("http://host/")
        .with_model("test-model")
        .with_prompt_caching(false);
    let messages = vec![Message::system("be terse"), Message::user("hello")];
    assert_eq!(p.request_url(), "http://host/messages");
    let headers = headers_of(&p, &messages);
    assert!(has_header(&headers, "x-api-key", "test-key"));
    assert!(has_header(&headers, "anthropic-version", "2023-06-01"));
    assert!(has_header(&headers, "user-agent", "sweet/0.1.0"));
    let body = p.request_body(&messages, &vec![], false).into_value();
    assert_eq!(body["model"], "test-model");
    assert_eq!(body["max_tokens"], 4096);
    assert_eq!(body["system"], "be terse");
    assert_eq!(body["messages"], value(r#"[{"role": "user", "content": "hello"}]"#));

    let reply = parse_response(text_response("hi there", 10, 5));
    assert_eq!(reply.role, Role::Assistant);
    assert_eq!(reply.text_content(), "hi there");
    assert!(reply.tool_calls.is_empty());
    assert_eq!(reply.token_count, Some(15));
}

#[test]
fn complete_with_tools_sends_correct_tool_spec_and_parses_tool_use() {
    let tool = ToolSpec {
        name: "echo".into(),
        description: "echoes".into(),
        parameters_schema: json(r#"{"type": "object"}"#),
    };
    let p = provider("k");
    let messages = vec![Message::user("search")];
    let headers = headers_of(&p, &messages);
    assert!(has_header(&headers, "x-api-key", "k"));
    assert!(has_header(&headers, "user-agent", &format!("sweet/{}", SWEET_VERSION)));
    let body = p.request_body(&messages, &vec![tool], false).into_value();
    assert!(covers(
        &body["tools"],
        &value(
            r#"[{"name": "echo", "description": "echoes", "input_schema": {"type": "object"}}]"#
        )
    ));

    let reply = parse_response(MessagesResponse {
        content: vec![
            ResponseBlock::Text { text: "Let me search".to_string() },
            ResponseBlock::ToolUse {
                id: "tu_01".to_string(),
                name: "web_search".to_string(),
                input: json(r#"{"query": "foo"}"#),
            },
        ],
        stop_reason: Some("tool_use".to_string()),
        usage: Some(usage(20, 15)),
    });
    assert_eq!(reply.text_content(), "Let me search");
    assert_eq!(reply.tool_calls.len(), 1);
    assert_eq!(reply.tool_calls[0].id, "tu_01");
    assert_eq!(reply.tool_calls[0].name, "web_search");
    assert_eq!(
        reply.tool_calls[0].arguments.copy().into_value(),
        value(r#"{"query": "foo"}"#)
    );
    assert_eq!(reply.token_count, Some(35));
    assert_eq!(reply.finish_reason, Some(FinishReason::ToolCalls));
}

#[test]
fn complete_groups_consecutive_tool_results() {
    let messages = vec![
        Message::user("go"),
        Message::with_tool_calls(vec![ToolCall {
            id: "tu_a".into(),
            name: "a".into(),
            arguments: json("{}"),
        }]),
        Message::tool_result("tu_a", "result-a"),
        Message::tool_result("tu_b", "result-b"),
    ];
    let p = provider("k");
    let ua = format!("sweet/{}", SWEET_VERSION);
    assert!(has_header(&headers_of(&p, &messages), "user-agent", &ua));
    let body = p.request_body(&messages, &vec![], false).into_value();
    assert!(covers(
        &body["messages"],
        &value(
            r#"[
                {"role": "user", "content": "go"},
                {"role": "assistant", "content": [
                    {"type": "tool_use", "id": "tu_a", "name": "a", "input": {}}
                ]},
                {"role": "user", "content": [
                    {"type": "tool_result", "tool_use_id": "tu_a", "content": "result-a"},
                    {"type": "tool_result", "tool_use_id": "tu_b", "content": "result-b"}
                ]}
            ]"#
        )
    ));
    let reply = parse_response(text_response("done", 10, 5));
    assert_eq!(reply.role, Role::Assistant);
    assert_eq!(reply.text_content(), "done");
    assert!(reply.tool_calls.is_empty());
}

#[test]
fn file_user_message_sends_document_block() {
    let msg = Message::user_blocks(vec![
        ContentBlock::Text { text: "review this".to_string() },
        ContentBlock::File {
            data: b"%PDF-1.4".to_vec(),
            media_type: "application/pdf".to_string(),
            filename: "report.pdf".to_string(),
        },
    ]);
    let p = provider("k");
    let messages = vec![msg];
    let headers = headers_of(&p, &messages);
    assert!(has_header(&headers, "x-api-key", "k"));
    assert!(has_header(&headers, "user-agent", &format!("sweet/{}", SWEET_VERSION)));
    let body = p.request_body(&messages, &vec![], false).into_value();
    assert!(covers(
        &body["messages"],
        &value(
            r#"[{"role": "user", "content": [
                {"type": "text", "text": "review this"},
                {"type": "document", "source": {
                    "type": "base64",
                    "media_type": "application/pdf",
                    "data": "JVBERi0xLjQ="
                }}
            ]}]"#
        )
    ));
    let reply = parse_response(text_response("looks good", 10, 5));
    assert_eq!(reply.text_content(), "looks good");
}

#[test]
fn anthropic_non_2xx_response_yields_provider_error_with_body() {
    let err = sweet::http::accept(401, "invalid key".to_string()).unwrap_err();
    assert_eq!(err, ProviderError::Http { status: 401, body: "invalid key".to_string() });
    assert_eq!(err.to_message(), "HTTP 401: invalid key");
}

fn run(events: Vec<StreamEvent>) -> (Message, Vec<String>, Vec<String>, usize) {
    let mut stream = MessageStream::new();
    let mut texts = Vec::new();
    let mut thoughts = Vec::new();
    let mut calls = 0;
    for event in events {
        match stream.on_event(event).unwrap() {
            Some(Emitted::Content(t)) => texts.push(t),
            Some(Emitted::Thinking(t)) => thoughts.push(t),
            Some(Emitted::ToolCall(_)) => calls += 1,
            None => {}
        }
    }
    assert!(stream.is_done());
    (stream.finish().unwrap(), texts, thoughts, calls)
}

fn start(input: usize) -> StreamEvent {
    StreamEvent::MessageStart { usage: Some(usage(input, 0)) }
}

fn stop(reason: &str, output: usize) -> Vec<StreamEvent> {
    vec![
        StreamEvent::MessageDelta {
            delta: Some(MessageDeltaInner { stop_reason: Some(reason.to_string()) }),
            usage: Some(Usage {
                input_tokens: None,
                output_tokens: Some(output),
                cache_creation_input_tokens: None,
                cache_read_input_tokens: None,
            }),
        },
        StreamEvent::MessageStop,
    ]
}

fn text_delta(index: usize, text: &str) -> StreamEvent {
    StreamEvent::ContentBlockDelta {
        index,
        delta: StreamDelta::TextDelta { text: text.to_string() },
    }
}

#[test]
fn anthropic_complete_stream_emits_content_deltas_and_captures_usage() {
    let p = provider("k");
    let messages = vec![Message::user("hi")];
    assert!(has_header(&headers_of(&p, &messages), "x-api-key", "k"));
    assert_eq!(p.request_body(&messages, &vec![], true).into_value()["stream"], true);
    let mut events = vec![
        start(10),
        StreamEvent::ContentBlockStart {
            index: 0,
            content_block: ResponseBlock::Text { text: String::new() },
        },
        text_delta(0, "Hello"),
        text_delta(0, ", "),
        text_delta(0, "world!"),
        StreamEvent::ContentBlockStop { index: 0 },
    ];
    events.extend(stop("end_turn", 5));
    let (reply, texts, _, _) = run(events);
    assert_eq!(reply.text_content(), "Hello, world!");
    assert_eq!(reply.token_count, Some(15));
    assert!(reply.tool_calls.is_empty());
    assert_eq!(texts, vec!["Hello", ", ", "world!"]);
}

#[test]
fn complete_stream_assembles_tool_use_from_json_deltas() {
    let piece = |text: &str| StreamEvent::ContentBlockDelta {
        index: 0,
        delta: StreamDelta::InputJsonDelta { partial_json: text.to_string() },
    };
    let mut events = vec![
        start(10),
        StreamEvent::ContentBlockStart {
            index: 0,
            content_block: ResponseBlock::ToolUse {
                id: "tu_01".to_string(),
                name: "echo".to_string(),
                input: json("{}"),
            },
        },
        piece("{\"msg\":"),
        piece("\"hi\""),
        piece("}"),
        StreamEvent::ContentBlockStop { index: 0 },
    ];
    events.extend(stop("tool_use", 15));
    let (reply, texts, _, calls) = run(events);
    assert_eq!(reply.text_content(), "");
    assert_eq!(reply.tool_calls.len(), 1);
    assert_eq!(reply.tool_calls[0].id, "tu_01");
    assert_eq!(reply.tool_calls[0].name, "echo");
    assert_eq!(
        reply.tool_calls[0].arguments.copy().into_value(),
        value(r#"{"msg": "hi"}"#)
    );
    assert!(texts.is_empty());
    assert_eq!(calls, 1);
}

#[test]
fn an_error_event_ends_the_stream() {
    let mut stream = MessageStream::new();
    let err = stream
        .on_event(StreamEvent::Error {
            error_type: "overloaded_error".to_string(),
            message: "Overloaded".to_string(),
        })
        .unwrap_err();
    assert!(err.to_message().contains("Overloaded"));
}

#[test]
fn anthropic_defaults_match_published_constants() {
    let p = provider("k");
    assert_eq!(p.base_url(), DEFAULT_BASE_URL);
    assert_eq!(p.model_name(), MODEL);
}

#[test]
fn from_env_reads_anthropic_api_key() {
    let p = AnthropicProvider::from_env(Some("from-env-key".to_string()), MODEL)
        .expect("env var present");
    assert_eq!(p.api_key, "from-env-key");
    assert_eq!(p.base_url(), DEFAULT_BASE_URL);
    assert_eq!(p.model_name(), MODEL);
    assert_eq!(p.max_tokens(), DEFAULT_MAX_TOKENS);
}

#[test]
fn anthropic_from_env_errors_when_unset() {
    let err = AnthropicProvider::from_env(None, MODEL).unwrap_err();
    assert!(matches!(
        err,
        ProviderError::MissingApiKey { var } if var == DEFAULT_API_KEY_ENV
    ));
}

#[test]
fn complete_with_thinking_enabled_sends_thinking_field_and_captures_thinking_blocks() {
    let p = provider("k").with_max_tokens(64_000).with_reasoning(ReasoningConfig::Budget(10000));
    let body = p.request_body(&vec![Message::user("what is 6*7?")], &vec![], false).into_value();
    assert_eq!(body["thinking"], value(r#"{"type": "enabled", "budget_tokens": 10000}"#));

    let reply = parse_response(MessagesResponse {
        content: vec![
            ResponseBlock::Thinking {
                thinking: "Let me reason about this...".to_string(),
                signature: "sig_abc123".to_string(),
            },
            ResponseBlock::Text { text: "The answer is 42.".to_string() },
        ],
        stop_reason: Some("end_turn".to_string()),
        usage: Some(usage(20, 30)),
    });
    assert_eq!(reply.text_content(), "The answer is 42.");
    assert_eq!(reply.thinking_content.len(), 1);
    assert_eq!(reply.thinking_content[0].text, "Let me reason about this...");
    assert_eq!(reply.thinking_content[0].signature.as_deref(), Some("sig_abc123"));
    assert_eq!(reply.token_count, Some(50));
}

fn thinking_response(thought: &str, signature: &str, text: &str, used: Usage) -> MessagesResponse {
    MessagesResponse {
        content: vec![
            ResponseBlock::Thinking {
                thinking: thought.to_string(),
                signature: signature.to_string(),
            },
            ResponseBlock::Text { text: text.to_string() },
        ],
        stop_reason: Some("end_turn".to_string()),
        usage: Some(used),
    }
}

#[test]
fn complete_with_adaptive_thinking_sends_adaptive_field() {
    let p = provider("k").with_reasoning(ReasoningConfig::Toggle(true));
    let body = p.request_body(&vec![Message::user("hi")], &vec![], false).into_value();
    assert_eq!(body["thinking"], value(r#"{"type": "adaptive"}"#));

    let reply = parse_response(thinking_response("hmm", "sig_xyz", "done", usage(5, 5)));
    assert_eq!(reply.text_content(), "done");
    assert_eq!(reply.thinking_content.len(), 1);
    assert_eq!(reply.thinking_content[0].text, "hmm");
    assert_eq!(reply.thinking_content[0].signature.as_deref(), Some("sig_xyz"));
}

#[test]
fn complete_stream_with_thinking_emits_thinking_deltas_and_captures_thinking() {
    let p = provider("k").with_reasoning(ReasoningConfig::Budget(5000));
    let body = p.request_body(&vec![Message::user("think")], &vec![], true).into_value();
    assert_eq!(body["stream"], true);
    let thought = |text: &str| StreamEvent::ContentBlockDelta {
        index: 0,
        delta: StreamDelta::ThinkingDelta { thinking: text.to_string() },
    };
    let mut events = vec![
        start(10),
        StreamEvent::ContentBlockStart {
            index: 0,
            content_block: ResponseBlock::Thinking {
                thinking: String::new(),
                signature: String::new(),
            },
        },
        thought("I need to "),
        thought("think hard."),
        StreamEvent::ContentBlockDelta {
            index: 0,
            delta: StreamDelta::SignatureDelta { signature: "sig_789".to_string() },
        },
        StreamEvent::ContentBlockStop { index: 0 },
        StreamEvent::ContentBlockStart {
            index: 1,
            content_block: ResponseBlock::Text { text: String::new() },
        },
        text_delta(1, "Answer: 42"),
        StreamEvent::ContentBlockStop { index: 1 },
    ];
    events.extend(stop("end_turn", 10));
    let (reply, texts, thoughts, _) = run(events);
    assert_eq!(reply.text_content(), "Answer: 42");
    assert_eq!(reply.thinking_content.len(), 1);
    assert_eq!(reply.thinking_content[0].text, "I need to think hard.");
    assert_eq!(reply.thinking_content[0].signature.as_deref(), Some("sig_789"));
    assert_eq!(thoughts, vec!["I need to ", "think hard."]);
    assert_eq!(texts, vec!["Answer: 42"]);
}

#[test]
fn complete_round_trips_thinking_blocks_in_multi_turn() {
    let p = provider("k").with_reasoning(ReasoningConfig::Budget(10000)).with_prompt_caching(false);
    let ua = format!("sweet/{}", SWEET_VERSION);
    let first_messages = vec![Message::user("first")];
    assert!(has_header(&headers_of(&p, &first_messages), "user-agent", &ua));
    let first_body = p.request_body(&first_messages, &vec![], false).into_value();
    assert_eq!(first_body["messages"], value(r#"[{"role": "user", "content": "first"}]"#));

    let first_reply =
        parse_response(thinking_response("pondering", "sig_old", "first reply", usage(10, 10)));
    assert_eq!(first_reply.text_content(), "first reply");
    assert_eq!(first_reply.thinking_content.len(), 1);
    assert_eq!(first_reply.thinking_content[0].text, "pondering");
    assert_eq!(first_reply.thinking_content[0].signature.as_deref(), Some("sig_old"));

    let messages = vec![Message::user("first"), first_reply, Message::user("second")];
    assert!(has_header(&headers_of(&p, &messages), "user-agent", &ua));
    let second_body = p.request_body(&messages, &vec![], false).into_value();
    assert_eq!(
        second_body["messages"],
        value(
            r#"[
                {"role": "user", "content": "first"},
                {"role": "assistant", "content": [
                    {"type": "thinking", "thinking": "pondering", "signature": "sig_old"},
                    {"type": "text", "text": "first reply"}
                ]},
                {"role": "user", "content": "second"}
            ]"#
        )
    );

    let second_reply =
        parse_response(thinking_response("more thinking", "sig_new", "second reply", usage(30, 15)));
    assert_eq!(second_reply.text_content(), "second reply");
    assert_eq!(second_reply.thinking_content.len(), 1);
    assert_eq!(second_reply.thinking_content[0].text, "more thinking");
    assert_eq!(second_reply.thinking_content[0].signature.as_deref(), Some("sig_new"));
}

#[test]
fn with_reasoning_configures_provider() {
    let p = provider("k").with_reasoning(ReasoningConfig::Budget(8000));
    assert_eq!(p.reasoning, Some(ReasoningConfig::Budget(8000)));
    let p = provider("k").with_reasoning(ReasoningConfig::Toggle(true));
    assert_eq!(p.reasoning, Some(ReasoningConfig::Toggle(true)));
    let p = provider("k").with_reasoning(ReasoningConfig::Toggle(false));
    assert_eq!(p.reasoning, Some(ReasoningConfig::Toggle(false)));
    let p = provider("k").with_reasoning(ReasoningConfig::Effort("high".to_string()));
    assert_eq!(p.reasoning, Some(ReasoningConfig::Effort("high".to_string())));
}

#[test]
fn prompt_caching_on_by_default_sets_cache_control() {
    let messages = vec![Message::system("be terse"), Message::user("hi")];
    let body = provider("k").request_body(&messages, &vec![], false).into_value();
    assert_eq!(
        body["system"],
        value(
            r#"[{"type": "text", "text": "be terse", "cache_control": {"type": "ephemeral"}}]"#
        )
    );
    assert_eq!(
        body["messages"],
        value(
            r#"[{"role": "user", "content": [
                {"type": "text", "text": "hi", "cache_control": {"type": "ephemeral"}}
            ]}]"#
        )
    );
}

#[test]
fn thinking_configurations_are_what_they_say() {
    assert_eq!(ThinkingConfig::enabled(2048), ThinkingConfig::Enabled { budget_tokens: 2048 });
    assert_eq!(ThinkingConfig::adaptive(), ThinkingConfig::Adaptive);
}

#[test]
fn a_streamed_answer_is_the_plain_answer() {
    let mut events = vec![
        start(10),
        StreamEvent::ContentBlockStart {
            index: 0,
            content_block: ResponseBlock::Text { text: String::new() },
        },
        text_delta(0, "hi "),
        text_delta(0, "there"),
        StreamEvent::ContentBlockStop { index: 0 },
    ];
    events.extend(stop("end_turn", 5));
    let (streamed, _, _, _) = run(events);
    let plain = parse_response(text_response("hi there", 10, 5));
    assert_eq!(format!("{:?}", streamed), format!("{:?}", plain));
}
