use serde_json::Value;
use sweet::cerebras::CerebrasProvider;
use sweet::emitted::Emitted;
use sweet::embeddings::{in_order, EmbeddingObject};
use sweet::error::ProviderError;
use sweet::json::Json;
use sweet::message::{ContentBlock, FinishReason, Message, Role, ToolCall, ToolSpec};
use sweet::openai::embeddings::{OpenAIEmbedder, DEFAULT_EMBEDDING_MODEL};
use sweet::openai::provider::{
    OpenAIProvider, DEFAULT_API_KEY_ENV, DEFAULT_BASE_URL, DEFAULT_MODEL,
};
use sweet::openai::reasoning::{ReasoningContent, ReasoningHistoryKey};
use sweet::openai::response::{
    map_finish_reason, message_from_response, parse_response, ChatResponse, Choice,
    ResponseMessage, ResponseToolCall, Usage,
};
use sweet::openai::stream::{
    is_done_marker, ChatStream, StreamChoice, StreamChunk, StreamToolCallDelta,
};
use sweet::openai::thinking::ThinkingMode;
use sweet::openai::wire::wire_message_json;
use sweet::reasoning::ReasoningConfig;
use sweet::sse::{data_lines, drain_event};
use sweet::structured_output::StructuredOutput;
use sweet::tool_choice::ToolChoice;

fn value(text: &str) -> Value {
    serde_json::from_str(text).unwrap()
}

fn json(text: &str) -> Json {
    Json::from_value(value(text))
}

fn wire(msg: &Message, reasoning: bool) -> Value {
    wire_message_json(msg, reasoning, ReasoningHistoryKey::ReasoningContent).into_value()
}

fn response(role: &str, content: &str) -> ResponseMessage {
    ResponseMessage {
        role: role.to_string(),
        content: content.to_string(),
        reasoning_content: None,
        reasoning: None,
        reasoning_details: Vec::new(),
        tool_calls: Vec::new(),
    }
}

fn canned(content: &str) -> ChatResponse {
    ChatResponse {
        choices: vec![Choice {
            message: response("assistant", content),
            finish_reason: Some("stop".to_string()),
        }],
        usage: None,
    }
}

fn body(p: &OpenAIProvider, messages: Vec<Message>) -> Value {
    p.request_body(&messages, &vec![], false).into_value()
}

/// Whether a message is the expected one. Why the answer ended is not part of
/// the comparison.
fn same(mut reply: Message, expected: Message) -> bool {
    reply.finish_reason = None;
    format!("{:?}", reply) == format!("{:?}", expected)
}

fn has_header(headers: &Vec<(String, String)>, name: &str, value: &str) -> bool {
    headers.iter().any(|h| h.0.eq_ignore_ascii_case(name) && h.1 == value)
}

#[test]
fn thinking_config_is_none_when_unset() {
    let p = OpenAIProvider::new("k");
    assert!(p.thinking_config().is_none());
}

#[test]
fn toggle_on_emits_type_enabled_without_keep() {
    let cfg = OpenAIProvider::new("k")
        .with_reasoning(ReasoningConfig::Toggle(true))
        .thinking_config()
        .unwrap();
    assert_eq!(cfg.kind, "enabled");
    assert_eq!(cfg.keep, None);
    assert_eq!(cfg.budget_tokens, None);
}

#[test]
fn toggle_off_emits_type_disabled() {
    let cfg = OpenAIProvider::new("k")
        .with_reasoning(ReasoningConfig::Toggle(false))
        .thinking_config()
        .unwrap();
    assert_eq!(cfg.kind, "disabled");
    assert_eq!(cfg.keep, None);
}

#[test]
fn budget_emits_enabled_with_budget_tokens() {
    let cfg = OpenAIProvider::new("k")
        .with_reasoning(ReasoningConfig::Budget(2048))
        .thinking_config()
        .unwrap();
    assert_eq!(cfg.kind, "enabled");
    assert_eq!(cfg.budget_tokens, Some(2048));
}

#[test]
fn effort_sets_reasoning_effort_not_thinking() {
    let p = OpenAIProvider::new("k").with_reasoning(ReasoningConfig::Effort("high".to_string()));
    assert_eq!(p.reasoning_effort.as_deref(), Some("high"));
    assert!(p.thinking_config().is_none());
}

#[test]
fn setting_one_dialect_clears_the_other() {
    let p = OpenAIProvider::new("k")
        .with_reasoning(ReasoningConfig::Toggle(true))
        .with_reasoning(ReasoningConfig::Effort("low".to_string()));
    assert!(p.thinking_config().is_none());
    assert_eq!(p.reasoning_effort.as_deref(), Some("low"));

    let p = OpenAIProvider::new("k")
        .with_reasoning(ReasoningConfig::Effort("low".to_string()))
        .with_reasoning(ReasoningConfig::Toggle(true));
    assert!(p.thinking_config().is_some());
    assert_eq!(p.reasoning_effort, None);
}

#[test]
fn preserved_history_emits_enabled_with_keep_all() {
    let cfg = OpenAIProvider::new("k")
        .with_reasoning(ReasoningConfig::Toggle(true))
        .with_preserved_reasoning_history(true)
        .thinking_config()
        .unwrap();
    assert_eq!(cfg.kind, "enabled");
    assert_eq!(cfg.keep, Some("all"));
}

#[test]
fn preserved_history_without_prior_thinking_enables_it() {
    let cfg = OpenAIProvider::new("k")
        .with_preserved_reasoning_history(true)
        .thinking_config()
        .unwrap();
    assert_eq!(cfg.kind, "enabled");
    assert_eq!(cfg.keep, Some("all"));
}

#[test]
fn echo_reasoning_off_by_default() {
    let p = OpenAIProvider::new("k");
    assert!(!p.echo_reasoning());
}

#[test]
fn echo_reasoning_on_when_thinking_or_effort_set() {
    assert!(OpenAIProvider::new("k")
        .with_reasoning(ReasoningConfig::Toggle(true))
        .echo_reasoning());
    assert!(OpenAIProvider::new("k")
        .with_reasoning(ReasoningConfig::Toggle(false))
        .echo_reasoning());
    assert!(OpenAIProvider::new("k")
        .with_reasoning(ReasoningConfig::Budget(1024))
        .echo_reasoning());
    assert!(OpenAIProvider::new("k")
        .with_reasoning(ReasoningConfig::Effort("high".to_string()))
        .echo_reasoning());
}

#[test]
fn tool_choice_maps_to_wire() {
    let p = OpenAIProvider::new("k").with_tool_choice(ToolChoice::Required);
    assert_eq!(p.tool_choice_value(true).map(|j| j.into_value()), Some(value("\"required\"")));
    assert!(p.tool_choice_value(false).is_none());

    let p = OpenAIProvider::new("k").with_tool_choice(ToolChoice::Tool("x".into()));
    assert_eq!(
        p.tool_choice_value(true).map(|j| j.into_value()),
        Some(value(r#"{ "type": "function", "function": { "name": "x" } }"#))
    );
}

#[test]
fn structured_output_maps_to_response_format() {
    let p = OpenAIProvider::new("k")
        .with_structured_output(StructuredOutput::new(json(r#"{ "type": "object" }"#)));
    let rf = p.response_format_value().unwrap().into_value();
    assert_eq!(rf["type"], "json_schema");
    assert_eq!(rf["json_schema"]["name"], "response");
    assert_eq!(rf["json_schema"]["strict"], true);
    assert_eq!(rf["json_schema"]["schema"]["type"], "object");
}

#[test]
fn get_returns_none_for_empty_vec() {
    let msg = Message::assistant("hi");
    assert_eq!(msg.reasoning_content(), None);
}

#[test]
fn get_returns_first_block_text() {
    let mut msg = Message::assistant("hi");
    msg.set_reasoning_content("thinking".into());
    assert_eq!(msg.reasoning_content(), Some("thinking"));
}

#[test]
fn set_empty_preserves_empty_block() {
    let mut msg = Message::assistant("hi");
    msg.set_reasoning_content("".into());
    assert_eq!(msg.thinking_content.len(), 1);
    assert_eq!(msg.reasoning_content(), Some(""));
}

#[test]
fn set_overwrites_existing_blocks() {
    let mut msg = Message::assistant("hi");
    msg.set_reasoning_content("first".into());
    msg.set_reasoning_content("second".into());
    assert_eq!(msg.thinking_content.len(), 1);
    assert_eq!(msg.reasoning_content(), Some("second"));
}

#[test]
fn wire_message_serializes_role_strings() {
    let cases = [
        (Message::system("s"), "system"),
        (Message::user("u"), "user"),
        (Message::assistant("a"), "assistant"),
    ];
    for (msg, expected_role) in cases {
        let json = wire(&msg, false);
        assert_eq!(json["role"], expected_role);
        assert_eq!(json["content"], msg.text_content());
    }
}

#[test]
fn response_message_decodes_known_roles() {
    let msg = message_from_response(response("assistant", "hi")).unwrap();
    assert_eq!(format!("{:?}", msg), format!("{:?}", Message::assistant("hi")));
}

#[test]
fn response_message_accepts_tool_role() {
    let msg = message_from_response(response("tool", "result")).unwrap();
    assert_eq!(msg.role, Role::Tool);
    assert_eq!(msg.text_content(), "result");
}

#[test]
fn response_message_rejects_unknown_role() {
    let err = message_from_response(response("unknown", "")).unwrap_err();
    assert!(matches!(err, ProviderError::UnknownRole(s) if s == "unknown"));
}

#[test]
fn wire_message_serializes_tool_call_arguments_as_json_string() {
    let msg = Message::with_tool_calls(vec![ToolCall {
        id: "call_1".into(),
        name: "echo".into(),
        arguments: json(r#"{"msg": "hi"}"#),
    }]);
    let json = wire(&msg, false);
    let arguments = json["tool_calls"][0]["function"]["arguments"]
        .as_str()
        .expect("arguments must be a string");
    assert_eq!(value(arguments), value(r#"{"msg": "hi"}"#));
}

#[test]
fn response_message_parses_tool_calls() {
    let mut m = response("assistant", "");
    m.tool_calls = vec![ResponseToolCall {
        id: "call_1".into(),
        name: "echo".into(),
        arguments: "{\"msg\":\"hello\"}".into(),
    }];
    let msg = message_from_response(m).unwrap();
    assert_eq!(msg.tool_calls.len(), 1);
    assert_eq!(msg.tool_calls[0].id, "call_1");
    assert_eq!(msg.tool_calls[0].name, "echo");
    assert_eq!(
        msg.tool_calls[0].arguments.copy().into_value(),
        value(r#"{"msg": "hello"}"#)
    );
}

#[test]
fn arguments_that_are_no_json_are_an_error() {
    let mut m = response("assistant", "");
    m.tool_calls = vec![ResponseToolCall {
        id: "call_1".into(),
        name: "web_search".into(),
        arguments: "not-json".into(),
    }];
    assert!(matches!(message_from_response(m), Err(ProviderError::Decode(_))));
}

#[test]
fn wire_message_serializes_reasoning_content_when_include_true_and_present() {
    let mut msg = Message::assistant("hello");
    msg.set_reasoning_content("thinking".into());
    assert_eq!(wire(&msg, true)["reasoning_content"], "thinking");
}

#[test]
fn wire_message_serializes_reasoning_content_when_present_even_if_include_false() {
    let mut msg = Message::assistant("hello");
    msg.set_reasoning_content("thinking".into());
    assert_eq!(wire(&msg, false)["reasoning_content"], "thinking");
}

#[test]
fn wire_message_serializes_empty_reasoning_content_for_assistant_when_include_true() {
    let msg = Message::assistant("hello");
    assert_eq!(wire(&msg, true)["reasoning_content"], "");
}

#[test]
fn wire_message_omits_reasoning_content_for_user_when_include_true() {
    let msg = Message::user("hello");
    assert!(!wire(&msg, true).as_object().unwrap().contains_key("reasoning_content"));
}

#[test]
fn response_message_deserializes_reasoning_content() {
    let mut m = response("assistant", "hello");
    m.reasoning_content = Some("thinking".into());
    let msg = message_from_response(m).unwrap();
    assert_eq!(msg.reasoning_content(), Some("thinking"));
}

#[test]
fn chat_request_serializes_reasoning_effort_and_thinking() {
    let p = OpenAIProvider::new("k")
        .with_model("gpt-4")
        .with_reasoning_effort("high")
        .with_thinking(ThinkingMode::preserved());
    let json = body(&p, vec![Message::user("hi")]);
    assert_eq!(json["reasoning_effort"], "high");
    assert_eq!(json["thinking"]["type"], "enabled");
    assert_eq!(json["thinking"]["keep"], "all");
}

#[test]
fn chat_request_omits_reasoning_effort_and_thinking_when_none() {
    let p = OpenAIProvider::new("k").with_model("gpt-4");
    let json = body(&p, vec![Message::user("hi")]);
    assert!(!json.as_object().unwrap().contains_key("reasoning_effort"));
    assert!(!json.as_object().unwrap().contains_key("thinking"));
}

#[test]
fn openai_complete_posts_correct_request_and_returns_assistant_message() {
    let p = OpenAIProvider::new("test-key").with_base_url("http://host").with_model("gpt-test");
    assert_eq!(p.request_url(), "http://host/chat/completions");
    let headers = p.request_headers();
    assert!(has_header(&headers, "authorization", "Bearer test-key"));
    assert!(has_header(&headers, "user-agent", "sweet/0.1.0"));
    let json = body(&p, vec![Message::system("be terse"), Message::user("hello")]);
    assert_eq!(json["model"], "gpt-test");
    assert_eq!(
        json["messages"],
        value(
            r#"[
                {"role": "system", "content": "be terse"},
                {"role": "user", "content": "hello"}
            ]"#
        )
    );
    let reply = parse_response(canned("hi there")).unwrap();
    assert_eq!(reply.finish_reason, Some(FinishReason::Stop));
    assert!(same(reply, Message::assistant("hi there")));
}

#[test]
fn image_user_message_sends_multimodal_parts_array() {
    let p = OpenAIProvider::new("test-key").with_model("gpt-test");
    let msg = Message::user_blocks(vec![
        ContentBlock::Text { text: "describe this".to_string() },
        ContentBlock::Image { data: vec![1, 2, 3], media_type: "image/png".to_string() },
    ]);
    let json = body(&p, vec![msg]);
    assert_eq!(json["model"], "gpt-test");
    assert_eq!(
        json["messages"],
        value(
            r#"[{"role": "user", "content": [
                {"type": "text", "text": "describe this"},
                {"type": "image_url", "image_url": {"url": "data:image/png;base64,AQID"}}
            ]}]"#
        )
    );
    assert!(same(parse_response(canned("a tiny png")).unwrap(), Message::assistant("a tiny png")));
}

#[test]
fn file_user_message_sends_file_content_part() {
    let p = OpenAIProvider::new("test-key").with_model("gpt-test");
    let msg = Message::user_blocks(vec![
        ContentBlock::Text { text: "review this".to_string() },
        ContentBlock::File {
            data: b"%PDF-1.4".to_vec(),
            media_type: "application/pdf".to_string(),
            filename: "report.pdf".to_string(),
        },
    ]);
    let json = body(&p, vec![msg]);
    assert_eq!(json["model"], "gpt-test");
    assert_eq!(
        json["messages"],
        value(
            r#"[{"role": "user", "content": [
                {"type": "text", "text": "review this"},
                {"type": "file", "file": {
                    "file_data": "data:application/pdf;base64,JVBERi0xLjQ=",
                    "filename": "report.pdf"
                }}
            ]}]"#
        )
    );
    assert!(same(parse_response(canned("looks good")).unwrap(), Message::assistant("looks good")));
}

#[test]
fn complete_extracts_reasoning_content_from_response() {
    let mut resp = canned("The answer is 42.");
    resp.choices[0].message.reasoning_content = Some("Let me think...".to_string());
    let reply = parse_response(resp).unwrap();
    assert_eq!(reply.text_content(), "The answer is 42.");
    assert_eq!(reply.reasoning_content(), Some("Let me think..."));
}

#[test]
fn complete_sends_reasoning_effort_and_thinking_when_configured() {
    let p = OpenAIProvider::new("test-key")
        .with_reasoning_effort("max")
        .with_thinking(ThinkingMode::preserved());
    let json = body(&p, vec![Message::user("hi")]);
    assert_eq!(json["reasoning_effort"], "max");
    assert_eq!(json["thinking"], value(r#"{"type": "enabled", "keep": "all"}"#));
}

#[test]
fn complete_echoes_reasoning_content_on_messages_when_thinking_configured() {
    let p = OpenAIProvider::new("test-key").with_thinking(ThinkingMode::preserved());
    let mut prior = Message::assistant("prev");
    prior.set_reasoning_content("hidden".into());
    let text = p.request_body(&vec![Message::user("hi"), prior], &vec![], false).to_text();
    assert!(text.contains("\"reasoning_content\":\"hidden\""), "{text}");
}

#[test]
fn complete_echoes_empty_reasoning_content_for_assistant_when_thinking_configured() {
    let p = OpenAIProvider::new("test-key").with_thinking(ThinkingMode::preserved());
    let prior = Message::assistant("prev");
    let text = p.request_body(&vec![Message::user("hi"), prior], &vec![], false).to_text();
    assert!(text.contains("\"reasoning_content\":\"\""), "{text}");
}

#[test]
fn complete_echoes_reasoning_content_when_present_even_without_thinking_config() {
    let p = OpenAIProvider::new("test-key");
    let mut prior = Message::assistant("prev");
    prior.set_reasoning_content("hidden".into());
    let text = p.request_body(&vec![Message::user("hi"), prior], &vec![], false).to_text();
    assert!(text.contains("\"reasoning_content\":\"hidden\""), "{text}");
    assert!(!text.contains("\"thinking\""), "{text}");
}

#[test]
fn omitted_reasoning_history_is_not_sent_back() {
    let p = OpenAIProvider::new("test-key").with_reasoning_history_key(ReasoningHistoryKey::Omit);
    let mut prior = Message::assistant("prev");
    prior.set_reasoning_content("hidden".into());
    let text = p.request_body(&vec![Message::user("hi"), prior], &vec![], false).to_text();
    assert!(!text.contains("hidden"), "{text}");
}

#[test]
fn openai_non_2xx_response_yields_provider_error_with_body() {
    let err = sweet::http::accept(401, "bad key".to_string()).unwrap_err();
    match err {
        ProviderError::Http { status, body } => {
            assert_eq!(status, 401);
            assert_eq!(body, "bad key");
        }
        other => panic!("unexpected variant: {other:?}"),
    }
    assert_eq!(sweet::http::accept(200, "fine".to_string()).unwrap(), "fine");
}

#[test]
fn empty_choices_yields_empty_response_error() {
    let err = parse_response(ChatResponse { choices: vec![], usage: None }).unwrap_err();
    assert!(matches!(err, ProviderError::EmptyResponse));
    assert_eq!(err.to_message(), "response contained no choices");
}

#[test]
fn openai_defaults_match_published_constants() {
    let provider = OpenAIProvider::new("k");
    assert_eq!(provider.base_url(), DEFAULT_BASE_URL);
    assert_eq!(provider.model_name(), DEFAULT_MODEL);
}

#[test]
fn openai_from_env_reads_openai_api_key() {
    let provider = OpenAIProvider::from_env(Some("from-env-key".to_string())).unwrap();
    assert_eq!(provider.base_url(), DEFAULT_BASE_URL);
    assert_eq!(provider.api_key, "from-env-key");
}

#[test]
fn openai_from_env_errors_when_unset() {
    let err = OpenAIProvider::from_env(None).unwrap_err();
    assert!(matches!(
        err,
        ProviderError::MissingApiKey { var } if var == DEFAULT_API_KEY_ENV
    ));
}

#[test]
fn finish_reasons_are_known_by_name() {
    assert_eq!(map_finish_reason("stop"), FinishReason::Stop);
    assert_eq!(map_finish_reason("length"), FinishReason::Length);
    assert_eq!(map_finish_reason("tool_calls"), FinishReason::ToolCalls);
    assert_eq!(map_finish_reason("odd"), FinishReason::Other("odd".to_string()));
}

#[test]
fn complete_serializes_tools_and_parses_tool_calls() {
    let p = OpenAIProvider::new("test-key").with_model("gpt-test");
    let tool = ToolSpec {
        name: "echo".into(),
        description: "Echoes the input back.".into(),
        parameters_schema: json(
            r#"{"type": "object", "properties": {"msg": {"type": "string"}}}"#,
        ),
    };
    let json = p.request_body(&vec![Message::user("go")], &vec![tool], false).into_value();
    assert!(has_header(&p.request_headers(), "authorization", "Bearer test-key"));
    assert_eq!(json["model"], "gpt-test");
    assert_eq!(json["messages"], value(r#"[{"role": "user", "content": "go"}]"#));
    assert_eq!(
        json["tools"],
        value(
            r#"[{
                "type": "function",
                "function": {
                    "name": "echo",
                    "description": "Echoes the input back.",
                    "parameters": {"type": "object", "properties": {"msg": {"type": "string"}}}
                }
            }]"#
        )
    );

    let mut answer = response("assistant", "");
    answer.tool_calls = vec![ResponseToolCall {
        id: "call_1".into(),
        name: "echo".into(),
        arguments: "{\"msg\":\"hello\"}".into(),
    }];
    let reply = parse_response(ChatResponse {
        choices: vec![Choice { message: answer, finish_reason: Some("tool_calls".to_string()) }],
        usage: None,
    })
    .unwrap();
    assert_eq!(reply.role, Role::Assistant);
    assert_eq!(reply.tool_calls.len(), 1);
    assert_eq!(reply.tool_calls[0].id, "call_1");
    assert_eq!(reply.tool_calls[0].name, "echo");
    assert_eq!(
        reply.tool_calls[0].arguments.copy().into_value(),
        value(r#"{"msg": "hello"}"#)
    );
}

#[test]
fn complete_serializes_tool_result_messages() {
    let history = vec![
        Message::user("go"),
        Message::with_tool_calls(vec![ToolCall {
            id: "call_1".into(),
            name: "echo".into(),
            arguments: json(r#"{"msg": "hi"}"#),
        }]),
        Message::tool_result("call_1", "result"),
    ];
    let p = OpenAIProvider::new("test-key").with_model("gpt-test");
    assert!(has_header(&p.request_headers(), "authorization", "Bearer test-key"));
    let json = body(&p, history);
    assert_eq!(json["model"], "gpt-test");
    assert_eq!(
        json["messages"],
        value(
            r#"[
                {"role": "user", "content": "go"},
                {"role": "assistant", "tool_calls": [{
                    "id": "call_1",
                    "type": "function",
                    "function": {"name": "echo", "arguments": "{\"msg\":\"hi\"}"}
                }]},
                {"role": "tool", "tool_call_id": "call_1", "content": "result"}
            ]"#
        )
    );
    assert!(same(parse_response(canned("done")).unwrap(), Message::assistant("done")));
}

fn choice(content: &str) -> StreamChoice {
    StreamChoice {
        content: content.to_string(),
        reasoning_content: None,
        reasoning: None,
        reasoning_details: Vec::new(),
        tool_calls: Vec::new(),
        finish_reason: None,
    }
}

fn chunk(choice: StreamChoice) -> StreamChunk {
    StreamChunk { choices: vec![choice], usage: None }
}

fn finished(reason: &str) -> StreamChunk {
    let mut last = choice("");
    last.finish_reason = Some(reason.to_string());
    chunk(last)
}

fn run(chunks: Vec<StreamChunk>) -> (Message, Vec<String>, Vec<String>, usize) {
    let mut stream = ChatStream::new();
    let mut texts = Vec::new();
    let mut thoughts = Vec::new();
    for chunk in chunks {
        for emitted in stream.on_chunk(chunk) {
            match emitted {
                Emitted::Content(t) => texts.push(t),
                Emitted::Thinking(t) => thoughts.push(t),
            }
        }
    }
    let (calls, failure) = stream.close_calls();
    assert!(failure.is_none());
    let n = calls.len();
    (stream.finish(calls), texts, thoughts, n)
}

#[test]
fn openai_stream_complete_stream_emits_content_deltas_and_captures_usage() {
    let body = OpenAIProvider::new("k")
        .request_body(&vec![Message::user("hi")], &vec![], true)
        .into_value();
    assert_eq!(body["stream"], true);
    assert_eq!(body["stream_options"], value(r#"{"include_usage": true}"#));
    let usage = StreamChunk {
        choices: vec![],
        usage: Some(Usage { prompt_tokens: 4, completion_tokens: 3, total_tokens: 7 }),
    };
    let (reply, texts, _, _) = run(vec![
        chunk(choice("Hello")),
        chunk(choice(", ")),
        chunk(choice("world!")),
        finished("stop"),
        usage,
    ]);
    assert_eq!(reply.text_content(), "Hello, world!");
    assert_eq!(reply.token_count, Some(7));
    assert!(reply.tool_calls.is_empty());
    assert_eq!(texts, vec!["Hello", ", ", "world!"]);
}

fn call_piece(index: usize, id: Option<&str>, name: Option<&str>, arguments: &str) -> StreamChunk {
    let mut c = choice("");
    c.tool_calls = vec![StreamToolCallDelta {
        index,
        id: id.map(|s| s.to_string()),
        name: name.map(|s| s.to_string()),
        arguments: Some(arguments.to_string()),
    }];
    chunk(c)
}

#[test]
fn complete_stream_assembles_tool_calls_from_indexed_chunks() {
    let (reply, texts, _, calls) = run(vec![
        call_piece(0, Some("call_1"), Some("echo"), ""),
        call_piece(0, None, None, "{\"msg\":"),
        call_piece(0, None, None, "\"hi\"}"),
        finished("tool_calls"),
    ]);
    assert_eq!(reply.text_content(), "");
    assert_eq!(reply.tool_calls.len(), 1);
    assert_eq!(reply.tool_calls[0].id, "call_1");
    assert_eq!(reply.tool_calls[0].name, "echo");
    assert_eq!(
        reply.tool_calls[0].arguments.copy().into_value(),
        value(r#"{"msg": "hi"}"#)
    );
    assert!(texts.is_empty());
    assert_eq!(calls, 1);
}

#[test]
fn complete_stream_handles_split_byte_chunks() {
    let whole = b"data: {\"choices\":[{\"delta\":{\"content\":\"a\"}}]}\n\n\
        data: {\"choices\":[{\"delta\":{\"content\":\"b\"}}]}\n\ndata: [DONE]\n\n";
    for cut in 0..whole.len() {
        let mut buffer: Vec<u8> = Vec::new();
        let mut chunks = Vec::new();
        let mut done = false;
        for part in [&whole[..cut], &whole[cut..]] {
            buffer.extend_from_slice(part);
            while let Some(event) = drain_event(&mut buffer) {
                for line in data_lines(&event.unwrap()) {
                    if is_done_marker(&line) {
                        done = true;
                    } else {
                        let json = value(&line);
                        let text = json["choices"][0]["delta"]["content"].as_str().unwrap();
                        chunks.push(chunk(choice(text)));
                    }
                }
            }
        }
        assert!(done);
        let (reply, texts, _, _) = run(chunks);
        assert_eq!(reply.text_content(), "ab");
        assert_eq!(texts, vec!["a", "b"]);
    }
}

#[test]
fn complete_stream_emits_reasoning_deltas_and_accumulates_content() {
    let mut first = choice("");
    first.reasoning_content = Some("Let me".to_string());
    let mut second = choice("");
    second.reasoning_content = Some(" think...".to_string());
    let (reply, texts, thoughts, _) =
        run(vec![chunk(first), chunk(second), chunk(choice("42")), finished("stop")]);
    assert_eq!(reply.text_content(), "42");
    assert_eq!(reply.reasoning_content(), Some("Let me think..."));
    assert_eq!(texts, vec!["42"]);
    assert_eq!(thoughts, vec!["Let me", " think..."]);
}

#[test]
fn complete_stream_preserves_explicit_empty_reasoning_content() {
    let mut first = choice("");
    first.reasoning_content = Some(String::new());
    let (reply, _, thoughts, _) =
        run(vec![chunk(first), chunk(choice("hello")), finished("stop")]);
    assert_eq!(reply.text_content(), "hello");
    assert_eq!(reply.reasoning_content(), Some(""));
    assert_eq!(reply.thinking_content.len(), 1);
    assert!(thoughts.is_empty());
}

#[test]
fn complete_stream_omits_reasoning_when_field_never_present() {
    let (reply, _, _, _) = run(vec![chunk(choice("hello")), finished("stop")]);
    assert_eq!(reply.text_content(), "hello");
    assert_eq!(reply.reasoning_content(), None);
    assert!(reply.thinking_content.is_empty());
}

#[test]
fn a_streamed_call_without_json_is_reported() {
    let mut stream = ChatStream::new();
    stream.on_chunk(call_piece(0, Some("c"), Some("echo"), "{"));
    let (calls, failure) = stream.close_calls();
    assert!(calls.is_empty());
    assert!(matches!(failure, Some(ProviderError::Decode(_))));
}

#[test]
fn default_never_enables_thinking_or_reasoning_echo() {
    let p = CerebrasProvider::new("k").with_model("zai-glm-4.7");
    assert!(!p.inner.echo_reasoning());
    assert!(p.inner.thinking_config().is_none());
}

#[test]
fn effort_sets_reasoning_effort_but_never_thinking() {
    let p = CerebrasProvider::new("k")
        .with_model("gpt-oss-120b")
        .with_reasoning(ReasoningConfig::Effort("high".to_string()));
    assert!(p.inner.echo_reasoning());
    assert!(p.inner.thinking_config().is_none());
}

#[test]
fn toggle_off_maps_to_effort_none_not_thinking() {
    let p = CerebrasProvider::new("k")
        .with_model("zai-glm-4.7")
        .with_reasoning(ReasoningConfig::Toggle(false));
    assert!(p.inner.echo_reasoning());
    assert!(p.inner.thinking_config().is_none());
}

#[test]
fn toggle_on_and_budget_are_noops() {
    let p = CerebrasProvider::new("k")
        .with_reasoning(ReasoningConfig::Toggle(true))
        .with_reasoning(ReasoningConfig::Budget(2048));
    assert!(!p.inner.echo_reasoning());
    assert!(p.inner.thinking_config().is_none());
}

#[test]
fn context_window_delegates_to_inner() {
    let p = CerebrasProvider::new("k").with_context_window(131_072);
    assert_eq!(p.context_window(), Some(131_072));
}

fn cerebras_body(p: CerebrasProvider, messages: Vec<Message>) -> Value {
    p.request_body(&messages, &vec![], false).into_value()
}

#[test]
fn effort_sends_reasoning_effort_without_thinking() {
    let p = CerebrasProvider::new("test-key")
        .with_model("gpt-oss-120b")
        .with_reasoning(ReasoningConfig::Effort("high".to_string()));
    let json = cerebras_body(p, vec![Message::user("hi")]);
    assert_eq!(json["reasoning_effort"], "high");
}

#[test]
fn request_body_never_contains_thinking_object() {
    let p = CerebrasProvider::new("test-key")
        .with_model("gpt-oss-120b")
        .with_reasoning(ReasoningConfig::Effort("high".to_string()));
    let json = cerebras_body(p, vec![Message::user("hi")]);
    assert!(json.get("thinking").is_none(), "{json}");
}

#[test]
fn toggle_off_maps_to_effort_none() {
    let p = CerebrasProvider::new("test-key")
        .with_model("zai-glm-4.7")
        .with_reasoning(ReasoningConfig::Toggle(false));
    let json = cerebras_body(p, vec![Message::user("hi")]);
    assert_eq!(json["reasoning_effort"], "none");
}

#[test]
fn no_reasoning_sends_no_reasoning_field() {
    let p = CerebrasProvider::new("test-key").with_model("gpt-oss-120b");
    let json = cerebras_body(p, vec![Message::user("hi")]);
    assert!(json.get("thinking").is_none());
    assert!(json.get("reasoning_effort").is_none());
}

#[test]
fn reasoning_history_is_omitted() {
    let p = CerebrasProvider::new("test-key")
        .with_model("gpt-oss-120b")
        .with_reasoning(ReasoningConfig::Effort("high".to_string()));
    let mut prior = Message::assistant("prev");
    prior.set_reasoning_content("hidden chain of thought".into());
    let json = cerebras_body(p, vec![prior, Message::user("next")]);
    let sent = json["messages"]
        .as_array()
        .expect("messages array")
        .iter()
        .find(|m| m["role"] == "assistant")
        .expect("assistant message in history");
    assert!(sent.get("reasoning").is_none(), "{sent}");
    assert!(sent.get("reasoning_content").is_none(), "{sent}");
}

#[test]
fn id_reflects_model() {
    assert_eq!(
        OpenAIEmbedder::new("k").id(),
        format!("openai/{}", DEFAULT_EMBEDDING_MODEL)
    );
    assert_eq!(
        OpenAIEmbedder::new("k").with_model("text-embedding-3-large").id(),
        "openai/text-embedding-3-large"
    );
}

#[test]
fn embed_sends_request_and_orders_by_index() {
    let e = OpenAIEmbedder::new("test-key").with_base_url("http://host");
    assert_eq!(e.request_url(), "http://host/embeddings");
    assert!(has_header(&e.request_headers(), "authorization", "Bearer test-key"));
    let json = e
        .request_body(&vec!["first".to_string(), "second".to_string()])
        .unwrap()
        .into_value();
    assert_eq!(json["model"], DEFAULT_EMBEDDING_MODEL);
    assert_eq!(json["input"], value(r#"["first", "second"]"#));

    let vectors = in_order(
        vec![
            EmbeddingObject { embedding: vec![0.0, 1.0], index: 1 },
            EmbeddingObject { embedding: vec![1.0, 0.0], index: 0 },
        ],
        2,
    )
    .unwrap();
    assert_eq!(vectors, vec![vec![1.0, 0.0], vec![0.0, 1.0]]);
}

#[test]
fn openai_embeddings_embed_empty_input_skips_network() {
    assert!(OpenAIEmbedder::new("k").request_body(&vec![]).is_none());
}

#[test]
fn openai_embeddings_http_error_is_surfaced() {
    let err = sweet::http::accept(429, "rate limited".to_string()).unwrap_err();
    let text = err.to_message();
    assert!(text.contains("429"), "unexpected error: {text}");
}

#[test]
fn openai_embeddings_from_env_reads_openai_api_key() {
    assert_eq!(OpenAIEmbedder::from_env(Some("from-env".to_string())).unwrap().api_key, "from-env");
}

#[test]
fn openai_embeddings_from_env_errors_when_unset() {
    assert!(OpenAIEmbedder::from_env(None).is_err());
}

#[test]
fn reasoning_fragments_are_put_together() {
    let fragment = |text: &str| {
        let mut c = choice("");
        c.reasoning_details = vec![json(text)];
        chunk(c)
    };
    let (reply, _, thoughts, _) = run(vec![
        fragment(r#"{"type": "reasoning.text", "index": 0, "text": "Let me"}"#),
        fragment(r#"{"index": 0, "text": " think", "signature": "sig"}"#),
        chunk(choice("42")),
        finished("stop"),
    ]);
    assert_eq!(thoughts, vec!["Let me", " think"]);
    assert_eq!(reply.thinking_content.len(), 1);
    assert_eq!(reply.thinking_content[0].text, "Let me think");
    let details = reply.thinking_content[0].details.as_ref().unwrap().copy().into_value();
    assert_eq!(
        details,
        value(
            r#"{"type": "reasoning.text", "index": 0, "text": "Let me think", "signature": "sig"}"#
        )
    );
}

#[test]
fn a_streamed_message_is_the_plain_message() {
    let (streamed, _, _, _) =
        run(vec![chunk(choice("hi ")), chunk(choice("there")), finished("stop")]);
    let plain = parse_response(canned("hi there")).unwrap();
    assert_eq!(format!("{:?}", streamed), format!("{:?}", plain));
}

#[test]
fn complete_stream_propagates_http_error() {
    let err = sweet::http::accept(429, "rate limited".to_string()).unwrap_err();
    assert_eq!(err, ProviderError::Http { status: 429, body: "rate limited".to_string() });
}
