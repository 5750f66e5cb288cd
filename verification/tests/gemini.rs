use serde_json::{Number, Value};
use sweet::emitted::Emitted;
use sweet::error::ProviderError;
use sweet::gemini::embeddings::{
    all_embedded, GeminiEmbedder, DEFAULT_EMBEDDING_MODEL, DEFAULT_OUTPUT_DIMENSIONALITY,
};
use sweet::gemini::provider::{
    normalize_thinking_level, GeminiProvider, DEFAULT_API_KEY_ENV, DEFAULT_BASE_URL, DEFAULT_MODEL,
};
use sweet::gemini::response::{
    invalid_chunk, map_finish_reason, parse_response, Candidate, ContentStream, FunctionCall,
    GenerateContentResponse, Part, UsageMetadata,
};
use sweet::gemini::wire::CallMeta;
use sweet::json::{Json, JsonMap};
use sweet::message::{ContentBlock, FinishReason, Message, Role};
use sweet::reasoning::ReasoningConfig;
use sweet::sampling::{merge_extra, Real, SamplingConfig};
use sweet::structured_output::StructuredOutput;
use sweet::tool_choice::ToolChoice;

fn value(text: &str) -> Value {
    serde_json::from_str(text).unwrap()
}

fn json(text: &str) -> Json {
    Json::from_value(value(text))
}

fn finite(x: f64) -> Real {
    Real::Finite(Number::from_f64(x).unwrap())
}

fn body(p: &GeminiProvider) -> Value {
    p.build_request_body(&vec![], &vec![], &CallMeta::new()).into_value()
}

fn text_part(text: &str) -> Part {
    Part {
        text: Some(text.to_string()),
        thought: None,
        function_call: None,
        thought_signature: None,
    }
}

fn answer(parts: Vec<Part>, finish: Option<&str>, total: Option<usize>) -> GenerateContentResponse {
    GenerateContentResponse {
        candidates: vec![Candidate { parts, finish_reason: finish.map(|s| s.to_string()) }],
        usage_metadata: total
            .map(|t| UsageMetadata { prompt_token_count: 5, total_token_count: t }),
    }
}

fn has_header(headers: &Vec<(String, String)>, name: &str, value: &str) -> bool {
    headers.iter().any(|h| h.0.eq_ignore_ascii_case(name) && h.1 == value)
}

#[test]
fn no_thinking_config_by_default() {
    assert!(body(&GeminiProvider::new("k"))["generationConfig"].get("thinkingConfig").is_none());
}

#[test]
fn toggle_on_emits_dynamic_thinking_budget() {
    let p = GeminiProvider::new("k").with_reasoning(ReasoningConfig::Toggle(true));
    let body = body(&p);
    let tc = &body["generationConfig"]["thinkingConfig"];
    assert_eq!(tc["thinkingBudget"], -1);
    assert_eq!(tc["includeThoughts"], true);
}

#[test]
fn toggle_off_zeroes_thinking_budget() {
    let p = GeminiProvider::new("k").with_reasoning(ReasoningConfig::Toggle(false));
    assert_eq!(body(&p)["generationConfig"]["thinkingConfig"]["thinkingBudget"], 0);
}

#[test]
fn effort_emits_thinking_level() {
    let p = GeminiProvider::new("k").with_reasoning(ReasoningConfig::Effort("high".into()));
    let body = body(&p);
    let tc = &body["generationConfig"]["thinkingConfig"];
    assert_eq!(tc["thinkingLevel"], "high");
    assert!(tc.get("thinkingBudget").is_none());
}

#[test]
fn max_output_tokens_omitted_when_unset() {
    assert!(body(&GeminiProvider::new("k"))["generationConfig"].get("maxOutputTokens").is_none());
}

#[test]
fn sampling_renders_into_generation_config() {
    let p = GeminiProvider::new("k").with_sampling(SamplingConfig {
        temperature: Some(finite(0.5)),
        top_p: Some(finite(0.25)),
        top_k: Some(20),
        stop: vec!["END".into()],
        max_tokens: Some(2048),
        ..Default::default()
    });
    let body = body(&p);
    let gc = &body["generationConfig"];
    assert_eq!(gc["temperature"], 0.5);
    assert_eq!(gc["topP"], 0.25);
    assert_eq!(gc["topK"], 20);
    assert_eq!(gc["maxOutputTokens"], 2048);
    assert_eq!(gc["stopSequences"], value(r#"["END"]"#));
}

#[test]
fn extra_passthrough_merges_into_body() {
    let extra = JsonMap::new().with("safetySettings", json(r#"[{ "category": "X" }]"#));
    let p = GeminiProvider::new("k").with_sampling(SamplingConfig { extra, ..Default::default() });
    assert_eq!(body(&p)["safetySettings"], value(r#"[{ "category": "X" }]"#));
}

#[test]
fn budget_emits_thinking_budget() {
    let p = GeminiProvider::new("k").with_reasoning(ReasoningConfig::Budget(8000));
    assert_eq!(body(&p)["generationConfig"]["thinkingConfig"]["thinkingBudget"], 8000);
}

#[test]
fn tool_config_maps_to_function_calling_config() {
    let p = GeminiProvider::new("k").with_tool_choice(ToolChoice::Tool("f".into()));
    let tc = p.tool_config_value(true).unwrap().into_value();
    assert_eq!(tc["functionCallingConfig"]["mode"], "ANY");
    assert_eq!(tc["functionCallingConfig"]["allowedFunctionNames"], value(r#"["f"]"#));
    assert!(p.tool_config_value(false).is_none());
}

#[test]
fn structured_output_sets_response_schema() {
    let p = GeminiProvider::new("k")
        .with_structured_output(StructuredOutput::new(json(r#"{ "type": "object" }"#)));
    let body = body(&p);
    assert_eq!(body["generationConfig"]["responseMimeType"], "application/json");
    assert_eq!(body["generationConfig"]["responseSchema"]["type"], "object");
}

#[test]
fn merge_extra_overrides_and_adds() {
    let mut body = json(r#"{ "model": "m", "temperature": 0.2 }"#);
    let extra =
        JsonMap::new().with("temperature", json("0.9")).with("logit_bias", json(r#"{"5": -100}"#));
    merge_extra(&mut body, &extra);
    let body = body.into_value();
    assert_eq!(body["temperature"], 0.9);
    assert_eq!(body["logit_bias"], value(r#"{ "5": -100 }"#));
    assert_eq!(body["model"], "m");
}

#[test]
fn merge_extra_noop_on_empty() {
    let mut body = json(r#"{ "model": "m" }"#);
    merge_extra(&mut body, &JsonMap::new());
    assert_eq!(body.into_value(), value(r#"{ "model": "m" }"#));
}

#[test]
fn a_value_that_is_not_finite_is_null() {
    assert_eq!(Real::NotFinite.to_json().into_value(), Value::Null);
}

#[test]
fn published_constants_match_gemini_endpoint() {
    assert_eq!(DEFAULT_BASE_URL, "https://generativelanguage.googleapis.com/v1beta");
    assert_eq!(DEFAULT_API_KEY_ENV, "GEMINI_API_KEY");
    assert_eq!(DEFAULT_MODEL, "gemini-3-flash-preview");
}

#[test]
fn new_uses_gemini_base_url_and_default_model() {
    let p = GeminiProvider::new("k");
    assert_eq!(p.base_url, DEFAULT_BASE_URL);
    assert_eq!(p.model, DEFAULT_MODEL);
}

#[test]
fn complete_sends_native_request() {
    let p = GeminiProvider::new("gemini-key").with_base_url("http://host");
    assert_eq!(
        p.request_url(false),
        format!("http://host/models/{}:generateContent", DEFAULT_MODEL)
    );
    let headers = p.request_headers();
    assert!(has_header(&headers, "x-goog-api-key", "gemini-key"));
    assert!(has_header(&headers, "user-agent", "sweet/0.1.0"));
    let body =
        p.build_request_body(&vec![Message::user("hi")], &vec![], &CallMeta::new()).into_value();
    assert_eq!(body["contents"], value(r#"[{"role": "user", "parts": [{"text": "hi"}]}]"#));
    let reply = parse_response(answer(vec![text_part("hello")], Some("STOP"), Some(12))).unwrap();
    assert_eq!(reply.message.role, Role::Assistant);
    assert_eq!(reply.message.text_content(), "hello");
    assert_eq!(reply.message.token_count, Some(12));
}

#[test]
fn file_user_message_sends_inline_data() {
    let msg = Message::user_blocks(vec![
        ContentBlock::Text { text: "review this".to_string() },
        ContentBlock::File {
            data: b"%PDF-1.4".to_vec(),
            media_type: "application/pdf".to_string(),
            filename: "report.pdf".to_string(),
        },
    ]);
    let p = GeminiProvider::new("gemini-key");
    assert!(has_header(&p.request_headers(), "x-goog-api-key", "gemini-key"));
    let body = p.build_request_body(&vec![msg], &vec![], &CallMeta::new()).into_value();
    assert_eq!(
        body["contents"],
        value(
            r#"[{"role": "user", "parts": [
                {"text": "review this"},
                {"inlineData": {"mimeType": "application/pdf", "data": "JVBERi0xLjQ="}}
            ]}]"#
        )
    );
    let reply =
        parse_response(answer(vec![text_part("looks good")], Some("STOP"), Some(12))).unwrap();
    assert_eq!(reply.message.text_content(), "looks good");
}

fn call_part(id: &str, name: &str, args: &str, signature: Option<&str>) -> Part {
    Part {
        text: None,
        thought: None,
        function_call: Some(FunctionCall {
            id: id.to_string(),
            name: name.to_string(),
            args: json(args),
        }),
        thought_signature: signature.map(|s| s.to_string()),
    }
}

#[test]
fn complete_with_tool_use() {
    let reply = parse_response(answer(
        vec![
            text_part("I'll check that."),
            call_part("call_1", "get_weather", r#"{"city": "Paris"}"#, None),
        ],
        Some("STOP"),
        Some(30),
    ))
    .unwrap();
    assert_eq!(reply.message.text_content(), "I'll check that.");
    assert_eq!(reply.message.tool_calls.len(), 1);
    assert_eq!(reply.message.tool_calls[0].name, "get_weather");
    assert_eq!(reply.message.tool_calls[0].id, "call_1");
}

#[test]
fn complete_round_trips_thought_signature() {
    let p = GeminiProvider::new("sig-key");
    assert!(has_header(&p.request_headers(), "x-goog-api-key", "sig-key"));
    let first = p
        .build_request_body(&vec![Message::user("calc 1+1")], &vec![], &CallMeta::new())
        .into_value();
    assert_eq!(first["contents"], value(r#"[{"role": "user", "parts": [{"text": "calc 1+1"}]}]"#));
    let reply = parse_response(answer(
        vec![call_part("call_1", "calc", r#"{"x": 1}"#, Some("sig-abc-123"))],
        Some("STOP"),
        Some(10),
    ))
    .unwrap();
    assert_eq!(reply.message.tool_calls.len(), 1);
    let mut meta = CallMeta::new();
    meta.save(&reply.thought_signatures, &reply.tool_names);

    let messages = vec![
        Message::user("calc 1+1"),
        Message::with_tool_calls(reply.message.tool_calls),
        Message::tool_result("call_1", "2"),
    ];
    let body = p.build_request_body(&messages, &vec![], &meta).into_value();
    let contents = &body["contents"];
    assert_eq!(contents[0], value(r#"{"role": "user", "parts": [{"text": "calc 1+1"}]}"#));
    assert_eq!(contents[1]["role"], "model");
    let call = &contents[1]["parts"][0];
    assert_eq!(call["functionCall"]["name"], "calc");
    assert_eq!(call["functionCall"]["args"], value(r#"{"x": 1}"#));
    assert_eq!(call["functionCall"]["id"], "call_1");
    assert_eq!(call["thoughtSignature"], "sig-abc-123");
    assert_eq!(contents[2]["role"], "user");
    let result = &contents[2]["parts"][0]["functionResponse"];
    assert_eq!(result["name"], "calc");
    assert_eq!(result["response"], value(r#"{"result": "2"}"#));

    let reply2 =
        parse_response(answer(vec![text_part("The answer is 2.")], Some("STOP"), Some(12))).unwrap();
    assert_eq!(reply2.message.text_content(), "The answer is 2.");
}

#[test]
fn complete_stream_emits_deltas() {
    let p = GeminiProvider::new("stream-key").with_base_url("http://host");
    assert!(has_header(&p.request_headers(), "x-goog-api-key", "stream-key"));
    assert!(p
        .request_url(true)
        .starts_with(&format!("http://host/models/{}:streamGenerateContent", DEFAULT_MODEL)));
    let mut stream = ContentStream::new();
    let mut texts = Vec::new();
    for chunk in [
        answer(vec![text_part("Hello")], None, None),
        answer(vec![text_part(" world")], None, None),
        answer(vec![text_part("!")], Some("STOP"), Some(5)),
    ] {
        for emitted in stream.on_chunk(chunk) {
            match emitted {
                Emitted::Content(t) => texts.push(t),
                Emitted::Thinking(_) => panic!("no thoughts here"),
            }
        }
    }
    let reply = stream.finish();
    assert_eq!(reply.message.text_content(), "Hello world!");
    assert_eq!(reply.message.token_count, Some(5));
    assert_eq!(texts, vec!["Hello", " world", "!"]);
}

#[test]
fn gemini_from_env_reads_gemini_api_key() {
    let p = GeminiProvider::from_env(Some("gemini-key-value".to_string())).unwrap();
    assert_eq!(p.api_key, "gemini-key-value");
}

#[test]
fn gemini_from_env_errors_when_unset() {
    let err = GeminiProvider::from_env(None).unwrap_err();
    assert!(matches!(
        err,
        ProviderError::MissingApiKey { var } if var == DEFAULT_API_KEY_ENV
    ));
}

#[test]
fn an_answer_without_candidates_is_empty() {
    let resp = GenerateContentResponse { candidates: vec![], usage_metadata: None };
    assert!(matches!(parse_response(resp), Err(ProviderError::EmptyResponse)));
}

#[test]
fn thinking_levels_are_normalised() {
    assert_eq!(normalize_thinking_level("high"), "high");
    assert_eq!(normalize_thinking_level("low"), "low");
}

#[test]
fn gemini_finish_reasons_are_known_by_name() {
    assert_eq!(map_finish_reason("STOP"), FinishReason::Stop);
    assert_eq!(map_finish_reason("MAX_TOKENS"), FinishReason::Length);
}

#[test]
fn id_includes_model_and_dimensionality() {
    assert_eq!(
        GeminiEmbedder::new("k").id(),
        format!("{}/{}", DEFAULT_EMBEDDING_MODEL, DEFAULT_OUTPUT_DIMENSIONALITY)
    );
    assert_eq!(
        GeminiEmbedder::new("k")
            .with_model("other-embedding")
            .with_output_dimensionality(128)
            .id(),
        "other-embedding/128"
    );
}

#[test]
fn embed_sends_batch_request() {
    let e = GeminiEmbedder::new("gem-key").with_base_url("http://host");
    assert_eq!(
        e.request_url(),
        format!("http://host/models/{}:batchEmbedContents", DEFAULT_EMBEDDING_MODEL)
    );
    assert!(has_header(&e.request_headers(), "x-goog-api-key", "gem-key"));
    let json =
        e.request_body(&vec!["hello".to_string(), "world".to_string()]).unwrap().into_value();
    assert_eq!(
        json,
        value(
            r#"{"requests": [
                {
                    "model": "models/gemini-embedding-001",
                    "content": {"parts": [{"text": "hello"}]},
                    "outputDimensionality": 768
                },
                {
                    "model": "models/gemini-embedding-001",
                    "content": {"parts": [{"text": "world"}]},
                    "outputDimensionality": 768
                }
            ]}"#
        )
    );
    let vectors = all_embedded(vec![vec![1.0, 0.0], vec![0.0, 1.0]], 2).unwrap();
    assert_eq!(vectors, vec![vec![1.0, 0.0], vec![0.0, 1.0]]);
}

#[test]
fn gemini_embeddings_embed_empty_input_skips_network() {
    assert!(GeminiEmbedder::new("k").request_body(&vec![]).is_none());
}

#[test]
fn gemini_embeddings_http_error_is_surfaced() {
    let err = sweet::http::accept(500, "boom".to_string()).unwrap_err();
    assert!(err.to_message().contains("500"));
}

#[test]
fn short_response_is_an_error() {
    let err = all_embedded(vec![vec![1.0]], 2).unwrap_err();
    assert!(!err.to_message().is_empty());
}

#[test]
fn gemini_embeddings_from_env_reads_gemini_api_key() {
    assert_eq!(GeminiEmbedder::from_env(Some("from-env".to_string())).unwrap().api_key, "from-env");
    assert!(GeminiEmbedder::from_env(None).is_err());
}

#[test]
fn chunks_do_not_matter() {
    let mut one = ContentStream::new();
    one.on_chunk(answer(vec![text_part("Hello"), text_part(" world")], Some("STOP"), Some(5)));
    let mut two = ContentStream::new();
    two.on_chunk(answer(vec![text_part("Hello")], None, None));
    two.on_chunk(answer(vec![text_part(" world")], Some("STOP"), Some(5)));
    assert_eq!(format!("{:?}", one.finish()), format!("{:?}", two.finish()));
}

#[test]
fn a_chunk_that_is_no_json_is_shown() {
    assert_eq!(
        invalid_chunk("expected value", "oops").to_message(),
        "failed to decode response: invalid JSON in SSE data: expected value. raw: oops"
    );
}
