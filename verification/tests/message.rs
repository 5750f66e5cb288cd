use sweet::arguments::parse_input;
use sweet::embeddings::{in_order, EmbeddingObject};
use sweet::error::ProviderError;
use sweet::http::{elapsed_ms, endpoint_url};
use sweet::json::{Json, JsonMap};
use sweet::message::{system_text, ContentBlock, Message, Role, ThinkingContent, ToolCall};
use sweet::order::{sort_by_key, Keyed};
use sweet::sampling::SamplingConfig;
use sweet::structured_output::StructuredOutput;
use sweet::text::{join, split_words, to_decimal, to_signed_decimal, trim_end_char};
use sweet::text_map::TextMap;

fn json(text: &str) -> Json {
    Json::parse(text).unwrap()
}

#[test]
fn the_text_of_a_message_is_that_of_its_text_blocks() {
    assert_eq!(Message::user("hi").text_content(), "hi");
    let msg = Message::user_blocks(vec![
        ContentBlock::Text { text: "a".to_string() },
        ContentBlock::Image { data: vec![1], media_type: "image/png".to_string() },
        ContentBlock::Text { text: "b".to_string() },
    ]);
    assert_eq!(msg.text_content(), "ab");
    assert!(msg.has_images());
    assert!(!msg.has_files());
    assert!(msg.has_attachments());
    assert!(!Message::user("x").has_attachments());
}

#[test]
fn messages_are_from_whom_they_say() {
    assert_eq!(Message::system("s").role, Role::System);
    assert_eq!(Message::user("u").role, Role::User);
    assert_eq!(Message::assistant("a").role, Role::Assistant);
    let result = Message::tool_result("call_1", "done");
    assert_eq!(result.role, Role::Tool);
    assert_eq!(result.tool_call_id.as_deref(), Some("call_1"));
    let calls = Message::with_tool_calls(vec![ToolCall {
        id: "c".to_string(),
        name: "n".to_string(),
        arguments: json("{}"),
    }]);
    assert_eq!(calls.role, Role::Assistant);
    assert_eq!(calls.tool_calls.len(), 1);
}

#[test]
fn system_messages_are_joined() {
    let messages =
        vec![Message::system("one"), Message::user("x"), Message::system("two")];
    assert_eq!(system_text(&messages).as_deref(), Some("one\ntwo"));
    assert_eq!(system_text(&vec![Message::user("x")]), None);
}

#[test]
fn a_plain_thought_has_only_its_text() {
    let t = ThinkingContent::new("hm".to_string());
    assert_eq!(t.text, "hm");
    assert!(t.signature.is_none() && t.redacted_data.is_none() && t.details.is_none());
}

#[test]
fn no_argument_text_stands_for_no_arguments() {
    assert_eq!(parse_input("").unwrap().to_text(), "{}");
    assert_eq!(parse_input("{\"a\":1}").unwrap().to_text(), "{\"a\":1}");
    assert!(matches!(parse_input("{"), Err(ProviderError::Decode(_))));
}

#[test]
fn a_json_value_survives_the_passage() {
    let text = r#"{"a":[1,-2,2.5,true,null],"b":{"c":"d"}}"#;
    let value: serde_json::Value = serde_json::from_str(text).unwrap();
    let there = Json::from_value(value.clone());
    assert_eq!(there.copy().into_value(), value);
    assert_eq!(there.to_text(), text);
    assert_eq!(there.get("b").unwrap().get("c").unwrap().as_str(), Some("d"));
    assert!(Json::parse("nope").is_err());
}

#[test]
fn integers_are_read_where_they_fit() {
    assert_eq!(Json::uint(7).as_u64(), Some(7));
    assert_eq!(Json::uint(7).as_i64(), Some(7));
    assert_eq!(Json::uint(u64::MAX).as_i64(), None);
    assert_eq!(Json::sint(-3).as_i64(), Some(-3));
    assert_eq!(Json::sint(-3).as_u64(), None);
    assert_eq!(Json::sint(5).as_u64(), Some(5));
    assert_eq!(Json::text("7").as_u64(), None);
}

#[test]
fn a_later_member_shadows_an_earlier_one() {
    let m = JsonMap::new().with("k", Json::text("old")).with("k", Json::text("new"));
    assert_eq!(m.get("k").unwrap().as_str(), Some("new"));
    assert_eq!(Json::Object(m).to_text(), "{\"k\":\"new\"}");
    let mut t = TextMap::new();
    t.insert("k", 1);
    t.insert("k", 2);
    assert_eq!(t.get("k"), Some(&2));
    assert_eq!(t.get("x"), None);
}

#[test]
fn shadowed_members_are_left_out_at_every_level() {
    let mut inner = JsonMap::new().with("a", Json::uint(1)).with("b", Json::uint(2));
    inner.merge(&JsonMap::new().with("a", Json::uint(3)).with("c", Json::Null));
    inner.put("b", None);
    inner.put("c", Some(Json::uint(4)));
    let outer = JsonMap::new()
        .with("x", Json::text("old"))
        .with("x", Json::Array(vec![Json::Object(inner)]));
    let value = Json::Object(outer).into_value();
    assert_eq!(value.to_string(), "{\"x\":[{\"a\":3,\"b\":2,\"c\":4}]}");
}

#[test]
fn items_are_sorted_and_keep_their_order_among_equals() {
    let keyed = |key: u64, item: &'static str| Keyed { key, item };
    let sorted = sort_by_key(vec![keyed(2, "b"), keyed(1, "x"), keyed(2, "a"), keyed(1, "y")]);
    assert_eq!(sorted, ["x", "y", "b", "a"]);
}

#[test]
fn a_short_answer_of_embeddings_is_refused() {
    let data = vec![EmbeddingObject { embedding: "a", index: 0 }];
    assert!(matches!(in_order(data, 2), Err(ProviderError::EmptyResponse)));
}

#[test]
fn a_schema_without_a_name_is_called_response() {
    let mut output = StructuredOutput::new(json("{}"));
    assert!(output.strict);
    assert_eq!(output.name_or_default(), "response");
    output.name = Some("answer".to_string());
    assert_eq!(output.name_or_default(), "answer");
}

#[test]
fn nothing_is_sampled_by_default() {
    let s = SamplingConfig::default();
    assert!(s.temperature.is_none() && s.top_p.is_none() && s.top_k.is_none());
    assert!(s.stop.is_empty() && s.max_tokens.is_none());
    assert!(s.stop_value().is_none());
}

#[test]
fn texts_are_cut_and_joined() {
    assert_eq!(split_words("  a\tb\u{2003}c \n"), ["a", "b", "c"]);
    assert_eq!(join(&vec!["a".to_string(), "b".to_string()], ", "), "a, b");
    assert_eq!(trim_end_char("x//", '/'), "x");
    assert_eq!(to_decimal(0), "0");
    assert_eq!(to_decimal(18446744073709551615), "18446744073709551615");
    assert_eq!(to_signed_decimal(i64::MIN), "-9223372036854775808");
}

#[test]
fn slashes_at_the_end_of_an_address_do_not_matter() {
    assert_eq!(endpoint_url("http://host", "/x"), "http://host/x");
    assert_eq!(endpoint_url("http://host//", "/x"), "http://host/x");
}

#[test]
fn a_duration_that_does_not_fit_is_the_longest() {
    assert_eq!(elapsed_ms(5), 5);
    assert_eq!(elapsed_ms(u128::MAX), u64::MAX);
}

#[test]
fn every_provider_error_has_its_message() {
    let message = |e: ProviderError| e.to_message();
    assert_eq!(
        message(ProviderError::MissingApiKey { var: "K".to_string() }),
        "required environment variable `K` is not set"
    );
    assert_eq!(
        message(ProviderError::EmptyApiKey("K".to_string())),
        "environment variable `K` is configured but missing or empty"
    );
    assert_eq!(message(ProviderError::Network("x".to_string())), "network error: x");
    assert_eq!(
        message(ProviderError::Http { status: 429, body: "slow".to_string() }),
        "HTTP 429: slow"
    );
    assert_eq!(message(ProviderError::Decode("x".to_string())), "failed to decode response: x");
    assert_eq!(message(ProviderError::EmptyResponse), "response contained no choices");
    assert_eq!(
        message(ProviderError::UnknownRole("x".to_string())),
        "unsupported role from upstream: x"
    );
}
