use std::time::Duration;

use ri_core::config::model::Header;
use ri_core::config::{ApiKind, Compatibility, CostMetadata, ModelRef, ResolvedModel};
use ri_core::model::collector::ResponseCollector;
use ri_core::model::diagnostics::{
    escape_diagnostic_text, is_sensitive_diagnostic_key, provider_error_kind, redact_fragments,
    refusal, truncate_diagnostic, ErrorBodyReader, ProviderErrorBody,
    ERROR_RESPONSE_TRUNCATED_MARKER, MAX_ERROR_LOG_BYTES, MAX_ERROR_RESPONSE_BYTES,
};
use ri_core::model::payload::{
    normalize_incomplete_reason, normalize_stop_reason, parse_payload, parse_usage, ParsedPayload,
};
use ri_core::model::stream::{http_request, ResponseStream};
use ri_core::{
    ConfiguredProvider, JsonValue, MockProvider, ModelAssistantItem, ModelEvent, ModelRequest,
    ProviderError, StopReason,
};

fn model(api: ApiKind) -> ResolvedModel {
    ResolvedModel {
        model_ref: ModelRef::new("p", "m"),
        name: "m".to_owned(),
        base_url: "https://example.test/v1/".to_owned(),
        api,
        api_key: Some("key".to_owned()),
        headers: Vec::new(),
        auth_header: true,
        compatibility: Compatibility::default(),
        reasoning: false,
        input: Vec::new(),
        context_window: None,
        max_tokens: None,
        cost: CostMetadata::default(),
        sampling_params: Vec::new(),
        thinking_level_map: Vec::new(),
    }
}

fn header(name: &str, value: &str) -> Header {
    Header {
        name: name.to_owned(),
        value: value.to_owned(),
    }
}

fn text_delta(index: Option<usize>, text: &str) -> ModelEvent {
    ModelEvent::AssistantTextDelta {
        index,
        text: text.to_owned(),
    }
}

fn call_delta(arguments: &str, complete: bool) -> ModelEvent {
    ModelEvent::ToolCallDelta {
        index: 3,
        call_id: Some("c".to_owned()),
        item_id: None,
        name: Some("read".to_owned()),
        arguments: arguments.to_owned(),
        arguments_complete: complete,
    }
}

fn items(events: &[ModelEvent]) -> Vec<ModelAssistantItem> {
    let mut collector = ResponseCollector::default();
    for event in events {
        collector.record(event);
    }
    collector.take_payload(&ParsedPayload {
        events: Vec::new(),
        stop_reason: None,
        terminal: true,
    });
    collector.finish().unwrap().items
}

#[test]
fn pieces_of_a_text_are_joined() {
    assert_eq!(
        items(&[text_delta(Some(1), "hel"), text_delta(Some(1), "lo")]),
        items(&[text_delta(Some(1), "hello")])
    );
    assert_eq!(
        items(&[text_delta(None, "hel"), text_delta(None, "lo")]),
        [ModelAssistantItem::Text {
            content: "hello".to_owned()
        }]
    );
}

#[test]
fn pieces_of_arguments_are_joined_and_replaced_when_complete() {
    assert_eq!(
        items(&[call_delta("{\"a\"", false), call_delta(":1}", false)]),
        items(&[call_delta("{\"a\":1}", false)])
    );
    assert_eq!(
        items(&[call_delta("{\"a\"", false), call_delta("{}", true)]),
        items(&[call_delta("{}", false)])
    );
}

#[test]
fn items_come_in_the_order_of_their_indices() {
    let collected = items(&[
        text_delta(Some(5), "last"),
        call_delta("{}", false),
        text_delta(Some(0), "first"),
    ]);
    assert!(matches!(
        &collected[..],
        [
            ModelAssistantItem::Text { content: first },
            ModelAssistantItem::ToolCall(_),
            ModelAssistantItem::Text { content: last },
        ] if first == "first" && last == "last"
    ));
}

#[test]
fn a_stream_without_an_end_is_an_error() {
    let collector = ResponseCollector::default();
    assert_eq!(
        collector.finish(),
        Err(ProviderError::Failed {
            message: "response stream ended before a terminal event".to_owned()
        })
    );
}

const BODY: &str = "data: {\"choices\":[{\"delta\":{\"content\":\"h\\u00e9llo\"},\"finish_reason\":null}]}\r\n\r\ndata: {\"choices\":[{\"delta\":{},\"finish_reason\":\"stop\"}]}\n\ndata: [DONE]\n\n";

fn streamed(pieces: &[&[u8]]) -> (Vec<ModelEvent>, bool) {
    let mut stream = ResponseStream::new(ApiKind::OpenAiCompletions);
    let mut events = Vec::new();
    let mut done = false;
    for piece in pieces {
        if !done {
            let batch = stream.feed(piece);
            events.extend(batch.events);
            done = batch.outcome.unwrap();
        }
    }
    if !done {
        let batch = stream.finish();
        events.extend(batch.events);
        done = batch.outcome.unwrap();
    }
    let response = stream.response().unwrap();
    assert_eq!(response.stop_reason, StopReason::Stop);
    assert_eq!(
        response.items,
        [ModelAssistantItem::Text {
            content: "héllo".to_owned()
        }]
    );
    (events, done)
}

#[test]
fn a_stream_may_come_in_any_pieces() {
    let whole = streamed(&[BODY.as_bytes()]);
    let bytes: Vec<&[u8]> = BODY.as_bytes().chunks(1).collect();
    assert_eq!(streamed(&bytes), whole);
    let sevens: Vec<&[u8]> = BODY.as_bytes().chunks(7).collect();
    assert_eq!(streamed(&sevens), whole);
    assert!(whole.1);
}

#[test]
fn payloads_that_are_no_json_are_malformed() {
    assert!(matches!(
        parse_payload(ApiKind::OpenAiResponses, "{"),
        Err(ProviderError::Malformed { .. })
    ));
    let mut stream = ResponseStream::new(ApiKind::OpenAiResponses);
    let batch = stream.feed(b"data: {\n\n");
    assert!(matches!(
        batch.outcome,
        Err(ProviderError::Malformed { .. })
    ));
}

#[test]
fn reasons_and_usage_are_read() {
    assert_eq!(normalize_stop_reason("tool_calls"), Some(StopReason::ToolCalls));
    assert_eq!(normalize_stop_reason("length"), Some(StopReason::Length));
    assert_eq!(
        normalize_incomplete_reason("max_output_tokens"),
        StopReason::Length
    );
    assert_eq!(
        normalize_incomplete_reason("something else"),
        StopReason::Incomplete
    );
    let usage = parse_usage(
        &JsonValue::parse(
            r#"{"input_tokens":10,"output_tokens":2,"input_tokens_details":{"cached_tokens":4}}"#,
        )
        .unwrap(),
    )
    .unwrap();
    assert_eq!(usage.input_tokens, Some(10));
    assert_eq!(usage.cache_read_tokens, Some(4));
}

#[test]
fn requests_carry_their_headers() {
    let mut with_headers = model(ApiKind::OpenAiResponses);
    with_headers.headers = vec![header("X-Custom", "value")];
    let request = http_request(&with_headers, &ModelRequest::single_user("hi")).unwrap();
    assert_eq!(request.endpoint, "https://example.test/v1/responses");
    assert!(request.headers.contains(&header("x-custom", "value")));
    assert!(request
        .headers
        .iter()
        .any(|h| h.name.eq_ignore_ascii_case("authorization") && h.value == "Bearer key"));
    assert_eq!(request.body.get_str("model"), Some("m"));
}

#[test]
fn headers_that_cannot_be_sent_are_refused() {
    let mut wrong = model(ApiKind::OpenAiResponses);
    wrong.headers = vec![header("bad name", "value")];
    assert!(matches!(
        http_request(&wrong, &ModelRequest::single_user("hi")),
        Err(ProviderError::Failed { message }) if message.starts_with("invalid configured header \"bad name\"")
    ));
    wrong.headers = vec![header("x-ok", "line\nbreak")];
    assert!(matches!(
        http_request(&wrong, &ModelRequest::single_user("hi")),
        Err(ProviderError::Failed { message }) if message.starts_with("invalid configured value for header x-ok")
    ));
}

#[test]
fn mock_provider_streams_configured_chunks() {
    let provider = MockProvider::with_response("abcdef")
        .with_chunk_size(2)
        .with_delay(Duration::ZERO);
    let request = ModelRequest::single_user("hello");
    let mut chunks = Vec::new();
    for event in provider.events_for(&request) {
        let ModelEvent::AssistantTextDelta { text, .. } = event else {
            continue;
        };
        chunks.push(text);
    }
    let response = provider.response(&request);

    assert_eq!(chunks, ["ab", "cd", "ef"]);
    assert_eq!(response.stop_reason, StopReason::Stop);
    assert_eq!(
        response.items,
        [ModelAssistantItem::Text {
            content: "abcdef".to_owned()
        }]
    );
    assert_eq!(provider.delay(), Duration::ZERO);
}

#[test]
fn a_mock_without_a_response_repeats_the_request() {
    let provider = MockProvider::new();
    assert_eq!(
        provider.response_for(&ModelRequest::single_user("hello")),
        "Mock response to: hello"
    );
    assert_eq!(provider.delay(), Duration::from_millis(20));
    assert_eq!(
        MockProvider::with_response("abc")
            .with_chunk_size(0)
            .events_for(&ModelRequest::single_user("x"))
            .len(),
        3
    );
}

#[test]
fn only_configured_providers_switch_models() {
    let mut mock = ConfiguredProvider::mock();
    assert_eq!(mock.model_ref(), ModelRef::new("mock", "mock"));
    assert_eq!(
        mock.set_model(model(ApiKind::OpenAiResponses)),
        Err(ProviderError::Failed {
            message: "model switching requires a configured models.json provider".to_owned()
        })
    );
    let mut configured = ConfiguredProvider::openai(model(ApiKind::OpenAiResponses));
    let mut other = model(ApiKind::OpenAiCompletions);
    other.model_ref = ModelRef::new("q", "n");
    configured.set_model(other).unwrap();
    assert_eq!(configured.model_ref(), ModelRef::new("q", "n"));
}

#[test]
fn refusals_are_bounded() {
    let mut reader = ErrorBodyReader::new();
    let chunk = vec![b'x'; 1024];
    let mut fed: usize = 0;
    while reader.feed(&chunk) {
        fed += chunk.len();
        assert!(fed <= MAX_ERROR_RESPONSE_BYTES);
    }
    let body = reader.finish();
    assert!(body.truncated);
    assert!(body.content.len() <= MAX_ERROR_RESPONSE_BYTES);
    let error = refusal(400, &body);
    let ProviderError::Http { status, message } = error else {
        panic!("expected an HTTP error");
    };
    assert_eq!(status, 400);
    assert!(message.len() <= MAX_ERROR_RESPONSE_BYTES + ERROR_RESPONSE_TRUNCATED_MARKER.len());
    assert!(message.ends_with(ERROR_RESPONSE_TRUNCATED_MARKER));
    let overflow = ProviderErrorBody {
        content: "too large".to_owned(),
        truncated: false,
    };
    assert!(matches!(
        refusal(413, &overflow),
        ProviderError::ContextOverflow { message } if message == "too large"
    ));
    let mut broken = ErrorBodyReader::new();
    broken.feed(b" a\xffb ");
    assert_eq!(broken.finish().content, "a\u{fffd}b");
}

#[test]
fn fragments_are_redacted_longest_first() {
    let fragments = vec!["abc".to_owned(), "abcdef".to_owned(), String::new()];
    assert_eq!(
        redact_fragments("x abcdef y abc", &fragments),
        "x <redacted> y <redacted>"
    );
    assert_eq!(redact_fragments("nothing here", &fragments), "nothing here");
}

#[test]
fn logged_text_is_plain_and_bounded() {
    assert_eq!(escape_diagnostic_text("a\nb\rc\u{7}d"), "a\\nb\\rc d");
    assert!(is_sensitive_diagnostic_key("API-Key"));
    assert!(!is_sensitive_diagnostic_key("message"));
    let logged = truncate_diagnostic(&"é".repeat(5000), 10_000);
    assert!(logged.len() <= MAX_ERROR_LOG_BYTES);
    assert!(logged.ends_with("… [diagnostic truncated; response 10000 bytes]"));
    assert_eq!(truncate_diagnostic("short", 5), "short");
    assert_eq!(provider_error_kind(&ProviderError::Cancelled), "cancelled");
}

#[test]
fn the_configured_mock_repeats_the_request_in_small_pieces() {
    let ConfiguredProvider::Mock(mock) = ConfiguredProvider::mock() else {
        panic!("no mock is configured");
    };
    assert_eq!(mock, MockProvider::new());
    assert_eq!(mock.clone(), mock);
    assert_eq!(mock.delay(), Duration::from_millis(20));
    let request = ModelRequest::single_user("hello");
    assert_eq!(
        mock.events_for(&request),
        [
            text_delta(None, "Mock res"),
            text_delta(None, "ponse to"),
            text_delta(None, ": hello"),
        ]
    );
    assert_ne!(mock, MockProvider::with_response("x"));
}
