use ri_core::config::catalog::{
    RawCompatibility, RawModel, RawModelsFile, RawProvider, RawProviderEntry,
};
use ri_core::config::environment::Environment;
use ri_core::config::model::{Header, LevelEffort};
use ri_core::config::{
    ApiKind, Compatibility, CostMetadata, ModelCatalog, ModelRef, ResolvedModel, ThinkingLevel,
};
use ri_core::json::{JsonMember, JsonValue};
use ri_core::model::collector::ResponseCollector;
use ri_core::model::diagnostics::{
    is_context_overflow, provider_error_diagnostic, ProviderErrorBody,
    ERROR_RESPONSE_TRUNCATED_MARKER, MAX_ERROR_LOG_BYTES, REDACTED_DIAGNOSTIC_CONTENT,
};
use ri_core::model::payload::{parse_payload, ParsedPayload};
use ri_core::model::{
    ModelAssistantItem, ModelEvent, ModelLimits, ModelMessage, ModelRequest, ModelThinking,
    ModelToolCall, OpenAiProvider, ProviderError, SseParser, StopReason, Usage,
};
use serde_json::Value;

fn json(text: &str) -> Value {
    serde_json::from_str(text).unwrap()
}

fn plain(value: &JsonValue) -> Value {
    json(&value.to_text())
}

fn parameter(name: &str, value: &str) -> JsonMember {
    JsonMember {
        name: name.to_owned(),
        value: JsonValue::parse(value).unwrap(),
    }
}

fn request_for(model: &ResolvedModel, request: &ModelRequest) -> (String, Value) {
    let (endpoint, body) = ri_core::model::requests::request_for(model, request);
    (endpoint, plain(&body))
}

fn responses_reasoning_item(thinking: &ModelThinking) -> Value {
    plain(&ri_core::model::requests::responses_reasoning_item(thinking))
}

fn ended(collector: &mut ResponseCollector, stop_reason: Option<StopReason>, terminal: bool) {
    collector.take_payload(&ParsedPayload {
        events: Vec::new(),
        stop_reason,
        terminal,
    });
}

fn raw_model(id: &str) -> RawModel {
    RawModel {
        id: id.to_owned(),
        name: None,
        api: None,
        reasoning: false,
        input: Vec::new(),
        context_window: None,
        max_tokens: None,
        cost: None,
        compat: RawCompatibility {
            supports_developer_role: None,
            supports_reasoning_effort: None,
        },
        sampling_params: Vec::new(),
        thinking_level_map: Vec::new(),
        extra: Vec::new(),
    }
}

fn raw_provider(base_url: &str, api: &str, models: Vec<RawModel>) -> RawProvider {
    RawProvider {
        base_url: base_url.to_owned(),
        api: Some(api.to_owned()),
        api_key: None,
        headers: Vec::new(),
        auth_header: None,
        compat: RawCompatibility {
            supports_developer_role: None,
            supports_reasoning_effort: None,
        },
        models,
        extra: Vec::new(),
    }
}

fn models_file(id: &str, provider: RawProvider) -> RawModelsFile {
    RawModelsFile {
        providers: vec![RawProviderEntry {
            id: id.to_owned(),
            provider,
        }],
        extra: Vec::new(),
    }
}

fn no_variables() -> Environment {
    Environment {
        variables: Vec::new(),
    }
}

fn test_model(api: ApiKind, base_url: String) -> ResolvedModel {
    ResolvedModel {
        model_ref: ModelRef::new("p", "m"),
        name: "m".to_owned(),
        base_url,
        api,
        api_key: Some("test-key".to_owned()),
        headers: Vec::new(),
        auth_header: true,
        compatibility: Compatibility::default(),
        reasoning: false,
        thinking_level_map: Vec::new(),
        input: vec!["text".to_owned()],
        context_window: None,
        max_tokens: None,
        cost: CostMetadata::default(),
        sampling_params: Vec::new(),
    }
}

#[test]
fn sse_parser_handles_fragmented_events_and_multiline_data() {
    let mut parser = SseParser::default();
    assert!(parser.feed(b"data: {\"delta\":\"").unwrap().is_empty());
    assert!(parser.feed("hello".as_bytes()).unwrap().is_empty());
    assert_eq!(
        parser.feed(b"\"}\n\ndata: second\ndata: line\n\n").unwrap(),
        [r#"{"delta":"hello"}"#, "second\nline"]
    );
}

#[test]
fn malformed_sse_utf8_is_recoverable_error() {
    let mut parser = SseParser::default();
    let error = parser
        .feed(b"data: \xff\n\n")
        .expect_err("invalid UTF-8 should fail");
    assert!(matches!(error, ProviderError::Malformed { .. }));
}

#[test]
fn completions_payload_assembles_text_tools_and_usage_events() {
    let first = parse_payload(
        ApiKind::OpenAiCompletions,
        r#"{"choices":[{"delta":{"content":"hello","tool_calls":[{"index":0,"id":"call-1","function":{"name":"read","arguments":"{\"path\":"}}]},"finish_reason":null}]}"#,
    )
    .expect("payload should parse");
    let second = parse_payload(
        ApiKind::OpenAiCompletions,
        r#"{"choices":[{"delta":{"tool_calls":[{"index":0,"function":{"arguments":"\"src/main.rs\"}"}}]},"finish_reason":"tool_calls"}],"usage":{"prompt_tokens":4,"completion_tokens":3,"total_tokens":7}}"#,
    )
    .expect("payload should parse");
    let mut collector = ResponseCollector::default();
    for event in first.events.into_iter().chain(second.events) {
        collector.record(&event);
    }
    ended(&mut collector, second.stop_reason, true);
    let response = collector
        .finish()
        .expect("completed response should finish");

    assert_eq!(response.stop_reason, StopReason::ToolCalls);
    assert_eq!(
        response.items[0],
        ModelAssistantItem::Text {
            content: "hello".to_owned()
        }
    );
    let ModelAssistantItem::ToolCall(tool_call) = &response.items[1] else {
        panic!("expected a tool call item");
    };
    assert_eq!(tool_call.name.as_deref(), Some("read"));
    assert_eq!(tool_call.arguments, "{\"path\":\"src/main.rs\"}");
    assert_eq!(
        response.usage,
        Some(Usage {
            input_tokens: Some(4),
            output_tokens: Some(3),
            total_tokens: Some(7),
            cache_read_tokens: None,
            cache_write_tokens: None,
        })
    );
}

#[test]
fn completions_refusal_deltas_are_retained_and_replayed() {
    let parsed = parse_payload(
        ApiKind::OpenAiCompletions,
        r#"{"choices":[{"delta":{"refusal":"I cannot help with that."},"finish_reason":null}]}"#,
    )
    .expect("payload should parse");
    let finished = parse_payload(
        ApiKind::OpenAiCompletions,
        r#"{"choices":[{"delta":{},"finish_reason":"stop"}]}"#,
    )
    .expect("finish payload should parse");
    let mut collector = ResponseCollector::default();
    for event in parsed.events.into_iter().chain(finished.events) {
        collector.record(&event);
    }
    ended(&mut collector, finished.stop_reason, true);
    let response = collector
        .finish()
        .expect("completed response should finish");

    assert_eq!(
        response.items,
        [ModelAssistantItem::Refusal {
            content: "I cannot help with that.".to_owned()
        }]
    );

    let model = test_model(
        ApiKind::OpenAiCompletions,
        "https://example.test/v1".to_owned(),
    );
    let request = ModelRequest {
        messages: vec![ModelMessage::Assistant {
            items: response.items,
        }],
        tools: Vec::new(),
        max_tokens: None,
        reasoning_effort: None,
        sampling_params: Vec::new(),
    };
    let (_, body) = request_for(&model, &request);
    assert_eq!(
        body["messages"][0],
        json(r#"{ "role": "assistant", "content": null, "refusal": "I cannot help with that." }"#)
    );
}

#[test]
fn completions_reasoning_deltas_are_retained_in_response_items() {
    let parsed = parse_payload(
        ApiKind::OpenAiCompletions,
        r#"{"choices":[{"delta":{"reasoning_content":"thinking..."},"finish_reason":null}]}"#,
    )
    .expect("payload should parse");
    let mut collector = ResponseCollector::default();
    for event in parsed.events {
        collector.record(&event);
    }
    ended(&mut collector, None, true);
    let response = collector
        .finish()
        .expect("completed response should finish");

    assert_eq!(
        response.items,
        [ModelAssistantItem::Reasoning(ModelThinking {
            summary: "thinking...".to_owned(),
            ..ModelThinking::default()
        })]
    );
}

#[test]
fn detects_context_overflow_errors() {
    assert!(is_context_overflow(413, "payload too large"));
    assert!(is_context_overflow(400, "maximum context length is 1000"));
    assert!(!is_context_overflow(400, "invalid parameter"));
}

#[test]
fn responses_incomplete_preserves_reason_and_does_not_infer_tool_calls() {
    let added = parse_payload(
        ApiKind::OpenAiResponses,
        r#"{"type":"response.output_item.added","output_index":0,"item":{"type":"function_call","id":"fc_123","call_id":"call_123","name":"read","arguments":""}}"#,
    )
    .expect("output item should parse");
    let incomplete = parse_payload(
        ApiKind::OpenAiResponses,
        r#"{"type":"response.incomplete","response":{"status":"incomplete","incomplete_details":{"reason":"max_output_tokens"}}}"#,
    )
    .expect("incomplete response should parse");

    let mut collector = ResponseCollector::default();
    for event in added.events {
        collector.record(&event);
    }
    ended(&mut collector, incomplete.stop_reason, incomplete.terminal);
    let response = collector
        .finish()
        .expect("incomplete response should finish");

    assert_eq!(response.stop_reason, StopReason::Length);
    assert!(matches!(
        response.items.as_slice(),
        [ModelAssistantItem::ToolCall(_)]
    ));
}

#[test]
fn responses_refusal_stream_is_preserved_and_replayed() {
    let payloads = [
        r#"{"type":"response.output_item.added","output_index":0,"item":{"type":"message","role":"assistant","content":[]}}"#,
        r#"{"type":"response.refusal.delta","output_index":0,"delta":"I cannot help with that."}"#,
        r#"{"type":"response.refusal.done","output_index":0,"refusal":"I cannot help with that."}"#,
        r#"{"type":"response.output_item.done","output_index":0,"item":{"type":"message","role":"assistant","content":[{"type":"refusal","refusal":"I cannot help with that."}]}}"#,
        r#"{"type":"response.completed","response":{"status":"completed"}}"#,
    ];
    let mut collector = ResponseCollector::default();
    for payload in payloads {
        let parsed = parse_payload(ApiKind::OpenAiResponses, payload)
            .expect("Responses refusal event should parse");
        ended(&mut collector, parsed.stop_reason, parsed.terminal);
        for event in parsed.events {
            collector.record(&event);
        }
    }
    let response = collector.finish().expect("refusal response should finish");
    assert_eq!(
        response.items,
        [ModelAssistantItem::Refusal {
            content: "I cannot help with that.".to_owned()
        }]
    );

    let model = test_model(
        ApiKind::OpenAiResponses,
        "https://example.test/v1".to_owned(),
    );
    let request = ModelRequest {
        messages: vec![ModelMessage::Assistant {
            items: response.items,
        }],
        tools: Vec::new(),
        max_tokens: None,
        reasoning_effort: None,
        sampling_params: Vec::new(),
    };
    let (_, body) = request_for(&model, &request);
    assert_eq!(
        body["input"][0],
        json(r#"{ "role": "assistant", "content": [{"type": "refusal", "refusal": "I cannot help with that."}] }"#)
    );
}

#[test]
fn responses_failed_and_top_level_error_events_surface_provider_errors() {
    let failed = parse_payload(
        ApiKind::OpenAiResponses,
        r#"{"type":"response.failed","response":{"error":{"message":"model overloaded"}}}"#,
    )
    .expect_err("failed response should be an error");
    assert!(
        matches!(failed, ProviderError::Failed { message } if message == "model overloaded")
    );

    let top_level = parse_payload(
        ApiKind::OpenAiResponses,
        r#"{"type":"error","message":"stream interrupted"}"#,
    )
    .expect_err("top-level error event should be an error");
    assert!(
        matches!(top_level, ProviderError::Failed { message } if message == "stream interrupted")
    );
}

#[test]
fn responses_payload_emits_text_reasoning_and_tool_events() {
    let text = parse_payload(
        ApiKind::OpenAiResponses,
        r#"{"type":"response.output_text.delta","delta":"hello"}"#,
    )
    .expect("text event should parse");
    assert_eq!(
        text.events,
        [ModelEvent::AssistantTextDelta {
            index: None,
            text: "hello".to_owned()
        }]
    );

    let reasoning = parse_payload(
        ApiKind::OpenAiResponses,
        r#"{"type":"response.reasoning_summary_text.delta","delta":"thinking"}"#,
    )
    .expect("reasoning event should parse");
    assert_eq!(
        reasoning.events,
        [ModelEvent::AssistantThinkingDelta {
            item_id: None,
            text: "thinking".to_owned()
        }]
    );

    let tool = parse_payload(
        ApiKind::OpenAiResponses,
        r#"{"type":"response.function_call_arguments.delta","output_index":1,"item_id":"fc-2","delta":"{}"}"#,
    )
    .expect("tool event should parse");
    assert_eq!(
        tool.events,
        [ModelEvent::ToolCallDelta {
            index: 1,
            call_id: None,
            item_id: Some("fc-2".to_owned()),
            name: None,
            arguments: "{}".to_owned(),
            arguments_complete: false,
        }]
    );
}

#[test]
fn responses_reasoning_item_includes_empty_summary_and_opaque_state() {
    let value = responses_reasoning_item(&ModelThinking {
        item_id: Some("rs_test".to_owned()),
        summary: String::new(),
        content: String::new(),
        encrypted_content: Some("encrypted".to_owned()),
    });

    assert!(value.get("summary").is_some());
    assert_eq!(value["summary"], json(r#"[]"#));
    assert_eq!(
        value,
        json(r#"{ "type": "reasoning", "id": "rs_test", "summary": [], "encrypted_content": "encrypted" }"#)
    );
}

#[test]
fn responses_reasoning_item_preserves_non_empty_summary() {
    let value = responses_reasoning_item(&ModelThinking {
        summary: "Inspecting repository state".to_owned(),
        ..ModelThinking::default()
    });

    assert_eq!(
        value["summary"],
        json(r#"[{ "type": "summary_text", "text": "Inspecting repository state" }]"#)
    );
}

#[test]
fn responses_reasoning_item_preserves_content_with_empty_summary() {
    let value = responses_reasoning_item(&ModelThinking {
        content: "private reasoning".to_owned(),
        ..ModelThinking::default()
    });

    assert_eq!(
        value,
        json(r#"{ "type": "reasoning", "summary": [], "content": [{ "type": "reasoning_text", "text": "private reasoning" }] }"#)
    );
}

#[test]
fn responses_reasoning_item_default_still_includes_summary() {
    assert_eq!(
        responses_reasoning_item(&ModelThinking::default()),
        json(r#"{ "type": "reasoning", "summary": [] }"#)
    );
}

#[test]
fn responses_reasoning_replays_before_function_call_and_output() {
    let payloads = [
        r#"{"type":"response.output_item.added","output_index":0,"item":{"type":"reasoning","id":"rs_123","summary":[],"content":[],"encrypted_content":"enc_123"}}"#,
        r#"{"type":"response.reasoning_summary_text.delta","item_id":"rs_123","delta":"inspect the file"}"#,
        r#"{"type":"response.output_item.added","output_index":1,"item":{"type":"function_call","id":"fc_123","call_id":"call_123","name":"read","arguments":"{\"path\":\"src/main.rs\"}"}}"#,
        r#"{"type":"response.completed","response":{"status":"completed"}}"#,
    ];
    let mut collector = ResponseCollector::default();
    for payload in payloads {
        let parsed = parse_payload(ApiKind::OpenAiResponses, payload)
            .expect("Responses event should parse");
        ended(&mut collector, parsed.stop_reason, parsed.terminal);
        for event in parsed.events {
            collector.record(&event);
        }
    }

    let response = collector
        .finish()
        .expect("completed response should finish");
    assert!(matches!(
        response.items.first(),
        Some(ModelAssistantItem::Reasoning(ModelThinking {
            item_id: Some(item_id),
            summary,
            encrypted_content: Some(encrypted_content),
            ..
        })) if item_id == "rs_123"
            && summary == "inspect the file"
            && encrypted_content == "enc_123"
    ));

    let model = test_model(
        ApiKind::OpenAiResponses,
        "https://example.test/v1".to_owned(),
    );
    let request = ModelRequest {
        messages: vec![
            ModelMessage::user("inspect src/main.rs"),
            ModelMessage::Assistant {
                items: response.items,
            },
            ModelMessage::ToolResult {
                tool_call_id: "call_123".to_owned(),
                tool_name: "read".to_owned(),
                content: "file contents".to_owned(),
            },
        ],
        tools: Vec::new(),
        max_tokens: None,
        reasoning_effort: None,
        sampling_params: Vec::new(),
    };
    let (_, body) = request_for(&model, &request);

    assert_eq!(
        body["input"][1],
        json(r#"{ "type": "reasoning", "id": "rs_123", "summary": [{"type": "summary_text", "text": "inspect the file"}], "encrypted_content": "enc_123" }"#)
    );
    assert_eq!(body["input"][2]["type"], "function_call");
    assert_eq!(body["input"][2]["id"], "fc_123");
    assert_eq!(body["input"][2]["call_id"], "call_123");
    assert_eq!(
        body["input"][3],
        json(r#"{ "type": "function_call_output", "call_id": "call_123", "output": "file contents" }"#)
    );
}

#[test]
fn responses_replay_preserves_multiple_interleaved_reasoning_and_tool_items() {
    let payloads = [
        r#"{"type":"response.output_item.added","output_index":0,"item":{"type":"reasoning","id":"rs_1","summary":[{"type":"summary_text","text":"reasoning A"}]}}"#,
        r#"{"type":"response.output_item.added","output_index":1,"item":{"type":"function_call","id":"fc_1","call_id":"call_1","name":"read","arguments":"{\"path\":\"a\"}"}}"#,
        r#"{"type":"response.output_item.added","output_index":2,"item":{"type":"reasoning","id":"rs_2","summary":[{"type":"summary_text","text":"reasoning B"}]}}"#,
        r#"{"type":"response.output_item.added","output_index":3,"item":{"type":"function_call","id":"fc_2","call_id":"call_2","name":"read","arguments":"{\"path\":\"b\"}"}}"#,
        r#"{"type":"response.completed","response":{"status":"completed"}}"#,
    ];
    let mut collector = ResponseCollector::default();
    for payload in payloads {
        let parsed = parse_payload(ApiKind::OpenAiResponses, payload)
            .expect("Responses event should parse");
        ended(&mut collector, parsed.stop_reason, parsed.terminal);
        for event in parsed.events {
            collector.record(&event);
        }
    }
    let response = collector
        .finish()
        .expect("completed response should finish");

    assert!(matches!(
        response.items.as_slice(),
        [
            ModelAssistantItem::Reasoning(ModelThinking { item_id: Some(first), .. }),
            ModelAssistantItem::ToolCall(ModelToolCall { item_id: Some(first_item), call_id: Some(first_call), .. }),
            ModelAssistantItem::Reasoning(ModelThinking { item_id: Some(second), .. }),
            ModelAssistantItem::ToolCall(ModelToolCall { item_id: Some(second_item), call_id: Some(second_call), .. }),
        ] if first == "rs_1"
            && first_item == "fc_1"
            && first_call == "call_1"
            && second == "rs_2"
            && second_item == "fc_2"
            && second_call == "call_2"
    ));

    let model = test_model(
        ApiKind::OpenAiResponses,
        "https://example.test/v1".to_owned(),
    );
    let request = ModelRequest {
        messages: vec![
            ModelMessage::Assistant {
                items: response.items,
            },
            ModelMessage::ToolResult {
                tool_call_id: "call_1".to_owned(),
                tool_name: "read".to_owned(),
                content: "result A".to_owned(),
            },
            ModelMessage::ToolResult {
                tool_call_id: "call_2".to_owned(),
                tool_name: "read".to_owned(),
                content: "result B".to_owned(),
            },
        ],
        tools: Vec::new(),
        max_tokens: None,
        reasoning_effort: None,
        sampling_params: Vec::new(),
    };
    let (_, body) = request_for(&model, &request);
    assert_eq!(body["input"][0]["id"], "rs_1");
    assert_eq!(body["input"][1]["id"], "fc_1");
    assert_eq!(body["input"][2]["id"], "rs_2");
    assert_eq!(body["input"][3]["id"], "fc_2");
    assert_eq!(
        body["input"][4],
        json(r#"{ "type": "function_call_output", "call_id": "call_1", "output": "result A" }"#)
    );
    assert_eq!(
        body["input"][5],
        json(r#"{ "type": "function_call_output", "call_id": "call_2", "output": "result B" }"#)
    );
}

#[test]
fn responses_function_calls_preserve_ids_and_override_completed_status() {
    let payloads = [
        r#"{"type":"response.output_item.added","output_index":0,"item":{"type":"function_call","id":"fc_123","call_id":"call_123","name":"read","arguments":""}}"#,
        r#"{"type":"response.function_call_arguments.delta","output_index":0,"item_id":"fc_123","delta":"{\"path\":\""}"#,
        r#"{"type":"response.function_call_arguments.delta","output_index":0,"item_id":"fc_123","delta":"src/main.rs\"}"}"#,
        r#"{"type":"response.function_call_arguments.done","output_index":0,"item_id":"fc_123","arguments":"{\"path\":\"src/main.rs\"}"}"#,
        r#"{"type":"response.completed","response":{"status":"completed"}}"#,
    ];
    let mut collector = ResponseCollector::default();
    for payload in payloads {
        let parsed = parse_payload(ApiKind::OpenAiResponses, payload)
            .expect("Responses event should parse");
        ended(&mut collector, parsed.stop_reason, parsed.terminal);
        for event in parsed.events {
            collector.record(&event);
        }
    }

    let response = collector
        .finish()
        .expect("completed response should finish");
    assert_eq!(response.stop_reason, StopReason::ToolCalls);
    assert!(matches!(
        response.items.as_slice(),
        [ModelAssistantItem::ToolCall(ModelToolCall {
            call_id: Some(call_id),
            item_id: Some(item_id),
            arguments,
            ..
        })] if call_id == "call_123"
            && item_id == "fc_123"
            && arguments == "{\"path\":\"src/main.rs\"}"
    ));
}

#[test]
fn sampling_params_are_included_in_generated_request() {
    let mut model = test_model(
        ApiKind::OpenAiResponses,
        "https://example.test/v1".to_owned(),
    );
    model.sampling_params.push(parameter("temperature", "0.7"));
    model.sampling_params.push(parameter("top_p", "0.9"));
    let (_, body) =
        request_for(&model, &ModelRequest::single_user("hello"));

    assert_eq!(body["temperature"], 0.7);
    assert_eq!(body["top_p"], 0.9);
}

#[test]
fn replays_assistant_tool_call_and_result_for_completions() {
    let model = test_model(
        ApiKind::OpenAiCompletions,
        "https://example.test/v1".to_owned(),
    );
    let request = ModelRequest {
        messages: vec![
            ModelMessage::user("inspect src/main.rs"),
            ModelMessage::Assistant {
                items: vec![ModelAssistantItem::ToolCall(ModelToolCall {
                    index: 0,
                    call_id: Some("call_123".to_owned()),
                    item_id: None,
                    name: Some("read".to_owned()),
                    arguments: r#"{"path":"src/main.rs"}"#.to_owned(),
                })],
            },
            ModelMessage::ToolResult {
                tool_call_id: "call_123".to_owned(),
                tool_name: "read".to_owned(),
                content: "file contents".to_owned(),
            },
        ],
        tools: Vec::new(),
        max_tokens: None,
        reasoning_effort: None,
        sampling_params: Vec::new(),
    };
    let (_, body) = request_for(&model, &request);

    assert_eq!(
        body["messages"][0],
        json(r#"{ "role": "user", "content": "inspect src/main.rs" }"#)
    );
    assert_eq!(body["messages"][1]["content"], Value::Null);
    assert_eq!(
        body["messages"][1]["tool_calls"][0],
        json(r#"{ "id": "call_123", "type": "function", "function": { "name": "read", "arguments": "{\"path\":\"src/main.rs\"}" } }"#)
    );
    assert_eq!(
        body["messages"][2],
        json(r#"{ "role": "tool", "tool_call_id": "call_123", "content": "file contents" }"#)
    );

    let plain_request = ModelRequest {
        messages: vec![ModelMessage::Assistant {
            items: vec![ModelAssistantItem::Text {
                content: "continuing".to_owned(),
            }],
        }],
        tools: Vec::new(),
        max_tokens: None,
        reasoning_effort: None,
        sampling_params: Vec::new(),
    };
    let (_, plain_body) = request_for(&model, &plain_request);
    assert_eq!(
        plain_body["messages"][0],
        json(r#"{ "role": "assistant", "content": "continuing" }"#)
    );
    assert!(plain_body["messages"][0].get("tool_calls").is_none());
}

#[test]
fn replays_responses_function_call_and_output_with_distinct_ids() {
    let model = test_model(
        ApiKind::OpenAiResponses,
        "https://example.test/v1".to_owned(),
    );
    let request = ModelRequest {
        messages: vec![
            ModelMessage::user("inspect src/main.rs"),
            ModelMessage::Assistant {
                items: vec![ModelAssistantItem::ToolCall(ModelToolCall {
                    index: 0,
                    call_id: Some("call_123".to_owned()),
                    item_id: Some("fc_123".to_owned()),
                    name: Some("read".to_owned()),
                    arguments: r#"{"path":"src/main.rs"}"#.to_owned(),
                })],
            },
            ModelMessage::ToolResult {
                tool_call_id: "call_123".to_owned(),
                tool_name: "read".to_owned(),
                content: "file contents".to_owned(),
            },
        ],
        tools: Vec::new(),
        max_tokens: None,
        reasoning_effort: None,
        sampling_params: Vec::new(),
    };
    let (_, body) = request_for(&model, &request);

    assert_eq!(
        body["input"][0],
        json(r#"{ "role": "user", "content": "inspect src/main.rs" }"#)
    );
    assert_eq!(
        body["input"][1],
        json(r#"{ "type": "function_call", "id": "fc_123", "call_id": "call_123", "name": "read", "arguments": "{\"path\":\"src/main.rs\"}" }"#)
    );
    assert_eq!(
        body["input"][2],
        json(r#"{ "type": "function_call_output", "call_id": "call_123", "output": "file contents" }"#)
    );
    assert_ne!(body["input"][1]["id"], body["input"][1]["call_id"]);
}

#[test]
fn requests_use_selected_api_endpoint_and_compatibility() {
    let model = ResolvedModel {
        model_ref: ModelRef::new("p", "m"),
        name: "m".to_owned(),
        base_url: "https://example.test/v1".to_owned(),
        api: ApiKind::OpenAiCompletions,
        api_key: None,
        headers: Vec::new(),
        auth_header: true,
        compatibility: Compatibility {
            supports_developer_role: false,
            ..Compatibility::default()
        },
        reasoning: false,
        thinking_level_map: Vec::new(),
        input: vec!["text".to_owned()],
        context_window: None,
        max_tokens: Some(123),
        cost: CostMetadata::default(),
        sampling_params: Vec::new(),
    };
    let (endpoint, body) = request_for(
        &model,
        &ModelRequest {
            messages: vec![ModelMessage::Developer {
                content: "instructions".to_owned(),
            }],
            tools: Vec::new(),
            max_tokens: None,
            reasoning_effort: None,
            sampling_params: Vec::new(),
        },
    );
    assert_eq!(endpoint, "https://example.test/v1/chat/completions");
    assert_eq!(body["messages"][0]["role"], "system");
    assert_eq!(body["max_tokens"], 123);
}

#[test]
fn provider_limits_follow_the_currently_selected_model() {
    let mut first = test_model(ApiKind::OpenAiResponses, "https://example.test".to_owned());
    first.context_window = Some(200_000);
    first.max_tokens = Some(32_000);
    let mut second = first.clone();
    second.context_window = Some(32_000);
    second.max_tokens = None;
    let mut provider = OpenAiProvider::new(first);

    assert_eq!(
        provider.limits(),
        ModelLimits {
            context_window: Some(200_000),
            max_output_tokens: Some(32_000),
        }
    );
    provider.set_model(second);
    assert_eq!(
        provider.limits(),
        ModelLimits {
            context_window: Some(32_000),
            max_output_tokens: None,
        }
    );
}

#[test]
fn reasoning_effort_uses_api_shape_native_mapping_and_omits_off() {
    let mut raw = raw_model("m");
    raw.reasoning = true;
    raw.thinking_level_map = vec![LevelEffort {
        level: "max".to_owned(),
        effort: "max".to_owned(),
    }];
    let file = models_file(
        "p",
        raw_provider("https://example.test/v1", "openai-responses", vec![raw]),
    );
    let catalog = ModelCatalog::from_raw("models.json", &file, &no_variables()).unwrap();
    let responses_model = catalog.resolve(None, None).unwrap();
    let mut request = ModelRequest::single_user("hello");
    request.reasoning_effort = responses_model.thinking_effort(ThinkingLevel::Max);

    let (_, responses) = request_for(&responses_model, &request);
    assert_eq!(responses["reasoning"], json(r#"{"effort": "max"}"#));
    assert!(responses.get("reasoning_effort").is_none());

    let mut completions_model = responses_model.clone();
    completions_model.api = ApiKind::OpenAiCompletions;
    let (_, completions) = request_for(&completions_model, &request);
    assert_eq!(completions["reasoning_effort"], "max");
    assert!(completions.get("reasoning").is_none());

    request.reasoning_effort = responses_model.thinking_effort(ThinkingLevel::Off);
    let (_, responses_off) = request_for(&responses_model, &request);
    let (_, completions_off) = request_for(&completions_model, &request);
    assert!(responses_off.get("reasoning").is_none());
    assert!(completions_off.get("reasoning_effort").is_none());
}

#[test]
fn provider_error_diagnostics_redact_credentials_and_prompt_fields() {
    let mut model = test_model(ApiKind::OpenAiResponses, "https://example.test".to_owned());
    model.headers.push(Header {
        name: "X-Custom-Secret".to_owned(),
        value: "header-secret".to_owned(),
    });
    let message = r#"{"error":{"message":"bad request for test-key and header-secret","api_key":"test-key"},"prompt":"private prompt"}"#;
    let error_body = ProviderErrorBody {
        content: message.to_owned(),
        truncated: false,
    };
    let request = ModelRequest::single_user("unrelated request");

    let diagnostic = provider_error_diagnostic(&error_body, &model, &request);

    assert!(diagnostic.contains("bad request"));
    assert!(!diagnostic.contains("test-key"));
    assert!(!diagnostic.contains("header-secret"));
    assert!(!diagnostic.contains("private prompt"));
    assert!(diagnostic.contains("<redacted>"));
}

#[test]
fn provider_error_diagnostics_are_bounded_with_an_explicit_marker() {
    let model = test_model(ApiKind::OpenAiResponses, "https://example.test".to_owned());
    let message = format!(r#"{{"error":{{"message":"{}"}}}}"#, "x".repeat(8_000));
    let error_body = ProviderErrorBody {
        content: message.clone(),
        truncated: false,
    };
    let request = ModelRequest::single_user("unrelated request");

    let diagnostic = provider_error_diagnostic(&error_body, &model, &request);

    assert!(diagnostic.len() <= MAX_ERROR_LOG_BYTES);
    assert!(diagnostic.contains("diagnostic truncated"));
    assert!(diagnostic.contains(&format!("response {} bytes", message.len())));
}

#[test]
fn provider_error_diagnostics_redact_request_content_in_json_and_plain_text() {
    let model = test_model(ApiKind::OpenAiResponses, "https://example.test".to_owned());
    let user_prompt = "full private user prompt";
    let tool_output = "full private tool output";
    let request = ModelRequest {
        messages: vec![
            ModelMessage::user(user_prompt),
            ModelMessage::ToolResult {
                tool_call_id: "call-1".to_owned(),
                tool_name: "read".to_owned(),
                content: tool_output.to_owned(),
            },
        ],
        tools: Vec::new(),
        max_tokens: None,
        reasoning_effort: None,
        sampling_params: Vec::new(),
    };
    for content in [
        format!(
            r#"{{"error":{{"message":"invalid prompt: {user_prompt}; output: {tool_output}"}}}}"#
        ),
        format!("invalid prompt: {user_prompt}; output: {tool_output}"),
    ] {
        let error_body = ProviderErrorBody {
            content,
            truncated: false,
        };
        let diagnostic = provider_error_diagnostic(&error_body, &model, &request);
        assert!(!diagnostic.contains(user_prompt));
        assert!(!diagnostic.contains(tool_output));
        assert!(diagnostic.contains(REDACTED_DIAGNOSTIC_CONTENT));
    }
}

#[test]
fn truncated_provider_error_keeps_metadata_outside_sanitized_json() {
    let model = test_model(ApiKind::OpenAiResponses, "https://example.test".to_owned());
    let error_body = ProviderErrorBody {
        content: r#"{"error":{"message":"bad request"},"prompt":"private prompt"}"#.to_owned(),
        truncated: true,
    };
    let request = ModelRequest::single_user("unrelated request");

    let diagnostic = provider_error_diagnostic(&error_body, &model, &request);

    assert!(diagnostic.contains("bad request"));
    assert!(!diagnostic.contains("private prompt"));
    assert!(error_body
        .user_message()
        .ends_with(ERROR_RESPONSE_TRUNCATED_MARKER));
}
