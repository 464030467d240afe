use ri_core::context::accounting::estimate_each_tool;
use ri_core::context::{
    automatic_compaction_threshold, clamp_request_output_tokens, compaction_target,
    request_input_budget, ContextUsage,
};
use ri_core::conversation::{COMPACTION_SUMMARY_END, COMPACTION_SUMMARY_START};
use ri_core::{
    segment_history, CompactionSummary, ConservativeTokenEstimator, ConversationHistory, JsonValue,
    ModelAssistantItem, ModelLimits, ModelMessage, ModelRequest, ModelToolCall, TokenEstimator,
    ToolDefinition, UsageSource,
};

fn call(id: &str) -> ModelToolCall {
    ModelToolCall {
        index: 0,
        call_id: Some(id.to_owned()),
        item_id: None,
        name: Some("read".to_owned()),
        arguments: "{}".to_owned(),
    }
}

fn result(id: &str) -> ModelMessage {
    ModelMessage::ToolResult {
        tool_call_id: id.to_owned(),
        tool_name: "read".to_owned(),
        content: "done".to_owned(),
    }
}

fn said(text: &str) -> ModelMessage {
    ModelMessage::Assistant {
        items: vec![ModelAssistantItem::Text {
            content: text.to_owned(),
        }],
    }
}

fn calling(ids: &[&str]) -> ModelMessage {
    ModelMessage::Assistant {
        items: ids
            .iter()
            .map(|id| ModelAssistantItem::ToolCall(call(id)))
            .collect(),
    }
}

#[test]
fn summary_projects_as_developer_context_and_round_trips() {
    let history = ConversationHistory::new(
        Some(CompactionSummary::new("remember alpha")),
        vec![ModelMessage::user("continue")],
    );
    let projected = history.provider_messages();
    assert!(matches!(
        &projected[0],
        ModelMessage::Developer { content } if content.contains("remember alpha")
    ));
    assert_eq!(
        ConversationHistory::from_provider_messages(projected),
        history
    );
}

#[test]
fn segmentation_keeps_tool_calls_and_results_together() {
    let history = vec![
        ModelMessage::user("first"),
        calling(&["call-a"]),
        result("call-a"),
        said("finished"),
        ModelMessage::user("second"),
    ];
    let segments = segment_history(&history);
    assert_eq!(segments.len(), 2);
    assert!(segments[0].safe_to_compact);
    assert_eq!(segments[0].messages.len(), 4);
}

#[test]
fn unresolved_tool_batch_is_not_safe_to_compact() {
    let history = vec![calling(&["call-a"])];
    assert!(!segment_history(&history)[0].safe_to_compact);
}

#[test]
fn segments_hold_every_message_in_order() {
    let history = vec![
        said("before any request"),
        ModelMessage::user("first"),
        calling(&["a", "b"]),
        result("b"),
        result("a"),
        calling(&["c"]),
        ModelMessage::user("second"),
        calling(&["d"]),
        result("d"),
    ];
    let segments = segment_history(&history);
    let joined: Vec<ModelMessage> = segments
        .iter()
        .flat_map(|segment| segment.messages.clone())
        .collect();
    assert_eq!(joined, history);
    assert!(segments.iter().all(|segment| !segment.messages.is_empty()));
}

#[test]
fn a_history_can_be_changed() {
    let mut history = ConversationHistory::new(None, Vec::new());
    history.push(ModelMessage::user("one"));
    assert_eq!(history.messages().len(), 1);
    history.replace(CompactionSummary::new("so far"), vec![said("two")]);
    assert_eq!(history.summary(), Some(&CompactionSummary::new("so far")));
    assert_eq!(history.messages(), [said("two")]);
    history.clear();
    assert!(history.summary().is_none());
    assert!(history.into_messages().is_empty());
    assert_eq!(
        CompactionSummary::new("x").as_prompt_content(),
        format!("{COMPACTION_SUMMARY_START}x{COMPACTION_SUMMARY_END}")
    );
}

#[test]
fn estimates_are_deterministic_and_grow_with_content() {
    let estimator = ConservativeTokenEstimator;
    let small = estimator.estimate_messages(&[ModelMessage::user("a")]);
    let large = estimator.estimate_messages(&[ModelMessage::user(&"a".repeat(100))]);
    assert_eq!(
        small,
        estimator.estimate_messages(&[ModelMessage::user("a")])
    );
    assert!(large > small);
}

#[test]
fn counts_tool_definitions_arguments_results_and_unicode() {
    let estimator = ConservativeTokenEstimator;
    let tools = vec![ToolDefinition {
        name: "read".to_owned(),
        description: Some("read a file".to_owned()),
        parameters: JsonValue::parse(r#"{"path": {"type": "string"}}"#).unwrap(),
    }];
    let base = estimator.estimate_tools(&tools);
    let call = ModelAssistantItem::ToolCall(ModelToolCall {
        index: 0,
        call_id: Some("call-1".to_owned()),
        item_id: Some("item-1".to_owned()),
        name: Some("read".to_owned()),
        arguments: r#"{"path":"世界.txt"}"#.to_owned(),
    });
    let messages = vec![
        ModelMessage::Assistant { items: vec![call] },
        ModelMessage::ToolResult {
            tool_call_id: "call-1".to_owned(),
            tool_name: "read".to_owned(),
            content: "世界".to_owned(),
        },
    ];
    assert!(base > 0);
    assert!(estimator.estimate_messages(&messages) > 0);
    assert!(estimator.estimate_messages(&[ModelMessage::user("世界")]) > 0);
}

#[test]
fn a_request_is_estimated_by_its_messages_and_its_tools() {
    let estimator = ConservativeTokenEstimator;
    let mut request = ModelRequest::single_user("hello");
    let messages = estimator.estimate_messages(&request.messages);
    assert_eq!(estimator.estimate_request(&request), messages);
    request.tools.push(ToolDefinition {
        name: "read".to_owned(),
        description: None,
        parameters: JsonValue::parse("{}").unwrap(),
    });
    assert_eq!(
        estimator.estimate_request(&request),
        messages + estimator.estimate_tools(&request.tools)
    );
}

#[test]
fn automatic_compaction_threshold_uses_configured_reserve_not_model_max_output() {
    for max_output_tokens in [None, Some(8_192), Some(64_000)] {
        let limits = ModelLimits {
            context_window: Some(128_000),
            max_output_tokens,
        };
        assert_eq!(
            automatic_compaction_threshold(limits, 16_384),
            Some(111_616)
        );
        for (reserve, expected) in [(0, 128_000), (128_000, 0), (u64::MAX, 0)] {
            assert_eq!(
                automatic_compaction_threshold(limits, reserve),
                Some(expected)
            );
        }
    }
    assert_eq!(
        automatic_compaction_threshold(ModelLimits::default(), 0),
        None
    );
    assert_eq!(
        automatic_compaction_threshold(
            ModelLimits {
                context_window: Some(0),
                max_output_tokens: None
            },
            16_384
        ),
        Some(0)
    );
}

#[test]
fn request_output_clamp_uses_remaining_context() {
    let limits = ModelLimits {
        context_window: Some(128_000),
        max_output_tokens: Some(64_000),
    };
    for (input, output) in [
        (40_000, 64_000),
        (60_000, 63_904),
        (100_000, 23_904),
        (u64::MAX, 0),
    ] {
        assert_eq!(clamp_request_output_tokens(limits, input), Some(output));
    }
    assert_eq!(
        clamp_request_output_tokens(
            ModelLimits {
                context_window: None,
                ..limits
            },
            0
        ),
        None
    );
    assert_eq!(
        clamp_request_output_tokens(
            ModelLimits {
                max_output_tokens: None,
                ..limits
            },
            0
        ),
        None
    );
    assert_eq!(request_input_budget(Some(128_000), 4_096), Some(119_808));
    assert_eq!(request_input_budget(Some(0), u64::MAX), Some(0));
    assert_eq!(request_input_budget(None, 4_096), None);
}

#[test]
fn compaction_aims_at_half_of_the_budget() {
    assert_eq!(compaction_target(100_000), 50_000);
    assert_eq!(compaction_target(3), 1);
    assert_eq!(compaction_target(0), 0);
}

#[test]
fn usage_counts_what_the_provider_says_before_the_estimate() {
    let limits = ModelLimits {
        context_window: Some(1_000),
        max_output_tokens: None,
    };
    let mut usage = ContextUsage::estimated(7, limits);
    assert_eq!(usage.source, UsageSource::Estimated);
    assert_eq!(usage.current_tokens(), 7);
    usage.input_tokens = Some(9);
    assert_eq!(usage.current_tokens(), 9);
}

#[test]
fn tools_are_estimated_one_by_one() {
    let mut request = ModelRequest::single_user("hello");
    request.tools.push(ToolDefinition {
        name: "read".to_owned(),
        description: None,
        parameters: JsonValue::parse("{}").unwrap(),
    });
    assert_eq!(
        ConservativeTokenEstimator::default().estimate_tools(&request.tools),
        estimate_each_tool(&request.tools)
    );
    assert_eq!(estimate_each_tool(&request.tools), 10);
    let segment = &segment_history(&request.messages)[0];
    assert_eq!(&segment.clone(), segment);
}
