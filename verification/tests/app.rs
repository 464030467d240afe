use ri_core::app::output::{MAX_TOOL_TRANSCRIPT_OUTPUT_BYTES, TOOL_OUTPUT_MARKER};
use ri_core::{
    AgentError, AgentEvent, AppState, ContextUsage, MessageRole, ModelAssistantItem, ModelLimits,
    ModelMessage, ModelRef, ModelThinking, ModelToolCall, StopReason, ToolExecutionMetadata,
    ToolExecutionResult, ToolOutputStream, ToolStatus, TranscriptEntry, Usage, UsageSource,
    UserMessageStatus, MAX_TOOL_PREVIEW_BYTES,
};

#[test]
fn assistant_boundaries_finalize_messages_inside_one_turn() {
    let mut state = AppState::new();
    state.insert_text("inspect this");
    assert_eq!(state.submit_input().as_deref(), Some("inspect this"));

    state.reduce(AgentEvent::TurnStarted);
    state.reduce(AgentEvent::AssistantMessageStarted);
    state.reduce(AgentEvent::AssistantTextDelta {
        index: None,
        text: "hello ".to_owned(),
    });
    state.reduce(AgentEvent::AssistantTextDelta {
        index: None,
        text: "world".to_owned(),
    });
    state.reduce(AgentEvent::AssistantMessageFinished {
        items: vec![ModelAssistantItem::Text {
            content: "hello world".to_owned(),
        }],
    });
    state.reduce(AgentEvent::ToolExecutionStarted {
        call_id: "call-1".to_owned(),
        name: "read".to_owned(),
        arguments: "{\"path\":\"src/main.rs\"}".to_owned(),
    });
    assert!(state.is_turn_active());
    assert_eq!(state.messages().len(), 2);
    assert!(matches!(
        state.transcript_entries()[2].entry,
        TranscriptEntry::Tool(_)
    ));
    state.reduce(AgentEvent::AssistantMessageStarted);
    state.reduce(AgentEvent::AssistantTextDelta {
        index: None,
        text: "done".to_owned(),
    });
    state.reduce(AgentEvent::AssistantMessageFinished { items: vec![] });
    state.reduce(AgentEvent::TurnFinished {
        reason: StopReason::Stop,
    });

    assert!(!state.is_turn_active());
    assert_eq!(state.messages().len(), 3);
    assert_eq!(state.messages().get(1).content, "hello world");
    assert_eq!(state.messages().get(2).content, "done");
    assert!(state.streaming_assistant().is_none());
}

#[test]
fn cancellation_does_not_make_turn_finished_an_assistant_boundary() {
    let mut state = AppState::new();
    state.insert_text("cancel me");
    state.submit_input();
    state.reduce(AgentEvent::TurnStarted);
    state.reduce(AgentEvent::AssistantMessageStarted);
    state.reduce(AgentEvent::AssistantTextDelta {
        index: None,
        text: "partial".to_owned(),
    });
    state.reduce(AgentEvent::TurnFinished {
        reason: StopReason::Cancelled,
    });

    assert!(!state.is_turn_active());
    assert_eq!(state.messages().len(), 1);
    assert_eq!(state.streaming_assistant(), Some(("partial", "")));
    assert_eq!(state.last_stop_reason(), Some(&StopReason::Cancelled));
}

#[test]
fn finished_tool_result_reconciles_the_live_transcript() {
    let mut state = AppState::new();
    state.reduce(AgentEvent::ToolExecutionStarted {
        call_id: "call-1".to_owned(),
        name: "bash".to_owned(),
        arguments: "{}".to_owned(),
    });
    state.reduce(AgentEvent::ToolExecutionOutput {
        call_id: "call-1".to_owned(),
        stream: ToolOutputStream::Stdout,
        chunk: "partial live output".to_owned(),
    });
    state.reduce(AgentEvent::ToolExecutionFinished {
        call_id: "call-1".to_owned(),
        name: "bash".to_owned(),
        result: ToolExecutionResultForTest::result_with_content("authoritative result"),
    });

    let TranscriptEntry::Tool(tool) = &state.transcript_entries()[0].entry else {
        panic!("expected tool entry");
    };
    assert_eq!(tool.output, "authoritative result");
    assert!(matches!(tool.status, ToolStatus::Finished(_)));
}

#[test]
fn live_tool_output_preserves_bounded_stream_order_after_completion() {
    let mut state = AppState::new();
    state.reduce(AgentEvent::ToolExecutionStarted {
        call_id: "call-1".to_owned(),
        name: "bash".to_owned(),
        arguments: r#"{"command":"test"}"#.to_owned(),
    });
    for (stream, chunk) in [
        (ToolOutputStream::Stdout, "out 1\n"),
        (ToolOutputStream::Stderr, "err\n"),
        (ToolOutputStream::Stdout, "out 2\n"),
    ] {
        state.reduce(AgentEvent::ToolExecutionOutput {
            call_id: "call-1".to_owned(),
            stream,
            chunk: chunk.to_owned(),
        });
    }
    state.reduce(AgentEvent::ToolExecutionFinished {
        call_id: "call-1".to_owned(),
        name: "bash".to_owned(),
        result: ToolExecutionResultForTest::result_with_content("authoritative result"),
    });

    let TranscriptEntry::Tool(tool) = &state.transcript_entries()[0].entry else {
        panic!("expected tool entry");
    };
    assert_eq!(
        tool.output_chunks
            .iter()
            .map(|chunk| (chunk.stream, chunk.text.as_str()))
            .collect::<Vec<_>>(),
        [
            (Some(ToolOutputStream::Stdout), "out 1\n"),
            (Some(ToolOutputStream::Stderr), "err\n"),
            (Some(ToolOutputStream::Stdout), "out 2\n"),
        ]
    );
    assert!(
        tool.output_chunks
            .iter()
            .map(|chunk| chunk.text.len())
            .sum::<usize>()
            <= MAX_TOOL_TRANSCRIPT_OUTPUT_BYTES
    );
}

#[test]
fn write_and_edit_previews_survive_tool_completion() {
    let cases = [
        (
            "write",
            r#"{"path":"src/foo.rs","content":"one\ntwo\nthree\n"}"#,
            "write src/foo.rs",
            "one\ntwo\nthree",
        ),
        (
            "edit",
            r#"{"path":"src/foo.rs","old_text":"let a = 1;","new_text":"let a = 2;"}"#,
            "edit src/foo.rs",
            "-let a = 1;\n+let a = 2;",
        ),
    ];

    for (name, arguments, summary, preview) in cases {
        let mut state = AppState::new();
        state.reduce(AgentEvent::ToolExecutionStarted {
            call_id: name.to_owned(),
            name: name.to_owned(),
            arguments: arguments.to_owned(),
        });
        state.reduce(AgentEvent::ToolExecutionFinished {
            call_id: name.to_owned(),
            name: name.to_owned(),
            result: ToolExecutionResultForTest::result_with_content("completed result"),
        });

        let TranscriptEntry::Tool(tool) = &state.transcript_entries()[0].entry else {
            panic!("expected tool entry");
        };
        assert_eq!(tool.summary, summary);
        assert_eq!(
            tool.preview
                .iter()
                .map(|line| line.text.as_str())
                .collect::<Vec<_>>()
                .join("\n"),
            preview
        );
        assert_eq!(tool.output, "completed result");
        assert!(matches!(tool.status, ToolStatus::Finished(_)));
    }
}

#[test]
fn failed_edit_preserves_proposed_change_and_error() {
    let mut state = AppState::new();
    state.reduce(AgentEvent::ToolExecutionStarted {
        call_id: "edit-1".to_owned(),
        name: "edit".to_owned(),
        arguments: r#"{"path":"src/foo.rs","old_text":"old","new_text":"new"}"#.to_owned(),
    });
    state.reduce(AgentEvent::ToolExecutionFinished {
        call_id: "edit-1".to_owned(),
        name: "edit".to_owned(),
        result: ToolExecutionResult::failure(
            "old_text matched 3 locations; provide more surrounding context",
        ),
    });

    let TranscriptEntry::Tool(tool) = &state.transcript_entries()[0].entry else {
        panic!("expected tool entry");
    };
    assert_eq!(
        tool.preview
            .iter()
            .map(|line| line.text.as_str())
            .collect::<Vec<_>>()
            .join("\n"),
        "-old\n+new"
    );
    assert!(tool.output.contains("matched 3 locations"));
    assert!(matches!(
        tool.status,
        ToolStatus::Finished(ref metadata) if !metadata.success
    ));
}

#[test]
fn malformed_tool_arguments_have_a_strictly_bounded_fallback_preview() {
    let mut state = AppState::new();
    state.reduce(AgentEvent::ToolExecutionStarted {
        call_id: "malformed".to_owned(),
        name: "write".to_owned(),
        arguments: "x".repeat(MAX_TOOL_PREVIEW_BYTES * 2),
    });

    let TranscriptEntry::Tool(tool) = &state.transcript_entries()[0].entry else {
        panic!("expected tool entry");
    };
    let preview = tool
        .preview
        .iter()
        .map(|line| line.text.as_str())
        .collect::<Vec<_>>()
        .join("\n");
    assert_eq!(tool.summary, "write");
    assert!(preview.contains("[… text truncated …]"));
    assert!(preview.len() <= MAX_TOOL_PREVIEW_BYTES);
}

#[test]
fn tool_output_is_bounded_and_finishes_with_metadata() {
    let mut state = AppState::new();
    state.reduce(AgentEvent::ToolExecutionStarted {
        call_id: "call-1".to_owned(),
        name: "bash".to_owned(),
        arguments: "{}".to_owned(),
    });
    state.reduce(AgentEvent::ToolExecutionOutput {
        call_id: "call-1".to_owned(),
        stream: ToolOutputStream::Stdout,
        chunk: "x".repeat(MAX_TOOL_TRANSCRIPT_OUTPUT_BYTES + 1),
    });
    state.reduce(AgentEvent::ToolExecutionFinished {
        call_id: "call-1".to_owned(),
        name: "bash".to_owned(),
        result: ToolExecutionResultForTest::result(),
    });

    let TranscriptEntry::Tool(tool) = &state.transcript_entries()[0].entry else {
        panic!("expected tool entry");
    };
    assert!(tool.output_truncated);
    assert!(matches!(tool.status, ToolStatus::Finished(_)));
    assert!(tool.output.len() <= MAX_TOOL_TRANSCRIPT_OUTPUT_BYTES + TOOL_OUTPUT_MARKER.len());
    assert!(
        tool.output_chunks
            .iter()
            .map(|chunk| chunk.text.len())
            .sum::<usize>()
            <= MAX_TOOL_TRANSCRIPT_OUTPUT_BYTES
    );
    assert!(tool
        .output_chunks
        .iter()
        .any(|chunk| chunk.text == TOOL_OUTPUT_MARKER));
}

struct ToolExecutionResultForTest;

impl ToolExecutionResultForTest {
    fn result() -> ToolExecutionResult {
        Self::result_with_content("done")
    }

    fn result_with_content(content: &str) -> ToolExecutionResult {
        ToolExecutionResult {
            model_content: content.to_owned(),
            metadata: ToolExecutionMetadata::success(),
        }
    }
}

#[test]
fn semantic_history_rebuilds_messages_and_historical_tools() {
    let call = ModelToolCall {
        index: 0,
        call_id: Some("call-1".to_owned()),
        item_id: Some("item-1".to_owned()),
        name: Some("read".to_owned()),
        arguments: r#"{"path":"note.txt"}"#.to_owned(),
    };
    let history = vec![
        ModelMessage::user("inspect note"),
        ModelMessage::Assistant {
            items: vec![
                ModelAssistantItem::Reasoning(ModelThinking {
                    item_id: Some("reasoning-1".to_owned()),
                    summary: "summary".to_owned(),
                    content: "thinking".to_owned(),
                    encrypted_content: Some("encrypted".to_owned()),
                }),
                ModelAssistantItem::Text {
                    content: "I will inspect it.".to_owned(),
                },
                ModelAssistantItem::ToolCall(call),
            ],
        },
        ModelMessage::ToolResult {
            tool_call_id: "call-1".to_owned(),
            tool_name: "read".to_owned(),
            content: "1 | note".to_owned(),
        },
        ModelMessage::Assistant {
            items: vec![ModelAssistantItem::Text {
                content: "The note is present.".to_owned(),
            }],
        },
    ];
    let mut state = AppState::new();
    state.replace_history(&history);

    assert_eq!(state.messages().len(), 3);
    assert_eq!(state.messages().get(0).role, MessageRole::User);
    assert_eq!(state.messages().get(1).content, "I will inspect it.");
    assert_eq!(state.messages().get(1).thinking.as_deref(), Some("thinking"));
    assert_eq!(state.messages().get(2).content, "The note is present.");
    assert_eq!(state.transcript_entries().len(), 4);
    let TranscriptEntry::Tool(tool) = &state.transcript_entries()[2].entry else {
        panic!("expected historical tool entry");
    };
    assert_eq!(tool.call_id, "call-1");
    assert_eq!(tool.summary, "read note.txt");
    assert!(tool.preview.is_empty());
    assert_eq!(tool.output, "1 | note");
    assert!(matches!(tool.status, ToolStatus::Finished(_)));
}

#[test]
fn transcript_entries_have_stable_ids_and_targeted_revisions() {
    let mut state = AppState::new();
    state.add_system_message("static");
    let static_id = state.transcript_entries()[0].id;
    let static_revision = state.transcript_entries()[0].revision;

    state.reduce(AgentEvent::ToolExecutionStarted {
        call_id: "call-1".to_owned(),
        name: "bash".to_owned(),
        arguments: "{}".to_owned(),
    });
    let tool_id = state.transcript_entries()[1].id;
    state.reduce(AgentEvent::ToolExecutionOutput {
        call_id: "call-1".to_owned(),
        stream: ToolOutputStream::Stdout,
        chunk: "one".to_owned(),
    });

    assert_ne!(static_id, tool_id);
    assert_eq!(state.transcript_entries()[0].id, static_id);
    assert_eq!(state.transcript_entries()[0].revision, static_revision);
    assert_eq!(state.transcript_entries()[1].id, tool_id);
    assert_eq!(state.transcript_entries()[1].revision, 1);
    state.reduce(AgentEvent::ToolExecutionOutput {
        call_id: "call-1".to_owned(),
        stream: ToolOutputStream::Stdout,
        chunk: String::new(),
    });
    assert_eq!(state.transcript_entries()[1].revision, 1);

    state.acknowledge_transcript_changes();
    state.reduce(AgentEvent::AssistantMessageStarted);
    state.reduce(AgentEvent::AssistantTextDelta {
        index: None,
        text: "stream".to_owned(),
    });
    state.reduce(AgentEvent::AssistantTextDelta {
        index: None,
        text: " more".to_owned(),
    });
    assert_eq!(state.pending_transcript_changes().len(), 1);
    let streaming = state
        .streaming_assistant_state()
        .expect("streaming assistant should have an id");
    let streaming_id = streaming.id;
    let streaming_revision = streaming.revision;
    state.reduce(AgentEvent::AssistantMessageFinished { items: vec![] });
    let finalized = state
        .transcript_entries()
        .last()
        .expect("streaming assistant should finalize");
    assert_eq!(finalized.id, streaming_id);
    assert!(finalized.revision > streaming_revision);

    let epoch = state.transcript_epoch();
    state.replace_history(&[ModelMessage::user("replacement")]);
    assert_eq!(state.transcript_epoch(), epoch.wrapping_add(1));
    assert_ne!(state.transcript_entries()[0].id, static_id);
}

#[test]
fn message_view_derives_from_transcript_entries_without_copying_text() {
    let mut state = AppState::new();
    state.add_system_message("system");
    state.reduce(AgentEvent::ToolExecutionStarted {
        call_id: "call-1".to_owned(),
        name: "read".to_owned(),
        arguments: "{}".to_owned(),
    });
    state.add_system_message("later");

    let messages = state.messages();
    assert_eq!(messages.len(), 2);
    assert_eq!(messages.get(0).content, "system");
    assert_eq!(messages.get(1).content, "later");
    assert_eq!(messages.iter().len(), 2);
}

#[test]
fn queued_user_messages_transition_without_duplicate_transcript_entries() {
    let mut state = AppState::new();
    state.reduce(AgentEvent::TurnStarted);
    state.insert_text("A");
    assert_eq!(state.queue_input().as_deref(), Some("A"));
    state.insert_text("B");
    assert_eq!(state.queue_input().as_deref(), Some("B"));
    assert_eq!(state.messages().len(), 2);
    assert!(state
        .messages().iter().into_iter()
        .all(|message| message.user_status == UserMessageStatus::Queued));

    state.reduce(AgentEvent::SteeringMessageDelivered {
        text: "A".to_owned(),
    });
    assert_eq!(state.messages().len(), 2);
    assert_eq!(
        state
            .messages().iter().into_iter()
            .map(|message| message.user_status)
            .collect::<Vec<_>>(),
        [UserMessageStatus::Delivered, UserMessageStatus::Queued]
    );

    state.reduce(AgentEvent::SteeringMessagesRecovered {
        messages: vec!["B".to_owned()],
    });
    assert_eq!(state.messages().len(), 2);
    assert_eq!(
        state.messages().get(1).user_status,
        UserMessageStatus::Recovered
    );
}

#[test]
fn context_usage_reducer_keeps_provider_and_estimated_signals() {
    let mut state = AppState::new();
    state.reduce(AgentEvent::ContextLimitsUpdated(
        ModelLimits {
            context_window: Some(200_000),
            max_output_tokens: Some(32_000),
        },
    ));
    state.reduce(AgentEvent::ContextUsageUpdated(ContextUsage::estimated(
        42_000,
        ModelLimits {
            context_window: Some(200_000),
            max_output_tokens: Some(32_000),
        },
    )));
    assert_eq!(state.context_usage().estimated_input_tokens, 42_000);
    assert_eq!(state.context_usage().input_tokens, None);
    state.reduce(AgentEvent::UsageUpdated(Usage {
        input_tokens: Some(43_000),
        output_tokens: Some(100),
        ..Usage::default()
    }));
    assert_eq!(state.context_usage().input_tokens, Some(43_000));
    assert_eq!(state.context_usage().context_window, Some(200_000));
    assert_eq!(
        state.latest_usage().and_then(|usage| usage.output_tokens),
        Some(100)
    );
    state.reduce(AgentEvent::ModelChanged(ModelRef {
        provider: "test".to_owned(),
        model: "new-model".to_owned(),
    }));
    assert_eq!(state.context_usage().input_tokens, None);
    assert_eq!(
        state.context_usage().source,
        UsageSource::Estimated
    );
}

#[test]
fn editor_remains_usable_during_turns_and_compaction() {
    let mut state = AppState::new();
    state.insert_text("abc");
    state.reduce(AgentEvent::TurnStarted);
    state.insert_text("d");
    state.move_left();
    state.backspace();
    state.insert_newline();
    state.delete();
    assert_eq!(state.input(), "ab\n");
    assert_eq!(state.take_input().as_deref(), Some("ab\n"));

    state.reduce(AgentEvent::TurnFinished {
        reason: StopReason::Stop,
    });
    state.set_compaction_active(true);
    state.insert_text("during compaction");
    assert_eq!(state.input(), "during compaction");
    state.reduce(AgentEvent::CompactionFinished {
        automatic: false,
        before_tokens: 142_000,
        after_tokens: 71_000,
    });
    assert!(!state.is_busy());
    assert!(state
        .messages().iter().into_iter()
        .any(|message| { message.content.contains("context compacted") }));
}

#[test]
fn agent_errors_remain_available_and_are_appended_to_the_transcript() {
    let mut state = AppState::new();
    let message = "provider returned HTTP 400:\n{\"error\":\"bad request\"}";

    state.reduce(AgentEvent::Error(AgentError::new(message)));

    assert_eq!(state.last_error(), Some(message));
    assert_eq!(state.messages().len(), 1);
    assert_eq!(state.messages().get(0).role, MessageRole::System);
    assert_eq!(state.messages().get(0).content, format!("error: {message}"));
}

#[test]
fn editor_revision_changes_for_text_edits_but_not_cursor_motion() {
    let mut state = AppState::new();
    let initial = state.input_revision();
    state.insert_text("text");
    let after_insert = state.input_revision();
    assert!(after_insert > initial);
    state.move_left();
    assert_eq!(state.input_revision(), after_insert);
    state.backspace();
    assert!(state.input_revision() > after_insert);
}

#[test]
fn replacing_editor_input_moves_the_cursor_and_revision() {
    let mut state = AppState::new();
    state.insert_text("old");
    let revision = state.input_revision();

    state.set_input("/model ".to_owned());

    assert_eq!(state.input(), "/model ");
    assert_eq!(state.cursor(), state.input().len());
    assert!(state.input_revision() > revision);
}

#[test]
fn editor_supports_multiline_unicode_and_grapheme_editing() {
    let mut state = AppState::new();
    state.insert_text("one\ntwo");
    state.move_home();
    state.move_right();
    state.move_right();
    assert_eq!(&state.input()[..state.cursor()], "one\ntw");

    state.move_end();
    state.insert_text(" 🦀");
    state.backspace();
    assert_eq!(state.input(), "one\ntwo ");

    state.insert_text("👨‍👩‍👧‍👦");
    state.backspace();
    assert_eq!(state.input(), "one\ntwo ");
}
