use ri_core::app::counts::compact_token_count;
use ri_core::app::graphemes::{
    line_end, line_start, next_grapheme_boundary, previous_grapheme_boundary,
};
use ri_core::app::AppState;
use ri_core::json::{object, put, no_members, JsonValue};
use ri_core::text::{
    byte_len, contains_text, decimal, is_blank, lines_of, prefix_at_boundary, split_once,
    suffix_at_boundary, to_ascii_lowercase, trim, truncate_text, TRUNCATION_MARKER,
};
use ri_core::tools::{presentation, preview_of};
use ri_core::{
    builtin_tool_registry, AgentEvent, ToolDefinition, ToolOutputStream, ToolPreviewKind,
    ToolRegistry, ToolRegistryError, UserMessageStatus, MAX_TOOL_PREVIEW_BYTES,
};

#[test]
fn counts_read_like_rounded_decimals() {
    let rounded = |value: u64| -> String {
        if value >= 1_000_000 {
            format!("{:.1}m", value as f64 / 1_000_000.0)
        } else if value >= 1_000 {
            format!("{:.1}k", value as f64 / 1_000.0)
        } else {
            value.to_string()
        }
    };
    for value in [
        0, 1, 999, 1_000, 1_049, 1_050, 1_051, 1_950, 9_949, 9_950, 142_000, 999_949, 999_999,
        1_000_000, 1_250_000, 12_345_678,
    ] {
        let ours = compact_token_count(value);
        let theirs = rounded(value);
        assert!(
            ours == theirs || ours == theirs.replace(".0", ""),
            "{value}: {ours} and {theirs}"
        );
    }
}

#[test]
fn texts_are_measured_in_bytes_and_cut_between_characters() {
    assert_eq!(byte_len("é🦀"), 6);
    assert_eq!(prefix_at_boundary("é🦀x", 5), "é");
    assert_eq!(prefix_at_boundary("é🦀x", 6), "é🦀");
    assert_eq!(suffix_at_boundary("é🦀x", 4), "x");
    assert_eq!(suffix_at_boundary("é🦀x", 5), "🦀x");
    let cut = truncate_text(&"é".repeat(3000), 4096);
    assert!(cut.len() <= 4096);
    assert!(cut.contains(TRUNCATION_MARKER.trim()));
    assert_eq!(truncate_text("short", 4096), "short");
}

#[test]
fn texts_are_taken_apart_like_those_of_std() {
    for text in ["", "a", "a\n", "a\nb", "a\r\nb\r", "\n\n", "x\r", "é\n🦀"] {
        let expected: Vec<&str> = text.lines().collect();
        assert_eq!(lines_of(text), expected);
    }
    for text in ["", "  ", " a b\t\n", "\u{a0}x\u{2003}", "x"] {
        assert_eq!(trim(text), text.trim());
        assert_eq!(is_blank(text), text.trim().is_empty());
        assert_eq!(to_ascii_lowercase(text), text.to_ascii_lowercase());
    }
    assert_eq!(to_ascii_lowercase("AbCÉ"), "abcÉ");
    for value in [0, 7, 10, 99, 100, u64::MAX] {
        assert_eq!(decimal(value), value.to_string());
    }
    assert_eq!(
        split_once("a/b/c", "/"),
        Some(("a".to_owned(), "b/c".to_owned()))
    );
    assert_eq!(split_once("abc", "/"), None);
    assert!(contains_text("haystack", "st"));
    assert!(!contains_text("haystack", "needle"));
}

#[test]
fn the_cursor_moves_by_what_is_seen_as_one_character() {
    let family = "a👨‍👩‍👧‍👦b";
    assert_eq!(next_grapheme_boundary(family, 1), family.len() - 1);
    assert_eq!(previous_grapheme_boundary(family, family.len() - 1), 1);
    assert_eq!(previous_grapheme_boundary(family, 0), 0);
    assert_eq!(next_grapheme_boundary(family, family.len()), family.len());
    assert_eq!(line_start("one\ntwo", 5), 4);
    assert_eq!(line_end("one\ntwo", 1), 3);
    assert_eq!(line_end("one\ntwo", 5), 7);
}

#[test]
fn values_pass_through_json() {
    let mut members = no_members();
    put(&mut members, "b", JsonValue::from_u64(7));
    put(&mut members, "a", JsonValue::string("x\"y"));
    put(&mut members, "b", JsonValue::Null);
    let value = object(members);
    assert_eq!(value.to_text(), r#"{"a":"x\"y","b":null}"#);
    let parsed = JsonValue::parse(r#"{"a":{"b":[1,2.5,true]},"a":{"c":18446744073709551615}}"#)
        .unwrap();
    assert_eq!(
        parsed.get("a").and_then(|a| a.get_u64("c")),
        Some(u64::MAX)
    );
    assert!(parsed.get("a").unwrap().get("b").is_none());
    assert!(JsonValue::parse("{").is_err());
    assert_eq!(
        JsonValue::parse("[1.5]").unwrap().as_array().unwrap()[0].as_u64(),
        None
    );
}

#[test]
fn previews_are_bounded() {
    let lines = preview_of(&"line\n".repeat(5000));
    let shown: usize = lines.iter().map(|line| line.text.len() + 1).sum();
    assert!(shown <= MAX_TOOL_PREVIEW_BYTES + 1);
    let arguments =
        JsonValue::parse(r#"{"path":"a.rs","old_text":"x","new_text":"y\nz"}"#).unwrap();
    let shown = presentation("edit", &arguments);
    assert_eq!(shown.summary, "edit a.rs");
    assert_eq!(
        shown
            .preview
            .iter()
            .map(|line| (line.kind, line.text.as_str()))
            .collect::<Vec<_>>(),
        [
            (ToolPreviewKind::Removed, "-x"),
            (ToolPreviewKind::Added, "+y"),
            (ToolPreviewKind::Added, "+z"),
        ]
    );
}

#[test]
fn tools_have_names_of_their_own() {
    let mut registry = ToolRegistry::new();
    let tool = || ToolDefinition {
        name: "read".to_owned(),
        description: None,
        parameters: JsonValue::Null,
    };
    registry.register(tool()).unwrap();
    assert_eq!(
        registry.register(tool()),
        Err(ToolRegistryError::DuplicateTool {
            name: "read".to_owned()
        })
    );
    assert_eq!(registry.definitions(), [tool()]);
    assert!(registry.contains("read"));
    assert!(!registry.contains("write"));
    assert_eq!(
        builtin_tool_registry().names(),
        ["read", "write", "edit", "bash"]
    );
}

#[test]
fn output_of_many_pieces_stays_bounded() {
    let mut state = AppState::new();
    state.reduce(AgentEvent::ToolExecutionStarted {
        call_id: "c".to_owned(),
        name: "bash".to_owned(),
        arguments: "{}".to_owned(),
    });
    for round in 0..300 {
        state.reduce(AgentEvent::ToolExecutionOutput {
            call_id: "c".to_owned(),
            stream: if round % 2 == 0 {
                ToolOutputStream::Stdout
            } else {
                ToolOutputStream::Stderr
            },
            chunk: "é".repeat(1000),
        });
    }
    let ri_core::TranscriptEntry::Tool(tool) = &state.transcript_entries()[0].entry else {
        panic!("expected a tool");
    };
    let kept: usize = tool.output_chunks.iter().map(|chunk| chunk.text.len()).sum();
    assert!(kept <= 256 * 1024);
    assert!(tool.output_truncated);
}

#[test]
fn a_queued_message_settles_once() {
    let mut state = AppState::new();
    state.reduce(AgentEvent::TurnStarted);
    for text in ["same", "same"] {
        state.insert_text(text);
        state.queue_input();
    }
    state.reduce(AgentEvent::SteeringMessageDelivered {
        text: "same".to_owned(),
    });
    let statuses: Vec<UserMessageStatus> = state
        .messages()
        .iter()
        .into_iter()
        .map(|message| message.user_status)
        .collect();
    assert_eq!(
        statuses,
        [UserMessageStatus::Delivered, UserMessageStatus::Queued]
    );
}
