use std::collections::HashSet;

use ri_core::app::graphemes::{boundary_after, boundary_before};
use ri_core::app::output::{MAX_TOOL_TRANSCRIPT_OUTPUT_BYTES, TOOL_OUTPUT_MARKER};
use ri_core::config::model::Header;
use ri_core::config::{ApiKind, Compatibility, CostMetadata, ModelRef, ResolvedModel};
use ri_core::json::{array, no_members, object, put, JsonValue};
use ri_core::model::stream::{http_request, ResponseStream};
use ri_core::text::is_blank;
use ri_core::{
    AgentEvent, AppState, ModelAssistantItem, ModelMessage, ModelRequest, ToolExecutionMetadata,
    ToolExecutionResult, ToolOutputStream, ToolTranscriptEntry, TranscriptEntry,
};

fn text(state: &mut AppState, delta: &str) {
    state.reduce(AgentEvent::AssistantTextDelta {
        index: None,
        text: delta.to_owned(),
    });
}

fn call(state: &mut AppState) {
    state.reduce(AgentEvent::ToolExecutionStarted {
        call_id: "c".to_owned(),
        name: "bash".to_owned(),
        arguments: "{}".to_owned(),
    });
}

fn output(state: &mut AppState, chunk: &str) {
    state.reduce(AgentEvent::ToolExecutionOutput {
        call_id: "c".to_owned(),
        stream: ToolOutputStream::Stdout,
        chunk: chunk.to_owned(),
    });
}

fn result(state: &mut AppState, content: &str, truncated: bool) {
    state.reduce(AgentEvent::ToolExecutionFinished {
        call_id: "c".to_owned(),
        name: "bash".to_owned(),
        result: ToolExecutionResult {
            model_content: content.to_owned(),
            metadata: ToolExecutionMetadata {
                success: true,
                cancelled: false,
                truncated,
            },
        },
    });
}

fn tool(state: &AppState) -> &ToolTranscriptEntry {
    match &state.transcript_entries().last().unwrap().entry {
        TranscriptEntry::Tool(tool) => tool,
        TranscriptEntry::Message(_) => panic!("the last entry is a message"),
    }
}

fn ids(state: &AppState) -> Vec<u64> {
    let mut ids: Vec<u64> = state
        .transcript_entries()
        .iter()
        .map(|entry| entry.id.get())
        .collect();
    ids.extend(state.streaming_assistant_state().map(|message| message.id.get()));
    ids
}

fn history() -> Vec<ModelMessage> {
    vec![
        ModelMessage::User {
            content: "q".to_owned(),
        },
        ModelMessage::Assistant {
            items: vec![ModelAssistantItem::Text {
                content: "a".to_owned(),
            }],
        },
    ]
}

#[test]
fn identities_are_given_out_once() {
    let mut state = AppState::new();
    let mut seen: HashSet<u64> = HashSet::new();
    state.add_system_message("one");
    text(&mut state, "hello");
    call(&mut state);
    assert_eq!(ids(&state), [1, 3, 2]);
    seen.extend(ids(&state));

    let streaming = state.streaming_assistant_state().unwrap();
    let (id, revision) = (streaming.id, streaming.revision);
    state.reduce(AgentEvent::AssistantMessageFinished { items: Vec::new() });
    let finished = state.transcript_entries().last().unwrap();
    assert_eq!(finished.id, id);
    assert!(finished.revision > revision);
    assert_eq!(ids(&state), [1, 3, 2]);

    state.replace_history(&history());
    assert_eq!(ids(&state), [4, 5]);
    assert!(ids(&state).iter().all(|id| !seen.contains(id)));
    state.insert_text("next");
    state.submit_input();
    assert_eq!(ids(&state), [4, 5, 6]);
}

#[test]
fn the_revision_tells_of_every_change() {
    let mut state = AppState::new();
    let before = (state.transcript_epoch(), state.transcript_revision());
    state.insert_text("x");
    state.move_home();
    state.reduce(AgentEvent::TurnStarted);
    output(&mut state, "of an unknown call");
    text(&mut state, "");
    assert_eq!((state.transcript_epoch(), state.transcript_revision()), before);
    assert!(state.transcript_entries().is_empty());

    let mut last = before;
    for step in 0..6 {
        match step {
            0 => text(&mut state, "a"),
            1 => text(&mut state, "b"),
            2 => call(&mut state),
            3 => output(&mut state, "c"),
            4 => state.add_system_message("d"),
            _ => state.replace_history(&history()),
        }
        let now = (state.transcript_epoch(), state.transcript_revision());
        assert_ne!(now, last);
        last = now;
    }
}

#[test]
fn what_changed_is_pending_until_it_is_acknowledged() {
    let mut state = AppState::new();
    state.add_system_message("one");
    call(&mut state);
    state.acknowledge_transcript_changes();
    assert!(state.pending_transcript_changes().is_empty());

    text(&mut state, "a");
    text(&mut state, "b");
    output(&mut state, "c");
    text(&mut state, "d");
    let tool = state.transcript_entries()[1].id;
    let streaming = state.streaming_assistant_state().unwrap().id;
    assert_eq!(
        state.pending_transcript_changes(),
        [streaming, tool, streaming]
    );

    state.replace_history(&history());
    assert!(state.pending_transcript_changes().is_empty());
    state.add_system_message("two");
    assert_eq!(
        state.pending_transcript_changes(),
        [state.transcript_entries()[2].id]
    );
}

#[test]
fn the_cursor_stands_at_a_boundary() {
    let mut state = AppState::new();
    state.insert_text("a👨‍👩‍👧‍👦é\r\nz");
    for step in 0..40 {
        match step % 7 {
            0 => state.move_left(),
            1 => state.set_cursor(step),
            2 => state.move_right(),
            3 => state.move_home(),
            4 => state.backspace(),
            5 => state.insert_text("ü"),
            _ => state.delete(),
        }
        assert!(state.input().is_char_boundary(state.cursor()));
    }
}

#[test]
fn the_input_revision_tells_whether_the_input_changed() {
    let mut state = AppState::new();
    for step in 0..16 {
        let before = (state.input().to_owned(), state.input_revision());
        match step {
            0 => state.insert_text(""),
            1 => state.insert_text("ab"),
            2 => state.set_input("ab".to_owned()),
            3 => state.set_input("abc".to_owned()),
            4 => state.delete(),
            5 => state.move_left(),
            6 => state.delete(),
            7 => state.backspace(),
            8 => state.move_home(),
            9 => state.backspace(),
            10 => state.insert_newline(),
            11 => state.set_cursor(99),
            12 => {
                state.queue_input();
            }
            13 => {
                state.submit_input();
            }
            14 => {
                state.take_input();
            }
            _ => state.move_right(),
        }
        let changed = before.0 != state.input();
        assert_eq!(state.input_revision(), before.1 + u64::from(changed), "{step}");
    }
}

#[test]
fn a_move_to_the_right_and_one_to_the_left_return() {
    let mut state = AppState::new();
    state.insert_text("a b\n#1~\t\u{7f}z");
    for cursor in 0..state.input().len() {
        state.set_cursor(cursor);
        state.move_right();
        assert_eq!(state.cursor(), cursor + 1);
        state.move_left();
        assert_eq!(state.cursor(), cursor);
    }
    state.set_cursor(0);
    state.move_left();
    assert_eq!(state.cursor(), 0);

    state.set_input("\r\n".to_owned());
    state.set_cursor(0);
    state.move_right();
    assert_eq!(state.cursor(), 2);
}

#[test]
fn boundaries_follow_from_the_starts_of_clusters() {
    assert_eq!(boundary_before(&[]), 0);
    assert_eq!(boundary_before(&[0, 3, 7]), 7);
    assert_eq!(boundary_after(&[], 4, 4), 4);
    assert_eq!(boundary_after(&[0], 4, 9), 9);
    assert_eq!(boundary_after(&[0, 3, 7], 4, 20), 7);
}

#[test]
fn the_output_of_a_finished_call_stays_within_its_bound() {
    let most = MAX_TOOL_TRANSCRIPT_OUTPUT_BYTES + TOOL_OUTPUT_MARKER.len();
    for truncated in [false, true] {
        let mut state = AppState::new();
        call(&mut state);
        result(
            &mut state,
            &"x".repeat(2 * MAX_TOOL_TRANSCRIPT_OUTPUT_BYTES),
            truncated,
        );
        assert_eq!(tool(&state).output.len(), MAX_TOOL_TRANSCRIPT_OUTPUT_BYTES / 2 + TOOL_OUTPUT_MARKER.len());
        for _ in 0..3 {
            output(&mut state, &"y".repeat(MAX_TOOL_TRANSCRIPT_OUTPUT_BYTES));
            assert!(tool(&state).output.len() <= most);
            assert!(tool(&state).output_truncated);
        }
    }
    let mut state = AppState::new();
    call(&mut state);
    let head = "h".repeat(200_000);
    result(&mut state, &format!("{head}{TOOL_OUTPUT_MARKER}t"), true);
    output(&mut state, &"y".repeat(MAX_TOOL_TRANSCRIPT_OUTPUT_BYTES));
    assert!(tool(&state).output.len() > most);
}

#[test]
fn truncation_is_not_taken_back() {
    let mut state = AppState::new();
    call(&mut state);
    output(&mut state, &"x".repeat(MAX_TOOL_TRANSCRIPT_OUTPUT_BYTES + 1));
    assert!(tool(&state).output_truncated);
    output(&mut state, "more");
    assert!(tool(&state).output_truncated);
    result(&mut state, "short", false);
    assert!(tool(&state).output_truncated);
    assert_eq!(tool(&state).output, "short");
}

#[test]
fn white_space_is_that_of_unicode() {
    let white: Vec<u32> = (0..=0x10ffff)
        .filter(|number| {
            char::from_u32(*number).is_some_and(|c| is_blank(&String::from(c)))
        })
        .collect();
    let mut expected: Vec<u32> = (0x9..=0xd).collect();
    expected.extend([0x20, 0x85, 0xa0, 0x1680]);
    expected.extend(0x2000..=0x200a);
    expected.extend([0x2028, 0x2029, 0x202f, 0x205f, 0x3000]);
    assert_eq!(white, expected);
}

fn with_header(name: &str) -> ResolvedModel {
    ResolvedModel {
        model_ref: ModelRef::new("p", "m"),
        name: "m".to_owned(),
        base_url: "https://example.test/v1/".to_owned(),
        api: ApiKind::OpenAiCompletions,
        api_key: None,
        headers: vec![Header {
            name: name.to_owned(),
            value: "v".to_owned(),
        }],
        auth_header: false,
        compatibility: Compatibility::default(),
        reasoning: false,
        input: Vec::new(),
        context_window: None,
        max_tokens: None,
        cost: CostMetadata::default(),
        sampling_params: Vec::new(),
        thinking_level_map: Vec::new(),
    }
}

#[test]
fn header_names_are_tokens() {
    let taken = |name: &str| http_request(&with_header(name), &ModelRequest::single_user("x"));
    for number in 0..=0x17f {
        let c = char::from_u32(number).unwrap();
        let token = c.is_ascii_alphanumeric() || "!#$%&'*+-.^_`|~".contains(c);
        for name in [String::from(c), format!("X-{c}-Y"), c.to_string().repeat(70)] {
            assert_eq!(taken(&name).is_ok(), token, "{name:?}");
        }
    }
    assert!(taken("").is_err());
    assert!(taken(&"a".repeat(65_535)).is_ok());
    assert!(taken(&"a".repeat(65_536)).is_err());
    let sent = taken("X-Upper").unwrap();
    assert!(sent.headers.iter().any(|header| header.name == "x-upper"));
}

#[test]
fn of_two_members_of_one_name_the_later_is_written() {
    let mut members = no_members();
    put(&mut members, "model", JsonValue::string("first"));
    put(&mut members, "a", JsonValue::from_u64(1));
    put(&mut members, "model", JsonValue::string("second"));
    let mut items = Vec::new();
    items.push(object(members));
    assert_eq!(
        array(items).to_text(),
        r#"[{"a":1,"model":"second"}]"#
    );
}

#[test]
fn the_end_of_an_answer_leaves_nothing_to_read() {
    let mut stream = ResponseStream::new(ApiKind::OpenAiCompletions);
    let batch = stream.feed(b"data: {\"choices\":[{\"delta\":{\"content\":\"a\"}}]}");
    assert!(batch.events.is_empty());
    assert_eq!(stream.finish().events.len(), 1);
    assert!(stream.finish().events.is_empty());
}

#[test]
fn a_copy_of_the_state_goes_its_own_way() {
    let mut state = AppState::new();
    state.insert_text("draft");
    text(&mut state, "hello");
    let copy = state.clone();
    assert_eq!(copy, state);
    state.backspace();
    state.add_system_message("one");
    assert_eq!(copy.input(), "draft");
    assert!(copy.transcript_entries().is_empty());
    assert_ne!(copy, state);
}
