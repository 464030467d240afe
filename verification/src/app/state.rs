//! The state of an interactive session.

use crate::agent::event::AgentEventView;
use crate::app::counts::{compact_count, compact_token_count};
use crate::app::graphemes::{
    grapheme_after, grapheme_before, line_end, line_end_of, line_start, line_start_of,
    next_grapheme_boundary, previous_grapheme_boundary,
};
use crate::app::output::{
    append_tool_output, append_tool_output_chunk, with_chunk, with_output, ToolOutputChunkView,
    ToolStatus, ToolTranscriptEntry, ToolTranscriptEntryView,
};
use crate::app::transcript::{
    entry_id, lemma_message_indices_agree, message_indices, messages_of, MessageRole, StreamingAssistantState,
    StreamingAssistantStateView, TranscriptEntry, TranscriptEntryId, TranscriptEntryState,
    TranscriptEntryStateView, TranscriptEntryView, TranscriptMessage, TranscriptMessageView,
    TranscriptMessages, UserMessageStatus,
};
use crate::config::thinking::ThinkingLevel;
use crate::config::{ModelRef, ModelRefView};
use crate::context::accounting::{ContextUsage, UsageSource};
use crate::json::{json_parsed, JsonValue};
use crate::model::message::{
    ModelAssistantItem, ModelAssistantItemView, ModelLimits, ModelMessage, ModelMessageView,
    StopReason, Usage,
};
use crate::session::{SessionInfo, SessionInfoView};
use crate::text::{
    at_boundary, byte_len, concat, concat3, is_blank, is_blank_text, is_boundary,
    lemma_boundary_ends, lemma_boundary_of_parts, lemma_split, lemma_utf8_len_concat, prefix_within,
    same_text, split_text, text_after, utf8_len,
};
use crate::tools::{
    plain_preview, presentation, presentation_of, preview_of, ToolCallPresentation,
    ToolCallPresentationView, ToolExecutionMetadata, ToolExecutionResult, ToolExecutionResultView,
    ToolOutputStream, ToolPreviewLineView,
};
use vstd::prelude::*;

verus! {

/// The transcript, the editor, and what is known of the session.
#[derive(Debug, PartialEq, Eq)]
pub struct AppState {
    message_entry_indices: Vec<usize>,
    entries: Vec<TranscriptEntryState>,
    streaming_assistant: Option<StreamingAssistantState>,
    next_transcript_entry_id: u64,
    transcript_epoch: u64,
    transcript_revision: u64,
    pending_transcript_changes: Vec<TranscriptEntryId>,
    input: String,
    cursor: usize,
    input_revision: u64,
    turn_active: bool,
    compaction_active: bool,
    last_error: Option<String>,
    last_stop_reason: Option<StopReason>,
    active_model: Option<ModelRef>,
    thinking_level: Option<ThinkingLevel>,
    git_branch: Option<String>,
    session_info: Option<SessionInfo>,
    context_usage: ContextUsage,
    latest_usage: Option<Usage>,
}

/// What an [`AppState`] holds.
pub struct AppStateView {
    pub entries: Seq<TranscriptEntryStateView>,
    pub streaming: Option<StreamingAssistantStateView>,
    pub last_id: u64,
    pub epoch: u64,
    pub revision: u64,
    pub pending: Seq<TranscriptEntryId>,
    pub input: Seq<char>,
    pub cursor: int,
    pub input_revision: u64,
    pub turn_active: bool,
    pub compaction_active: bool,
    pub last_error: Option<Seq<char>>,
    pub last_stop_reason: Option<StopReason>,
    pub active_model: Option<ModelRefView>,
    pub thinking_level: Option<ThinkingLevel>,
    pub git_branch: Option<Seq<char>>,
    pub session_info: Option<SessionInfoView>,
    pub context_usage: ContextUsage,
    pub latest_usage: Option<Usage>,
}

impl DeepView for AppState {
    type V = AppStateView;

    closed spec fn deep_view(&self) -> AppStateView {
        AppStateView {
            entries: self.entries.deep_view(),
            streaming: self.streaming_assistant.deep_view(),
            last_id: self.next_transcript_entry_id,
            epoch: self.transcript_epoch,
            revision: self.transcript_revision,
            pending: self.pending_transcript_changes@,
            input: self.input@,
            cursor: self.cursor as int,
            input_revision: self.input_revision,
            turn_active: self.turn_active,
            compaction_active: self.compaction_active,
            last_error: self.last_error.deep_view(),
            last_stop_reason: self.last_stop_reason,
            active_model: self.active_model.deep_view(),
            thinking_level: self.thinking_level,
            git_branch: self.git_branch.deep_view(),
            session_info: self.session_info.deep_view(),
            context_usage: self.context_usage,
            latest_usage: self.latest_usage,
        }
    }
}

/// The next number, and 0 after the largest.
pub open spec fn next(n: u64) -> u64 {
    if n == u64::MAX {
        0
    } else {
        (n + 1) as u64
    }
}

/// The state of a session that has just begun.
pub open spec fn initial_state() -> AppStateView {
    AppStateView {
        entries: Seq::empty(),
        streaming: None,
        last_id: 0,
        epoch: 0,
        revision: 0,
        pending: Seq::empty(),
        input: Seq::empty(),
        cursor: 0,
        input_revision: 0,
        turn_active: false,
        compaction_active: false,
        last_error: None,
        last_stop_reason: None,
        active_model: None,
        thinking_level: None,
        git_branch: None,
        session_info: None,
        context_usage: ContextUsage {
            input_tokens: None,
            estimated_input_tokens: 0,
            context_window: None,
            max_output_tokens: None,
            source: UsageSource::Estimated,
        },
        latest_usage: None,
    }
}

/// The cursor stands between two characters of the input, or at an end of it.
pub open spec fn is_valid(s: AppStateView) -> bool {
    at_boundary(s.input, s.cursor)
}

// ---- the transcript ----

/// The entry `id` was changed.
pub open spec fn marked(s: AppStateView, id: TranscriptEntryId) -> AppStateView {
    AppStateView {
        revision: next(s.revision),
        pending: if s.pending.len() > 0 && s.pending.last() == id {
            s.pending
        } else {
            s.pending.push(id)
        },
        ..s
    }
}

/// `entry` is added under an identity.
pub open spec fn pushed(
    s: AppStateView,
    entry: TranscriptEntryView,
    id: TranscriptEntryId,
    revision: u64,
) -> AppStateView {
    marked(
        AppStateView {
            entries: s.entries.push(TranscriptEntryStateView { id, revision, entry }),
            ..s
        },
        id,
    )
}

/// `entry` is added under a new identity.
pub open spec fn added(s: AppStateView, entry: TranscriptEntryView) -> AppStateView {
    let id = next(s.last_id);
    pushed(AppStateView { last_id: id, ..s }, entry, entry_id(id), 0)
}

/// The entry at `index` becomes `entry`, and counts as changed.
pub open spec fn replaced(
    s: AppStateView,
    index: int,
    entry: TranscriptEntryView,
) -> AppStateView {
    let state = s.entries[index];
    marked(
        AppStateView {
            entries: s.entries.update(
                index,
                TranscriptEntryStateView { id: state.id, revision: next(state.revision), entry },
            ),
            ..s
        },
        state.id,
    )
}

/// A message without reasoning.
pub open spec fn plain_message(
    role: MessageRole,
    content: Seq<char>,
    user_status: UserMessageStatus,
) -> TranscriptEntryView {
    TranscriptEntryView::Message(
        TranscriptMessageView { role, content, thinking: None, user_status },
    )
}

/// A message of the system is added.
pub open spec fn system_added(s: AppStateView, content: Seq<char>) -> AppStateView {
    added(s, plain_message(MessageRole::System, content, UserMessageStatus::Delivered))
}

/// A message of the user that waits to be delivered.
pub open spec fn is_queued(entry: TranscriptEntryView) -> bool {
    entry matches TranscriptEntryView::Message(message) && message.role == MessageRole::User
        && message.user_status == UserMessageStatus::Queued
}

/// The index of the first waiting message from `from` on.
pub open spec fn first_queued(entries: Seq<TranscriptEntryStateView>, from: int) -> Option<int>
    decreases entries.len() - from,
{
    if from >= entries.len() {
        None
    } else if is_queued(entries[from].entry) {
        Some(from)
    } else {
        first_queued(entries, from + 1)
    }
}

/// The oldest waiting message gets `status`; where none waits, `text` is added with it.
pub open spec fn settled(
    s: AppStateView,
    text: Seq<char>,
    status: UserMessageStatus,
) -> AppStateView {
    match first_queued(s.entries, 0) {
        Some(index) => replaced(
            s,
            index,
            TranscriptEntryView::Message(
                TranscriptMessageView {
                    user_status: status,
                    ..s.entries[index].entry->Message_0
                },
            ),
        ),
        None => added(s, plain_message(MessageRole::User, text, status)),
    }
}

/// Each of `texts` is settled as recovered, in order.
pub open spec fn recovered(s: AppStateView, texts: Seq<Seq<char>>) -> AppStateView
    decreases texts.len(),
{
    if texts.len() == 0 {
        s
    } else {
        settled(recovered(s, texts.drop_last()), texts.last(), UserMessageStatus::Recovered)
    }
}

/// The index of the last call `call_id` among the first `end` entries.
pub open spec fn last_call(
    entries: Seq<TranscriptEntryStateView>,
    call_id: Seq<char>,
    end: int,
) -> Option<int>
    decreases end,
{
    if end <= 0 {
        None
    } else {
        match entries[end - 1].entry {
            TranscriptEntryView::Tool(tool) => if tool.call_id == call_id {
                Some(end - 1)
            } else {
                last_call(entries, call_id, end - 1)
            },
            _ => last_call(entries, call_id, end - 1),
        }
    }
}

// ---- the message that comes in ----

/// A new message of the assistant begins to come in.
pub open spec fn streaming_started(s: AppStateView) -> AppStateView {
    let id = next(s.last_id);
    AppStateView {
        streaming: Some(
            StreamingAssistantStateView {
                id: entry_id(id),
                revision: 0,
                content: Seq::empty(),
                thinking: Seq::empty(),
            },
        ),
        ..marked(AppStateView { last_id: id, ..s }, entry_id(id))
    }
}

/// A message of the assistant comes in.
pub open spec fn streaming_ensured(s: AppStateView) -> AppStateView {
    if s.streaming is None {
        streaming_started(s)
    } else {
        s
    }
}

/// The message that comes in is changed.
pub open spec fn streaming_changed(
    s: AppStateView,
    content: Seq<char>,
    thinking: Seq<char>,
) -> AppStateView {
    let message = s.streaming->0;
    marked(
        AppStateView {
            streaming: Some(
                StreamingAssistantStateView {
                    id: message.id,
                    revision: next(message.revision),
                    content,
                    thinking,
                },
            ),
            ..s
        },
        message.id,
    )
}

/// `text` is added to the content of the message that comes in.
pub open spec fn content_streamed(s: AppStateView, text: Seq<char>) -> AppStateView {
    if text.len() == 0 {
        s
    } else {
        let t = streaming_ensured(s);
        streaming_changed(t, t.streaming->0.content + text, t.streaming->0.thinking)
    }
}

/// `text` is added to the reasoning of the message that comes in.
pub open spec fn thinking_streamed(s: AppStateView, text: Seq<char>) -> AppStateView {
    if text.len() == 0 {
        s
    } else {
        let t = streaming_ensured(s);
        streaming_changed(t, t.streaming->0.content, t.streaming->0.thinking + text)
    }
}

/// `text`, unless it is empty.
pub open spec fn nonempty(text: Seq<char>) -> Option<Seq<char>> {
    if text.len() == 0 {
        None
    } else {
        Some(text)
    }
}

/// The message that came in, if it holds anything, becomes an entry under its identity.
pub open spec fn streaming_finalized(s: AppStateView) -> AppStateView {
    match s.streaming {
        None => s,
        Some(message) => {
            let t = marked(AppStateView { streaming: None, ..s }, message.id);
            if message.content.len() == 0 && message.thinking.len() == 0 {
                t
            } else {
                pushed(
                    t,
                    TranscriptEntryView::Message(
                        TranscriptMessageView {
                            role: MessageRole::Assistant,
                            content: message.content,
                            thinking: nonempty(message.thinking),
                            user_status: UserMessageStatus::Delivered,
                        },
                    ),
                    message.id,
                    next(message.revision),
                )
            }
        },
    }
}

/// The text of the first item that has one.
pub open spec fn first_content(items: Seq<ModelAssistantItemView>) -> Seq<char>
    decreases items.len(),
{
    if items.len() == 0 {
        Seq::empty()
    } else {
        match items[0] {
            ModelAssistantItemView::Text { content } => content,
            ModelAssistantItemView::Refusal { content } => content,
            _ => first_content(items.drop_first()),
        }
    }
}

/// The first reasoning that is not empty.
pub open spec fn first_thinking(items: Seq<ModelAssistantItemView>) -> Seq<char>
    decreases items.len(),
{
    if items.len() == 0 {
        Seq::empty()
    } else {
        match items[0] {
            ModelAssistantItemView::Reasoning(thinking) => if thinking.content.len() > 0 {
                thinking.content
            } else {
                first_thinking(items.drop_first())
            },
            _ => first_thinking(items.drop_first()),
        }
    }
}

/// The message that comes in is filled from `items` where nothing came in, and finalized.
pub open spec fn message_finished(
    s: AppStateView,
    items: Seq<ModelAssistantItemView>,
) -> AppStateView {
    let t = streaming_ensured(s);
    let message = t.streaming->0;
    let content = if message.content.len() == 0 {
        first_content(items)
    } else {
        message.content
    };
    let thinking = if message.thinking.len() == 0 {
        first_thinking(items)
    } else {
        message.thinking
    };
    if content == message.content && thinking == message.thinking {
        streaming_finalized(t)
    } else {
        streaming_finalized(streaming_changed(t, content, thinking))
    }
}

/// A whole refusal counts where nothing has come in yet.
pub open spec fn refusal_given(s: AppStateView, content: Seq<char>) -> AppStateView {
    let t = streaming_ensured(s);
    if t.streaming->0.content.len() == 0 && content.len() > 0 {
        streaming_changed(t, content, t.streaming->0.thinking)
    } else {
        t
    }
}

// ---- calls of tools ----

/// How a call is shown; where its arguments are no JSON, by its name and their text.
pub open spec fn call_presentation(
    name: Seq<char>,
    arguments: Seq<char>,
) -> ToolCallPresentationView {
    match json_parsed(arguments) {
        Ok(json) => presentation_of(name, json),
        Err(_) => ToolCallPresentationView { summary: name, preview: plain_preview(arguments) },
    }
}

/// A call that has just begun.
pub open spec fn running_call(
    call_id: Seq<char>,
    name: Seq<char>,
    arguments: Seq<char>,
) -> ToolTranscriptEntryView {
    let shown = call_presentation(name, arguments);
    ToolTranscriptEntryView {
        call_id,
        name,
        summary: shown.summary,
        preview: shown.preview,
        output: Seq::empty(),
        output_chunks: Seq::empty(),
        output_truncated: false,
        status: ToolStatus::Running,
    }
}

/// Output of the call comes in.
pub open spec fn output_given(
    s: AppStateView,
    call_id: Seq<char>,
    stream: ToolOutputStream,
    chunk: Seq<char>,
) -> AppStateView {
    match last_call(s.entries, call_id, s.entries.len() as int) {
        Some(index) => if chunk.len() == 0 {
            s
        } else {
            let tool = s.entries[index].entry->Tool_0;
            replaced(
                s,
                index,
                TranscriptEntryView::Tool(
                    with_chunk(with_output(tool, chunk), Some(stream), chunk),
                ),
            )
        },
        None => s,
    }
}

/// A call with its result: the result is its output, and its pieces where none came in before.
pub open spec fn finished_call(
    tool: ToolTranscriptEntryView,
    result: ToolExecutionResultView,
) -> ToolTranscriptEntryView {
    let cleared = ToolTranscriptEntryView {
        output: Seq::empty(),
        output_truncated: false,
        ..tool
    };
    let filled = with_output(cleared, result.model_content);
    let pieces = if tool.output_chunks.len() == 0 {
        with_chunk(filled, None, result.model_content)
    } else {
        filled
    };
    ToolTranscriptEntryView {
        output_truncated: pieces.output_truncated || tool.output_truncated
            || result.metadata.truncated,
        status: ToolStatus::Finished(result.metadata),
        ..pieces
    }
}

/// The call gets its result.
pub open spec fn call_finished(
    s: AppStateView,
    call_id: Seq<char>,
    result: ToolExecutionResultView,
) -> AppStateView {
    match last_call(s.entries, call_id, s.entries.len() as int) {
        Some(index) => replaced(
            s,
            index,
            TranscriptEntryView::Tool(finished_call(s.entries[index].entry->Tool_0, result)),
        ),
        None => s,
    }
}

// ---- histories ----

/// The texts of the items, one after the other.
pub open spec fn joined_content(items: Seq<ModelAssistantItemView>) -> Seq<char>
    decreases items.len(),
{
    if items.len() == 0 {
        Seq::empty()
    } else {
        let before = joined_content(items.drop_last());
        match items.last() {
            ModelAssistantItemView::Text { content } => before + content,
            ModelAssistantItemView::Refusal { content } => before + content,
            _ => before,
        }
    }
}

/// The reasoning of the items, one after the other; where one has no content, its summary.
pub open spec fn joined_thinking(items: Seq<ModelAssistantItemView>) -> Seq<char>
    decreases items.len(),
{
    if items.len() == 0 {
        Seq::empty()
    } else {
        let before = joined_thinking(items.drop_last());
        match items.last() {
            ModelAssistantItemView::Reasoning(thinking) => if thinking.content.len() == 0 {
                before + thinking.summary
            } else {
                before + thinking.content
            },
            _ => before,
        }
    }
}

/// The calls of the items are added that have an identifier and a name.
pub open spec fn calls_added(
    s: AppStateView,
    items: Seq<ModelAssistantItemView>,
) -> AppStateView
    decreases items.len(),
{
    if items.len() == 0 {
        s
    } else {
        let before = calls_added(s, items.drop_last());
        match items.last() {
            ModelAssistantItemView::ToolCall(call) => match (call.call_id, call.name) {
                (Some(call_id), Some(name)) => added(
                    before,
                    TranscriptEntryView::Tool(running_call(call_id, name, call.arguments)),
                ),
                _ => before,
            },
            _ => before,
        }
    }
}

/// A message of the assistant is added with its calls.
pub open spec fn assistant_added(
    s: AppStateView,
    items: Seq<ModelAssistantItemView>,
) -> AppStateView {
    let content = joined_content(items);
    let thinking = joined_thinking(items);
    let t = if content.len() == 0 && thinking.len() == 0 {
        s
    } else {
        added(
            s,
            TranscriptEntryView::Message(
                TranscriptMessageView {
                    role: MessageRole::Assistant,
                    content,
                    thinking: nonempty(thinking),
                    user_status: UserMessageStatus::Delivered,
                },
            ),
        )
    };
    calls_added(t, items)
}

/// A call as a history knows it once its result is there.
pub open spec fn historical_call(
    tool: ToolTranscriptEntryView,
    content: Seq<char>,
) -> ToolTranscriptEntryView {
    let cleared = ToolTranscriptEntryView {
        output: Seq::empty(),
        output_chunks: Seq::empty(),
        output_truncated: false,
        ..tool
    };
    ToolTranscriptEntryView {
        status: ToolStatus::Finished(
            ToolExecutionMetadata { success: true, cancelled: false, truncated: false },
        ),
        ..with_chunk(with_output(cleared, content), None, content)
    }
}

/// A call that a history knows by its result alone.
pub open spec fn unknown_call(call_id: Seq<char>, name: Seq<char>) -> ToolTranscriptEntryView {
    ToolTranscriptEntryView {
        call_id,
        name,
        summary: name,
        preview: Seq::empty(),
        output: Seq::empty(),
        output_chunks: Seq::empty(),
        output_truncated: false,
        status: ToolStatus::Running,
    }
}

/// A message of a history is added.
pub open spec fn history_added(s: AppStateView, message: ModelMessageView) -> AppStateView {
    match message {
        ModelMessageView::User { content } => added(
            s,
            plain_message(MessageRole::User, content, UserMessageStatus::Delivered),
        ),
        ModelMessageView::Assistant { items } => assistant_added(s, items),
        ModelMessageView::ToolResult { tool_call_id, tool_name, content } => match last_call(
            s.entries,
            tool_call_id,
            s.entries.len() as int,
        ) {
            Some(index) => replaced(
                s,
                index,
                TranscriptEntryView::Tool(
                    historical_call(s.entries[index].entry->Tool_0, content),
                ),
            ),
            None => added(
                s,
                TranscriptEntryView::Tool(
                    historical_call(unknown_call(tool_call_id, tool_name), content),
                ),
            ),
        },
        _ => s,
    }
}

/// The messages of a history are added, in order.
pub open spec fn histories_added(
    s: AppStateView,
    messages: Seq<ModelMessageView>,
) -> AppStateView
    decreases messages.len(),
{
    if messages.len() == 0 {
        s
    } else {
        history_added(histories_added(s, messages.drop_last()), messages.last())
    }
}

/// The transcript is emptied, and all that belonged to it.
pub open spec fn emptied(s: AppStateView) -> AppStateView {
    AppStateView {
        epoch: next(s.epoch),
        pending: Seq::empty(),
        entries: Seq::empty(),
        streaming: None,
        input: Seq::empty(),
        cursor: 0,
        input_revision: next(s.input_revision),
        turn_active: false,
        compaction_active: false,
        last_error: None,
        last_stop_reason: None,
        context_usage: ContextUsage {
            input_tokens: None,
            estimated_input_tokens: 0,
            source: UsageSource::Estimated,
            ..s.context_usage
        },
        latest_usage: None,
        ..s
    }
}

/// The transcript becomes that of a history.
pub open spec fn history_replaced(
    s: AppStateView,
    messages: Seq<ModelMessageView>,
) -> AppStateView {
    AppStateView { pending: Seq::empty(), ..histories_added(emptied(s), messages) }
}

/// The limits of a model are taken over; what a provider counted no longer holds.
pub open spec fn limits_set(s: AppStateView, limits: ModelLimits) -> AppStateView {
    AppStateView {
        context_usage: ContextUsage {
            context_window: limits.context_window,
            max_output_tokens: limits.max_output_tokens,
            input_tokens: None,
            source: UsageSource::Estimated,
            ..s.context_usage
        },
        ..s
    }
}

// ---- events ----

/// The message that tells how far a compaction went.
pub open spec fn compaction_message(before_tokens: u64, after_tokens: u64) -> Seq<char> {
    "context compacted · ~"@ + compact_count(before_tokens) + " → ~"@ + compact_count(after_tokens)
        + " tokens"@
}

/// What an event makes of the state.
pub open spec fn reduced(s: AppStateView, event: AgentEventView) -> AppStateView {
    match event {
        AgentEventView::TurnStarted => AppStateView {
            turn_active: true,
            last_error: None,
            last_stop_reason: None,
            ..s
        },
        AgentEventView::SteeringMessageDelivered { text } => settled(
            s,
            text,
            UserMessageStatus::Delivered,
        ),
        AgentEventView::SteeringMessagesRecovered { messages } => recovered(s, messages),
        AgentEventView::AssistantMessageStarted => streaming_started(streaming_finalized(s)),
        AgentEventView::AssistantTextDelta { text, .. } => content_streamed(s, text),
        AgentEventView::AssistantThinkingDelta { text, .. } => thinking_streamed(s, text),
        AgentEventView::AssistantRefusalDelta { text, .. } => content_streamed(s, text),
        AgentEventView::AssistantRefusalItem { content, .. } => match content {
            Some(content) => refusal_given(s, content),
            None => s,
        },
        AgentEventView::AssistantMessageFinished { items } => message_finished(s, items),
        AgentEventView::ToolExecutionStarted { call_id, name, arguments } => added(
            s,
            TranscriptEntryView::Tool(running_call(call_id, name, arguments)),
        ),
        AgentEventView::ToolExecutionOutput { call_id, stream, chunk } => output_given(
            s,
            call_id,
            stream,
            chunk,
        ),
        AgentEventView::ToolExecutionFinished { call_id, name, result } => call_finished(
            s,
            call_id,
            result,
        ),
        AgentEventView::TurnFinished { reason } => AppStateView {
            turn_active: false,
            last_stop_reason: Some(reason),
            ..s
        },
        AgentEventView::CompactionStarted { .. } => AppStateView {
            compaction_active: true,
            last_error: None,
            ..s
        },
        AgentEventView::CompactionFinished { automatic, before_tokens, after_tokens } =>
            system_added(
            AppStateView { compaction_active: false, ..s },
            compaction_message(before_tokens, after_tokens),
        ),
        AgentEventView::CompactionFailed { message } => system_added(
            AppStateView { compaction_active: false, last_error: Some(message), ..s },
            message,
        ),
        AgentEventView::AssistantTextItem { .. } => s,
        AgentEventView::AssistantThinkingContentDelta { .. } => s,
        AgentEventView::AssistantThinkingItem { .. } => s,
        AgentEventView::ToolCallDelta { .. } => s,
        AgentEventView::UsageUpdated(usage) => AppStateView {
            latest_usage: Some(usage),
            context_usage: match usage.input_tokens {
                Some(tokens) => ContextUsage {
                    input_tokens: Some(tokens),
                    source: UsageSource::Provider,
                    ..s.context_usage
                },
                None => s.context_usage,
            },
            ..s
        },
        AgentEventView::ContextUsageUpdated(usage) => AppStateView { context_usage: usage, ..s },
        AgentEventView::ContextLimitsUpdated(limits) => limits_set(s, limits),
        AgentEventView::ModelChanged(model) => AppStateView {
            active_model: Some(model),
            context_usage: ContextUsage {
                input_tokens: None,
                source: UsageSource::Estimated,
                ..s.context_usage
            },
            ..s
        },
        AgentEventView::SessionChanged { info } => AppStateView { session_info: Some(info), ..s },
        AgentEventView::SessionLoaded { info, history } => history_replaced(
            AppStateView { session_info: Some(info), ..s },
            history,
        ),
        AgentEventView::Error(error) => system_added(
            AppStateView { last_error: Some(error.message), ..s },
            "error: "@ + error.message,
        ),
    }
}

// ---- the editor ----

/// The input before and after the cursor becomes `before` and `after`.
pub open spec fn edited(s: AppStateView, before: Seq<char>, after: Seq<char>) -> AppStateView {
    AppStateView {
        input: before + after,
        cursor: utf8_len(before),
        input_revision: next(s.input_revision),
        ..s
    }
}

/// The input before the cursor.
pub open spec fn before_cursor(s: AppStateView) -> Seq<char> {
    prefix_within(s.input, s.cursor)
}

/// The input after the cursor.
pub open spec fn after_cursor(s: AppStateView) -> Seq<char> {
    text_after(s.input, s.cursor)
}

/// `text` is inserted at the cursor.
pub open spec fn text_inserted(s: AppStateView, text: Seq<char>) -> AppStateView {
    if text.len() == 0 {
        s
    } else {
        edited(s, before_cursor(s) + text, after_cursor(s))
    }
}

/// A line break is inserted at the cursor.
pub open spec fn newline_inserted(s: AppStateView) -> AppStateView {
    edited(s, before_cursor(s) + "\n"@, after_cursor(s))
}

/// The input becomes `text`, with the cursor behind it.
pub open spec fn input_set(s: AppStateView, text: Seq<char>) -> AppStateView {
    if text == s.input {
        s
    } else {
        edited(s, text, Seq::empty())
    }
}

/// The cluster before the cursor is removed.
pub open spec fn backspaced(s: AppStateView) -> AppStateView {
    if s.cursor == 0 {
        s
    } else {
        edited(
            s,
            prefix_within(s.input, grapheme_before(s.input, s.cursor)),
            after_cursor(s),
        )
    }
}

/// The cluster after the cursor is removed.
pub open spec fn deleted(s: AppStateView) -> AppStateView {
    if s.cursor == utf8_len(s.input) {
        s
    } else {
        edited(s, before_cursor(s), text_after(s.input, grapheme_after(s.input, s.cursor)))
    }
}

/// The cursor goes to `cursor`, if there is a boundary.
pub open spec fn cursor_set(s: AppStateView, cursor: int) -> AppStateView {
    if at_boundary(s.input, cursor) {
        AppStateView { cursor, ..s }
    } else {
        s
    }
}

/// The cursor goes before the cluster that it stands behind.
pub open spec fn moved_left(s: AppStateView) -> AppStateView {
    AppStateView { cursor: grapheme_before(s.input, s.cursor), ..s }
}

/// The cursor goes behind the cluster that it stands before.
pub open spec fn moved_right(s: AppStateView) -> AppStateView {
    AppStateView { cursor: grapheme_after(s.input, s.cursor), ..s }
}

/// The cursor goes to the beginning of its line.
pub open spec fn moved_home(s: AppStateView) -> AppStateView {
    AppStateView { cursor: line_start_of(s.input, s.cursor), ..s }
}

/// The cursor goes to the end of its line.
pub open spec fn moved_end(s: AppStateView) -> AppStateView {
    AppStateView { cursor: line_end_of(s.input, s.cursor), ..s }
}

/// From `s` to `t` the revision of the input tells whether the input was changed.
pub open spec fn input_revision_tells(s: AppStateView, t: AppStateView) -> bool {
    t.input_revision == if t.input == s.input {
        s.input_revision
    } else {
        next(s.input_revision)
    }
}

/// The input is taken, and the editor is empty.
pub open spec fn input_taken(s: AppStateView) -> AppStateView {
    AppStateView {
        input: Seq::empty(),
        cursor: 0,
        input_revision: next(s.input_revision),
        ..s
    }
}

/// The input is sent, and a turn begins.
pub open spec fn input_submitted(s: AppStateView) -> AppStateView {
    AppStateView {
        turn_active: true,
        last_error: None,
        last_stop_reason: None,
        ..added(
            streaming_finalized(input_taken(s)),
            plain_message(MessageRole::User, s.input, UserMessageStatus::Delivered),
        )
    }
}

/// The input waits to be delivered in the turn that runs.
pub open spec fn input_queued(s: AppStateView) -> AppStateView {
    added(
        input_taken(s),
        plain_message(MessageRole::User, s.input, UserMessageStatus::Queued),
    )
}

/// What taking the input gives and leaves: a blank input stays.
pub open spec fn taken(s: AppStateView) -> (Option<Seq<char>>, AppStateView) {
    if is_blank_text(s.input) {
        (None, s)
    } else {
        (Some(s.input), input_taken(s))
    }
}

/// What sending the input gives and leaves: in a busy session, or where it is blank, it stays.
pub open spec fn submitted(s: AppStateView) -> (Option<Seq<char>>, AppStateView) {
    if s.turn_active || s.compaction_active || is_blank_text(s.input) {
        (None, s)
    } else {
        (Some(s.input), input_submitted(s))
    }
}

/// What queueing the input gives and leaves: where no turn runs, during a compaction, or where it
/// is blank, it stays.
pub open spec fn queued(s: AppStateView) -> (Option<Seq<char>>, AppStateView) {
    if !s.turn_active || s.compaction_active || is_blank_text(s.input) {
        (None, s)
    } else {
        (Some(s.input), input_queued(s))
    }
}

/// The changes of the transcript are known, and none is pending.
pub open spec fn acknowledged(s: AppStateView) -> AppStateView {
    AppStateView { pending: Seq::empty(), ..s }
}

/// Whether a compaction runs is noted, unless a turn does.
pub open spec fn compaction_set(s: AppStateView, active: bool) -> AppStateView {
    if s.turn_active {
        s
    } else {
        AppStateView { compaction_active: active, ..s }
    }
}

impl Clone for AppState {
    fn clone(&self) -> (res: Self)
        ensures
            res.deep_view() == self.deep_view(),
            self.wf() ==> res.wf(),
    {
        let res = AppState {
            message_entry_indices: self.message_entry_indices.clone(),
            entries: self.entries.clone(),
            streaming_assistant: self.streaming_assistant.clone(),
            next_transcript_entry_id: self.next_transcript_entry_id,
            transcript_epoch: self.transcript_epoch,
            transcript_revision: self.transcript_revision,
            pending_transcript_changes: self.pending_transcript_changes.clone(),
            input: self.input.clone(),
            cursor: self.cursor,
            input_revision: self.input_revision,
            turn_active: self.turn_active,
            compaction_active: self.compaction_active,
            last_error: self.last_error.clone(),
            last_stop_reason: self.last_stop_reason,
            active_model: self.active_model.clone(),
            thinking_level: self.thinking_level,
            git_branch: self.git_branch.clone(),
            session_info: self.session_info.clone(),
            context_usage: self.context_usage,
            latest_usage: self.latest_usage,
        };
        proof {
            assert(res.message_entry_indices@ =~= self.message_entry_indices@);
            assert(res.entries.deep_view() =~~= self.entries.deep_view());
            assert(res.streaming_assistant.deep_view() =~~= self.streaming_assistant.deep_view());
            assert(res.pending_transcript_changes@ =~= self.pending_transcript_changes@);
            assert(res.last_error.deep_view() =~~= self.last_error.deep_view());
            assert(res.active_model.deep_view() =~~= self.active_model.deep_view());
            assert(res.git_branch.deep_view() =~~= self.git_branch.deep_view());
            assert(res.session_info.deep_view() =~~= self.session_info.deep_view());
        }
        res
    }
}

impl Default for AppState {
    fn default() -> (res: Self)
        ensures
            res.wf(),
            res.deep_view() == initial_state(),
    {
        AppState::new()
    }
}

impl AppState {
    /// The cursor stands at a boundary, and the messages are found among the entries.
    pub closed spec fn wf(&self) -> bool {
        &&& is_valid(self.deep_view())
        &&& self.message_entry_indices@.map_values(|i: usize| i as int) == message_indices(
            self.entries.deep_view(),
        )
    }

    /// In every state that the methods leave behind, the cursor stands between two characters of the
    /// input, or at an end of it.
    pub proof fn lemma_cursor_stands_at_a_boundary(&self)
        requires
            self.wf(),
        ensures
            is_valid(self.deep_view()),
    {
    }

    /// The state of a session that has just begun.
    pub fn new() -> (res: Self)
        ensures
            res.wf(),
            res.deep_view() == initial_state(),
    {
        let res = AppState {
            message_entry_indices: Vec::new(),
            entries: Vec::new(),
            streaming_assistant: None,
            next_transcript_entry_id: 0,
            transcript_epoch: 0,
            transcript_revision: 0,
            pending_transcript_changes: Vec::new(),
            input: String::new(),
            cursor: 0,
            input_revision: 0,
            turn_active: false,
            compaction_active: false,
            last_error: None,
            last_stop_reason: None,
            active_model: None,
            thinking_level: None,
            git_branch: None,
            session_info: None,
            context_usage: ContextUsage::default(),
            latest_usage: None,
        };
        proof {
            lemma_boundary_ends(res.input@);
            assert(res.entries.deep_view() =~= Seq::<TranscriptEntryStateView>::empty());
            assert(res.message_entry_indices@.map_values(|i: usize| i as int) =~= Seq::<
                int,
            >::empty());
        }
        res
    }

    fn mark_transcript_changed(&mut self, id: TranscriptEntryId)
        ensures
            final(self).deep_view() == marked(old(self).deep_view(), id),
            old(self).wf() ==> final(self).wf(),
    {
        self.transcript_revision = self.transcript_revision.wrapping_add(1);
        let count = self.pending_transcript_changes.len();
        if count == 0 || self.pending_transcript_changes[count - 1] != id {
            self.pending_transcript_changes.push(id);
        }
        assert(self.deep_view() =~= marked(old(self).deep_view(), id));
    }

    fn allocate_transcript_entry_id(&mut self) -> (res: TranscriptEntryId)
        ensures
            res == entry_id(next(old(self).deep_view().last_id)),
            final(self).deep_view() == (AppStateView {
                last_id: next(old(self).deep_view().last_id),
                ..old(self).deep_view()
            }),
            old(self).wf() ==> final(self).wf(),
    {
        self.next_transcript_entry_id = self.next_transcript_entry_id.wrapping_add(1);
        TranscriptEntryId::new(self.next_transcript_entry_id)
    }

    fn push_entry_with_identity(
        &mut self,
        entry: TranscriptEntry,
        id: TranscriptEntryId,
        revision: u64,
    )
        requires
            old(self).wf(),
        ensures
            final(self).wf(),
            final(self).deep_view() == pushed(
                old(self).deep_view(),
                entry.deep_view(),
                id,
                revision,
            ),
    {
        let ghost before = self.entries.deep_view();
        let ghost indices = self.message_entry_indices@;
        let ghost state = TranscriptEntryStateView { id, revision, entry: entry.deep_view() };
        let is_message = match &entry {
            TranscriptEntry::Message(_) => true,
            TranscriptEntry::Tool(_) => false,
        };
        if is_message {
            self.message_entry_indices.push(self.entries.len());
        }
        self.entries.push(TranscriptEntryState { id, revision, entry });
        proof {
            assert(self.entries.deep_view() =~= before.push(state));
            assert(before.push(state).drop_last() =~= before);
            assert(self.message_entry_indices@.map_values(|i: usize| i as int)
                =~= message_indices(before.push(state)));
        }
        self.mark_transcript_changed(id);
    }

    pub(crate) fn push_entry(&mut self, entry: TranscriptEntry)
        requires
            old(self).wf(),
        ensures
            final(self).wf(),
            final(self).deep_view() == added(old(self).deep_view(), entry.deep_view()),
    {
        let id = self.allocate_transcript_entry_id();
        self.push_entry_with_identity(entry, id, 0);
    }

    fn push_plain_message(
        &mut self,
        role: MessageRole,
        content: String,
        user_status: UserMessageStatus,
    )
        requires
            old(self).wf(),
        ensures
            final(self).wf(),
            final(self).deep_view() == added(
                old(self).deep_view(),
                plain_message(role, content@, user_status),
            ),
    {
        self.push_entry(
            TranscriptEntry::Message(
                TranscriptMessage { role, content, thinking: None, user_status },
            ),
        );
    }

    /// Puts `entry` in place of the entry at `index`, which then counts as changed.
    fn replace_entry(&mut self, index: usize, entry: TranscriptEntry)
        requires
            old(self).wf(),
            index < old(self).deep_view().entries.len(),
            old(self).deep_view().entries[index as int].entry is Message
                <==> entry.deep_view() is Message,
        ensures
            final(self).wf(),
            final(self).deep_view() == replaced(
                old(self).deep_view(),
                index as int,
                entry.deep_view(),
            ),
    {
        let ghost before = self.entries.deep_view();
        let id = self.entries[index].id;
        let revision = self.entries[index].revision.wrapping_add(1);
        self.entries[index] = TranscriptEntryState { id, revision, entry };
        proof {
            let after = before.update(
                index as int,
                TranscriptEntryStateView { id, revision, entry: entry.deep_view() },
            );
            assert(self.entries.deep_view() =~= after);
            lemma_message_indices_agree(before, after);
        }
        self.mark_transcript_changed(id);
    }

    pub(crate) fn update_oldest_queued_message(&mut self, text: String, status: UserMessageStatus)
        requires
            old(self).wf(),
        ensures
            final(self).wf(),
            final(self).deep_view() == settled(old(self).deep_view(), text@, status),
    {
        let ghost all = self.entries.deep_view();
        let mut index: usize = 0;
        while index < self.entries.len()
            invariant
                *self == *old(self),
                self.wf(),
                all == self.entries.deep_view(),
                index <= self.entries.len(),
                first_queued(all, 0) == first_queued(all, index as int),
            decreases self.entries.len() - index,
        {
            assert(all[index as int] == self.entries@[index as int].deep_view());
            if let TranscriptEntry::Message(message) = &self.entries[index].entry {
                if message.role == MessageRole::User && message.user_status
                    == UserMessageStatus::Queued {
                    let mut settled_message = message.clone();
                    settled_message.user_status = status;
                    self.replace_entry(index, TranscriptEntry::Message(settled_message));
                    return;
                }
            }
            index += 1;
        }
        self.push_plain_message(MessageRole::User, text, status);
    }

    fn start_streaming_assistant(&mut self)
        requires
            old(self).wf(),
        ensures
            final(self).wf(),
            final(self).deep_view() == streaming_started(old(self).deep_view()),
    {
        let id = self.allocate_transcript_entry_id();
        self.mark_transcript_changed(id);
        self.streaming_assistant = Some(
            StreamingAssistantState {
                id,
                revision: 0,
                content: String::new(),
                thinking: String::new(),
            },
        );
        assert(self.deep_view() =~= streaming_started(old(self).deep_view()));
    }

    fn ensure_streaming_assistant(&mut self)
        requires
            old(self).wf(),
        ensures
            final(self).wf(),
            final(self).deep_view() == streaming_ensured(old(self).deep_view()),
            final(self).deep_view().streaming is Some,
    {
        if self.streaming_assistant.is_none() {
            self.start_streaming_assistant();
        }
    }

    /// Replaces the contents of the message that comes in.
    fn change_streaming(&mut self, content: String, thinking: String)
        requires
            old(self).wf(),
            old(self).deep_view().streaming is Some,
        ensures
            final(self).wf(),
            final(self).deep_view() == streaming_changed(
                old(self).deep_view(),
                content@,
                thinking@,
            ),
    {
        if let Some(assistant) = &self.streaming_assistant {
            let id = assistant.id;
            let revision = assistant.revision.wrapping_add(1);
            self.streaming_assistant = Some(
                StreamingAssistantState { id, revision, content, thinking },
            );
            self.mark_transcript_changed(id);
            assert(self.deep_view() =~= streaming_changed(
                old(self).deep_view(),
                content@,
                thinking@,
            ));
        }
    }

    /// Copies of the content and the reasoning of the message that comes in.
    fn streamed_parts(&self) -> (res: (String, String))
        requires
            self.deep_view().streaming is Some,
        ensures
            res.0@ == self.deep_view().streaming->0.content,
            res.1@ == self.deep_view().streaming->0.thinking,
    {
        match &self.streaming_assistant {
            Some(assistant) => (assistant.content.clone(), assistant.thinking.clone()),
            None => (String::new(), String::new()),
        }
    }

    pub(crate) fn append_streaming_content(&mut self, text: &str)
        requires
            old(self).wf(),
        ensures
            final(self).wf(),
            final(self).deep_view() == content_streamed(old(self).deep_view(), text@),
    {
        if text.is_empty() {
            return;
        }
        self.ensure_streaming_assistant();
        let (content, thinking) = self.streamed_parts();
        self.change_streaming(concat(&content, text), thinking);
    }

    pub(crate) fn append_streaming_thinking(&mut self, text: &str)
        requires
            old(self).wf(),
        ensures
            final(self).wf(),
            final(self).deep_view() == thinking_streamed(old(self).deep_view(), text@),
    {
        if text.is_empty() {
            return;
        }
        self.ensure_streaming_assistant();
        let (content, thinking) = self.streamed_parts();
        self.change_streaming(content, concat(&thinking, text));
    }

    fn finalize_streaming_assistant(&mut self)
        requires
            old(self).wf(),
        ensures
            final(self).wf(),
            final(self).deep_view() == streaming_finalized(old(self).deep_view()),
    {
        let taken = self.streaming_assistant.take();
        match taken {
            None => {
                assert(self.deep_view() =~= old(self).deep_view());
            },
            Some(assistant) => {
                self.mark_transcript_changed(assistant.id);
                let has_content = !assistant.content.as_str().is_empty();
                let has_thinking = !assistant.thinking.as_str().is_empty();
                if has_content || has_thinking {
                    let thinking = if has_thinking {
                        Some(assistant.thinking)
                    } else {
                        None
                    };
                    self.push_entry_with_identity(
                        TranscriptEntry::Message(
                            TranscriptMessage {
                                role: MessageRole::Assistant,
                                content: assistant.content,
                                thinking,
                                user_status: UserMessageStatus::Delivered,
                            },
                        ),
                        assistant.id,
                        assistant.revision.wrapping_add(1),
                    );
                }
                assert(self.deep_view() =~= streaming_finalized(old(self).deep_view()));
            },
        }
    }

    /// The index of the last call `call_id`.
    fn find_call(&self, call_id: &str) -> (res: Option<usize>)
        ensures
            match res {
                Some(index) => last_call(
                    self.deep_view().entries,
                    call_id@,
                    self.deep_view().entries.len() as int,
                ) == Some(index as int) && index < self.deep_view().entries.len()
                    && self.deep_view().entries[index as int].entry is Tool,
                None => last_call(
                    self.deep_view().entries,
                    call_id@,
                    self.deep_view().entries.len() as int,
                ) is None,
            },
    {
        let ghost all = self.deep_view().entries;
        let mut end: usize = self.entries.len();
        while end > 0
            invariant
                all == self.deep_view().entries,
                end <= self.entries.len(),
                last_call(all, call_id@, all.len() as int) == last_call(
                    all,
                    call_id@,
                    end as int,
                ),
            decreases end,
        {
            assert(all[end - 1] == self.entries@[end - 1].deep_view());
            if let TranscriptEntry::Tool(tool) = &self.entries[end - 1].entry {
                if same_text(&tool.call_id, call_id) {
                    return Some(end - 1);
                }
            }
            end -= 1;
        }
        None
    }

    /// A copy of the call at `index`.
    fn call_at(&self, index: usize) -> (res: ToolTranscriptEntry)
        requires
            index < self.deep_view().entries.len(),
            self.deep_view().entries[index as int].entry is Tool,
        ensures
            res.deep_view() == self.deep_view().entries[index as int].entry->Tool_0,
    {
        assert(self.deep_view().entries[index as int] == self.entries@[index as int].deep_view());
        match &self.entries[index].entry {
            TranscriptEntry::Tool(tool) => tool.clone(),
            TranscriptEntry::Message(_) => {
                assert(false);
                vstd::pervasive::unreached()
            },
        }
    }
}

/// How a call is shown; where its arguments are no JSON, by its name and their text.
fn tool_call_presentation(name: &str, arguments: &str) -> (res: ToolCallPresentation)
    ensures
        res.deep_view() == call_presentation(name@, arguments@),
{
    match JsonValue::parse(arguments) {
        Ok(value) => presentation(name, &value),
        Err(_) => ToolCallPresentation { summary: name.to_owned(), preview: preview_of(arguments) },
    }
}

/// A call that has just begun.
pub(crate) fn new_call(call_id: String, name: String, arguments: &str) -> (res: ToolTranscriptEntry)
    ensures
        res.deep_view() == running_call(call_id@, name@, arguments@),
{
    let shown = tool_call_presentation(&name, arguments);
    let res = ToolTranscriptEntry {
        call_id,
        name,
        summary: shown.summary,
        preview: shown.preview,
        output: String::new(),
        output_chunks: Vec::new(),
        output_truncated: false,
        status: ToolStatus::Running,
    };
    assert(res.output_chunks.deep_view() =~= Seq::<ToolOutputChunkView>::empty());
    res
}

/// The text of the first item that has one.
fn find_content(items: &Vec<ModelAssistantItem>) -> (res: String)
    ensures
        res@ == first_content(items.deep_view()),
{
    let ghost all = items.deep_view();
    let mut i: usize = 0;
    assert(all.skip(0) =~= all);
    while i < items.len()
        invariant
            i <= items.len(),
            all == items.deep_view(),
            first_content(all) == first_content(all.skip(i as int)),
        decreases items.len() - i,
    {
        proof {
            assert(all.skip(i as int)[0] == items@[i as int].deep_view());
            assert(all.skip(i as int).drop_first() =~= all.skip(i + 1));
        }
        match &items[i] {
            ModelAssistantItem::Text { content } => {
                return content.clone();
            },
            ModelAssistantItem::Refusal { content } => {
                return content.clone();
            },
            _ => {},
        }
        i += 1;
    }
    String::new()
}

/// The first reasoning that is not empty.
fn find_thinking(items: &Vec<ModelAssistantItem>) -> (res: String)
    ensures
        res@ == first_thinking(items.deep_view()),
{
    let ghost all = items.deep_view();
    let mut i: usize = 0;
    assert(all.skip(0) =~= all);
    while i < items.len()
        invariant
            i <= items.len(),
            all == items.deep_view(),
            first_thinking(all) == first_thinking(all.skip(i as int)),
        decreases items.len() - i,
    {
        proof {
            assert(all.skip(i as int)[0] == items@[i as int].deep_view());
            assert(all.skip(i as int).drop_first() =~= all.skip(i + 1));
        }
        if let ModelAssistantItem::Reasoning(thinking) = &items[i] {
            if !thinking.content.as_str().is_empty() {
                return thinking.content.clone();
            }
        }
        i += 1;
    }
    String::new()
}

/// The texts of the items, one after the other.
fn join_content(items: &Vec<ModelAssistantItem>) -> (res: String)
    ensures
        res@ == joined_content(items.deep_view()),
{
    let ghost all = items.deep_view();
    let mut joined = String::new();
    let mut i: usize = 0;
    assert(all.take(0) =~= Seq::<ModelAssistantItemView>::empty());
    while i < items.len()
        invariant
            i <= items.len(),
            all == items.deep_view(),
            joined@ == joined_content(all.take(i as int)),
        decreases items.len() - i,
    {
        proof {
            assert(all.take(i + 1).last() == items@[i as int].deep_view());
            assert(all.take(i + 1).drop_last() =~= all.take(i as int));
        }
        match &items[i] {
            ModelAssistantItem::Text { content } => joined.append(content),
            ModelAssistantItem::Refusal { content } => joined.append(content),
            _ => {},
        }
        i += 1;
    }
    assert(all.take(i as int) =~= all);
    joined
}

/// The reasoning of the items, one after the other.
fn join_thinking(items: &Vec<ModelAssistantItem>) -> (res: String)
    ensures
        res@ == joined_thinking(items.deep_view()),
{
    let ghost all = items.deep_view();
    let mut joined = String::new();
    let mut i: usize = 0;
    assert(all.take(0) =~= Seq::<ModelAssistantItemView>::empty());
    while i < items.len()
        invariant
            i <= items.len(),
            all == items.deep_view(),
            joined@ == joined_thinking(all.take(i as int)),
        decreases items.len() - i,
    {
        proof {
            assert(all.take(i + 1).last() == items@[i as int].deep_view());
            assert(all.take(i + 1).drop_last() =~= all.take(i as int));
        }
        if let ModelAssistantItem::Reasoning(thinking) = &items[i] {
            if thinking.content.as_str().is_empty() {
                joined.append(&thinking.summary);
            } else {
                joined.append(&thinking.content);
            }
        }
        i += 1;
    }
    assert(all.take(i as int) =~= all);
    joined
}

impl AppState {
    fn append_calls(&mut self, items: &Vec<ModelAssistantItem>)
        requires
            old(self).wf(),
        ensures
            final(self).wf(),
            final(self).deep_view() == calls_added(old(self).deep_view(), items.deep_view()),
    {
        let ghost all = items.deep_view();
        let ghost start = self.deep_view();
        let mut i: usize = 0;
        assert(all.take(0) =~= Seq::<ModelAssistantItemView>::empty());
        while i < items.len()
            invariant
                self.wf(),
                i <= items.len(),
                all == items.deep_view(),
                self.deep_view() == calls_added(start, all.take(i as int)),
            decreases items.len() - i,
        {
            proof {
                assert(all.take(i + 1).last() == items@[i as int].deep_view());
                assert(all.take(i + 1).drop_last() =~= all.take(i as int));
            }
            if let ModelAssistantItem::ToolCall(call) = &items[i] {
                if let (Some(call_id), Some(name)) = (&call.call_id, &call.name) {
                    let entry = new_call(call_id.clone(), name.clone(), &call.arguments);
                    self.push_entry(TranscriptEntry::Tool(entry));
                }
            }
            i += 1;
        }
        assert(all.take(i as int) =~= all);
    }

    fn append_semantic_message(&mut self, message: &ModelMessage)
        requires
            old(self).wf(),
        ensures
            final(self).wf(),
            final(self).deep_view() == history_added(old(self).deep_view(), message.deep_view()),
    {
        match message {
            ModelMessage::User { content } => {
                self.push_plain_message(
                    MessageRole::User,
                    content.clone(),
                    UserMessageStatus::Delivered,
                );
            },
            ModelMessage::Assistant { items } => {
                let content = join_content(items);
                let thinking = join_thinking(items);
                let has_thinking = !thinking.as_str().is_empty();
                if !content.as_str().is_empty() || has_thinking {
                    let thinking = if has_thinking {
                        Some(thinking)
                    } else {
                        None
                    };
                    self.push_entry(
                        TranscriptEntry::Message(
                            TranscriptMessage {
                                role: MessageRole::Assistant,
                                content,
                                thinking,
                                user_status: UserMessageStatus::Delivered,
                            },
                        ),
                    );
                }
                self.append_calls(items);
            },
            ModelMessage::ToolResult { tool_call_id, tool_name, content } => {
                match self.find_call(tool_call_id) {
                    Some(index) => {
                        let mut tool = self.call_at(index);
                        settle_historical_call(&mut tool, content);
                        self.replace_entry(index, TranscriptEntry::Tool(tool));
                    },
                    None => {
                        let mut tool = ToolTranscriptEntry {
                            call_id: tool_call_id.clone(),
                            name: tool_name.clone(),
                            summary: tool_name.clone(),
                            preview: Vec::new(),
                            output: String::new(),
                            output_chunks: Vec::new(),
                            output_truncated: false,
                            status: ToolStatus::Running,
                        };
                        proof {
                            assert(tool.preview.deep_view() =~= Seq::<
                                ToolPreviewLineView,
                            >::empty());
                            assert(tool.output_chunks.deep_view() =~= Seq::<
                                ToolOutputChunkView,
                            >::empty());
                        }
                        settle_historical_call(&mut tool, content);
                        self.push_entry(TranscriptEntry::Tool(tool));
                    },
                }
            },
            _ => {},
        }
    }

    /// The transcript becomes that of `history`.
    pub fn replace_history(&mut self, history: &[ModelMessage])
        requires
            old(self).wf(),
        ensures
            final(self).wf(),
            final(self).deep_view() == history_replaced(
                old(self).deep_view(),
                history.deep_view(),
            ),
    {
        self.transcript_epoch = self.transcript_epoch.wrapping_add(1);
        self.pending_transcript_changes = Vec::new();
        self.message_entry_indices = Vec::new();
        self.entries = Vec::new();
        self.streaming_assistant = None;
        self.input = String::new();
        self.cursor = 0;
        self.input_revision = self.input_revision.wrapping_add(1);
        self.turn_active = false;
        self.compaction_active = false;
        self.last_error = None;
        self.last_stop_reason = None;
        self.context_usage.input_tokens = None;
        self.context_usage.estimated_input_tokens = 0;
        self.context_usage.source = UsageSource::Estimated;
        self.latest_usage = None;
        let ghost start = emptied(old(self).deep_view());
        let ghost all = history.deep_view();
        proof {
            lemma_boundary_ends(self.input@);
            assert(self.message_entry_indices@.map_values(|i: usize| i as int) =~= Seq::<
                int,
            >::empty());
            assert(self.entries.deep_view() =~= Seq::<TranscriptEntryStateView>::empty());
            assert(self.deep_view() =~= start);
            assert(all.take(0) =~= Seq::<ModelMessageView>::empty());
        }
        let mut i: usize = 0;
        while i < history.len()
            invariant
                self.wf(),
                i <= history.len(),
                all == history.deep_view(),
                self.deep_view() == histories_added(start, all.take(i as int)),
            decreases history.len() - i,
        {
            proof {
                assert(all.take(i + 1).last() == history@[i as int].deep_view());
                assert(all.take(i + 1).drop_last() =~= all.take(i as int));
            }
            self.append_semantic_message(&history[i]);
            i += 1;
        }
        assert(all.take(i as int) =~= all);
        self.pending_transcript_changes = Vec::new();
        assert(self.deep_view() =~= history_replaced(old(self).deep_view(), all));
    }

    /// Takes the limits of a model over.
    pub fn set_context_limits(&mut self, limits: ModelLimits)
        requires
            old(self).wf(),
        ensures
            final(self).wf(),
            final(self).deep_view() == limits_set(old(self).deep_view(), limits),
    {
        self.context_usage.context_window = limits.context_window;
        self.context_usage.max_output_tokens = limits.max_output_tokens;
        self.context_usage.input_tokens = None;
        self.context_usage.source = UsageSource::Estimated;
    }

    pub(crate) fn recover_messages(&mut self, messages: Vec<String>)
        requires
            old(self).wf(),
        ensures
            final(self).wf(),
            final(self).deep_view() == recovered(old(self).deep_view(), messages.deep_view()),
    {
        let ghost all = messages.deep_view();
        let ghost start = self.deep_view();
        let mut i: usize = 0;
        assert(all.take(0) =~= Seq::<Seq<char>>::empty());
        while i < messages.len()
            invariant
                self.wf(),
                i <= messages.len(),
                all == messages.deep_view(),
                self.deep_view() == recovered(start, all.take(i as int)),
            decreases messages.len() - i,
        {
            proof {
                assert(all.take(i + 1).last() == messages@[i as int]@);
                assert(all.take(i + 1).drop_last() =~= all.take(i as int));
            }
            self.update_oldest_queued_message(messages[i].clone(), UserMessageStatus::Recovered);
            i += 1;
        }
        assert(all.take(i as int) =~= all);
    }

    pub(crate) fn finish_message(&mut self, items: Vec<ModelAssistantItem>)
        requires
            old(self).wf(),
        ensures
            final(self).wf(),
            final(self).deep_view() == message_finished(
                old(self).deep_view(),
                items.deep_view(),
            ),
    {
        let fallback_content = find_content(&items);
        let fallback_thinking = find_thinking(&items);
        self.ensure_streaming_assistant();
        let (mut content, mut thinking) = self.streamed_parts();
        let mut changed = false;
        if content.as_str().is_empty() && !fallback_content.as_str().is_empty() {
            content = fallback_content;
            changed = true;
        }
        if thinking.as_str().is_empty() && !fallback_thinking.as_str().is_empty() {
            thinking = fallback_thinking;
            changed = true;
        }
        proof {
            let message = self.deep_view().streaming->0;
            let c = if message.content.len() == 0 {
                first_content(items.deep_view())
            } else {
                message.content
            };
            let t = if message.thinking.len() == 0 {
                first_thinking(items.deep_view())
            } else {
                message.thinking
            };
            assert(content@ =~= c);
            assert(thinking@ =~= t);
            assert(changed <==> !(c == message.content && t == message.thinking));
        }
        if changed {
            self.change_streaming(content, thinking);
        }
        self.finalize_streaming_assistant();
    }

    pub(crate) fn take_refusal(&mut self, content: String)
        requires
            old(self).wf(),
        ensures
            final(self).wf(),
            final(self).deep_view() == refusal_given(old(self).deep_view(), content@),
    {
        self.ensure_streaming_assistant();
        let (current, thinking) = self.streamed_parts();
        if current.as_str().is_empty() && !content.as_str().is_empty() {
            self.change_streaming(content, thinking);
        }
    }

    pub(crate) fn take_output(&mut self, call_id: &str, stream: ToolOutputStream, chunk: &str)
        requires
            old(self).wf(),
        ensures
            final(self).wf(),
            final(self).deep_view() == output_given(
                old(self).deep_view(),
                call_id@,
                stream,
                chunk@,
            ),
    {
        if let Some(index) = self.find_call(call_id) {
            if !chunk.is_empty() {
                let mut tool = self.call_at(index);
                append_tool_output(&mut tool, chunk);
                append_tool_output_chunk(&mut tool, Some(stream), chunk);
                self.replace_entry(index, TranscriptEntry::Tool(tool));
            }
        }
    }

    pub(crate) fn begin_turn(&mut self)
        requires
            old(self).wf(),
        ensures
            final(self).wf(),
            final(self).deep_view() == reduced(old(self).deep_view(), AgentEventView::TurnStarted),
    {
        self.turn_active = true;
        self.last_error = None;
        self.last_stop_reason = None;
    }

    pub(crate) fn start_message(&mut self)
        requires
            old(self).wf(),
        ensures
            final(self).wf(),
            final(self).deep_view() == streaming_started(
                streaming_finalized(old(self).deep_view()),
            ),
    {
        self.finalize_streaming_assistant();
        self.start_streaming_assistant();
    }

    pub(crate) fn finish_call(&mut self, call_id: &str, result: ToolExecutionResult)
        requires
            old(self).wf(),
        ensures
            final(self).wf(),
            final(self).deep_view() == call_finished(
                old(self).deep_view(),
                call_id@,
                result.deep_view(),
            ),
    {
        if let Some(index) = self.find_call(call_id) {
            let mut tool = self.call_at(index);
            settle_call(&mut tool, &result.model_content, result.metadata);
            self.replace_entry(index, TranscriptEntry::Tool(tool));
        }
    }

    pub(crate) fn finish_turn(&mut self, reason: StopReason)
        requires
            old(self).wf(),
        ensures
            final(self).wf(),
            final(self).deep_view() == (AppStateView {
                turn_active: false,
                last_stop_reason: Some(reason),
                ..old(self).deep_view()
            }),
    {
        self.turn_active = false;
        self.last_stop_reason = Some(reason);
    }

    pub(crate) fn begin_compaction(&mut self)
        requires
            old(self).wf(),
        ensures
            final(self).wf(),
            final(self).deep_view() == (AppStateView {
                compaction_active: true,
                last_error: None,
                ..old(self).deep_view()
            }),
    {
        self.compaction_active = true;
        self.last_error = None;
    }

    pub(crate) fn finish_compaction(&mut self, before_tokens: u64, after_tokens: u64)
        requires
            old(self).wf(),
        ensures
            final(self).wf(),
            final(self).deep_view() == system_added(
                AppStateView { compaction_active: false, ..old(self).deep_view() },
                compaction_message(before_tokens, after_tokens),
            ),
    {
        self.compaction_active = false;
        let mut content = concat3(
            "context compacted · ~",
            &compact_token_count(before_tokens),
            " → ~",
        );
        content.append(&compact_token_count(after_tokens));
        content.append(" tokens");
        self.push_plain_message(MessageRole::System, content, UserMessageStatus::Delivered);
    }

    pub(crate) fn fail_compaction(&mut self, message: String)
        requires
            old(self).wf(),
        ensures
            final(self).wf(),
            final(self).deep_view() == system_added(
                AppStateView {
                    compaction_active: false,
                    last_error: Some(message@),
                    ..old(self).deep_view()
                },
                message@,
            ),
    {
        self.compaction_active = false;
        self.last_error = Some(message.clone());
        self.push_plain_message(MessageRole::System, message, UserMessageStatus::Delivered);
    }

    pub(crate) fn note_usage(&mut self, usage: Usage)
        requires
            old(self).wf(),
        ensures
            final(self).wf(),
            final(self).deep_view() == reduced(
                old(self).deep_view(),
                AgentEventView::UsageUpdated(usage),
            ),
    {
        self.latest_usage = Some(usage);
        if let Some(input_tokens) = usage.input_tokens {
            self.context_usage.input_tokens = Some(input_tokens);
            self.context_usage.source = UsageSource::Provider;
        }
    }

    pub(crate) fn note_context_usage(&mut self, usage: ContextUsage)
        requires
            old(self).wf(),
        ensures
            final(self).wf(),
            final(self).deep_view() == (AppStateView {
                context_usage: usage,
                ..old(self).deep_view()
            }),
    {
        self.context_usage = usage;
    }

    pub(crate) fn change_model(&mut self, model: ModelRef)
        requires
            old(self).wf(),
        ensures
            final(self).wf(),
            final(self).deep_view() == reduced(
                old(self).deep_view(),
                AgentEventView::ModelChanged(model.deep_view()),
            ),
    {
        self.active_model = Some(model);
        self.context_usage.input_tokens = None;
        self.context_usage.source = UsageSource::Estimated;
    }

    pub(crate) fn load_session(&mut self, info: SessionInfo, history: Vec<ModelMessage>)
        requires
            old(self).wf(),
        ensures
            final(self).wf(),
            final(self).deep_view() == history_replaced(
                AppStateView { session_info: Some(info.deep_view()), ..old(self).deep_view() },
                history.deep_view(),
            ),
    {
        self.session_info = Some(info);
        let messages = history.as_slice();
        assert(messages.deep_view() =~= history.deep_view());
        self.replace_history(messages);
    }

    pub(crate) fn report_error(&mut self, message: String)
        requires
            old(self).wf(),
        ensures
            final(self).wf(),
            final(self).deep_view() == system_added(
                AppStateView { last_error: Some(message@), ..old(self).deep_view() },
                "error: "@ + message@,
            ),
    {
        let content = concat("error: ", &message);
        self.last_error = Some(message);
        self.push_plain_message(MessageRole::System, content, UserMessageStatus::Delivered);
    }
}

/// Settles a call of a history with its result.
fn settle_historical_call(tool: &mut ToolTranscriptEntry, content: &str)
    ensures
        final(tool).deep_view() == historical_call(old(tool).deep_view(), content@),
{
    tool.output = String::new();
    tool.output_chunks = Vec::new();
    tool.output_truncated = false;
    assert(tool.output_chunks.deep_view() =~= Seq::<ToolOutputChunkView>::empty());
    append_tool_output(tool, content);
    append_tool_output_chunk(tool, None, content);
    tool.status = ToolStatus::Finished(ToolExecutionMetadata::success());
}

/// Settles a call with its result.
fn settle_call(tool: &mut ToolTranscriptEntry, content: &str, metadata: ToolExecutionMetadata)
    ensures
        final(tool).deep_view() == finished_call(
            old(tool).deep_view(),
            ToolExecutionResultView { model_content: content@, metadata },
        ),
{
    let live_output_truncated = tool.output_truncated;
    tool.output = String::new();
    tool.output_truncated = false;
    append_tool_output(tool, content);
    if tool.output_chunks.len() == 0 {
        append_tool_output_chunk(tool, None, content);
    }
    if live_output_truncated || metadata.truncated {
        tool.output_truncated = true;
    }
    tool.status = ToolStatus::Finished(metadata);
}

impl AppState {
    /// Inserts `text` at the cursor, which then stands behind it.
    pub fn insert_text(&mut self, text: &str)
        requires
            old(self).wf(),
            utf8_len(old(self).deep_view().input) + utf8_len(text@) <= usize::MAX,
        ensures
            final(self).wf(),
            final(self).deep_view() == text_inserted(old(self).deep_view(), text@),
            input_revision_tells(old(self).deep_view(), final(self).deep_view()),
    {
        if text.is_empty() {
            return;
        }
        proof {
            lemma_split(self.input@, self.cursor as int);
        }
        let parts = split_text(&self.input, self.cursor);
        let before = concat(parts.0, text);
        let input = concat(&before, parts.1);
        proof {
            lemma_boundary_of_parts(before@, parts.1@);
            lemma_utf8_len_concat(parts.0@, text@);
        }
        self.cursor = byte_len(&before);
        self.input = input;
        self.input_revision = self.input_revision.wrapping_add(1);
    }

    /// Replaces the input; the cursor goes to its end.
    pub fn set_input(&mut self, text: String)
        requires
            old(self).wf(),
        ensures
            final(self).wf(),
            final(self).deep_view() == input_set(old(self).deep_view(), text@),
            input_revision_tells(old(self).deep_view(), final(self).deep_view()),
    {
        if same_text(&self.input, &text) {
            return;
        }
        self.cursor = byte_len(&text);
        proof {
            lemma_boundary_ends(text@);
            assert(text@ + Seq::<char>::empty() =~= text@);
        }
        self.input = text;
        self.input_revision = self.input_revision.wrapping_add(1);
    }

    /// Inserts a line break at the cursor.
    pub fn insert_newline(&mut self)
        requires
            old(self).wf(),
            utf8_len(old(self).deep_view().input) < usize::MAX,
        ensures
            final(self).wf(),
            final(self).deep_view() == newline_inserted(old(self).deep_view()),
            input_revision_tells(old(self).deep_view(), final(self).deep_view()),
    {
        proof {
            reveal_strlit("\n");
            assert("\n"@ =~= seq!['\n']);
            crate::text::lemma_utf8_len_single('\n');
        }
        self.insert_text("\n");
    }

    /// Removes the cluster before the cursor.
    pub fn backspace(&mut self)
        requires
            old(self).wf(),
        ensures
            final(self).wf(),
            final(self).deep_view() == backspaced(old(self).deep_view()),
            input_revision_tells(old(self).deep_view(), final(self).deep_view()),
    {
        if self.cursor == 0 {
            return;
        }
        let previous = previous_grapheme_boundary(&self.input, self.cursor);
        let before = split_text(&self.input, previous).0;
        let after = split_text(&self.input, self.cursor).1;
        let input = concat(before, after);
        proof {
            lemma_boundary_of_parts(before@, after@);
            lemma_split(self.input@, previous as int);
            lemma_split(self.input@, self.cursor as int);
            lemma_utf8_len_concat(before@, after@);
        }
        self.cursor = previous;
        self.input = input;
        self.input_revision = self.input_revision.wrapping_add(1);
    }

    /// Removes the cluster after the cursor.
    pub fn delete(&mut self)
        requires
            old(self).wf(),
        ensures
            final(self).wf(),
            final(self).deep_view() == deleted(old(self).deep_view()),
            input_revision_tells(old(self).deep_view(), final(self).deep_view()),
    {
        if self.cursor == byte_len(&self.input) {
            return;
        }
        let following = next_grapheme_boundary(&self.input, self.cursor);
        let before = split_text(&self.input, self.cursor).0;
        let after = split_text(&self.input, following).1;
        let input = concat(before, after);
        proof {
            lemma_boundary_of_parts(before@, after@);
            lemma_split(self.input@, self.cursor as int);
            lemma_split(self.input@, following as int);
            lemma_utf8_len_concat(before@, after@);
        }
        self.input = input;
        self.input_revision = self.input_revision.wrapping_add(1);
    }

    /// Moves the cursor, where there is a boundary at that offset.
    pub fn set_cursor(&mut self, cursor: usize)
        requires
            old(self).wf(),
        ensures
            final(self).wf(),
            final(self).deep_view() == cursor_set(old(self).deep_view(), cursor as int),
            input_revision_tells(old(self).deep_view(), final(self).deep_view()),
    {
        if is_boundary(&self.input, cursor) {
            self.cursor = cursor;
        }
    }

    /// Moves the cursor before the cluster that it stands behind.
    pub fn move_left(&mut self)
        requires
            old(self).wf(),
        ensures
            final(self).wf(),
            final(self).deep_view() == moved_left(old(self).deep_view()),
            input_revision_tells(old(self).deep_view(), final(self).deep_view()),
    {
        self.cursor = previous_grapheme_boundary(&self.input, self.cursor);
    }

    /// Moves the cursor behind the cluster that it stands before.
    pub fn move_right(&mut self)
        requires
            old(self).wf(),
        ensures
            final(self).wf(),
            final(self).deep_view() == moved_right(old(self).deep_view()),
            input_revision_tells(old(self).deep_view(), final(self).deep_view()),
    {
        self.cursor = next_grapheme_boundary(&self.input, self.cursor);
    }

    /// Moves the cursor to the beginning of its line.
    pub fn move_home(&mut self)
        requires
            old(self).wf(),
        ensures
            final(self).wf(),
            final(self).deep_view() == moved_home(old(self).deep_view()),
            input_revision_tells(old(self).deep_view(), final(self).deep_view()),
    {
        self.cursor = line_start(&self.input, self.cursor);
    }

    /// Moves the cursor to the end of its line.
    pub fn move_end(&mut self)
        requires
            old(self).wf(),
        ensures
            final(self).wf(),
            final(self).deep_view() == moved_end(old(self).deep_view()),
            input_revision_tells(old(self).deep_view(), final(self).deep_view()),
    {
        self.cursor = line_end(&self.input, self.cursor);
    }

    /// Takes the input out of the editor, unless it is blank.
    pub fn take_input(&mut self) -> (res: Option<String>)
        requires
            old(self).wf(),
        ensures
            final(self).wf(),
            (res.deep_view(), final(self).deep_view()) == taken(old(self).deep_view()),
            input_revision_tells(old(self).deep_view(), final(self).deep_view()),
    {
        if is_blank(&self.input) {
            return None;
        }
        let text = self.input.clone();
        self.input = String::new();
        self.cursor = 0;
        self.input_revision = self.input_revision.wrapping_add(1);
        proof {
            lemma_boundary_ends(self.input@);
        }
        Some(text)
    }

    /// Sends the input, unless the session is busy or the input is blank.
    pub fn submit_input(&mut self) -> (res: Option<String>)
        requires
            old(self).wf(),
        ensures
            final(self).wf(),
            (res.deep_view(), final(self).deep_view()) == submitted(old(self).deep_view()),
            input_revision_tells(old(self).deep_view(), final(self).deep_view()),
    {
        if self.is_busy() {
            return None;
        }
        match self.take_input() {
            None => None,
            Some(text) => {
                self.finalize_streaming_assistant();
                self.push_plain_message(
                    MessageRole::User,
                    text.clone(),
                    UserMessageStatus::Delivered,
                );
                self.turn_active = true;
                self.last_error = None;
                self.last_stop_reason = None;
                Some(text)
            },
        }
    }

    /// Lets the input wait for delivery in the turn that runs, unless it is blank.
    pub fn queue_input(&mut self) -> (res: Option<String>)
        requires
            old(self).wf(),
        ensures
            final(self).wf(),
            (res.deep_view(), final(self).deep_view()) == queued(old(self).deep_view()),
            input_revision_tells(old(self).deep_view(), final(self).deep_view()),
    {
        if !self.turn_active || self.compaction_active {
            return None;
        }
        match self.take_input() {
            None => None,
            Some(text) => {
                self.push_plain_message(
                    MessageRole::User,
                    text.clone(),
                    UserMessageStatus::Queued,
                );
                Some(text)
            },
        }
    }

    /// Adds a message of the system.
    pub fn add_system_message(&mut self, content: &str)
        requires
            old(self).wf(),
        ensures
            final(self).wf(),
            final(self).deep_view() == system_added(old(self).deep_view(), content@),
    {
        self.push_plain_message(
            MessageRole::System,
            content.to_owned(),
            UserMessageStatus::Delivered,
        );
    }
}

impl AppState {
    /// The messages of the transcript.
    pub fn messages(&self) -> (res: TranscriptMessages<'_>)
        requires
            self.wf(),
        ensures
            res.wf(),
            res.messages() == messages_of(self.deep_view().entries),
    {
        let entries = self.entries.as_slice();
        assert(entries.deep_view() =~= self.entries.deep_view());
        TranscriptMessages::new(entries, self.message_entry_indices.as_slice())
    }

    /// The entries of the transcript, in order.
    pub fn transcript_entries(&self) -> (res: &[TranscriptEntryState])
        ensures
            res.deep_view() == self.deep_view().entries,
    {
        let entries = self.entries.as_slice();
        assert(entries.deep_view() =~= self.entries.deep_view());
        entries
    }

    /// How often the transcript was replaced.
    pub fn transcript_epoch(&self) -> (res: u64)
        ensures
            res == self.deep_view().epoch,
    {
        self.transcript_epoch
    }

    /// How often the transcript was changed.
    pub fn transcript_revision(&self) -> (res: u64)
        ensures
            res == self.deep_view().revision,
    {
        self.transcript_revision
    }

    /// The entries that were changed and not yet acknowledged.
    pub fn pending_transcript_changes(&self) -> (res: &[TranscriptEntryId])
        ensures
            res@ == self.deep_view().pending,
    {
        self.pending_transcript_changes.as_slice()
    }

    /// Forgets which entries changed.
    pub fn acknowledge_transcript_changes(&mut self)
        requires
            old(self).wf(),
        ensures
            final(self).wf(),
            final(self).deep_view() == acknowledged(old(self).deep_view()),
    {
        self.pending_transcript_changes = Vec::new();
    }

    /// The message of the assistant that comes in.
    pub fn streaming_assistant_state(&self) -> (res: Option<&StreamingAssistantState>)
        ensures
            res.deep_view() == self.deep_view().streaming,
    {
        self.streaming_assistant.as_ref()
    }

    /// The content and the reasoning of the message that comes in.
    pub fn streaming_assistant(&self) -> (res: Option<(&str, &str)>)
        ensures
            match (res, self.deep_view().streaming) {
                (Some((content, thinking)), Some(message)) => content@ == message.content
                    && thinking@ == message.thinking,
                (None, None) => true,
                _ => false,
            },
    {
        match &self.streaming_assistant {
            Some(assistant) => Some((assistant.content.as_str(), assistant.thinking.as_str())),
            None => None,
        }
    }

    /// The text that is being written.
    pub fn input(&self) -> (res: &str)
        ensures
            res@ == self.deep_view().input,
    {
        self.input.as_str()
    }

    /// The byte offset of the cursor in the input: where one of its characters begins, or its end.
    pub fn cursor(&self) -> (res: usize)
        ensures
            res == self.deep_view().cursor,
            self.wf() ==> at_boundary(self.deep_view().input, res as int),
            self.wf() ==> res <= utf8_len(self.deep_view().input),
    {
        proof {
            if self.wf() {
                lemma_split(self.input@, self.cursor as int);
            }
        }
        self.cursor
    }

    /// How often the input was changed.
    pub fn input_revision(&self) -> (res: u64)
        ensures
            res == self.deep_view().input_revision,
    {
        self.input_revision
    }

    /// Whether a turn runs.
    pub fn is_turn_active(&self) -> (res: bool)
        ensures
            res == self.deep_view().turn_active,
    {
        self.turn_active
    }

    /// Whether a compaction runs.
    pub fn is_compaction_active(&self) -> (res: bool)
        ensures
            res == self.deep_view().compaction_active,
    {
        self.compaction_active
    }

    /// Notes whether a compaction runs, unless a turn does.
    pub fn set_compaction_active(&mut self, active: bool)
        requires
            old(self).wf(),
        ensures
            final(self).wf(),
            final(self).deep_view() == compaction_set(old(self).deep_view(), active),
    {
        if !self.turn_active {
            self.compaction_active = active;
        }
    }

    /// Whether a turn or a compaction runs.
    pub fn is_busy(&self) -> (res: bool)
        ensures
            res == (self.deep_view().turn_active || self.deep_view().compaction_active),
    {
        self.turn_active || self.compaction_active
    }

    /// The message of the last error.
    pub fn last_error(&self) -> (res: Option<&str>)
        ensures
            res.deep_view() == self.deep_view().last_error,
    {
        match &self.last_error {
            Some(message) => Some(message.as_str()),
            None => None,
        }
    }

    /// How the last turn ended.
    pub fn last_stop_reason(&self) -> (res: Option<&StopReason>)
        ensures
            match res {
                Some(reason) => self.deep_view().last_stop_reason == Some(*reason),
                None => self.deep_view().last_stop_reason is None,
            },
    {
        self.last_stop_reason.as_ref()
    }

    /// The model that is spoken to.
    pub fn active_model(&self) -> (res: Option<&ModelRef>)
        ensures
            res.deep_view() == self.deep_view().active_model,
    {
        self.active_model.as_ref()
    }

    /// How much the model is to think.
    pub fn thinking_level(&self) -> (res: Option<ThinkingLevel>)
        ensures
            res == self.deep_view().thinking_level,
    {
        self.thinking_level
    }

    /// Sets how much the model is to think.
    pub fn set_thinking_level(&mut self, level: Option<ThinkingLevel>)
        requires
            old(self).wf(),
        ensures
            final(self).wf(),
            final(self).deep_view() == (AppStateView {
                thinking_level: level,
                ..old(self).deep_view()
            }),
    {
        self.thinking_level = level;
    }

    /// The branch of the workspace.
    pub fn git_branch(&self) -> (res: Option<&str>)
        ensures
            res.deep_view() == self.deep_view().git_branch,
    {
        match &self.git_branch {
            Some(branch) => Some(branch.as_str()),
            None => None,
        }
    }

    /// Sets the branch of the workspace.
    pub fn set_git_branch(&mut self, branch: Option<String>)
        requires
            old(self).wf(),
        ensures
            final(self).wf(),
            final(self).deep_view() == (AppStateView {
                git_branch: branch.deep_view(),
                ..old(self).deep_view()
            }),
    {
        self.git_branch = branch;
    }

    /// What is known of the session.
    pub fn session_info(&self) -> (res: Option<&SessionInfo>)
        ensures
            res.deep_view() == self.deep_view().session_info,
    {
        self.session_info.as_ref()
    }

    /// Sets what is known of the session.
    pub fn set_session_info(&mut self, info: Option<SessionInfo>)
        requires
            old(self).wf(),
        ensures
            final(self).wf(),
            final(self).deep_view() == (AppStateView {
                session_info: info.deep_view(),
                ..old(self).deep_view()
            }),
    {
        self.session_info = info;
    }

    /// How much of the context is in use.
    pub fn context_usage(&self) -> (res: ContextUsage)
        ensures
            res == self.deep_view().context_usage,
    {
        self.context_usage
    }

    /// The tokens that the provider counted last.
    pub fn latest_usage(&self) -> (res: Option<&Usage>)
        ensures
            match res {
                Some(usage) => self.deep_view().latest_usage == Some(*usage),
                None => self.deep_view().latest_usage is None,
            },
    {
        self.latest_usage.as_ref()
    }
}

} // verus!
