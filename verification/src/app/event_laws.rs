//! What a session shows of what happens in it, and what its editor makes of what is typed.

use crate::agent::event::{AgentErrorView, AgentEventView};
use crate::app::counts::compact_count;
use crate::app::graphemes::{is_plain, last_line};
use crate::app::output::{
    chunks_len, lemma_output_tail, output_after, output_tail, ToolOutputChunkView, ToolStatus,
    TOOL_OUTPUT_MARKER,
};
use crate::app::state::{
    acknowledged, backspaced, calls_added, compaction_set, cursor_set, deleted, emptied,
    first_content, first_queued, first_thinking, histories_added, history_replaced, input_set,
    joined_content, joined_thinking, last_call, moved_end, moved_home, moved_left, moved_right,
    newline_inserted, queued, recovered, reduced, submitted, taken, text_inserted, AppStateView,
};
use crate::app::transcript::{
    MessageRole, TranscriptEntryStateView, TranscriptEntryView, TranscriptMessageView,
    UserMessageStatus,
};
use crate::config::ModelRefView;
use crate::context::accounting::{ContextUsage, UsageSource};
use crate::json::json_parsed;
use crate::model::message::{
    ModelAssistantItemView, ModelLimits, ModelMessageView, StopReason, Usage,
};
use crate::session::SessionInfoView;
use crate::text::{
    at_boundary, is_blank_text, lemma_boundary_of_parts, lemma_char_width, lemma_first_index_is,
    lemma_prefix_within, lemma_suffix_within, lemma_suffix_within_is, lemma_utf8_len_concat,
    lemma_utf8_len_empty, prefix_within, suffix_within, utf8_len,
};
use crate::tools::{plain_preview, presentation_of, ToolExecutionResultView, ToolOutputStream};
use vstd::prelude::*;
use vstd::utf8::is_ascii_chars;

verus! {

/// The transcript has one entry more, behind the others, and they are as they were.
pub open spec fn gained(
    before: AppStateView,
    after: AppStateView,
    entry: TranscriptEntryView,
) -> bool {
    &&& after.entries.len() == before.entries.len() + 1
    &&& after.entries.drop_last() == before.entries
    &&& after.entries.last().entry == entry
}

/// One entry has changed, and the others are as they were.
pub open spec fn changed(
    before: AppStateView,
    after: AppStateView,
    at: int,
    entry: TranscriptEntryView,
) -> bool {
    &&& after.entries.len() == before.entries.len()
    &&& 0 <= at < before.entries.len()
    &&& after.entries[at].entry == entry
    &&& after.entries[at].id == before.entries[at].id
    &&& forall|i: int|
        0 <= i < before.entries.len() && i != at ==> #[trigger] after.entries[i]
            == before.entries[i]
}

/// What is typed, and whether something runs, is as it was.
pub open spec fn editor_stays(before: AppStateView, after: AppStateView) -> bool {
    &&& after.input == before.input
    &&& after.cursor == before.cursor
    &&& after.turn_active == before.turn_active
    &&& after.compaction_active == before.compaction_active
    &&& after.last_stop_reason == before.last_stop_reason
}

/// A message of the user, an assistant or the program.
pub open spec fn said_by(
    role: MessageRole,
    content: Seq<char>,
    user_status: UserMessageStatus,
) -> TranscriptEntryView {
    TranscriptEntryView::Message(
        TranscriptMessageView { role, content, thinking: None, user_status },
    )
}

/// A turn is shown as running from its start to its end, and its end with its reason.
pub proof fn lemma_turns_are_shown(s: AppStateView, reason: StopReason)
    ensures
        reduced(s, AgentEventView::TurnStarted) == (AppStateView {
            turn_active: true,
            last_error: None,
            last_stop_reason: None,
            ..s
        }),
        reduced(s, AgentEventView::TurnFinished { reason }) == (AppStateView {
            turn_active: false,
            last_stop_reason: Some(reason),
            ..s
        }),
{
}

/// Whether the entry is a message of the user that waits.
pub open spec fn waits(entry: TranscriptEntryView) -> bool {
    entry is Message && entry->Message_0.role == MessageRole::User && entry->Message_0.user_status
        == UserMessageStatus::Queued
}

/// A steering message that was delivered is the oldest that waits; where none waits, it is shown
/// as what the user said. So it is with one that was given back.
pub proof fn lemma_steering_messages_are_shown(s: AppStateView, text: Seq<char>, at: int)
    ensures
        0 <= at < s.entries.len() && waits(s.entries[at].entry) && (forall|i: int|
            0 <= i < at ==> !waits((#[trigger] s.entries[i]).entry)) ==> changed(
            s,
            reduced(s, AgentEventView::SteeringMessageDelivered { text }),
            at,
            TranscriptEntryView::Message(
                TranscriptMessageView {
                    user_status: UserMessageStatus::Delivered,
                    ..s.entries[at].entry->Message_0
                },
            ),
        ) && changed(
            s,
            reduced(s, AgentEventView::SteeringMessagesRecovered { messages: seq![text] }),
            at,
            TranscriptEntryView::Message(
                TranscriptMessageView {
                    user_status: UserMessageStatus::Recovered,
                    ..s.entries[at].entry->Message_0
                },
            ),
        ),
        (forall|i: int| 0 <= i < s.entries.len() ==> !waits((#[trigger] s.entries[i]).entry))
            ==> gained(
            s,
            reduced(s, AgentEventView::SteeringMessageDelivered { text }),
            said_by(MessageRole::User, text, UserMessageStatus::Delivered),
        ) && gained(
            s,
            reduced(s, AgentEventView::SteeringMessagesRecovered { messages: seq![text] }),
            said_by(MessageRole::User, text, UserMessageStatus::Recovered),
        ),
        editor_stays(s, reduced(s, AgentEventView::SteeringMessageDelivered { text })),
{
    assert(seq![text].drop_last() =~= Seq::<Seq<char>>::empty());
    assert(recovered(s, seq![text].drop_last()) == s);
    let none = forall|i: int|
        0 <= i < s.entries.len() ==> !waits((#[trigger] s.entries[i]).entry);
    if none {
        lemma_none_waits(s.entries, 0, s.entries.len() as int);
        let delivered = reduced(s, AgentEventView::SteeringMessageDelivered { text });
        assert(delivered.entries.drop_last() =~= s.entries);
        let back = reduced(s, AgentEventView::SteeringMessagesRecovered { messages: seq![text] });
        assert(back.entries.drop_last() =~= s.entries);
    }
    if 0 <= at < s.entries.len() && waits(s.entries[at].entry) && (forall|i: int|
        0 <= i < at ==> !waits((#[trigger] s.entries[i]).entry)) {
        lemma_none_waits(s.entries, 0, at);
    }
}

proof fn lemma_none_waits(entries: Seq<TranscriptEntryStateView>, from: int, at: int)
    requires
        0 <= from <= at <= entries.len(),
        forall|i: int| from <= i < at ==> !waits((#[trigger] entries[i]).entry),
    ensures
        first_queued(entries, from) == first_queued(entries, at),
    decreases at - from,
{
    if from < at {
        lemma_none_waits(entries, from + 1, at);
    }
}

/// Messages that were given back are shown one after the other.
pub proof fn lemma_recovered_messages_are_shown_in_order(
    s: AppStateView,
    messages: Seq<Seq<char>>,
    text: Seq<char>,
)
    ensures
        reduced(s, AgentEventView::SteeringMessagesRecovered { messages: messages.push(text) })
            == reduced(
            reduced(s, AgentEventView::SteeringMessagesRecovered { messages }),
            AgentEventView::SteeringMessagesRecovered { messages: seq![text] },
        ),
        reduced(s, AgentEventView::SteeringMessagesRecovered { messages: Seq::empty() }) == s,
{
    assert(messages.push(text).drop_last() =~= messages);
    let t = recovered(s, messages);
    assert(seq![text].drop_last() =~= Seq::<Seq<char>>::empty());
    assert(recovered(t, seq![text].drop_last()) == t);
}

/// What was streamed so far.
pub open spec fn streamed(s: AppStateView) -> (Seq<char>, Seq<char>) {
    match s.streaming {
        Some(message) => (message.content, message.thinking),
        None => (Seq::empty(), Seq::empty()),
    }
}

/// Pieces of an answer are shown as they come, each behind those before it: text and refusals as
/// what is said, thinking beside it.
pub proof fn lemma_pieces_are_shown_as_they_come(
    s: AppStateView,
    index: Option<usize>,
    item_id: Option<Seq<char>>,
    text: Seq<char>,
)
    ensures
        streamed(reduced(s, AgentEventView::AssistantTextDelta { index, text })) == (
            streamed(s).0 + text,
            streamed(s).1,
        ),
        streamed(reduced(s, AgentEventView::AssistantRefusalDelta { index, text })) == (
            streamed(s).0 + text,
            streamed(s).1,
        ),
        streamed(reduced(s, AgentEventView::AssistantThinkingDelta { item_id, text })) == (
            streamed(s).0,
            streamed(s).1 + text,
        ),
        reduced(s, AgentEventView::AssistantTextDelta { index, text }).entries == s.entries,
        reduced(s, AgentEventView::AssistantThinkingDelta { item_id, text }).entries == s.entries,
        editor_stays(s, reduced(s, AgentEventView::AssistantTextDelta { index, text })),
        editor_stays(s, reduced(s, AgentEventView::AssistantThinkingDelta { item_id, text })),
        editor_stays(s, reduced(s, AgentEventView::AssistantRefusalDelta { index, text })),
{
    let (content, thinking) = streamed(s);
    assert(content + Seq::<char>::empty() =~= content);
    assert(thinking + Seq::<char>::empty() =~= thinking);
    if text.len() == 0 {
        assert(text =~= Seq::<char>::empty());
    }
}

/// A new answer begins with nothing, and what was streamed before it is kept as a message.
pub proof fn lemma_answers_begin_with_nothing(s: AppStateView)
    ensures
        ({
            let t = reduced(s, AgentEventView::AssistantMessageStarted);
            let (content, thinking) = streamed(s);
            &&& t.streaming is Some
            &&& streamed(t) == (Seq::<char>::empty(), Seq::<char>::empty())
            &&& editor_stays(s, t)
            &&& content.len() == 0 && thinking.len() == 0 ==> t.entries == s.entries
            &&& content.len() > 0 || thinking.len() > 0 ==> gained(
                s,
                t,
                answer(content, thinking),
            )
        }),
{
    let t = reduced(s, AgentEventView::AssistantMessageStarted);
    if streamed(s).0.len() > 0 || streamed(s).1.len() > 0 {
        assert(t.entries.drop_last() =~= s.entries);
    }
}

/// A message of an assistant.
pub open spec fn answer(content: Seq<char>, thinking: Seq<char>) -> TranscriptEntryView {
    TranscriptEntryView::Message(
        TranscriptMessageView {
            role: MessageRole::Assistant,
            content,
            thinking: if thinking.len() == 0 {
                None
            } else {
                Some(thinking)
            },
            user_status: UserMessageStatus::Delivered,
        },
    )
}

/// An answer that is over is kept as a message: what was streamed of it, or, where nothing was,
/// what its items say first.
pub proof fn lemma_finished_answers_are_kept(
    s: AppStateView,
    items: Seq<ModelAssistantItemView>,
)
    ensures
        ({
            let t = reduced(s, AgentEventView::AssistantMessageFinished { items });
            let content = if streamed(s).0.len() > 0 {
                streamed(s).0
            } else {
                first_content(items)
            };
            let thinking = if streamed(s).1.len() > 0 {
                streamed(s).1
            } else {
                first_thinking(items)
            };
            &&& t.streaming is None
            &&& editor_stays(s, t)
            &&& content.len() == 0 && thinking.len() == 0 ==> t.entries == s.entries
            &&& content.len() > 0 || thinking.len() > 0 ==> gained(
                s,
                t,
                answer(content, thinking),
            )
        }),
{
    let t = reduced(s, AgentEventView::AssistantMessageFinished { items });
    let content = if streamed(s).0.len() > 0 {
        streamed(s).0
    } else {
        first_content(items)
    };
    let thinking = if streamed(s).1.len() > 0 {
        streamed(s).1
    } else {
        first_thinking(items)
    };
    if content.len() > 0 || thinking.len() > 0 {
        assert(t.entries.drop_last() =~= s.entries);
    }
    if streamed(s).0.len() == 0 && first_content(items).len() == 0 {
        assert(first_content(items) =~= streamed(s).0);
    }
    if streamed(s).1.len() == 0 && first_thinking(items).len() == 0 {
        assert(first_thinking(items) =~= streamed(s).1);
    }
}

/// What items say first is the content of the first text or refusal among them.
pub proof fn lemma_the_first_text_is_what_is_said(
    item: ModelAssistantItemView,
    rest: Seq<ModelAssistantItemView>,
)
    ensures
        item matches ModelAssistantItemView::Text { content } ==> first_content(seq![item] + rest)
            == content,
        item matches ModelAssistantItemView::Refusal { content } ==> first_content(
            seq![item] + rest,
        ) == content,
        item is Reasoning || item is ToolCall ==> first_content(seq![item] + rest)
            == first_content(rest),
        item matches ModelAssistantItemView::Reasoning(thinking) ==> first_thinking(
            seq![item] + rest,
        ) == if thinking.content.len() > 0 {
            thinking.content
        } else {
            first_thinking(rest)
        },
        !(item is Reasoning) ==> first_thinking(seq![item] + rest) == first_thinking(rest),
{
    assert((seq![item] + rest).drop_first() =~= rest);
}

/// A refusal is shown where nothing was said before it.
pub proof fn lemma_refusals_are_shown(s: AppStateView, index: usize, content: Seq<char>)
    ensures
        streamed(s).0.len() == 0 ==> streamed(
            reduced(s, AgentEventView::AssistantRefusalItem { index, content: Some(content) }),
        ) == (content, streamed(s).1),
        streamed(s).0.len() > 0 ==> reduced(
            s,
            AgentEventView::AssistantRefusalItem { index, content: Some(content) },
        ) == s,
        reduced(s, AgentEventView::AssistantRefusalItem { index, content: None }) == s,
{
    if streamed(s).0.len() == 0 && content.len() == 0 {
        assert(content =~= streamed(s).0);
    }
}

/// A call that has begun is shown as running, under its identity and its name, with what it was
/// asked to do and no output.
pub proof fn lemma_calls_are_shown_as_running(
    s: AppStateView,
    call_id: Seq<char>,
    name: Seq<char>,
    arguments: Seq<char>,
)
    ensures
        ({
            let t = reduced(
                s,
                AgentEventView::ToolExecutionStarted { call_id, name, arguments },
            );
            &&& editor_stays(s, t)
            &&& t.entries.len() == s.entries.len() + 1
            &&& t.entries.drop_last() == s.entries
            &&& t.entries.last().entry matches TranscriptEntryView::Tool(tool)
            &&& tool.call_id == call_id
            &&& tool.name == name
            &&& tool.status == ToolStatus::Running
            &&& tool.output.len() == 0
            &&& tool.output_chunks.len() == 0
            &&& !tool.output_truncated
            &&& json_parsed(arguments) matches Ok(json) ==> tool.summary == presentation_of(
                name,
                json,
            ).summary && tool.preview == presentation_of(name, json).preview
            &&& json_parsed(arguments) is Err ==> tool.summary == name && tool.preview
                == plain_preview(arguments)
        }),
{
    let t = reduced(s, AgentEventView::ToolExecutionStarted { call_id, name, arguments });
    assert(t.entries.drop_last() =~= s.entries);
}

/// Whether the entry is the newest call of this identity.
pub open spec fn is_newest_call(
    entries: Seq<TranscriptEntryStateView>,
    call_id: Seq<char>,
    at: int,
) -> bool {
    &&& 0 <= at < entries.len()
    &&& entries[at].entry matches TranscriptEntryView::Tool(tool) && tool.call_id == call_id
    &&& forall|i: int|
        at < i < entries.len() ==> !((#[trigger] entries[i]).entry matches
            TranscriptEntryView::Tool(tool) && tool.call_id == call_id)
}

proof fn lemma_newest_call_is_found(
    entries: Seq<TranscriptEntryStateView>,
    call_id: Seq<char>,
    at: int,
    end: int,
)
    requires
        is_newest_call(entries, call_id, at),
        at < end <= entries.len(),
    ensures
        last_call(entries, call_id, end) == Some(at),
    decreases end,
{
    if end - 1 > at {
        assert(!(entries[end - 1].entry matches TranscriptEntryView::Tool(tool) && tool.call_id
            == call_id));
        lemma_newest_call_is_found(entries, call_id, at, end - 1);
    }
}

/// Output goes to the call that it is of, the newest of its identity, behind what there is, as
/// long as it is not too much; it is kept with the stream that it came from.
pub proof fn lemma_output_goes_to_its_call(
    s: AppStateView,
    call_id: Seq<char>,
    stream: ToolOutputStream,
    chunk: Seq<char>,
    at: int,
)
    requires
        is_newest_call(s.entries, call_id, at),
        chunk.len() > 0,
    ensures
        ({
            let t = reduced(
                s,
                AgentEventView::ToolExecutionOutput { call_id, stream, chunk },
            );
            let tool = s.entries[at].entry->Tool_0;
            &&& editor_stays(s, t)
            &&& t.entries[at].entry matches TranscriptEntryView::Tool(now)
            &&& changed(s, t, at, TranscriptEntryView::Tool(now))
            &&& now.call_id == call_id
            &&& now.name == tool.name
            &&& now.status == tool.status
            &&& !tool.output_truncated && utf8_len(tool.output) + utf8_len(chunk) <= 262_144
                ==> now.output == tool.output + chunk && !now.output_truncated
            &&& !tool.output_truncated && utf8_len(tool.output) + utf8_len(chunk) > 262_144
                ==> now.output_truncated
            &&& tool.output_truncated ==> now.output_truncated
            &&& chunks_len(tool.output_chunks) + utf8_len(chunk) <= 262_144 ==> {
                let pieces = now.output_chunks;
                &&& pieces.len() > 0
                &&& pieces.last().stream == Some(stream)
                &&& tool.output_chunks.len() > 0 && tool.output_chunks.last().stream == Some(stream)
                    ==> pieces.drop_last() == tool.output_chunks.drop_last() && pieces.last().text
                    == tool.output_chunks.last().text + chunk
                &&& tool.output_chunks.len() == 0 || tool.output_chunks.last().stream != Some(
                    stream,
                ) ==> pieces.drop_last() == tool.output_chunks && pieces.last().text == chunk
            }
        }),
{
    lemma_newest_call_is_found(s.entries, call_id, at, s.entries.len() as int);
    let tool = s.entries[at].entry->Tool_0;
    let pieces = tool.output_chunks;
    if pieces.len() > 0 && pieces.last().stream == Some(stream) {
        let joined = pieces.drop_last().push(
            ToolOutputChunkView { stream: Some(stream), text: pieces.last().text + chunk },
        );
        assert(joined.drop_last() =~= pieces.drop_last());
        lemma_utf8_len_concat(pieces.last().text, chunk);
        assert(chunks_len(joined) == chunks_len(pieces) + utf8_len(chunk));
    } else {
        let joined = pieces.push(ToolOutputChunkView { stream: Some(stream), text: chunk });
        assert(joined.drop_last() =~= pieces);
        assert(chunks_len(joined) == chunks_len(pieces) + utf8_len(chunk));
    }
}

/// Output and results of a call that is not shown change nothing.
pub proof fn lemma_unknown_calls_change_nothing(
    s: AppStateView,
    call_id: Seq<char>,
    name: Seq<char>,
    stream: ToolOutputStream,
    chunk: Seq<char>,
    result: ToolExecutionResultView,
)
    requires
        forall|i: int|
            0 <= i < s.entries.len() ==> !((#[trigger] s.entries[i]).entry matches
                TranscriptEntryView::Tool(tool) && tool.call_id == call_id),
    ensures
        reduced(s, AgentEventView::ToolExecutionOutput { call_id, stream, chunk }) == s,
        reduced(s, AgentEventView::ToolExecutionFinished { call_id, name, result }) == s,
{
    lemma_no_call_is_found(s.entries, call_id, s.entries.len() as int);
}

proof fn lemma_no_call_is_found(
    entries: Seq<TranscriptEntryStateView>,
    call_id: Seq<char>,
    end: int,
)
    requires
        0 <= end <= entries.len(),
        forall|i: int|
            0 <= i < entries.len() ==> !((#[trigger] entries[i]).entry matches
                TranscriptEntryView::Tool(tool) && tool.call_id == call_id),
    ensures
        last_call(entries, call_id, end) is None,
    decreases end,
{
    if end > 0 {
        assert(!(entries[end - 1].entry matches TranscriptEntryView::Tool(tool) && tool.call_id
            == call_id));
        lemma_no_call_is_found(entries, call_id, end - 1);
    }
}

/// A call that is over is shown with its result in the place of its output, and with how it ended;
/// the pieces that came in are kept, and where none did, the result is one.
pub proof fn lemma_results_are_shown(
    s: AppStateView,
    call_id: Seq<char>,
    name: Seq<char>,
    result: ToolExecutionResultView,
    at: int,
)
    requires
        is_newest_call(s.entries, call_id, at),
    ensures
        ({
            let t = reduced(
                s,
                AgentEventView::ToolExecutionFinished { call_id, name, result },
            );
            let tool = s.entries[at].entry->Tool_0;
            &&& editor_stays(s, t)
            &&& t.entries[at].entry matches TranscriptEntryView::Tool(now)
            &&& changed(s, t, at, TranscriptEntryView::Tool(now))
            &&& now.call_id == call_id
            &&& now.name == tool.name
            &&& now.summary == tool.summary
            &&& now.preview == tool.preview
            &&& now.status == ToolStatus::Finished(result.metadata)
            &&& utf8_len(result.model_content) <= 262_144 ==> now.output == result.model_content
            &&& utf8_len(result.model_content) <= 262_144 ==> (now.output_truncated
                <==> tool.output_truncated || result.metadata.truncated)
            &&& tool.output_chunks.len() > 0 ==> now.output_chunks == tool.output_chunks
            &&& tool.output_chunks.len() == 0 && 0 < result.model_content.len() && utf8_len(
                result.model_content,
            ) <= 262_144 ==> now.output_chunks == seq![
                ToolOutputChunkView { stream: None, text: result.model_content },
            ]
        }),
{
    lemma_newest_call_is_found(s.entries, call_id, at, s.entries.len() as int);
    lemma_utf8_len_empty();
    let tool = s.entries[at].entry->Tool_0;
    let text = result.model_content;
    assert(Seq::<char>::empty() + text =~= text);
    if text.len() == 0 {
        assert(text =~= Seq::<char>::empty());
    }
    if tool.output_chunks.len() == 0 && text.len() > 0 {
        let joined = tool.output_chunks.push(ToolOutputChunkView { stream: None, text });
        assert(joined =~= seq![ToolOutputChunkView { stream: None, text }]);
        assert(joined.drop_last() =~= Seq::<ToolOutputChunkView>::empty());
        assert(chunks_len(joined.drop_last()) == 0);
        assert(chunks_len(joined) == utf8_len(text));
    }
}

/// A compaction is shown as running from its start to its end, and its end with how much was left;
/// a failure is shown as what went wrong.
pub proof fn lemma_compactions_are_shown(
    s: AppStateView,
    automatic: bool,
    before_tokens: u64,
    after_tokens: u64,
    message: Seq<char>,
)
    ensures
        reduced(s, AgentEventView::CompactionStarted { automatic }) == (AppStateView {
            compaction_active: true,
            last_error: None,
            ..s
        }),
        ({
            let t = reduced(
                s,
                AgentEventView::CompactionFinished { automatic, before_tokens, after_tokens },
            );
            &&& !t.compaction_active
            &&& t.turn_active == s.turn_active
            &&& t.last_error == s.last_error
            &&& gained(
                s,
                t,
                said_by(
                    MessageRole::System,
                    "context compacted · ~"@ + compact_count(before_tokens) + " → ~"@
                        + compact_count(after_tokens) + " tokens"@,
                    UserMessageStatus::Delivered,
                ),
            )
        }),
        ({
            let t = reduced(s, AgentEventView::CompactionFailed { message });
            &&& !t.compaction_active
            &&& t.turn_active == s.turn_active
            &&& t.last_error == Some(message)
            &&& gained(s, t, said_by(MessageRole::System, message, UserMessageStatus::Delivered))
        }),
{
    let t = reduced(
        s,
        AgentEventView::CompactionFinished { automatic, before_tokens, after_tokens },
    );
    assert(t.entries.drop_last() =~= s.entries);
    let u = reduced(s, AgentEventView::CompactionFailed { message });
    assert(u.entries.drop_last() =~= s.entries);
}

/// An error is shown as one, and remembered.
pub proof fn lemma_errors_are_shown(s: AppStateView, message: Seq<char>)
    ensures
        ({
            let t = reduced(s, AgentEventView::Error(AgentErrorView { message }));
            &&& t.last_error == Some(message)
            &&& editor_stays(s, t)
            &&& gained(
                s,
                t,
                said_by(MessageRole::System, "error: "@ + message, UserMessageStatus::Delivered),
            )
        }),
{
    let t = reduced(s, AgentEventView::Error(AgentErrorView { message }));
    assert(t.entries.drop_last() =~= s.entries);
}

/// What a provider has counted goes before an estimate until the model or its limits change.
pub proof fn lemma_counted_tokens_are_shown(
    s: AppStateView,
    usage: Usage,
    estimate: ContextUsage,
    limits: ModelLimits,
    model: ModelRefView,
)
    ensures
        reduced(s, AgentEventView::UsageUpdated(usage)).latest_usage == Some(usage),
        usage.input_tokens matches Some(tokens) ==> reduced(
            s,
            AgentEventView::UsageUpdated(usage),
        ).context_usage == (ContextUsage {
            input_tokens: Some(tokens),
            source: UsageSource::Provider,
            ..s.context_usage
        }),
        usage.input_tokens is None ==> reduced(s, AgentEventView::UsageUpdated(usage)).context_usage
            == s.context_usage,
        reduced(s, AgentEventView::ContextUsageUpdated(estimate)) == (AppStateView {
            context_usage: estimate,
            ..s
        }),
        ({
            let t = reduced(s, AgentEventView::ContextLimitsUpdated(limits));
            &&& t == (AppStateView { context_usage: t.context_usage, ..s })
            &&& t.context_usage.context_window == limits.context_window
            &&& t.context_usage.max_output_tokens == limits.max_output_tokens
            &&& t.context_usage.input_tokens is None
            &&& t.context_usage.source == UsageSource::Estimated
            &&& t.context_usage.estimated_input_tokens == s.context_usage.estimated_input_tokens
        }),
        ({
            let t = reduced(s, AgentEventView::ModelChanged(model));
            &&& t == (AppStateView {
                active_model: Some(model),
                context_usage: t.context_usage,
                ..s
            })
            &&& t.context_usage == (ContextUsage {
                input_tokens: None,
                source: UsageSource::Estimated,
                ..s.context_usage
            })
        }),
{
}

/// A session that was changed is shown under its new name; events that say what other events have
/// shown change nothing.
pub proof fn lemma_other_events_change_nothing(
    s: AppStateView,
    info: SessionInfoView,
    event: AgentEventView,
)
    ensures
        reduced(s, AgentEventView::SessionChanged { info }) == (AppStateView {
            session_info: Some(info),
            ..s
        }),
        event is AssistantTextItem || event is AssistantThinkingItem || event
            is AssistantThinkingContentDelta || event is ToolCallDelta ==> reduced(s, event) == s,
{
}

/// A session that was loaded is shown in the place of the one before: what was typed, what ran and
/// what went wrong is gone, and its messages are shown.
pub proof fn lemma_loaded_sessions_take_the_place(
    s: AppStateView,
    info: SessionInfoView,
    history: Seq<ModelMessageView>,
)
    ensures
        ({
            let t = reduced(s, AgentEventView::SessionLoaded { info, history });
            &&& t.session_info == Some(info)
            &&& t == history_replaced(AppStateView { session_info: Some(info), ..s }, history)
            &&& t.input.len() == 0
            &&& t.cursor == 0
            &&& !t.turn_active
            &&& !t.compaction_active
            &&& t.last_error is None
            &&& t.last_stop_reason is None
            &&& t.latest_usage is None
            &&& t.streaming is None
            &&& t.pending.len() == 0
            &&& t.active_model == s.active_model
            &&& t.thinking_level == s.thinking_level
            &&& t.git_branch == s.git_branch
            &&& t.context_usage.input_tokens is None
            &&& t.context_usage.estimated_input_tokens == 0
            &&& t.context_usage.context_window == s.context_usage.context_window
        }),
        history_replaced(s, Seq::empty()).entries.len() == 0,
{
    lemma_histories_keep(emptied(AppStateView { session_info: Some(info), ..s }), history);
}

proof fn lemma_histories_keep(s: AppStateView, messages: Seq<ModelMessageView>)
    ensures
        ({
            let t = histories_added(s, messages);
            &&& t.session_info == s.session_info
            &&& t.input == s.input
            &&& t.cursor == s.cursor
            &&& t.turn_active == s.turn_active
            &&& t.compaction_active == s.compaction_active
            &&& t.last_error == s.last_error
            &&& t.last_stop_reason == s.last_stop_reason
            &&& t.latest_usage == s.latest_usage
            &&& t.streaming == s.streaming
            &&& t.active_model == s.active_model
            &&& t.thinking_level == s.thinking_level
            &&& t.git_branch == s.git_branch
            &&& t.context_usage == s.context_usage
        }),
    decreases messages.len(),
{
    if messages.len() > 0 {
        let before = histories_added(s, messages.drop_last());
        lemma_histories_keep(s, messages.drop_last());
        if let ModelMessageView::Assistant { items } = messages.last() {
            lemma_calls_keep(before, items);
            let content = joined_content(items);
            let thinking = joined_thinking(items);
            let told = crate::app::state::added(
                before,
                TranscriptEntryView::Message(
                    TranscriptMessageView {
                        role: MessageRole::Assistant,
                        content,
                        thinking: crate::app::state::nonempty(thinking),
                        user_status: UserMessageStatus::Delivered,
                    },
                ),
            );
            lemma_calls_keep(told, items);
        }
    }
}

proof fn lemma_calls_keep(s: AppStateView, items: Seq<ModelAssistantItemView>)
    ensures
        ({
            let t = calls_added(s, items);
            &&& t == (AppStateView {
                entries: t.entries,
                last_id: t.last_id,
                revision: t.revision,
                pending: t.pending,
                ..s
            })
        }),
    decreases items.len(),
{
    if items.len() > 0 {
        lemma_calls_keep(s, items.drop_last());
    }
}

/// What was said in a session that is loaded is shown in order: a message of the user as one, an
/// answer as all its texts together, with its thinking, and the result of a call with the call.
pub proof fn lemma_histories_are_shown(
    s: AppStateView,
    messages: Seq<ModelMessageView>,
    content: Seq<char>,
    items: Seq<ModelAssistantItemView>,
)
    ensures
        gained(
            history_replaced(s, messages),
            history_replaced(s, messages.push(ModelMessageView::User { content })),
            said_by(MessageRole::User, content, UserMessageStatus::Delivered),
        ),
        (forall|i: int| 0 <= i < items.len() ==> !((#[trigger] items[i]) is ToolCall)) ==> {
            let before = history_replaced(s, messages);
            let after = history_replaced(s, messages.push(ModelMessageView::Assistant { items }));
            let (said, thought) = (joined_content(items), joined_thinking(items));
            &&& said.len() == 0 && thought.len() == 0 ==> after.entries == before.entries
            &&& said.len() > 0 || thought.len() > 0 ==> gained(before, after, answer(said, thought))
        },
        history_replaced(s, messages.push(ModelMessageView::System { content })).entries
            == history_replaced(s, messages).entries,
        history_replaced(s, messages.push(ModelMessageView::Developer { content })).entries
            == history_replaced(s, messages).entries,
{
    let user = messages.push(ModelMessageView::User { content });
    let reply = messages.push(ModelMessageView::Assistant { items });
    let before = history_replaced(s, messages);
    assert(user.drop_last() =~= messages);
    assert(reply.drop_last() =~= messages);
    assert(messages.push(ModelMessageView::System { content }).drop_last() =~= messages);
    assert(messages.push(ModelMessageView::Developer { content }).drop_last() =~= messages);
    assert(history_replaced(s, user).entries.drop_last() =~= before.entries);
    if forall|i: int| 0 <= i < items.len() ==> !((#[trigger] items[i]) is ToolCall) {
        let base = histories_added(emptied(s), messages);
        lemma_no_calls_are_added(base, items);
        let (said, thought) = (joined_content(items), joined_thinking(items));
        let told = crate::app::state::added(base, answer(said, thought));
        lemma_no_calls_are_added(told, items);
        if said.len() > 0 || thought.len() > 0 {
            assert(history_replaced(s, reply).entries.drop_last() =~= before.entries);
        }
    }
}

proof fn lemma_no_calls_are_added(s: AppStateView, items: Seq<ModelAssistantItemView>)
    requires
        forall|i: int| 0 <= i < items.len() ==> !((#[trigger] items[i]) is ToolCall),
    ensures
        calls_added(s, items) == s,
    decreases items.len(),
{
    if items.len() > 0 {
        let rest = items.drop_last();
        assert forall|i: int| 0 <= i < rest.len() implies !((#[trigger] rest[i]) is ToolCall) by {
            assert(rest[i] == items[i]);
        }
        assert(!(items[items.len() - 1] is ToolCall));
        lemma_no_calls_are_added(s, rest);
    }
}

/// What an answer says is all its texts and refusals, in order; what it thought is all its
/// thinking, or the summary where that is all there is.
pub proof fn lemma_texts_of_an_answer_are_joined(
    items: Seq<ModelAssistantItemView>,
    item: ModelAssistantItemView,
)
    ensures
        joined_content(Seq::<ModelAssistantItemView>::empty()).len() == 0,
        joined_thinking(Seq::<ModelAssistantItemView>::empty()).len() == 0,
        item matches ModelAssistantItemView::Text { content } ==> joined_content(items.push(item))
            == joined_content(items) + content,
        item matches ModelAssistantItemView::Refusal { content } ==> joined_content(
            items.push(item),
        ) == joined_content(items) + content,
        item is Reasoning || item is ToolCall ==> joined_content(items.push(item))
            == joined_content(items),
        item matches ModelAssistantItemView::Reasoning(thinking) ==> joined_thinking(
            items.push(item),
        ) == joined_thinking(items) + if thinking.content.len() == 0 {
            thinking.summary
        } else {
            thinking.content
        },
        !(item is Reasoning) ==> joined_thinking(items.push(item)) == joined_thinking(items),
{
    assert(items.push(item).drop_last() =~= items);
}

/// A call of an answer that is loaded is shown under its identity and its name.
pub proof fn lemma_loaded_calls_are_shown(
    s: AppStateView,
    items: Seq<ModelAssistantItemView>,
    item: ModelAssistantItemView,
)
    ensures
        item matches ModelAssistantItemView::ToolCall(call) ==> call.call_id is Some && call.name
            is Some ==> {
            let before = calls_added(s, items);
            let after = calls_added(s, items.push(item));
            &&& after.entries.len() == before.entries.len() + 1
            &&& after.entries.drop_last() == before.entries
            &&& after.entries.last().entry matches TranscriptEntryView::Tool(tool)
            &&& tool.call_id == call.call_id->0
            &&& tool.name == call.name->0
        },
        !(item is ToolCall) ==> calls_added(s, items.push(item)) == calls_added(s, items),
        calls_added(s, Seq::empty()) == s,
{
    assert(items.push(item).drop_last() =~= items);
    if let ModelAssistantItemView::ToolCall(call) = item {
        if call.call_id is Some && call.name is Some {
            assert(calls_added(s, items.push(item)).entries.drop_last() =~= calls_added(
                s,
                items,
            ).entries);
        }
    }
}

/// The result of a call that is loaded is shown as the output of the call, which ended well; where
/// there is no such call, one is shown.
pub proof fn lemma_loaded_results_are_shown(
    s: AppStateView,
    messages: Seq<ModelMessageView>,
    tool_call_id: Seq<char>,
    tool_name: Seq<char>,
    content: Seq<char>,
    at: int,
)
    requires
        utf8_len(content) <= 262_144,
    ensures
        ({
            let before = history_replaced(s, messages);
            let after = history_replaced(
                s,
                messages.push(
                    ModelMessageView::ToolResult { tool_call_id, tool_name, content },
                ),
            );
            &&& is_newest_call(before.entries, tool_call_id, at) ==> {
                &&& after.entries[at].entry matches TranscriptEntryView::Tool(now)
                &&& changed(before, after, at, TranscriptEntryView::Tool(now))
                &&& now.call_id == tool_call_id
                &&& now.output == content
                &&& now.status is Finished
                &&& now.status->0.success
            }
            &&& (forall|i: int|
                0 <= i < before.entries.len() ==> !((#[trigger] before.entries[i]).entry matches
                    TranscriptEntryView::Tool(tool) && tool.call_id == tool_call_id)) ==> {
                &&& after.entries.len() == before.entries.len() + 1
                &&& after.entries.drop_last() == before.entries
                &&& after.entries.last().entry matches TranscriptEntryView::Tool(now)
                &&& now.call_id == tool_call_id
                &&& now.name == tool_name
                &&& now.output == content
                &&& now.status is Finished
            }
        }),
{
    let all = messages.push(ModelMessageView::ToolResult { tool_call_id, tool_name, content });
    let before = history_replaced(s, messages);
    assert(all.drop_last() =~= messages);
    lemma_utf8_len_empty();
    assert(Seq::<char>::empty() + content =~= content);
    if content.len() == 0 {
        assert(content =~= Seq::<char>::empty());
    }
    if is_newest_call(before.entries, tool_call_id, at) {
        lemma_newest_call_is_found(
            before.entries,
            tool_call_id,
            at,
            before.entries.len() as int,
        );
    }
    if forall|i: int|
        0 <= i < before.entries.len() ==> !((#[trigger] before.entries[i]).entry matches
            TranscriptEntryView::Tool(tool) && tool.call_id == tool_call_id) {
        lemma_no_call_is_found(before.entries, tool_call_id, before.entries.len() as int);
        assert(history_replaced(s, all).entries.drop_last() =~= before.entries);
    }
}

/// What is typed goes in at the cursor, and the cursor behind it.
pub proof fn lemma_typed_text_goes_in_at_the_cursor(
    s: AppStateView,
    left: Seq<char>,
    right: Seq<char>,
    text: Seq<char>,
)
    requires
        s.input == left + right,
        s.cursor == utf8_len(left),
    ensures
        ({
            let t = text_inserted(s, text);
            &&& t.input == left + text + right
            &&& t.cursor == utf8_len(left + text)
            &&& t.entries == s.entries
        }),
        ({
            let t = newline_inserted(s);
            &&& t.input == left + seq!['\n'] + right
            &&& t.cursor == utf8_len(left + seq!['\n'])
        }),
{
    lemma_boundary_of_parts(left, right);
    reveal_strlit("\n");
    assert("\n"@ =~= seq!['\n']);
    if text.len() == 0 {
        assert(left + text + right =~= left + right);
        assert(left + text =~= left);
    }
}

/// Backspace takes the character before the cursor away, and delete the one behind it, in a text
/// whose characters stand for themselves; at the ends of the text they take nothing.
pub proof fn lemma_characters_are_taken_away(
    s: AppStateView,
    left: Seq<char>,
    right: Seq<char>,
)
    requires
        s.input == left + right,
        s.cursor == utf8_len(left),
        is_plain(left),
        is_plain(right),
    ensures
        left.len() > 0 ==> backspaced(s).input == left.drop_last() + right && backspaced(s).cursor
            == utf8_len(left.drop_last()),
        left.len() == 0 ==> backspaced(s) == s,
        right.len() > 0 ==> deleted(s).input == left + right.drop_first() && deleted(s).cursor
            == s.cursor,
        right.len() == 0 ==> deleted(s) == s,
        left.len() > 0 ==> moved_left(s).cursor == utf8_len(left.drop_last()),
        right.len() > 0 ==> moved_right(s).cursor == utf8_len(left.push(right[0])),
        moved_left(s).input == s.input,
        moved_right(s).input == s.input,
{
    lemma_boundary_of_parts(left, right);
    lemma_utf8_len_concat(left, right);
    lemma_plain_bytes(left);
    lemma_plain_bytes(right);
    lemma_utf8_len_empty();
    if left.len() > 0 {
        let rest = left.drop_last();
        assert(rest + (seq![left.last()] + right) =~= left + right);
        lemma_boundary_of_parts(rest, seq![left.last()] + right);
        lemma_plain_part(left, rest);
        lemma_plain_bytes(rest);
    }
    if right.len() > 0 {
        let more = left.push(right[0]);
        assert(more + right.drop_first() =~= left + right);
        lemma_boundary_of_parts(more, right.drop_first());
        lemma_plain_pushed(left, right);
        lemma_plain_bytes(more);
        if right.len() == 1 {
            assert(more =~= left + right);
        }
    } else {
        assert(right =~= Seq::<char>::empty());
    }
    if left.len() == 0 {
        assert(left =~= Seq::<char>::empty());
    }
}

proof fn lemma_plain_bytes(text: Seq<char>)
    requires
        is_plain(text),
    ensures
        utf8_len(text) == text.len(),
    decreases text.len(),
{
    lemma_utf8_len_empty();
    if text.len() > 0 {
        let rest = text.drop_last();
        lemma_plain_part(text, rest);
        lemma_plain_bytes(rest);
        crate::text::lemma_utf8_len_push(rest, text.last());
        assert(rest.push(text.last()) =~= text);
        assert(is_ascii_chars(text));
        assert(0 <= text[text.len() - 1] as nat <= 127);
    } else {
        assert(text =~= Seq::<char>::empty());
    }
}

proof fn lemma_plain_part(text: Seq<char>, rest: Seq<char>)
    requires
        is_plain(text),
        text.len() > 0,
        rest == text.drop_last(),
    ensures
        is_plain(rest),
{
    assert forall|i: int| 0 <= i < rest.len() implies #[trigger] rest[i] == text[i] by {}
    if rest.contains('\r') {
        let i: int = choose|i: int| 0 <= i < rest.len() && rest[i] == '\r';
        assert(text[i] == '\r');
    }
}

proof fn lemma_plain_pushed(left: Seq<char>, right: Seq<char>)
    requires
        is_plain(left),
        is_plain(right),
        right.len() > 0,
    ensures
        is_plain(left.push(right[0])),
{
    let more = left.push(right[0]);
    assert forall|i: int| 0 <= i < more.len() implies 0 <= #[trigger] more[i] as nat <= 127 by {
        if i < left.len() {
            assert(more[i] == left[i]);
        } else {
            assert(more[i] == right[0]);
        }
    }
    if more.contains('\r') {
        let i: int = choose|i: int| 0 <= i < more.len() && more[i] == '\r';
        if i < left.len() {
            assert(left[i] == '\r');
        } else {
            assert(right[0] == '\r');
        }
    }
}

/// The cursor goes to where a character begins, and stays where it is otherwise; to the beginning
/// of its line, or to the end of it.
pub proof fn lemma_the_cursor_goes_where_it_is_put(
    s: AppStateView,
    left: Seq<char>,
    before: Seq<char>,
    behind: Seq<char>,
    right: Seq<char>,
    cursor: int,
)
    requires
        s.input == left + before + (behind + right),
        s.cursor == utf8_len(left + before),
        left.len() == 0 || left.last() == '\n',
        right.len() == 0 || right[0] == '\n',
        !before.contains('\n'),
        !behind.contains('\n'),
    ensures
        moved_home(s).cursor == utf8_len(left),
        moved_end(s).cursor == utf8_len(left + before + behind),
        moved_home(s).input == s.input,
        moved_end(s).input == s.input,
        at_boundary(s.input, cursor) ==> cursor_set(s, cursor) == (AppStateView { cursor, ..s }),
        !at_boundary(s.input, cursor) ==> cursor_set(s, cursor) == s,
{
    lemma_boundary_of_parts(left + before, behind + right);
    lemma_utf8_len_concat(left, before);
    lemma_utf8_len_concat(left + before, behind);
    lemma_last_line_of(left, before);
    let after = behind + right;
    assert forall|i: int| 0 <= i < behind.len() implies after[i] != '\n' by {
        assert(after[i] == behind[i]);
        assert(behind.contains(behind[i]));
    }
    lemma_first_index_is(after, '\n', behind.len() as int);
    assert(after.take(behind.len() as int) =~= behind);
}

proof fn lemma_last_line_of(left: Seq<char>, line: Seq<char>)
    requires
        left.len() == 0 || left.last() == '\n',
        !line.contains('\n'),
    ensures
        last_line(left + line) == line,
    decreases line.len(),
{
    let s = left + line;
    if line.len() > 0 {
        let rest = line.drop_last();
        assert(!rest.contains('\n')) by {
            if rest.contains('\n') {
                let i: int = choose|i: int| 0 <= i < rest.len() && rest[i] == '\n';
                assert(line[i] == '\n');
            }
        }
        assert(s.drop_last() =~= left + rest);
        assert(s.last() == line.last());
        assert(line.contains(line[line.len() - 1]));
        lemma_last_line_of(left, rest);
        assert(rest.push(line.last()) =~= line);
    } else {
        assert(s =~= left);
        assert(line =~= Seq::<char>::empty());
    }
}

/// A text that is put in the place of what was typed is there as a whole, the cursor behind it.
pub proof fn lemma_texts_take_the_place_of_what_was_typed(s: AppStateView, text: Seq<char>)
    ensures
        input_set(s, text).input == text,
        text != s.input ==> input_set(s, text).cursor == utf8_len(text),
        text == s.input ==> input_set(s, text) == s,
{
    assert(text + Seq::<char>::empty() =~= text);
}

/// What was typed is submitted where nothing runs and something was typed: it is handed over as it
/// is, shown as what the user said, and the turn begins.
pub proof fn lemma_input_is_submitted(s: AppStateView)
    ensures
        submitted(s).0 is Some <==> !s.turn_active && !s.compaction_active && !is_blank_text(
            s.input,
        ),
        submitted(s).0 is None ==> submitted(s).1 == s,
        submitted(s).0 matches Some(text) ==> {
            let t = submitted(s).1;
            let (content, thinking) = streamed(s);
            &&& text == s.input
            &&& t.input.len() == 0
            &&& t.cursor == 0
            &&& t.turn_active
            &&& t.last_error is None
            &&& t.last_stop_reason is None
            &&& t.entries.len() > 0
            &&& t.entries.last().entry == said_by(
                MessageRole::User,
                s.input,
                UserMessageStatus::Delivered,
            )
            &&& content.len() == 0 && thinking.len() == 0 ==> t.entries.drop_last() == s.entries
        },
{
    let t = submitted(s).1;
    if submitted(s).0 is Some && streamed(s).0.len() == 0 && streamed(s).1.len() == 0 {
        assert(t.entries.drop_last() =~= s.entries);
    }
}

/// While a turn runs, what was typed waits instead, and is shown as waiting.
pub proof fn lemma_input_waits_for_the_turn(s: AppStateView)
    ensures
        queued(s).0 is Some <==> s.turn_active && !s.compaction_active && !is_blank_text(s.input),
        queued(s).0 is None ==> queued(s).1 == s,
        queued(s).0 matches Some(text) ==> {
            let t = queued(s).1;
            &&& text == s.input
            &&& t.input.len() == 0
            &&& t.cursor == 0
            &&& t.turn_active
            &&& gained(s, t, said_by(MessageRole::User, s.input, UserMessageStatus::Queued))
        },
{
    if queued(s).0 is Some {
        assert(queued(s).1.entries.drop_last() =~= s.entries);
    }
}

/// What was typed is taken where something was, and nothing is left of it.
pub proof fn lemma_input_is_taken(s: AppStateView)
    ensures
        is_blank_text(s.input) ==> taken(s).0 is None && taken(s).1 == s,
        !is_blank_text(s.input) ==> taken(s).0 == Some(s.input) && taken(s).1.input.len() == 0
            && taken(s).1.cursor == 0 && taken(s).1.entries == s.entries,
        acknowledged(s) == (AppStateView { pending: Seq::empty(), ..s }),
{
}

/// A compaction is marked as running or not, but never during a turn.
pub proof fn lemma_compactions_are_marked(s: AppStateView, active: bool)
    ensures
        s.turn_active ==> compaction_set(s, active) == s,
        !s.turn_active ==> compaction_set(s, active) == (AppStateView {
            compaction_active: active,
            ..s
        }),
{
}

/// Output that has grown too long keeps its two ends: its beginning, up to the marker, stays, and
/// behind the marker stands the end of all that came.
pub proof fn lemma_long_output_keeps_its_ends(output: Seq<char>, chunk: Seq<char>)
    requires
        chunk.len() > 0,
        utf8_len(output) + utf8_len(chunk) > 262_144,
    ensures
        output_after(output, false, chunk).1,
        exists|head: Seq<char>, tail: Seq<char>|
            #![trigger ends_of(output_after(output, false, chunk).0, head, tail)]
            ends_of(output_after(output, false, chunk).0, head, tail) && head.is_prefix_of(output)
                && tail.is_suffix_of(output + chunk) && utf8_len(head) <= 131_072 && utf8_len(tail)
                <= 131_072 && (utf8_len(chunk) <= 131_072 ==> chunk.is_suffix_of(tail)) && (
            head.len() < output.len() ==> utf8_len(head) + 4 > 131_072),
{
    let head = prefix_within(output, 131_072);
    let tail = output_tail(output, chunk);
    lemma_prefix_within(output, 131_072);
    lemma_output_tail(output, chunk);
    assert(output.subrange(0, head.len() as int) =~= head);
    if head.len() < output.len() {
        lemma_char_width(output[head.len() as int]);
    }
    let all = output + chunk;
    if utf8_len(chunk) >= 131_072 {
        lemma_suffix_within(chunk, 131_072);
        assert(all.subrange(all.len() - tail.len(), all.len() as int) =~= tail);
        if utf8_len(chunk) == 131_072 {
            assert(chunk.skip(0) =~= chunk);
            lemma_suffix_within_is(chunk, 0, 131_072);
            assert(tail.subrange(0, tail.len() as int) =~= chunk);
        }
    } else {
        let kept = suffix_within(output, 131_072 - utf8_len(chunk));
        lemma_suffix_within(output, 131_072 - utf8_len(chunk));
        assert(all.subrange(all.len() - tail.len(), all.len() as int) =~= kept + chunk);
        assert(tail.subrange(tail.len() - chunk.len(), tail.len() as int) =~= chunk);
    }
    assert(ends_of(output_after(output, false, chunk).0, head, tail));
}

/// Whether the output is these two ends with the marker in between.
pub open spec fn ends_of(output: Seq<char>, head: Seq<char>, tail: Seq<char>) -> bool {
    output == head + TOOL_OUTPUT_MARKER@ + tail
}

} // verus!
