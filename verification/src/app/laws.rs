//! What holds of a transcript whatever happens to it.

use crate::agent::event::AgentEventView;
use crate::app::output::{
    chunks_len, head_limit, is_bounded_output, lemma_chunks_are_bounded, lemma_output_stays_bounded,
    lemma_output_tail, output_after, output_tail, with_chunk, with_output, ToolStatus,
    MAX_TOOL_TRANSCRIPT_OUTPUT_BYTES, TOOL_OUTPUT_MARKER,
};
use crate::app::state::{
    added, call_finished, calls_added, content_streamed, emptied, finished_call, first_content,
    first_queued, first_thinking, historical_call, histories_added, history_added, initial_state,
    input_taken, is_queued, joined_content, joined_thinking, last_call, message_finished, next,
    nonempty, output_given, plain_message, recovered, reduced, refusal_given, replaced,
    running_call, settled, streaming_changed, streaming_ensured, streaming_finalized,
    streaming_started, thinking_streamed, unknown_call, AppStateView,
};
use crate::app::steps::{lemma_noted, run, stepped, AppStep};
use crate::app::transcript::{
    entry_id, MessageRole, TranscriptEntryStateView, TranscriptEntryView, TranscriptMessageView,
    UserMessageStatus,
};
use crate::model::message::{ModelAssistantItemView, ModelMessageView};
use crate::text::{
    lemma_prefix_within, lemma_truncated_text_is_bounded, lemma_utf8_len_bounds,
    lemma_utf8_len_concat, prefix_within, split_once_at, utf8_len,
};
use vstd::prelude::*;

verus! {

/// An entry kept its identity, and if it was changed, its revision tells.
pub open spec fn entry_kept(
    before: TranscriptEntryStateView,
    after: TranscriptEntryStateView,
) -> bool {
    before.id == after.id && (before == after || after.revision == next(before.revision))
}

/// Every entry kept its identity and shows in its revision whether it was changed.
pub open spec fn revisions_tell(s: AppStateView, t: AppStateView) -> bool {
    &&& s.entries.len() <= t.entries.len()
    &&& forall|i: int|
        0 <= i < s.entries.len() ==> entry_kept(s.entries[i], #[trigger] t.entries[i])
}

pub(crate) proof fn lemma_first_queued(entries: Seq<TranscriptEntryStateView>, from: int)
    requires
        0 <= from,
    ensures
        match first_queued(entries, from) {
            Some(i) => from <= i < entries.len() && is_queued(entries[i].entry),
            None => true,
        },
    decreases entries.len() - from,
{
    if from < entries.len() && !is_queued(entries[from].entry) {
        lemma_first_queued(entries, from + 1);
    }
}

pub(crate) proof fn lemma_last_call(entries: Seq<TranscriptEntryStateView>, call_id: Seq<char>, end: int)
    requires
        end <= entries.len(),
    ensures
        match last_call(entries, call_id, end) {
            Some(i) => 0 <= i < end && entries[i].entry is Tool,
            None => true,
        },
    decreases end,
{
    if end > 0 {
        lemma_last_call(entries, call_id, end - 1);
    }
}

/// A new entry comes behind the others.
proof fn lemma_entries_added(s: AppStateView, entry: TranscriptEntryView)
    ensures
        added(s, entry).entries == s.entries.push(
            TranscriptEntryStateView { id: entry_id(next(s.last_id)), revision: 0, entry },
        ),
{
}

/// A changed entry stays in its place.
proof fn lemma_entries_replaced(s: AppStateView, index: int, entry: TranscriptEntryView)
    ensures
        replaced(s, index, entry).entries == s.entries.update(
            index,
            TranscriptEntryStateView {
                id: s.entries[index].id,
                revision: next(s.entries[index].revision),
                entry,
            },
        ),
{
}

/// What comes in is no entry yet.
proof fn lemma_entries_while_streaming(s: AppStateView, content: Seq<char>, thinking: Seq<char>)
    ensures
        streaming_started(s).entries == s.entries,
        streaming_ensured(s).entries == s.entries,
        streaming_changed(s, content, thinking).entries == s.entries,
        content_streamed(s, content).entries == s.entries,
        thinking_streamed(s, thinking).entries == s.entries,
        refusal_given(s, content).entries == s.entries,
{
}

/// An entry that changed no longer waits, and changed once.
spec fn settled_at_most_once(s: AppStateView, t: AppStateView) -> bool {
    &&& s.entries.len() <= t.entries.len()
    &&& forall|i: int|
        0 <= i < s.entries.len() ==> s.entries[i] == (#[trigger] t.entries[i]) || (
        s.entries[i].id == t.entries[i].id && t.entries[i].revision == next(s.entries[i].revision)
            && !is_queued(t.entries[i].entry))
}

proof fn lemma_recovered_once(s: AppStateView, texts: Seq<Seq<char>>)
    ensures
        settled_at_most_once(s, recovered(s, texts)),
    decreases texts.len(),
{
    if texts.len() > 0 {
        let before = recovered(s, texts.drop_last());
        lemma_recovered_once(s, texts.drop_last());
        let after = settled(before, texts.last(), UserMessageStatus::Recovered);
        lemma_first_queued(before.entries, 0);
        match first_queued(before.entries, 0) {
            Some(index) => lemma_entries_replaced(before, index, after.entries[index].entry),
            None => lemma_entries_added(
                before,
                plain_message(
                    MessageRole::User,
                    texts.last(),
                    UserMessageStatus::Recovered,
                ),
            ),
        }
    }
}

proof fn lemma_finalized_keeps(s: AppStateView)
    ensures
        s.entries.len() <= streaming_finalized(s).entries.len(),
        forall|i: int|
            0 <= i < s.entries.len() ==> s.entries[i] == #[trigger] streaming_finalized(
                s,
            ).entries[i],
{
}

/// Whatever the agent reports, unless it loads another session: an entry that is changed shows
/// it in its revision, and every other entry stays as it is.
#[verifier::rlimit(60)]
#[verifier::spinoff_prover]
pub proof fn lemma_revisions_are_targeted(s: AppStateView, event: AgentEventView)
    requires
        !(event is SessionLoaded),
    ensures
        revisions_tell(s, reduced(s, event)),
{
    match event {
        AgentEventView::SteeringMessageDelivered { text } => {
            lemma_first_queued(s.entries, 0);
            let after = settled(s, text, UserMessageStatus::Delivered);
            match first_queued(s.entries, 0) {
                Some(index) => lemma_entries_replaced(s, index, after.entries[index].entry),
                None => lemma_entries_added(
                    s,
                    plain_message(
                        MessageRole::User,
                        text,
                        UserMessageStatus::Delivered,
                    ),
                ),
            }
        },
        AgentEventView::SteeringMessagesRecovered { messages } => lemma_recovered_once(
            s,
            messages,
        ),
        AgentEventView::AssistantMessageStarted => {
            lemma_finalized_keeps(s);
            lemma_entries_while_streaming(streaming_finalized(s), Seq::empty(), Seq::empty());
        },
        AgentEventView::AssistantTextDelta { text, .. } => lemma_entries_while_streaming(s, text, text),
        AgentEventView::AssistantThinkingDelta { text, .. } => lemma_entries_while_streaming(s, text, text),
        AgentEventView::AssistantRefusalDelta { text, .. } => lemma_entries_while_streaming(s, text, text),
        AgentEventView::AssistantRefusalItem { content, .. } => {
            if let Some(content) = content {
                lemma_entries_while_streaming(s, content, Seq::empty());
            }
        },
        AgentEventView::AssistantMessageFinished { items } => {
            let t = streaming_ensured(s);
            lemma_entries_while_streaming(s, Seq::empty(), Seq::empty());
            lemma_finalized_keeps(t);
            let message = t.streaming->0;
            let content = if message.content.len() == 0 {
                first_content(items)
            } else {
                message.content
            };
            let thinking = if message.thinking.len() == 0 {
                first_thinking(items)
            } else {
                message.thinking
            };
            lemma_entries_while_streaming(t, content, thinking);
            lemma_finalized_keeps(streaming_changed(t, content, thinking));
        },
        AgentEventView::ToolExecutionStarted { call_id, name, arguments } => lemma_entries_added(
            s,
            TranscriptEntryView::Tool(running_call(call_id, name, arguments)),
        ),
        AgentEventView::ToolExecutionOutput { call_id, stream, chunk } => {
            lemma_last_call(s.entries, call_id, s.entries.len() as int);
            if let Some(index) = last_call(s.entries, call_id, s.entries.len() as int) {
                if chunk.len() > 0 {
                    lemma_entries_replaced(
                        s,
                        index,
                        output_given(s, call_id, stream, chunk).entries[index].entry,
                    );
                }
            }
        },
        AgentEventView::ToolExecutionFinished { call_id, name, result } => {
            lemma_last_call(s.entries, call_id, s.entries.len() as int);
            if let Some(index) = last_call(s.entries, call_id, s.entries.len() as int) {
                lemma_entries_replaced(s, index, call_finished(s, call_id, result).entries[index].entry);
            }
        },
        AgentEventView::CompactionFinished { automatic, before_tokens, after_tokens } => {
            lemma_entries_added(
                AppStateView { compaction_active: false, ..s },
                reduced(s, event).entries.last().entry,
            );
        },
        AgentEventView::CompactionFailed { message } => {
            lemma_entries_added(
                AppStateView { compaction_active: false, last_error: Some(message), ..s },
                reduced(s, event).entries.last().entry,
            );
        },
        AgentEventView::Error(error) => {
            lemma_entries_added(
                AppStateView { last_error: Some(error.message), ..s },
                reduced(s, event).entries.last().entry,
            );
        },
        _ => {},
    }
}

/// A message that waits is settled in place: no entry is added for it.
pub proof fn lemma_queued_messages_settle_in_place(
    s: AppStateView,
    text: Seq<char>,
    status: UserMessageStatus,
)
    requires
        first_queued(s.entries, 0) is Some,
    ensures
        settled(s, text, status).entries.len() == s.entries.len(),
{
    lemma_first_queued(s.entries, 0);
    let index = first_queued(s.entries, 0)->0;
    lemma_entries_replaced(s, index, settled(s, text, status).entries[index].entry);
}

/// An entry whose output and pieces of output are within their bounds.
pub open spec fn is_bounded_entry(entry: TranscriptEntryView) -> bool {
    entry matches TranscriptEntryView::Tool(tool) ==> {
        &&& chunks_len(tool.output_chunks) <= MAX_TOOL_TRANSCRIPT_OUTPUT_BYTES
        &&& utf8_len(tool.output) <= MAX_TOOL_TRANSCRIPT_OUTPUT_BYTES + utf8_len(
            TOOL_OUTPUT_MARKER@,
        )
        &&& tool.status == ToolStatus::Running ==> is_bounded_output(
            tool.output,
            tool.output_truncated,
        )
    }
}

/// Every entry is within its bounds.
pub open spec fn is_bounded_transcript(s: AppStateView) -> bool {
    forall|i: int| 0 <= i < s.entries.len() ==> is_bounded_entry((#[trigger] s.entries[i]).entry)
}

/// Output comes in for a call whose result is there, is marked as truncated and holds the marker,
/// and what stands before the marker leaves no room for the tail.
pub open spec fn overflows(s: AppStateView, event: AgentEventView) -> bool {
    event matches AgentEventView::ToolExecutionOutput { call_id, stream, chunk } && chunk.len() > 0
        && (last_call(s.entries, call_id, s.entries.len() as int) matches Some(index) && {
        let tool = s.entries[index].entry->Tool_0;
        &&& tool.status is Finished
        &&& tool.output_truncated
        &&& split_once_at(tool.output, TOOL_OUTPUT_MARKER@) matches Some((head, tail)) && utf8_len(
            head,
        ) + utf8_len(output_tail(tail, chunk)) > MAX_TOOL_TRANSCRIPT_OUTPUT_BYTES
    })
}

proof fn lemma_empty_output_is_bounded()
    ensures
        utf8_len(Seq::empty()) == 0,
        is_bounded_output(Seq::empty(), false),
        chunks_len(Seq::empty()) == 0,
        utf8_len(TOOL_OUTPUT_MARKER@) >= 0,
{
    crate::text::lemma_utf8_len_empty();
    lemma_utf8_len_bounds(TOOL_OUTPUT_MARKER@);
}

/// Output within its bound takes no more bytes than the most that are kept and the marker.
proof fn lemma_bounded_output_fits(output: Seq<char>, truncated: bool)
    requires
        is_bounded_output(output, truncated),
    ensures
        utf8_len(output) <= MAX_TOOL_TRANSCRIPT_OUTPUT_BYTES + utf8_len(TOOL_OUTPUT_MARKER@),
{
    lemma_utf8_len_bounds(TOOL_OUTPUT_MARKER@);
}

/// The result of a call fits, whatever it is.
proof fn lemma_result_fits(content: Seq<char>)
    ensures
        utf8_len(output_after(Seq::empty(), false, content).0) <= MAX_TOOL_TRANSCRIPT_OUTPUT_BYTES
            + utf8_len(TOOL_OUTPUT_MARKER@),
{
    lemma_empty_output_is_bounded();
    lemma_output_stays_bounded(Seq::empty(), false, content);
    let (output, truncated) = output_after(Seq::empty(), false, content);
    lemma_bounded_output_fits(output, truncated);
}

/// Output that comes in for a call that has its result fits, but where it overflows.
proof fn lemma_late_output_fits(output: Seq<char>, truncated: bool, chunk: Seq<char>)
    requires
        chunk.len() > 0,
    ensures
        utf8_len(output_after(output, truncated, chunk).0) <= MAX_TOOL_TRANSCRIPT_OUTPUT_BYTES
            + utf8_len(TOOL_OUTPUT_MARKER@) <==> !(truncated && (split_once_at(
            output,
            TOOL_OUTPUT_MARKER@,
        ) matches Some((head, tail)) && utf8_len(head) + utf8_len(output_tail(tail, chunk))
            > MAX_TOOL_TRANSCRIPT_OUTPUT_BYTES)),
{
    let marker = TOOL_OUTPUT_MARKER@;
    lemma_utf8_len_bounds(marker);
    if truncated {
        match split_once_at(output, marker) {
            Some((head, tail)) => {
                lemma_utf8_len_concat(head, marker);
                lemma_utf8_len_concat(head + marker, output_tail(tail, chunk));
            },
            None => lemma_truncated_text_is_bounded(
                output,
                MAX_TOOL_TRANSCRIPT_OUTPUT_BYTES as int,
            ),
        }
    } else if utf8_len(output) + utf8_len(chunk) <= MAX_TOOL_TRANSCRIPT_OUTPUT_BYTES {
        lemma_utf8_len_concat(output, chunk);
    } else {
        let head = prefix_within(output, head_limit());
        let tail = output_tail(output, chunk);
        lemma_prefix_within(output, head_limit());
        lemma_output_tail(output, chunk);
        lemma_utf8_len_concat(head, marker);
        lemma_utf8_len_concat(head + marker, tail);
    }
}

proof fn lemma_bounded_added(s: AppStateView, entry: TranscriptEntryView)
    requires
        is_bounded_transcript(s),
        is_bounded_entry(entry),
    ensures
        is_bounded_transcript(added(s, entry)),
{
    lemma_entries_added(s, entry);
}

proof fn lemma_bounded_replaced(s: AppStateView, index: int, entry: TranscriptEntryView)
    requires
        is_bounded_transcript(s),
        0 <= index < s.entries.len(),
        is_bounded_entry(entry),
    ensures
        is_bounded_transcript(replaced(s, index, entry)),
{
    lemma_entries_replaced(s, index, entry);
}

proof fn lemma_bounded_settled(s: AppStateView, text: Seq<char>, status: UserMessageStatus)
    requires
        is_bounded_transcript(s),
    ensures
        is_bounded_transcript(settled(s, text, status)),
{
    lemma_first_queued(s.entries, 0);
    match first_queued(s.entries, 0) {
        Some(index) => lemma_entries_replaced(
            s,
            index,
            settled(s, text, status).entries[index].entry,
        ),
        None => lemma_bounded_added(
            s,
            plain_message(MessageRole::User, text, status),
        ),
    }
}

proof fn lemma_bounded_recovered(s: AppStateView, texts: Seq<Seq<char>>)
    requires
        is_bounded_transcript(s),
    ensures
        is_bounded_transcript(recovered(s, texts)),
    decreases texts.len(),
{
    if texts.len() > 0 {
        lemma_bounded_recovered(s, texts.drop_last());
        lemma_bounded_settled(
            recovered(s, texts.drop_last()),
            texts.last(),
            UserMessageStatus::Recovered,
        );
    }
}

proof fn lemma_bounded_finalized(s: AppStateView)
    requires
        is_bounded_transcript(s),
    ensures
        is_bounded_transcript(streaming_finalized(s)),
{
}

proof fn lemma_bounded_message_finished(s: AppStateView, items: Seq<ModelAssistantItemView>)
    requires
        is_bounded_transcript(s),
    ensures
        is_bounded_transcript(message_finished(s, items)),
{
    let t = streaming_ensured(s);
    lemma_entries_while_streaming(s, Seq::empty(), Seq::empty());
    lemma_bounded_finalized(t);
    let message = t.streaming->0;
    let content = if message.content.len() == 0 {
        first_content(items)
    } else {
        message.content
    };
    let thinking = if message.thinking.len() == 0 {
        first_thinking(items)
    } else {
        message.thinking
    };
    lemma_entries_while_streaming(t, content, thinking);
    lemma_bounded_finalized(streaming_changed(t, content, thinking));
}

proof fn lemma_bounded_running(call_id: Seq<char>, name: Seq<char>, arguments: Seq<char>)
    ensures
        is_bounded_entry(TranscriptEntryView::Tool(running_call(call_id, name, arguments))),
{
    lemma_empty_output_is_bounded();
}

proof fn lemma_bounded_calls_added(s: AppStateView, items: Seq<ModelAssistantItemView>)
    requires
        is_bounded_transcript(s),
    ensures
        is_bounded_transcript(calls_added(s, items)),
    decreases items.len(),
{
    if items.len() > 0 {
        lemma_bounded_calls_added(s, items.drop_last());
        if let ModelAssistantItemView::ToolCall(call) = items.last() {
            if let (Some(call_id), Some(name)) = (call.call_id, call.name) {
                lemma_bounded_running(call_id, name, call.arguments);
                lemma_bounded_added(
                    calls_added(s, items.drop_last()),
                    TranscriptEntryView::Tool(running_call(call_id, name, call.arguments)),
                );
            }
        }
    }
}

proof fn lemma_bounded_history_added(s: AppStateView, message: ModelMessageView)
    requires
        is_bounded_transcript(s),
    ensures
        is_bounded_transcript(history_added(s, message)),
{
    match message {
        ModelMessageView::User { content } => lemma_bounded_added(
            s,
            plain_message(
                MessageRole::User,
                content,
                UserMessageStatus::Delivered,
            ),
        ),
        ModelMessageView::Assistant { items } => {
            let content = joined_content(items);
            let thinking = joined_thinking(items);
            if content.len() == 0 && thinking.len() == 0 {
                lemma_bounded_calls_added(s, items);
            } else {
                let entry = TranscriptEntryView::Message(
                    TranscriptMessageView {
                        role: MessageRole::Assistant,
                        content,
                        thinking: nonempty(thinking),
                        user_status: UserMessageStatus::Delivered,
                    },
                );
                lemma_bounded_added(s, entry);
                lemma_bounded_calls_added(added(s, entry), items);
            }
        },
        ModelMessageView::ToolResult { tool_call_id, tool_name, content } => {
            lemma_last_call(s.entries, tool_call_id, s.entries.len() as int);
            lemma_empty_output_is_bounded();
            lemma_chunks_are_bounded(Seq::empty(), None, content);
            lemma_result_fits(content);
            match last_call(s.entries, tool_call_id, s.entries.len() as int) {
                Some(index) => lemma_bounded_replaced(
                    s,
                    index,
                    TranscriptEntryView::Tool(
                        historical_call(s.entries[index].entry->Tool_0, content),
                    ),
                ),
                None => lemma_bounded_added(
                    s,
                    TranscriptEntryView::Tool(
                        historical_call(unknown_call(tool_call_id, tool_name), content),
                    ),
                ),
            }
        },
        _ => {},
    }
}

proof fn lemma_bounded_histories_added(s: AppStateView, messages: Seq<ModelMessageView>)
    requires
        is_bounded_transcript(s),
    ensures
        is_bounded_transcript(histories_added(s, messages)),
    decreases messages.len(),
{
    if messages.len() > 0 {
        lemma_bounded_histories_added(s, messages.drop_last());
        lemma_bounded_history_added(histories_added(s, messages.drop_last()), messages.last());
    }
}

/// Whatever the agent reports: the output and the pieces of output of every call stay within their
/// bounds, but where output overflows that comes in for a call whose truncated result holds the
/// marker.
#[verifier::rlimit(60)]
#[verifier::spinoff_prover]
pub proof fn lemma_output_is_bounded_throughout(s: AppStateView, event: AgentEventView)
    requires
        is_bounded_transcript(s),
    ensures
        is_bounded_transcript(reduced(s, event)) <==> !overflows(s, event),
{
    match event {
        AgentEventView::SteeringMessageDelivered { text } => lemma_bounded_settled(
            s,
            text,
            UserMessageStatus::Delivered,
        ),
        AgentEventView::SteeringMessagesRecovered { messages } => lemma_bounded_recovered(
            s,
            messages,
        ),
        AgentEventView::AssistantMessageStarted => {
            lemma_bounded_finalized(s);
            lemma_entries_while_streaming(streaming_finalized(s), Seq::empty(), Seq::empty());
        },
        AgentEventView::AssistantTextDelta { text, .. } => lemma_entries_while_streaming(s, text, text),
        AgentEventView::AssistantThinkingDelta { text, .. } => lemma_entries_while_streaming(s, text, text),
        AgentEventView::AssistantRefusalDelta { text, .. } => lemma_entries_while_streaming(s, text, text),
        AgentEventView::AssistantRefusalItem { content, .. } => {
            if let Some(content) = content {
                lemma_entries_while_streaming(s, content, Seq::empty());
            }
        },
        AgentEventView::AssistantMessageFinished { items } => lemma_bounded_message_finished(
            s,
            items,
        ),
        AgentEventView::ToolExecutionStarted { call_id, name, arguments } => {
            lemma_bounded_running(call_id, name, arguments);
            lemma_bounded_added(
                s,
                TranscriptEntryView::Tool(running_call(call_id, name, arguments)),
            );
        },
        AgentEventView::ToolExecutionOutput { call_id, stream, chunk } => {
            lemma_last_call(s.entries, call_id, s.entries.len() as int);
            if let Some(index) = last_call(s.entries, call_id, s.entries.len() as int) {
                if chunk.len() > 0 {
                    let tool = s.entries[index].entry->Tool_0;
                    let entry = TranscriptEntryView::Tool(
                        with_chunk(with_output(tool, chunk), Some(stream), chunk),
                    );
                    assert(is_bounded_entry(s.entries[index].entry));
                    lemma_chunks_are_bounded(tool.output_chunks, Some(stream), chunk);
                    if tool.status == ToolStatus::Running {
                        lemma_output_stays_bounded(tool.output, tool.output_truncated, chunk);
                        let (output, truncated) = output_after(
                            tool.output,
                            tool.output_truncated,
                            chunk,
                        );
                        lemma_bounded_output_fits(output, truncated);
                    } else {
                        lemma_late_output_fits(tool.output, tool.output_truncated, chunk);
                    }
                    if overflows(s, event) {
                        lemma_entries_replaced(s, index, entry);
                        assert(!is_bounded_entry(reduced(s, event).entries[index].entry));
                    } else {
                        lemma_bounded_replaced(s, index, entry);
                    }
                }
            }
        },
        AgentEventView::ToolExecutionFinished { call_id, name, result } => {
            lemma_last_call(s.entries, call_id, s.entries.len() as int);
            if let Some(index) = last_call(s.entries, call_id, s.entries.len() as int) {
                let tool = s.entries[index].entry->Tool_0;
                assert(is_bounded_entry(s.entries[index].entry));
                lemma_chunks_are_bounded(tool.output_chunks, None, result.model_content);
                lemma_result_fits(result.model_content);
                lemma_bounded_replaced(
                    s,
                    index,
                    TranscriptEntryView::Tool(finished_call(tool, result)),
                );
            }
        },
        AgentEventView::CompactionFinished { automatic, before_tokens, after_tokens } => {
            lemma_entries_added(
                AppStateView { compaction_active: false, ..s },
                reduced(s, event).entries.last().entry,
            );
        },
        AgentEventView::CompactionFailed { message } => {
            lemma_entries_added(
                AppStateView { compaction_active: false, last_error: Some(message), ..s },
                reduced(s, event).entries.last().entry,
            );
        },
        AgentEventView::Error(error) => {
            lemma_entries_added(
                AppStateView { last_error: Some(error.message), ..s },
                reduced(s, event).entries.last().entry,
            );
        },
        AgentEventView::SessionLoaded { info, history } => {
            let t = AppStateView { session_info: Some(info), ..s };
            lemma_bounded_histories_added(emptied(t), history);
        },
        _ => {},
    }
}

/// Whatever is called: the output and the pieces of output of every call stay within their bounds,
/// but where output overflows.
#[verifier::rlimit(60)]
#[verifier::spinoff_prover]
pub proof fn lemma_steps_keep_output_bounded(s: AppStateView, step: AppStep)
    requires
        is_bounded_transcript(s),
        step matches AppStep::Reduce { event } ==> !overflows(s, event),
    ensures
        is_bounded_transcript(stepped(s, step)),
{
    match step {
        AppStep::Reduce { event } => lemma_output_is_bounded_throughout(s, event),
        AppStep::ReplaceHistory { messages } => lemma_bounded_histories_added(
            emptied(s),
            messages,
        ),
        AppStep::SubmitInput => {
            let t = input_taken(s);
            lemma_bounded_finalized(t);
            lemma_bounded_added(
                streaming_finalized(t),
                plain_message(MessageRole::User, s.input, UserMessageStatus::Delivered),
            );
        },
        AppStep::QueueInput => lemma_bounded_added(
            input_taken(s),
            plain_message(MessageRole::User, s.input, UserMessageStatus::Queued),
        ),
        AppStep::AddSystemMessage { content } => lemma_bounded_added(
            s,
            plain_message(MessageRole::System, content, UserMessageStatus::Delivered),
        ),
        _ => lemma_noted(s, step),
    }
}

/// From the beginning of a session, whatever was called in a row: the output and the pieces of
/// output of every call are within their bounds, as long as none overflowed on the way.
#[verifier::rlimit(60)]
#[verifier::spinoff_prover]
pub proof fn lemma_output_of_a_session_is_bounded(steps: Seq<AppStep>)
    requires
        forall|i: int|
            0 <= i < steps.len() ==> (#[trigger] steps[i] matches AppStep::Reduce { event }
                ==> !overflows(run(initial_state(), steps.take(i)), event)),
    ensures
        is_bounded_transcript(run(initial_state(), steps)),
    decreases steps.len(),
{
    if steps.len() > 0 {
        let before = steps.drop_last();
        assert forall|i: int| 0 <= i < before.len() implies (
        #[trigger] before[i] matches AppStep::Reduce { event } ==> !overflows(
            run(initial_state(), before.take(i)),
            event,
        )) by {
            assert(steps[i] == before[i]);
            assert(before.take(i) =~= steps.take(i));
        }
        lemma_output_of_a_session_is_bounded(before);
        assert(steps[steps.len() - 1] == steps.last());
        assert(steps.take(steps.len() - 1) =~= before);
        lemma_steps_keep_output_bounded(run(initial_state(), before), steps.last());
    }
}

/// Neither output nor a result takes back that the output of a call was truncated.
#[verifier::rlimit(60)]
#[verifier::spinoff_prover]
pub proof fn lemma_truncation_is_kept(s: AppStateView, event: AgentEventView, i: int)
    requires
        event is ToolExecutionOutput || event is ToolExecutionFinished,
        0 <= i < s.entries.len(),
        s.entries[i].entry matches TranscriptEntryView::Tool(tool) && tool.output_truncated,
    ensures
        reduced(s, event).entries.len() == s.entries.len(),
        reduced(s, event).entries[i].entry matches TranscriptEntryView::Tool(tool)
            && tool.output_truncated,
{
    match event {
        AgentEventView::ToolExecutionOutput { call_id, stream, chunk } => {
            lemma_last_call(s.entries, call_id, s.entries.len() as int);
            if let Some(index) = last_call(s.entries, call_id, s.entries.len() as int) {
                lemma_entries_replaced(
                    s,
                    index,
                    output_given(s, call_id, stream, chunk).entries[index].entry,
                );
            }
        },
        AgentEventView::ToolExecutionFinished { call_id, name, result } => {
            lemma_last_call(s.entries, call_id, s.entries.len() as int);
            if let Some(index) = last_call(s.entries, call_id, s.entries.len() as int) {
                lemma_entries_replaced(
                    s,
                    index,
                    call_finished(s, call_id, result).entries[index].entry,
                );
            }
        },
        _ => {},
    }
}

} // verus!
