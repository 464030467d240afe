//! The identities of entries: each is given out once.

use crate::agent::event::AgentEventView;
use crate::app::laws::{lemma_first_queued, lemma_last_call};
use crate::app::state::{
    added, calls_added, content_streamed, emptied, first_content, first_queued, first_thinking,
    histories_added, history_added, history_replaced, initial_state, input_submitted, input_taken,
    joined_content, joined_thinking, last_call, message_finished, next, nonempty, plain_message,
    queued, recovered, reduced, refusal_given, replaced, running_call, settled, streaming_changed,
    streaming_ensured, streaming_finalized, streaming_started, submitted, thinking_streamed,
    AppStateView,
};
use crate::app::steps::{lemma_noted, noted, replaces_transcript, run, stepped, AppStep};
use crate::app::transcript::{
    entry_id, lemma_entry_id, MessageRole, TranscriptEntryId, TranscriptEntryView,
    TranscriptMessageView, UserMessageStatus,
};
use crate::model::message::{ModelAssistantItemView, ModelMessageView};
use vstd::prelude::*;

verus! {

// ---- how many identities are given out ----

/// How many identities settling a message gives out.
pub open spec fn ids_of_settling(s: AppStateView) -> nat {
    if first_queued(s.entries, 0) is None {
        1
    } else {
        0
    }
}

/// How many identities recovering messages gives out.
pub open spec fn ids_of_recovery(s: AppStateView, texts: Seq<Seq<char>>) -> nat
    decreases texts.len(),
{
    if texts.len() == 0 {
        0
    } else {
        ids_of_recovery(s, texts.drop_last()) + ids_of_settling(recovered(s, texts.drop_last()))
    }
}

/// How many identities a message that comes in needs.
pub open spec fn ids_of_streaming(s: AppStateView) -> nat {
    if s.streaming is None {
        1
    } else {
        0
    }
}

/// How many of the items are calls that are shown.
pub open spec fn ids_of_calls(items: Seq<ModelAssistantItemView>) -> nat
    decreases items.len(),
{
    if items.len() == 0 {
        0
    } else {
        let before = ids_of_calls(items.drop_last());
        match items.last() {
            ModelAssistantItemView::ToolCall(call) => if call.call_id is Some && call.name is Some {
                before + 1
            } else {
                before
            },
            _ => before,
        }
    }
}

/// How many identities a message of a history needs.
pub open spec fn ids_of_message(s: AppStateView, message: ModelMessageView) -> nat {
    match message {
        ModelMessageView::User { .. } => 1,
        ModelMessageView::Assistant { items } => if joined_content(items).len() == 0
            && joined_thinking(items).len() == 0 {
            ids_of_calls(items)
        } else {
            1 + ids_of_calls(items)
        },
        ModelMessageView::ToolResult { tool_call_id, .. } => if last_call(
            s.entries,
            tool_call_id,
            s.entries.len() as int,
        ) is None {
            1
        } else {
            0
        },
        _ => 0,
    }
}

/// How many identities the messages of a history need.
pub open spec fn ids_of_history(s: AppStateView, messages: Seq<ModelMessageView>) -> nat
    decreases messages.len(),
{
    if messages.len() == 0 {
        0
    } else {
        ids_of_history(s, messages.drop_last()) + ids_of_message(
            histories_added(s, messages.drop_last()),
            messages.last(),
        )
    }
}

/// How many identities an event gives out.
pub open spec fn ids_of_event(s: AppStateView, event: AgentEventView) -> nat {
    match event {
        AgentEventView::SteeringMessageDelivered { .. } => ids_of_settling(s),
        AgentEventView::SteeringMessagesRecovered { messages } => ids_of_recovery(s, messages),
        AgentEventView::AssistantMessageStarted => 1,
        AgentEventView::AssistantTextDelta { text, .. } => if text.len() == 0 {
            0
        } else {
            ids_of_streaming(s)
        },
        AgentEventView::AssistantThinkingDelta { text, .. } => if text.len() == 0 {
            0
        } else {
            ids_of_streaming(s)
        },
        AgentEventView::AssistantRefusalDelta { text, .. } => if text.len() == 0 {
            0
        } else {
            ids_of_streaming(s)
        },
        AgentEventView::AssistantRefusalItem { content, .. } => if content is Some {
            ids_of_streaming(s)
        } else {
            0
        },
        AgentEventView::AssistantMessageFinished { .. } => ids_of_streaming(s),
        AgentEventView::ToolExecutionStarted { .. } => 1,
        AgentEventView::CompactionFinished { .. } => 1,
        AgentEventView::CompactionFailed { .. } => 1,
        AgentEventView::Error(_) => 1,
        AgentEventView::SessionLoaded { info, history } => ids_of_history(
            emptied(AppStateView { session_info: Some(info), ..s }),
            history,
        ),
        _ => 0,
    }
}

/// How many identities a call gives out.
pub open spec fn ids_of_step(s: AppStateView, step: AppStep) -> nat {
    match step {
        AppStep::Reduce { event } => ids_of_event(s, event),
        AppStep::ReplaceHistory { messages } => ids_of_history(emptied(s), messages),
        AppStep::SubmitInput => if submitted(s).0 is Some {
            1
        } else {
            0
        },
        AppStep::QueueInput => if queued(s).0 is Some {
            1
        } else {
            0
        },
        AppStep::AddSystemMessage { .. } => 1,
        _ => 0,
    }
}

/// How many identities the calls give out, one after the other.
pub open spec fn ids_of_run(s: AppStateView, steps: Seq<AppStep>) -> nat
    decreases steps.len(),
{
    if steps.len() == 0 {
        0
    } else {
        ids_of_run(s, steps.drop_last()) + ids_of_step(run(s, steps.drop_last()), steps.last())
    }
}

// ---- what holds of them ----

/// An entry, or the message that comes in, has the identity.
pub open spec fn holds(s: AppStateView, id: TranscriptEntryId) -> bool {
    ||| exists|i: int| 0 <= i < s.entries.len() && (#[trigger] s.entries[i]).id == id
    ||| s.streaming matches Some(message) && message.id == id
}

/// Every identity has a number from 1 to the last that was given out, and no two entries, the
/// message that comes in among them, share one.
pub open spec fn has_distinct_ids(s: AppStateView) -> bool {
    &&& forall|i: int|
        0 <= i < s.entries.len() ==> 1 <= (#[trigger] s.entries[i]).id.number() <= s.last_id
    &&& forall|i: int, j: int|
        0 <= i < j < s.entries.len() ==> (#[trigger] s.entries[i]).id != (#[trigger] s.entries[j]).id
    &&& s.streaming matches Some(message) ==> 1 <= message.id.number() <= s.last_id
    &&& s.streaming matches Some(message) ==> forall|i: int|
        0 <= i < s.entries.len() ==> (#[trigger] s.entries[i]).id != message.id
}

/// From `s` to `t` identities were given out in order: what has one had it before, or has a number
/// that was not given out before.
pub open spec fn gives_new_ids(s: AppStateView, t: AppStateView) -> bool {
    &&& s.last_id <= t.last_id
    &&& forall|id: TranscriptEntryId| #[trigger]
        holds(t, id) ==> holds(s, id) || id.number() > s.last_id
}

/// From `s` to `t` exactly `n` identities were given out, none of them twice.
spec fn gives(s: AppStateView, t: AppStateView, n: nat) -> bool {
    &&& t.last_id == s.last_id + n
    &&& has_distinct_ids(t)
    &&& gives_new_ids(s, t)
}

proof fn lemma_gives_transitive(
    s: AppStateView,
    t: AppStateView,
    u: AppStateView,
    n: nat,
    m: nat,
)
    requires
        gives(s, t, n),
        gives(t, u, m),
    ensures
        gives(s, u, n + m),
{
    assert forall|id: TranscriptEntryId| #[trigger] holds(u, id) implies holds(s, id)
        || id.number() > s.last_id by {
        if !(id.number() > t.last_id) {
            assert(holds(t, id));
        }
    }
}

/// Where neither the entries nor the message that comes in changed, nothing was given out.
proof fn lemma_gives_nothing(s: AppStateView, t: AppStateView)
    requires
        has_distinct_ids(s),
        t.entries == s.entries,
        t.streaming == s.streaming,
        t.last_id == s.last_id,
    ensures
        gives(s, t, 0),
{
    assert forall|id: TranscriptEntryId| #[trigger] holds(t, id) implies holds(s, id)
        || id.number() > s.last_id by {
        assert(holds(s, id));
    }
}

proof fn lemma_added_gives(s: AppStateView, entry: TranscriptEntryView)
    requires
        has_distinct_ids(s),
        s.last_id < u64::MAX,
    ensures
        gives(s, added(s, entry), 1),
{
    let t = added(s, entry);
    let id = entry_id(next(s.last_id));
    lemma_entry_id(next(s.last_id), id);
    assert forall|i: int| 0 <= i < t.entries.len() implies 1 <= (
    #[trigger] t.entries[i]).id.number() <= t.last_id by {
        if i < s.entries.len() {
            assert(t.entries[i] == s.entries[i]);
        }
    }
    assert forall|i: int, j: int| 0 <= i < j < t.entries.len() implies (
    #[trigger] t.entries[i]).id != (#[trigger] t.entries[j]).id by {
        assert(t.entries[i] == s.entries[i]);
        if j < s.entries.len() {
            assert(t.entries[j] == s.entries[j]);
        }
    }
    assert forall|other: TranscriptEntryId| #[trigger] holds(t, other) implies holds(s, other)
        || other.number() > s.last_id by {
        if !(s.streaming matches Some(message) && message.id == other) {
            let i = choose|i: int| 0 <= i < t.entries.len() && (#[trigger] t.entries[i]).id == other;
            if i < s.entries.len() {
                assert(s.entries[i].id == other);
            }
        }
    }
}

proof fn lemma_replaced_gives(s: AppStateView, index: int, entry: TranscriptEntryView)
    requires
        has_distinct_ids(s),
        0 <= index < s.entries.len(),
    ensures
        gives(s, replaced(s, index, entry), 0),
{
    let t = replaced(s, index, entry);
    assert(t.entries.len() == s.entries.len());
    assert forall|i: int| 0 <= i < s.entries.len() implies (#[trigger] t.entries[i]).id
        == s.entries[i].id by {}
    assert forall|id: TranscriptEntryId| #[trigger] holds(t, id) implies holds(s, id)
        || id.number() > s.last_id by {
        if !(s.streaming matches Some(message) && message.id == id) {
            let i = choose|i: int| 0 <= i < t.entries.len() && (#[trigger] t.entries[i]).id == id;
            assert(s.entries[i].id == id);
        }
    }
}

proof fn lemma_settled_gives(s: AppStateView, text: Seq<char>, status: UserMessageStatus)
    requires
        has_distinct_ids(s),
        s.last_id + ids_of_settling(s) <= u64::MAX,
    ensures
        gives(s, settled(s, text, status), ids_of_settling(s)),
{
    lemma_first_queued(s.entries, 0);
    match first_queued(s.entries, 0) {
        Some(index) => lemma_replaced_gives(
            s,
            index,
            TranscriptEntryView::Message(
                TranscriptMessageView {
                    user_status: status,
                    ..s.entries[index].entry->Message_0
                },
            ),
        ),
        None => lemma_added_gives(s, plain_message(MessageRole::User, text, status)),
    }
}

proof fn lemma_recovered_gives(s: AppStateView, texts: Seq<Seq<char>>)
    requires
        has_distinct_ids(s),
        s.last_id + ids_of_recovery(s, texts) <= u64::MAX,
    ensures
        gives(s, recovered(s, texts), ids_of_recovery(s, texts)),
    decreases texts.len(),
{
    if texts.len() == 0 {
        lemma_gives_nothing(s, s);
    } else {
        let before = recovered(s, texts.drop_last());
        lemma_recovered_gives(s, texts.drop_last());
        lemma_settled_gives(before, texts.last(), UserMessageStatus::Recovered);
        lemma_gives_transitive(
            s,
            before,
            recovered(s, texts),
            ids_of_recovery(s, texts.drop_last()),
            ids_of_settling(before),
        );
    }
}

proof fn lemma_started_gives(s: AppStateView)
    requires
        has_distinct_ids(s),
        s.last_id < u64::MAX,
    ensures
        gives(s, streaming_started(s), 1),
{
    let t = streaming_started(s);
    let id = entry_id(next(s.last_id));
    lemma_entry_id(next(s.last_id), id);
    assert(t.entries == s.entries);
    assert forall|other: TranscriptEntryId| #[trigger] holds(t, other) implies holds(s, other)
        || other.number() > s.last_id by {
        if other != id {
            assert(holds(s, other));
        }
    }
}

proof fn lemma_ensured_gives(s: AppStateView)
    requires
        has_distinct_ids(s),
        s.last_id + ids_of_streaming(s) <= u64::MAX,
    ensures
        gives(s, streaming_ensured(s), ids_of_streaming(s)),
{
    if s.streaming is None {
        lemma_started_gives(s);
    } else {
        lemma_gives_nothing(s, s);
    }
}

proof fn lemma_changed_gives(s: AppStateView, content: Seq<char>, thinking: Seq<char>)
    requires
        has_distinct_ids(s),
        s.streaming is Some,
    ensures
        gives(s, streaming_changed(s, content, thinking), 0),
{
    let t = streaming_changed(s, content, thinking);
    assert(t.entries == s.entries);
    assert forall|id: TranscriptEntryId| #[trigger] holds(t, id) implies holds(s, id)
        || id.number() > s.last_id by {
        assert(holds(s, id));
    }
}

proof fn lemma_finalized_gives(s: AppStateView)
    requires
        has_distinct_ids(s),
    ensures
        gives(s, streaming_finalized(s), 0),
{
    let t = streaming_finalized(s);
    match s.streaming {
        None => lemma_gives_nothing(s, s),
        Some(message) => {
            assert(t.streaming is None);
            assert(t.last_id == s.last_id);
            assert forall|i: int| 0 <= i < s.entries.len() implies (#[trigger] t.entries[i])
                == s.entries[i] by {}
            assert(t.entries.len() > s.entries.len() ==> t.entries.len() == s.entries.len() + 1
                && t.entries[s.entries.len() as int].id == message.id);
            assert forall|i: int| 0 <= i < t.entries.len() implies 1 <= (
            #[trigger] t.entries[i]).id.number() <= t.last_id by {
                if i < s.entries.len() {
                    assert(t.entries[i] == s.entries[i]);
                }
            }
            assert forall|i: int, j: int| 0 <= i < j < t.entries.len() implies (
            #[trigger] t.entries[i]).id != (#[trigger] t.entries[j]).id by {
                assert(t.entries[i] == s.entries[i]);
                if j < s.entries.len() {
                    assert(t.entries[j] == s.entries[j]);
                }
            }
            assert forall|id: TranscriptEntryId| #[trigger] holds(t, id) implies holds(s, id)
                || id.number() > s.last_id by {
                let i = choose|i: int|
                    0 <= i < t.entries.len() && (#[trigger] t.entries[i]).id == id;
                if i < s.entries.len() {
                    assert(s.entries[i].id == id);
                }
            }
        },
    }
}

proof fn lemma_streamed_gives(s: AppStateView, text: Seq<char>)
    requires
        has_distinct_ids(s),
        text.len() > 0,
        s.last_id + ids_of_streaming(s) <= u64::MAX,
    ensures
        gives(s, content_streamed(s, text), ids_of_streaming(s)),
        gives(s, thinking_streamed(s, text), ids_of_streaming(s)),
{
    let t = streaming_ensured(s);
    let n = ids_of_streaming(s);
    lemma_ensured_gives(s);
    lemma_changed_gives(t, t.streaming->0.content + text, t.streaming->0.thinking);
    lemma_changed_gives(t, t.streaming->0.content, t.streaming->0.thinking + text);
    lemma_gives_transitive(s, t, content_streamed(s, text), n, 0);
    lemma_gives_transitive(s, t, thinking_streamed(s, text), n, 0);
}

proof fn lemma_refusal_gives(s: AppStateView, content: Seq<char>)
    requires
        has_distinct_ids(s),
        s.last_id + ids_of_streaming(s) <= u64::MAX,
    ensures
        gives(s, refusal_given(s, content), ids_of_streaming(s)),
{
    let t = streaming_ensured(s);
    lemma_ensured_gives(s);
    if t.streaming->0.content.len() == 0 && content.len() > 0 {
        lemma_changed_gives(t, content, t.streaming->0.thinking);
        lemma_gives_transitive(s, t, refusal_given(s, content), ids_of_streaming(s), 0);
    }
}

proof fn lemma_message_finished_gives(s: AppStateView, items: Seq<ModelAssistantItemView>)
    requires
        has_distinct_ids(s),
        s.last_id + ids_of_streaming(s) <= u64::MAX,
    ensures
        gives(s, message_finished(s, items), ids_of_streaming(s)),
{
    let n = ids_of_streaming(s);
    let t = streaming_ensured(s);
    lemma_ensured_gives(s);
    let message = t.streaming->0;
    let content = if message.content.len() == 0 {
        first_content(items)
    } else {
        message.content
    };
    let thinking = if message.thinking.len() == 0 {
        first_thinking(items)
    } else {
        message.thinking
    };
    let u = if content == message.content && thinking == message.thinking {
        lemma_gives_nothing(t, t);
        t
    } else {
        lemma_changed_gives(t, content, thinking);
        streaming_changed(t, content, thinking)
    };
    lemma_gives_transitive(s, t, u, n, 0);
    lemma_finalized_gives(u);
    lemma_gives_transitive(s, u, streaming_finalized(u), n, 0);
}

proof fn lemma_calls_give(s: AppStateView, items: Seq<ModelAssistantItemView>)
    requires
        has_distinct_ids(s),
        s.last_id + ids_of_calls(items) <= u64::MAX,
    ensures
        gives(s, calls_added(s, items), ids_of_calls(items)),
    decreases items.len(),
{
    if items.len() == 0 {
        lemma_gives_nothing(s, s);
    } else {
        let before = calls_added(s, items.drop_last());
        lemma_calls_give(s, items.drop_last());
        if let ModelAssistantItemView::ToolCall(call) = items.last() {
            if let (Some(call_id), Some(name)) = (call.call_id, call.name) {
                lemma_added_gives(
                    before,
                    TranscriptEntryView::Tool(running_call(call_id, name, call.arguments)),
                );
                lemma_gives_transitive(
                    s,
                    before,
                    calls_added(s, items),
                    ids_of_calls(items.drop_last()),
                    1,
                );
            }
        }
    }
}

proof fn lemma_message_gives(s: AppStateView, message: ModelMessageView)
    requires
        has_distinct_ids(s),
        s.last_id + ids_of_message(s, message) <= u64::MAX,
    ensures
        gives(s, history_added(s, message), ids_of_message(s, message)),
{
    let t = history_added(s, message);
    match message {
        ModelMessageView::User { content } => lemma_added_gives(
            s,
            plain_message(MessageRole::User, content, UserMessageStatus::Delivered),
        ),
        ModelMessageView::Assistant { items } => {
            let content = joined_content(items);
            let thinking = joined_thinking(items);
            if content.len() == 0 && thinking.len() == 0 {
                lemma_calls_give(s, items);
            } else {
                let entry = TranscriptEntryView::Message(
                    TranscriptMessageView {
                        role: MessageRole::Assistant,
                        content,
                        thinking: nonempty(thinking),
                        user_status: UserMessageStatus::Delivered,
                    },
                );
                lemma_added_gives(s, entry);
                lemma_calls_give(added(s, entry), items);
                lemma_gives_transitive(s, added(s, entry), t, 1, ids_of_calls(items));
            }
        },
        ModelMessageView::ToolResult { tool_call_id, tool_name, content } => {
            lemma_last_call(s.entries, tool_call_id, s.entries.len() as int);
            match last_call(s.entries, tool_call_id, s.entries.len() as int) {
                Some(index) => lemma_replaced_gives(s, index, t.entries[index].entry),
                None => lemma_added_gives(s, t.entries.last().entry),
            }
        },
        _ => lemma_gives_nothing(s, s),
    }
}

proof fn lemma_history_gives(s: AppStateView, messages: Seq<ModelMessageView>)
    requires
        has_distinct_ids(s),
        s.last_id + ids_of_history(s, messages) <= u64::MAX,
    ensures
        gives(s, histories_added(s, messages), ids_of_history(s, messages)),
    decreases messages.len(),
{
    if messages.len() == 0 {
        lemma_gives_nothing(s, s);
    } else {
        let before = histories_added(s, messages.drop_last());
        lemma_history_gives(s, messages.drop_last());
        lemma_message_gives(before, messages.last());
        lemma_gives_transitive(
            s,
            before,
            histories_added(s, messages),
            ids_of_history(s, messages.drop_last()),
            ids_of_message(before, messages.last()),
        );
    }
}

/// A history that takes the place of a transcript shares no identity with it.
proof fn lemma_replacement_gives(s: AppStateView, messages: Seq<ModelMessageView>)
    requires
        has_distinct_ids(s),
        s.last_id + ids_of_history(emptied(s), messages) <= u64::MAX,
    ensures
        gives(s, history_replaced(s, messages), ids_of_history(emptied(s), messages)),
        forall|id: TranscriptEntryId| #[trigger]
            holds(history_replaced(s, messages), id) ==> id.number() > s.last_id,
{
    let t = emptied(s);
    let u = histories_added(t, messages);
    let v = history_replaced(s, messages);
    lemma_history_gives(t, messages);
    lemma_gives_nothing(u, v);
    assert forall|id: TranscriptEntryId| #[trigger] holds(v, id) implies id.number()
        > s.last_id by {
        assert(holds(u, id));
        assert(!holds(t, id));
    }
}

#[verifier::rlimit(60)]
#[verifier::spinoff_prover]
proof fn lemma_event_gives(s: AppStateView, event: AgentEventView)
    requires
        has_distinct_ids(s),
        s.last_id + ids_of_event(s, event) <= u64::MAX,
        !(event is SessionLoaded),
    ensures
        gives(s, reduced(s, event), ids_of_event(s, event)),
{
    let t = reduced(s, event);
    match event {
        AgentEventView::SteeringMessageDelivered { text } => lemma_settled_gives(
            s,
            text,
            UserMessageStatus::Delivered,
        ),
        AgentEventView::SteeringMessagesRecovered { messages } => lemma_recovered_gives(
            s,
            messages,
        ),
        AgentEventView::AssistantMessageStarted => {
            lemma_finalized_gives(s);
            lemma_started_gives(streaming_finalized(s));
            lemma_gives_transitive(s, streaming_finalized(s), t, 0, 1);
        },
        AgentEventView::AssistantTextDelta { text, .. } => if text.len() == 0 {
            lemma_gives_nothing(s, s);
        } else {
            lemma_streamed_gives(s, text);
        },
        AgentEventView::AssistantThinkingDelta { text, .. } => if text.len() == 0 {
            lemma_gives_nothing(s, s);
        } else {
            lemma_streamed_gives(s, text);
        },
        AgentEventView::AssistantRefusalDelta { text, .. } => if text.len() == 0 {
            lemma_gives_nothing(s, s);
        } else {
            lemma_streamed_gives(s, text);
        },
        AgentEventView::AssistantRefusalItem { content, .. } => match content {
            Some(content) => lemma_refusal_gives(s, content),
            None => lemma_gives_nothing(s, s),
        },
        AgentEventView::AssistantMessageFinished { items } => lemma_message_finished_gives(
            s,
            items,
        ),
        AgentEventView::ToolExecutionStarted { call_id, name, arguments } => lemma_added_gives(
            s,
            TranscriptEntryView::Tool(running_call(call_id, name, arguments)),
        ),
        AgentEventView::ToolExecutionOutput { call_id, stream, chunk } => {
            lemma_gives_nothing(s, s);
            lemma_last_call(s.entries, call_id, s.entries.len() as int);
            if let Some(index) = last_call(s.entries, call_id, s.entries.len() as int) {
                if chunk.len() > 0 {
                    lemma_replaced_gives(s, index, t.entries[index].entry);
                }
            }
        },
        AgentEventView::ToolExecutionFinished { call_id, name, result } => {
            lemma_gives_nothing(s, s);
            lemma_last_call(s.entries, call_id, s.entries.len() as int);
            if let Some(index) = last_call(s.entries, call_id, s.entries.len() as int) {
                lemma_replaced_gives(s, index, t.entries[index].entry);
            }
        },
        AgentEventView::CompactionFinished { automatic, before_tokens, after_tokens } => {
            let u = AppStateView { compaction_active: false, ..s };
            lemma_gives_nothing(s, u);
            lemma_added_gives(u, t.entries.last().entry);
            lemma_gives_transitive(s, u, t, 0, 1);
        },
        AgentEventView::CompactionFailed { message } => {
            let u = AppStateView { compaction_active: false, last_error: Some(message), ..s };
            lemma_gives_nothing(s, u);
            lemma_added_gives(u, t.entries.last().entry);
            lemma_gives_transitive(s, u, t, 0, 1);
        },
        AgentEventView::Error(error) => {
            let u = AppStateView { last_error: Some(error.message), ..s };
            lemma_gives_nothing(s, u);
            lemma_added_gives(u, t.entries.last().entry);
            lemma_gives_transitive(s, u, t, 0, 1);
        },
        _ => lemma_gives_nothing(s, t),
    }
}

/// Whatever is called, as long as the numbers last: no two entries share an identity, an identity
/// that is new has a number that was never given out before, and a transcript that takes the place
/// of another shares no identity with it.
#[verifier::rlimit(60)]
#[verifier::spinoff_prover]
pub proof fn lemma_identities_are_given_once(s: AppStateView, step: AppStep)
    requires
        has_distinct_ids(s),
        s.last_id + ids_of_step(s, step) <= u64::MAX,
    ensures
        stepped(s, step).last_id == s.last_id + ids_of_step(s, step),
        has_distinct_ids(stepped(s, step)),
        gives_new_ids(s, stepped(s, step)),
        replaces_transcript(step) ==> forall|id: TranscriptEntryId| #[trigger]
            holds(stepped(s, step), id) ==> id.number() > s.last_id,
{
    match step {
        AppStep::Reduce { event } => match event {
            AgentEventView::SessionLoaded { info, history } => {
                let t = AppStateView { session_info: Some(info), ..s };
                lemma_gives_nothing(s, t);
                lemma_replacement_gives(t, history);
                lemma_gives_transitive(
                    s,
                    t,
                    history_replaced(t, history),
                    0,
                    ids_of_history(emptied(t), history),
                );
            },
            _ => lemma_event_gives(s, event),
        },
        AppStep::ReplaceHistory { messages } => lemma_replacement_gives(s, messages),
        AppStep::SubmitInput => {
            if submitted(s).0 is Some {
                let t = input_taken(s);
                let u = streaming_finalized(t);
                let entry = plain_message(MessageRole::User, s.input, UserMessageStatus::Delivered);
                lemma_gives_nothing(s, t);
                lemma_finalized_gives(t);
                lemma_added_gives(u, entry);
                lemma_gives_transitive(s, t, u, 0, 0);
                lemma_gives_transitive(s, u, added(u, entry), 0, 1);
                lemma_gives_nothing(added(u, entry), input_submitted(s));
                lemma_gives_transitive(s, added(u, entry), input_submitted(s), 1, 0);
            } else {
                lemma_gives_nothing(s, s);
            }
        },
        AppStep::QueueInput => {
            lemma_gives_nothing(s, s);
            if queued(s).0 is Some {
                let t = input_taken(s);
                let entry = plain_message(MessageRole::User, s.input, UserMessageStatus::Queued);
                lemma_gives_nothing(s, t);
                lemma_added_gives(t, entry);
                lemma_gives_transitive(s, t, added(t, entry), 0, 1);
            }
        },
        AppStep::AddSystemMessage { content } => lemma_added_gives(
            s,
            plain_message(MessageRole::System, content, UserMessageStatus::Delivered),
        ),
        _ => {
            lemma_noted(s, step);
            lemma_gives_nothing(s, noted(s, step));
        },
    }
}

/// From the beginning of a session, whatever was called in a row, as long as the numbers last: as
/// many identities were given out as the last number tells, and no two entries share one.
#[verifier::rlimit(60)]
#[verifier::spinoff_prover]
pub proof fn lemma_identities_of_a_session(steps: Seq<AppStep>)
    requires
        ids_of_run(initial_state(), steps) <= u64::MAX,
    ensures
        run(initial_state(), steps).last_id == ids_of_run(initial_state(), steps),
        has_distinct_ids(run(initial_state(), steps)),
    decreases steps.len(),
{
    if steps.len() > 0 {
        lemma_identities_of_a_session(steps.drop_last());
        lemma_identities_are_given_once(run(initial_state(), steps.drop_last()), steps.last());
    }
}

/// Between two states of a session, as long as the numbers last: an identity that was given out by
/// the earlier and is no longer held there is never held again.
#[verifier::rlimit(60)]
#[verifier::spinoff_prover]
pub proof fn lemma_identities_are_never_reused(steps: Seq<AppStep>, earlier: int)
    requires
        0 <= earlier <= steps.len(),
        ids_of_run(initial_state(), steps) <= u64::MAX,
    ensures
        gives_new_ids(run(initial_state(), steps.take(earlier)), run(initial_state(), steps)),
    decreases steps.len(),
{
    let s = run(initial_state(), steps.take(earlier));
    let u = run(initial_state(), steps);
    if earlier == steps.len() {
        assert(steps.take(earlier) =~= steps);
    } else {
        let t = run(initial_state(), steps.drop_last());
        assert(steps.drop_last().take(earlier) =~= steps.take(earlier));
        lemma_identities_are_never_reused(steps.drop_last(), earlier);
        lemma_identities_of_a_session(steps.drop_last());
        lemma_identities_are_given_once(t, steps.last());
        assert forall|id: TranscriptEntryId| #[trigger] holds(u, id) implies holds(s, id)
            || id.number() > s.last_id by {
            if !(id.number() > t.last_id) {
                assert(holds(t, id));
            }
        }
    }
}

/// A message that came in, once it is an entry, keeps its identity, and its revision moves on.
pub proof fn lemma_finished_messages_keep_their_identity(s: AppStateView)
    requires
        s.streaming is Some,
        s.streaming->0.content.len() > 0 || s.streaming->0.thinking.len() > 0,
    ensures
        ({
            let t = streaming_finalized(s);
            let message = s.streaming->0;
            &&& t.streaming is None
            &&& t.entries.len() == s.entries.len() + 1
            &&& t.entries.last().id == message.id
            &&& t.entries.last().revision == next(message.revision)
            &&& message.revision < u64::MAX ==> t.entries.last().revision > message.revision
        }),
{
}

} // verus!
