//! What is known of the changes of a transcript.

use crate::agent::event::AgentEventView;
use crate::app::laws::{lemma_first_queued, lemma_last_call};
use crate::app::state::{
    added, call_finished, calls_added, content_streamed, emptied, first_content, first_queued,
    first_thinking, histories_added, initial_state, input_submitted, input_taken, joined_content,
    joined_thinking, last_call, marked, message_finished, next, nonempty, output_given,
    plain_message, pushed, recovered, reduced, refusal_given, replaced, running_call, settled,
    streaming_changed, streaming_ensured, streaming_finalized, streaming_started,
    thinking_streamed, AppStateView,
};
use crate::app::steps::{forgets_changes, lemma_noted, noted, run, stepped, AppStep};
use crate::app::transcript::{
    entry_id, MessageRole, TranscriptEntryId, TranscriptEntryStateView, TranscriptEntryView,
    TranscriptMessageView, UserMessageStatus,
};
use crate::model::message::{ModelAssistantItemView, ModelMessageView};
use vstd::prelude::*;

verus! {

/// The pending change at `i` is that of the one before.
pub open spec fn repeats_at(pending: Seq<TranscriptEntryId>, i: int) -> bool {
    pending[i - 1] == pending[i]
}

/// No two neighbours among the pending changes are of one entry.
pub open spec fn has_no_repeats(pending: Seq<TranscriptEntryId>) -> bool {
    forall|i: int| 0 < i < pending.len() ==> !#[trigger] repeats_at(pending, i)
}

/// From `s` to `t` the transcript only grew, every entry kept its identity, and what was added
/// or changed, the message that comes in too, is among the pending changes, behind those that were
/// pending before and without repetition.
pub open spec fn tracks(s: AppStateView, t: AppStateView) -> bool {
    &&& s.pending.is_prefix_of(t.pending)
    &&& has_no_repeats(s.pending) ==> has_no_repeats(t.pending)
    &&& s.entries.len() <= t.entries.len()
    &&& forall|i: int| 0 <= i < s.entries.len() ==> s.entries[i].id == (#[trigger] t.entries[i]).id
    &&& forall|i: int|
        0 <= i < t.entries.len() ==> (i < s.entries.len() && s.entries[i] == (
        #[trigger] t.entries[i])) || t.pending.contains(t.entries[i].id)
    &&& s.streaming != t.streaming ==> {
        &&& t.streaming matches Some(message) ==> t.pending.contains(message.id)
        &&& s.streaming matches Some(message) ==> t.pending.contains(message.id)
    }
}

proof fn lemma_prefix_contains(
    p: Seq<TranscriptEntryId>,
    q: Seq<TranscriptEntryId>,
    id: TranscriptEntryId,
)
    requires
        p.is_prefix_of(q),
        p.contains(id),
    ensures
        q.contains(id),
{
    let k = choose|k: int| 0 <= k < p.len() && p[k] == id;
    assert(q.take(p.len() as int)[k] == q[k]);
}

proof fn lemma_tracks_transitive(s: AppStateView, t: AppStateView, u: AppStateView)
    requires
        tracks(s, t),
        tracks(t, u),
    ensures
        tracks(s, u),
{
    assert(s.pending.is_prefix_of(u.pending)) by {
        assert(u.pending.take(s.pending.len() as int) =~= t.pending.take(s.pending.len() as int));
    }
    assert forall|i: int| 0 <= i < s.entries.len() implies s.entries[i].id == (
    #[trigger] u.entries[i]).id by {
        assert(s.entries[i].id == t.entries[i].id);
    }
    assert forall|i: int| 0 <= i < u.entries.len() implies (i < s.entries.len() && s.entries[i]
        == (#[trigger] u.entries[i])) || u.pending.contains(u.entries[i].id) by {
        if i < t.entries.len() && t.entries[i] == u.entries[i] {
            if !(i < s.entries.len() && s.entries[i] == t.entries[i]) {
                lemma_prefix_contains(t.pending, u.pending, t.entries[i].id);
            }
        }
    }
    if s.streaming != u.streaming {
        if let Some(message) = u.streaming {
            if t.streaming == u.streaming {
                lemma_prefix_contains(t.pending, u.pending, message.id);
            }
        }
        if let Some(message) = s.streaming {
            if s.streaming != t.streaming {
                lemma_prefix_contains(t.pending, u.pending, message.id);
            }
        }
    }
}

proof fn lemma_tracks_self(s: AppStateView, t: AppStateView)
    requires
        s.entries == t.entries,
        s.pending == t.pending,
        s.streaming == t.streaming,
    ensures
        tracks(s, t),
{
    assert(s.pending.take(s.pending.len() as int) =~= s.pending);
}

proof fn lemma_marked(s: AppStateView, id: TranscriptEntryId)
    ensures
        s.pending.is_prefix_of(marked(s, id).pending),
        has_no_repeats(s.pending) ==> has_no_repeats(marked(s, id).pending),
        marked(s, id).pending.contains(id),
        marked(s, id).entries == s.entries,
        marked(s, id).streaming == s.streaming,
{
    let t = marked(s, id);
    assert(t.pending.take(s.pending.len() as int) =~= s.pending);
    assert(t.pending[t.pending.len() - 1] == id);
    if has_no_repeats(s.pending) {
        assert forall|i: int| 0 < i < t.pending.len() implies !#[trigger] repeats_at(
            t.pending,
            i,
        ) by {
            if i < s.pending.len() {
                assert(!repeats_at(s.pending, i));
            }
        }
    }
}

proof fn lemma_pushed(
    s: AppStateView,
    entry: TranscriptEntryView,
    id: TranscriptEntryId,
    revision: u64,
)
    ensures
        tracks(s, pushed(s, entry, id, revision)),
        pushed(s, entry, id, revision).entries == s.entries.push(
            TranscriptEntryStateView { id, revision, entry },
        ),
{
    let state = TranscriptEntryStateView { id, revision, entry };
    lemma_marked(AppStateView { entries: s.entries.push(state), ..s }, id);
}

proof fn lemma_added(s: AppStateView, entry: TranscriptEntryView)
    ensures
        tracks(s, added(s, entry)),
        added(s, entry).entries == s.entries.push(
            TranscriptEntryStateView { id: entry_id(next(s.last_id)), revision: 0, entry },
        ),
{
    let id = next(s.last_id);
    lemma_pushed(AppStateView { last_id: id, ..s }, entry, entry_id(id), 0);
}

proof fn lemma_replaced(s: AppStateView, index: int, entry: TranscriptEntryView)
    requires
        0 <= index < s.entries.len(),
    ensures
        tracks(s, replaced(s, index, entry)),
        replaced(s, index, entry).entries == s.entries.update(
            index,
            TranscriptEntryStateView {
                id: s.entries[index].id,
                revision: next(s.entries[index].revision),
                entry,
            },
        ),
{
    let state = s.entries[index];
    let changed = AppStateView {
        entries: s.entries.update(
            index,
            TranscriptEntryStateView { id: state.id, revision: next(state.revision), entry },
        ),
        ..s
    };
    lemma_marked(changed, state.id);
}

proof fn lemma_settled(s: AppStateView, text: Seq<char>, status: UserMessageStatus)
    ensures
        tracks(s, settled(s, text, status)),
{
    lemma_first_queued(s.entries, 0);
    match first_queued(s.entries, 0) {
        Some(index) => lemma_replaced(
            s,
            index,
            settled(s, text, status).entries[index].entry,
        ),
        None => lemma_added(
            s,
            plain_message(MessageRole::User, text, status),
        ),
    }
}

proof fn lemma_recovered(s: AppStateView, texts: Seq<Seq<char>>)
    ensures
        tracks(s, recovered(s, texts)),
    decreases texts.len(),
{
    if texts.len() == 0 {
        lemma_tracks_self(s, s);
    } else {
        let before = recovered(s, texts.drop_last());
        lemma_recovered(s, texts.drop_last());
        lemma_settled(before, texts.last(), UserMessageStatus::Recovered);
        lemma_tracks_transitive(
            s,
            before,
            settled(before, texts.last(), UserMessageStatus::Recovered),
        );
    }
}

proof fn lemma_streaming_started(s: AppStateView)
    requires
        s.streaming is None,
    ensures
        tracks(s, streaming_started(s)),
{
    let id = next(s.last_id);
    lemma_marked(AppStateView { last_id: id, ..s }, entry_id(id));
}

proof fn lemma_streaming_ensured(s: AppStateView)
    ensures
        tracks(s, streaming_ensured(s)),
{
    lemma_tracks_self(s, s);
    if s.streaming is None {
        lemma_streaming_started(s);
    }
}

proof fn lemma_streaming_changed(s: AppStateView, content: Seq<char>, thinking: Seq<char>)
    requires
        s.streaming is Some,
    ensures
        tracks(s, streaming_changed(s, content, thinking)),
{
    let t = streaming_changed(s, content, thinking);
    let message = s.streaming->0;
    lemma_marked(AppStateView { streaming: t.streaming, ..s }, message.id);
}

proof fn lemma_streaming_finalized(s: AppStateView)
    ensures
        tracks(s, streaming_finalized(s)),
{
    match s.streaming {
        None => lemma_tracks_self(s, s),
        Some(message) => {
            let start = AppStateView { streaming: None, ..s };
            let t = marked(start, message.id);
            lemma_marked(start, message.id);
            assert(tracks(s, t));
            if !(message.content.len() == 0 && message.thinking.len() == 0) {
                let u = streaming_finalized(s);
                lemma_pushed(
                    t,
                    u.entries.last().entry,
                    message.id,
                    next(message.revision),
                );
                lemma_tracks_transitive(s, t, u);
            }
        },
    }
}

proof fn lemma_streamed(s: AppStateView, text: Seq<char>)
    ensures
        tracks(s, content_streamed(s, text)),
        tracks(s, thinking_streamed(s, text)),
{
    let t = streaming_ensured(s);
    lemma_tracks_self(s, s);
    lemma_streaming_ensured(s);
    lemma_streaming_changed(t, t.streaming->0.content + text, t.streaming->0.thinking);
    lemma_streaming_changed(t, t.streaming->0.content, t.streaming->0.thinking + text);
    lemma_tracks_transitive(
        s,
        t,
        streaming_changed(t, t.streaming->0.content + text, t.streaming->0.thinking),
    );
    lemma_tracks_transitive(
        s,
        t,
        streaming_changed(t, t.streaming->0.content, t.streaming->0.thinking + text),
    );
}

proof fn lemma_message_finished(s: AppStateView, items: Seq<ModelAssistantItemView>)
    ensures
        tracks(s, message_finished(s, items)),
{
    let t = streaming_ensured(s);
    lemma_streaming_ensured(s);
    lemma_streaming_finalized(t);
    lemma_tracks_transitive(s, t, streaming_finalized(t));
    let message = t.streaming->0;
    let content = if message.content.len() == 0 {
        first_content(items)
    } else {
        message.content
    };
    let thinking = if message.thinking.len() == 0 {
        first_thinking(items)
    } else {
        message.thinking
    };
    let u = streaming_changed(t, content, thinking);
    lemma_streaming_changed(t, content, thinking);
    lemma_streaming_finalized(u);
    lemma_tracks_transitive(s, t, u);
    lemma_tracks_transitive(s, u, streaming_finalized(u));
}

proof fn lemma_refusal_given(s: AppStateView, content: Seq<char>)
    ensures
        tracks(s, refusal_given(s, content)),
{
    let t = streaming_ensured(s);
    lemma_streaming_ensured(s);
    lemma_streaming_changed(t, content, t.streaming->0.thinking);
    lemma_tracks_transitive(s, t, streaming_changed(t, content, t.streaming->0.thinking));
}

/// Whatever the agent reports, unless it loads another session: the transcript only grows, its
/// entries keep their identity, and what changed is among the pending changes.
#[verifier::rlimit(60)]
#[verifier::spinoff_prover]
pub proof fn lemma_events_are_tracked(s: AppStateView, event: AgentEventView)
    requires
        !(event is SessionLoaded),
    ensures
        tracks(s, reduced(s, event)),
{
    lemma_tracks_self(s, s);
    match event {
        AgentEventView::SteeringMessageDelivered { text } => lemma_settled(
            s,
            text,
            UserMessageStatus::Delivered,
        ),
        AgentEventView::SteeringMessagesRecovered { messages } => lemma_recovered(s, messages),
        AgentEventView::AssistantMessageStarted => {
            let t = streaming_finalized(s);
            lemma_streaming_finalized(s);
            lemma_streaming_started(t);
            lemma_tracks_transitive(s, t, streaming_started(t));
        },
        AgentEventView::AssistantTextDelta { text, .. } => lemma_streamed(s, text),
        AgentEventView::AssistantThinkingDelta { text, .. } => lemma_streamed(s, text),
        AgentEventView::AssistantRefusalDelta { text, .. } => lemma_streamed(s, text),
        AgentEventView::AssistantRefusalItem { content, .. } => {
            if let Some(content) = content {
                lemma_refusal_given(s, content);
            }
        },
        AgentEventView::AssistantMessageFinished { items } => lemma_message_finished(s, items),
        AgentEventView::ToolExecutionStarted { call_id, name, arguments } => lemma_added(
            s,
            TranscriptEntryView::Tool(running_call(call_id, name, arguments)),
        ),
        AgentEventView::ToolExecutionOutput { call_id, stream, chunk } => {
            lemma_last_call(s.entries, call_id, s.entries.len() as int);
            if let Some(index) = last_call(s.entries, call_id, s.entries.len() as int) {
                if chunk.len() > 0 {
                    lemma_replaced(s, index, output_given(s, call_id, stream, chunk).entries[index].entry);
                }
            }
        },
        AgentEventView::ToolExecutionFinished { call_id, name, result } => {
            lemma_last_call(s.entries, call_id, s.entries.len() as int);
            if let Some(index) = last_call(s.entries, call_id, s.entries.len() as int) {
                lemma_replaced(s, index, call_finished(s, call_id, result).entries[index].entry);
            }
        },
        AgentEventView::CompactionFinished { automatic, before_tokens, after_tokens } => {
            lemma_added(
                AppStateView { compaction_active: false, ..s },
                reduced(s, event).entries.last().entry,
            );
        },
        AgentEventView::CompactionFailed { message } => {
            lemma_added(
                AppStateView { compaction_active: false, last_error: Some(message), ..s },
                reduced(s, event).entries.last().entry,
            );
        },
        AgentEventView::Error(error) => {
            lemma_added(
                AppStateView { last_error: Some(error.message), ..s },
                reduced(s, event).entries.last().entry,
            );
        },
        _ => {},
    }
}

/// Whatever is called, unless it leaves no change pending: the transcript only grows, its entries
/// keep their identity, and what changed is among the pending changes.
#[verifier::rlimit(60)]
#[verifier::spinoff_prover]
pub proof fn lemma_steps_are_tracked(s: AppStateView, step: AppStep)
    requires
        !forgets_changes(step),
    ensures
        tracks(s, stepped(s, step)),
{
    match step {
        AppStep::Reduce { event } => lemma_events_are_tracked(s, event),
        AppStep::SubmitInput => {
            lemma_tracks_self(s, s);
            let t = input_taken(s);
            let u = streaming_finalized(t);
            let entry = plain_message(MessageRole::User, s.input, UserMessageStatus::Delivered);
            lemma_tracks_self(s, t);
            lemma_streaming_finalized(t);
            lemma_added(u, entry);
            lemma_tracks_transitive(s, t, u);
            lemma_tracks_transitive(s, u, added(u, entry));
            lemma_tracks_self(added(u, entry), input_submitted(s));
            lemma_tracks_transitive(s, added(u, entry), input_submitted(s));
        },
        AppStep::QueueInput => {
            lemma_tracks_self(s, s);
            let t = input_taken(s);
            let entry = plain_message(MessageRole::User, s.input, UserMessageStatus::Queued);
            lemma_tracks_self(s, t);
            lemma_added(t, entry);
            lemma_tracks_transitive(s, t, added(t, entry));
        },
        AppStep::AddSystemMessage { content } => lemma_added(
            s,
            plain_message(MessageRole::System, content, UserMessageStatus::Delivered),
        ),
        _ => {
            lemma_noted(s, step);
            lemma_tracks_self(s, noted(s, step));
        },
    }
}

/// Right after the changes are acknowledged, or the transcript is replaced, nothing is pending.
#[verifier::rlimit(60)]
#[verifier::spinoff_prover]
pub proof fn lemma_nothing_is_pending(s: AppStateView, step: AppStep)
    requires
        forgets_changes(step),
    ensures
        stepped(s, step).pending.len() == 0,
{
}

/// Since nothing was pending, whatever was called in a row without forgetting the changes: every
/// entry that is new or changed is among the pending changes, and so is the message that comes in
/// where it is new, changed or gone; no two neighbours among them are of one entry.
#[verifier::rlimit(60)]
#[verifier::spinoff_prover]
pub proof fn lemma_changes_are_pending(s: AppStateView, steps: Seq<AppStep>)
    requires
        s.pending.len() == 0,
        forall|i: int| 0 <= i < steps.len() ==> !forgets_changes(#[trigger] steps[i]),
    ensures
        tracks(s, run(s, steps)),
        has_no_repeats(run(s, steps).pending),
    decreases steps.len(),
{
    if steps.len() == 0 {
        lemma_tracks_self(s, s);
    } else {
        let before = run(s, steps.drop_last());
        assert forall|i: int| 0 <= i < steps.drop_last().len() implies !forgets_changes(
            #[trigger] steps.drop_last()[i],
        ) by {
            assert(!forgets_changes(steps[i]));
        }
        lemma_changes_are_pending(s, steps.drop_last());
        assert(!forgets_changes(steps[steps.len() - 1]));
        lemma_steps_are_tracked(before, steps.last());
        lemma_tracks_transitive(s, before, stepped(before, steps.last()));
    }
}

/// In every state of a session no two neighbours among the pending changes are of one entry.
#[verifier::rlimit(60)]
#[verifier::spinoff_prover]
pub proof fn lemma_pending_has_no_repeats(steps: Seq<AppStep>)
    ensures
        has_no_repeats(run(initial_state(), steps).pending),
    decreases steps.len(),
{
    if steps.len() > 0 {
        let before = run(initial_state(), steps.drop_last());
        lemma_pending_has_no_repeats(steps.drop_last());
        if forgets_changes(steps.last()) {
            lemma_nothing_is_pending(before, steps.last());
        } else {
            lemma_steps_are_tracked(before, steps.last());
        }
    }
}

/// From `s` to `t` the transcript was not replaced and its revision moved on `n` times, around the
/// largest number; where it did not, the transcript is the same.
spec fn counts(s: AppStateView, t: AppStateView, n: nat) -> bool {
    &&& t.epoch == s.epoch
    &&& t.revision == (s.revision + n) % 0x1_0000_0000_0000_0000
    &&& n == 0 ==> t.entries == s.entries && t.streaming == s.streaming
}

proof fn lemma_counts_transitive(
    s: AppStateView,
    t: AppStateView,
    u: AppStateView,
    n: nat,
    m: nat,
)
    requires
        counts(s, t, n),
        counts(t, u, m),
    ensures
        counts(s, u, n + m),
{
}

/// Every settled message counts once.
proof fn lemma_settled_counts(s: AppStateView, text: Seq<char>, status: UserMessageStatus)
    ensures
        counts(s, settled(s, text, status), 1),
{
}

proof fn lemma_recovered_counts(s: AppStateView, texts: Seq<Seq<char>>)
    ensures
        counts(s, recovered(s, texts), texts.len()),
    decreases texts.len(),
{
    if texts.len() > 0 {
        let before = recovered(s, texts.drop_last());
        lemma_recovered_counts(s, texts.drop_last());
        lemma_settled_counts(before, texts.last(), UserMessageStatus::Recovered);
        lemma_counts_transitive(
            s,
            before,
            recovered(s, texts),
            texts.drop_last().len(),
            1,
        );
    }
}

proof fn lemma_ensured_counts(s: AppStateView) -> (n: nat)
    ensures
        counts(s, streaming_ensured(s), n),
        n <= 1,
{
    if s.streaming is None {
        1
    } else {
        0
    }
}

proof fn lemma_changed_counts(s: AppStateView, content: Seq<char>, thinking: Seq<char>)
    ensures
        counts(s, streaming_changed(s, content, thinking), 1),
{
}

proof fn lemma_finalized_counts(s: AppStateView) -> (n: nat)
    ensures
        counts(s, streaming_finalized(s), n),
        n <= 2,
{
    match s.streaming {
        None => 0,
        Some(message) => if message.content.len() == 0 && message.thinking.len() == 0 {
            1
        } else {
            2
        },
    }
}

proof fn lemma_message_finished_counts(
    s: AppStateView,
    items: Seq<ModelAssistantItemView>,
) -> (n: nat)
    ensures
        counts(s, message_finished(s, items), n),
        n <= 4,
{
    let t = streaming_ensured(s);
    let first = lemma_ensured_counts(s);
    let message = t.streaming->0;
    let content = if message.content.len() == 0 {
        first_content(items)
    } else {
        message.content
    };
    let thinking = if message.thinking.len() == 0 {
        first_thinking(items)
    } else {
        message.thinking
    };
    if content == message.content && thinking == message.thinking {
        let last = lemma_finalized_counts(t);
        lemma_counts_transitive(s, t, streaming_finalized(t), first, last);
        first + last
    } else {
        let u = streaming_changed(t, content, thinking);
        lemma_changed_counts(t, content, thinking);
        lemma_counts_transitive(s, t, u, first, 1);
        let last = lemma_finalized_counts(u);
        lemma_counts_transitive(s, u, streaming_finalized(u), first + 1, last);
        first + 1 + last
    }
}

/// Text that comes in counts for the message, and for its beginning.
proof fn lemma_streamed_counts(s: AppStateView, text: Seq<char>) -> (n: nat)
    ensures
        counts(s, content_streamed(s, text), n),
        counts(s, thinking_streamed(s, text), n),
        n <= 2,
{
    if text.len() == 0 {
        0
    } else {
        let t = streaming_ensured(s);
        let first = lemma_ensured_counts(s);
        lemma_changed_counts(t, t.streaming->0.content + text, t.streaming->0.thinking);
        lemma_changed_counts(t, t.streaming->0.content, t.streaming->0.thinking + text);
        lemma_counts_transitive(s, t, content_streamed(s, text), first, 1);
        lemma_counts_transitive(s, t, thinking_streamed(s, text), first, 1);
        first + 1
    }
}

proof fn lemma_refusal_counts(s: AppStateView, content: Seq<char>) -> (n: nat)
    ensures
        counts(s, refusal_given(s, content), n),
        n <= 2,
{
    let t = streaming_ensured(s);
    let first = lemma_ensured_counts(s);
    if t.streaming->0.content.len() == 0 && content.len() > 0 {
        lemma_changed_counts(t, content, t.streaming->0.thinking);
        lemma_counts_transitive(s, t, refusal_given(s, content), first, 1);
        first + 1
    } else {
        first
    }
}

proof fn lemma_added_counts(s: AppStateView, entry: TranscriptEntryView)
    ensures
        counts(s, added(s, entry), 1),
{
}

proof fn lemma_replaced_counts(s: AppStateView, index: int, entry: TranscriptEntryView)
    ensures
        counts(s, replaced(s, index, entry), 1),
{
}

#[verifier::rlimit(60)]
#[verifier::spinoff_prover]
proof fn lemma_event_counts(s: AppStateView, event: AgentEventView) -> (n: nat)
    requires
        !(event is SessionLoaded),
        event matches AgentEventView::SteeringMessagesRecovered { messages } ==> messages.len()
            <= u64::MAX,
    ensures
        counts(s, reduced(s, event), n),
        n <= u64::MAX,
{
    match event {
        AgentEventView::SteeringMessageDelivered { text } => {
            lemma_settled_counts(s, text, UserMessageStatus::Delivered);
            1
        },
        AgentEventView::SteeringMessagesRecovered { messages } => {
            lemma_recovered_counts(s, messages);
            messages.len()
        },
        AgentEventView::AssistantMessageStarted => {
            let t = streaming_finalized(s);
            let first = lemma_finalized_counts(s);
            assert(counts(t, streaming_started(t), 1));
            lemma_counts_transitive(s, t, streaming_started(t), first, 1);
            first + 1
        },
        AgentEventView::AssistantTextDelta { text, .. } => lemma_streamed_counts(s, text),
        AgentEventView::AssistantThinkingDelta { text, .. } => lemma_streamed_counts(s, text),
        AgentEventView::AssistantRefusalDelta { text, .. } => lemma_streamed_counts(s, text),
        AgentEventView::AssistantRefusalItem { content, .. } => match content {
            Some(content) => lemma_refusal_counts(s, content),
            None => 0,
        },
        AgentEventView::AssistantMessageFinished { items } => lemma_message_finished_counts(
            s,
            items,
        ),
        AgentEventView::ToolExecutionStarted { call_id, name, arguments } => {
            lemma_added_counts(
                s,
                TranscriptEntryView::Tool(running_call(call_id, name, arguments)),
            );
            1
        },
        AgentEventView::ToolExecutionOutput { call_id, stream, chunk } => match last_call(
            s.entries,
            call_id,
            s.entries.len() as int,
        ) {
            Some(index) => if chunk.len() == 0 {
                0
            } else {
                lemma_replaced_counts(
                    s,
                    index,
                    output_given(s, call_id, stream, chunk).entries[index].entry,
                );
                1
            },
            None => 0,
        },
        AgentEventView::ToolExecutionFinished { call_id, name, result } => match last_call(
            s.entries,
            call_id,
            s.entries.len() as int,
        ) {
            Some(index) => {
                lemma_replaced_counts(
                    s,
                    index,
                    call_finished(s, call_id, result).entries[index].entry,
                );
                1
            },
            None => 0,
        },
        AgentEventView::CompactionFinished { automatic, before_tokens, after_tokens } => 1,
        AgentEventView::CompactionFailed { message } => 1,
        AgentEventView::Error(error) => 1,
        _ => 0,
    }
}

/// A history moves the epoch on, and its messages do not.
proof fn lemma_epoch_of_history(s: AppStateView, messages: Seq<ModelMessageView>)
    ensures
        histories_added(s, messages).epoch == s.epoch,
    decreases messages.len(),
{
    if messages.len() > 0 {
        let before = histories_added(s, messages.drop_last());
        lemma_epoch_of_history(s, messages.drop_last());
        if let ModelMessageView::Assistant { items } = messages.last() {
            let content = joined_content(items);
            let thinking = joined_thinking(items);
            if content.len() == 0 && thinking.len() == 0 {
                lemma_epoch_of_calls(before, items);
            } else {
                lemma_epoch_of_calls(
                    added(
                        before,
                        TranscriptEntryView::Message(
                            TranscriptMessageView {
                                role: MessageRole::Assistant,
                                content,
                                thinking: nonempty(thinking),
                                user_status: UserMessageStatus::Delivered,
                            },
                        ),
                    ),
                    items,
                );
            }
        }
    }
}

proof fn lemma_epoch_of_calls(s: AppStateView, items: Seq<ModelAssistantItemView>)
    ensures
        calls_added(s, items).epoch == s.epoch,
    decreases items.len(),
{
    if items.len() > 0 {
        lemma_epoch_of_calls(s, items.drop_last());
    }
}

/// Whatever is called: where the epoch and the revision of the transcript are what they were, its
/// entries and the message that comes in are, too. A list holds no more messages than `u64::MAX`.
#[verifier::rlimit(60)]
#[verifier::spinoff_prover]
pub proof fn lemma_revision_tells(s: AppStateView, step: AppStep)
    requires
        step matches AppStep::Reduce { event } ==> (
        event matches AgentEventView::SteeringMessagesRecovered { messages } ==> messages.len()
            <= u64::MAX),
        stepped(s, step).epoch == s.epoch,
        stepped(s, step).revision == s.revision,
    ensures
        stepped(s, step).entries == s.entries,
        stepped(s, step).streaming == s.streaming,
{
    match step {
        AppStep::Reduce { event } => match event {
            AgentEventView::SessionLoaded { info, history } => lemma_epoch_of_history(
                emptied(AppStateView { session_info: Some(info), ..s }),
                history,
            ),
            _ => {
                let n = lemma_event_counts(s, event);
            },
        },
        AppStep::ReplaceHistory { messages } => lemma_epoch_of_history(emptied(s), messages),
        AppStep::SubmitInput => {
            let t = input_taken(s);
            let u = streaming_finalized(t);
            let entry = plain_message(MessageRole::User, s.input, UserMessageStatus::Delivered);
            let n = lemma_finalized_counts(t);
            lemma_added_counts(u, entry);
            lemma_counts_transitive(t, u, added(u, entry), n, 1);
        },
        AppStep::QueueInput => lemma_added_counts(
            input_taken(s),
            plain_message(MessageRole::User, s.input, UserMessageStatus::Queued),
        ),
        AppStep::AddSystemMessage { content } => lemma_added_counts(
            s,
            plain_message(MessageRole::System, content, UserMessageStatus::Delivered),
        ),
        _ => lemma_noted(s, step),
    }
}

} // verus!
