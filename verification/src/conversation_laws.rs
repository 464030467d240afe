//! What becomes of a conversation that is put before a model, and how it falls into parts.

use crate::conversation::{
    is_resolved, pending_after, pending_after_items, provider_projection, segments_of,
    split_at_users, ConversationHistoryView, COMPACTION_SUMMARY_END, COMPACTION_SUMMARY_START,
};
use crate::model::message::{ModelAssistantItemView, ModelMessageView};
use vstd::prelude::*;

verus! {

/// What is put before a model is the summary, where there is one, as a message of the developer
/// between its two marks, and then every message, in order.
pub proof fn lemma_summaries_come_first(history: ConversationHistoryView, i: int)
    ensures
        history.summary is None ==> provider_projection(history) == history.messages,
        history.summary matches Some(content) ==> {
            let put = provider_projection(history);
            &&& put.len() == history.messages.len() + 1
            &&& put[0] matches ModelMessageView::Developer { content: text }
            &&& text.len() == COMPACTION_SUMMARY_START@.len() + content.len()
                + COMPACTION_SUMMARY_END@.len()
            &&& COMPACTION_SUMMARY_START@.is_prefix_of(text)
            &&& COMPACTION_SUMMARY_END@.is_suffix_of(text)
            &&& text.subrange(
                COMPACTION_SUMMARY_START@.len() as int,
                (COMPACTION_SUMMARY_START@.len() + content.len()) as int,
            ) == content
            &&& 0 <= i < history.messages.len() ==> put[i + 1] == history.messages[i]
        },
{
    if let Some(content) = history.summary {
        let text = COMPACTION_SUMMARY_START@ + content + COMPACTION_SUMMARY_END@;
        let start: int = COMPACTION_SUMMARY_START@.len() as int;
        assert(text.subrange(0, start) =~= COMPACTION_SUMMARY_START@);
        assert(text.subrange(start, start + content.len()) =~= content);
        assert(text.subrange(start + content.len(), text.len() as int) =~= COMPACTION_SUMMARY_END@);
    }
}

/// A message of the user begins a part of its own, and any other goes to the part before it.
pub proof fn lemma_users_begin_parts(messages: Seq<ModelMessageView>, message: ModelMessageView)
    ensures
        segments_of(Seq::<ModelMessageView>::empty()).len() == 0,
        messages.len() == 0 || message is User ==> segments_of(messages.push(message)).len()
            == segments_of(messages).len() + 1 && segments_of(
            messages.push(message),
        ).last().messages == seq![message] && segments_of(messages.push(message)).drop_last()
            == segments_of(messages),
        messages.len() > 0 && !(message is User) ==> segments_of(messages.push(message)).len()
            == segments_of(messages).len() && segments_of(messages.push(message)).last().messages
            == segments_of(messages).last().messages.push(message) && segments_of(
            messages.push(message),
        ).drop_last() == segments_of(messages).drop_last(),
{
    crate::conversation::lemma_split_at_users(messages);
    let all = messages.push(message);
    assert(all.drop_last() =~= messages);
    assert(messages.len() == 0 ==> split_at_users(messages).len() == 0);
    if messages.len() == 0 || message is User {
        assert(segments_of(all).drop_last() =~= segments_of(messages));
    } else {
        assert(segments_of(all).drop_last() =~= segments_of(messages).drop_last());
    }
}

/// A part is one with a user's message where it holds one, and safe to remove where every call in
/// it has its result in it.
pub proof fn lemma_parts_know_what_they_hold(messages: Seq<ModelMessageView>, k: int)
    requires
        0 <= k < segments_of(messages).len(),
    ensures
        ({
            let part = segments_of(messages)[k];
            &&& part.has_user_message <==> exists|i: int|
                0 <= i < part.messages.len() && (#[trigger] part.messages[i]) is User
            &&& part.safe_to_compact <==> is_resolved(part.messages)
        }),
{
}

/// Whether a reply asks for no tool.
pub open spec fn asks_for_nothing(items: Seq<ModelAssistantItemView>) -> bool {
    forall|i: int| 0 <= i < items.len() ==> !((#[trigger] items[i]) is ToolCall)
}

/// No call is open in a conversation of nothing. A reply that asks for no tool opens none; one
/// that asks for a tool opens a call, which the result of that tool closes.
pub proof fn lemma_results_close_calls(
    messages: Seq<ModelMessageView>,
    items: Seq<ModelAssistantItemView>,
    call: ModelAssistantItemView,
    id: Seq<char>,
    tool_name: Seq<char>,
    content: Seq<char>,
)
    requires
        is_resolved(messages),
        asks_for_nothing(items),
        call matches ModelAssistantItemView::ToolCall(asked) && asked.call_id == Some(id),
    ensures
        is_resolved(Seq::empty()),
        is_resolved(messages.push(ModelMessageView::User { content })),
        is_resolved(messages.push(ModelMessageView::System { content })),
        is_resolved(messages.push(ModelMessageView::Developer { content })),
        is_resolved(messages.push(ModelMessageView::Assistant { items })),
        !is_resolved(messages.push(ModelMessageView::Assistant { items: items.push(call) })),
        is_resolved(
            messages.push(ModelMessageView::Assistant { items: items.push(call) }).push(
                ModelMessageView::ToolResult { tool_call_id: id, tool_name, content },
            ),
        ),
{
    let asking = ModelMessageView::Assistant { items: items.push(call) };
    let asked = messages.push(asking);
    let answered = asked.push(
        ModelMessageView::ToolResult { tool_call_id: id, tool_name, content },
    );
    let nothing = Set::<Seq<char>>::empty();
    lemma_nothing_is_opened(nothing, items);
    assert(items.push(call).drop_last() =~= items);
    assert(messages.push(ModelMessageView::User { content }).drop_last() =~= messages);
    assert(messages.push(ModelMessageView::System { content }).drop_last() =~= messages);
    assert(messages.push(ModelMessageView::Developer { content }).drop_last() =~= messages);
    assert(messages.push(ModelMessageView::Assistant { items }).drop_last() =~= messages);
    assert(asked.drop_last() =~= messages);
    assert(answered.drop_last() =~= asked);
    assert(pending_after_items(nothing, items.push(call)) == Some(nothing.insert(id)));
    assert(pending_after(asked) == Some(nothing.insert(id)));
    assert(nothing.insert(id).contains(id));
    assert(nothing.insert(id).remove(id) =~= nothing);
}

proof fn lemma_nothing_is_opened(pending: Set<Seq<char>>, items: Seq<ModelAssistantItemView>)
    requires
        asks_for_nothing(items),
    ensures
        pending_after_items(pending, items) == Some(pending),
    decreases items.len(),
{
    if items.len() > 0 {
        let rest = items.drop_last();
        assert forall|i: int| 0 <= i < rest.len() implies !((#[trigger] rest[i]) is ToolCall) by {
            assert(rest[i] == items[i]);
        }
        assert(!(items[items.len() - 1] is ToolCall));
        lemma_nothing_is_opened(pending, rest);
    }
}

/// A result without its call, or a user's message while a call is open, leaves a conversation
/// that is never whole again.
pub proof fn lemma_stray_results_are_not_whole(
    messages: Seq<ModelMessageView>,
    tool_call_id: Seq<char>,
    tool_name: Seq<char>,
    content: Seq<char>,
)
    ensures
        is_resolved(messages) ==> pending_after(
            messages.push(ModelMessageView::ToolResult { tool_call_id, tool_name, content }),
        ) is None,
        !is_resolved(messages) ==> pending_after(
            messages.push(ModelMessageView::User { content }),
        ) is None,
        pending_after(messages) is None ==> !is_resolved(messages),
{
    assert(messages.push(
        ModelMessageView::ToolResult { tool_call_id, tool_name, content },
    ).drop_last() =~= messages);
    assert(messages.push(ModelMessageView::User { content }).drop_last() =~= messages);
}

} // verus!
