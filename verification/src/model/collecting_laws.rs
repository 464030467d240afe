//! How an answer is put together from its pieces: refusals, whole items, reasoning and failures.

use crate::json::{member, string_member, Json};
use crate::model::collector::{
    ascending, item_set, lemma_item_set, recorded, slot, CollectorView, IndexedItemView,
};
use crate::model::message::{
    ModelAssistantItemView, ModelEventView, ModelThinkingView, ProviderErrorView,
};
use crate::model::payload::{responses_payload, ParsedPayloadView};
use crate::model::reply_laws::{holds_at, is_free};
use vstd::prelude::*;

verus! {

proof fn lemma_found_at(items: Seq<IndexedItemView>, index: usize, from: int)
    requires
        ascending(items),
        0 <= from <= items.len(),
        forall|i: int| 0 <= i < from ==> (#[trigger] items[i]).index < index,
    ensures
        ({
            let at = slot(items, index, from);
            &&& from <= at <= items.len()
            &&& forall|i: int| 0 <= i < at ==> (#[trigger] items[i]).index < index
            &&& at < items.len() ==> items[at].index >= index
        }),
    decreases items.len() - from,
{
    if from < items.len() && items[from].index < index {
        lemma_found_at(items, index, from + 1);
    }
}

/// What stands at an index is found there.
proof fn lemma_item_is_found(
    items: Seq<IndexedItemView>,
    index: usize,
    item: ModelAssistantItemView,
)
    requires
        ascending(items),
        holds_at(items, index, item),
    ensures
        slot(items, index, 0) < items.len(),
        items[slot(items, index, 0)] == (IndexedItemView { index, item }),
{
    lemma_found_at(items, index, 0);
    let at = slot(items, index, 0);
    let k: int = choose|k: int|
        0 <= k < items.len() && #[trigger] items[k] == (IndexedItemView { index, item });
    if k < at {
        assert(items[k].index < index);
    }
    if at < k {
        assert(items[at].index < items[k].index);
    }
}

proof fn lemma_nothing_is_found(items: Seq<IndexedItemView>, index: usize)
    requires
        ascending(items),
        is_free(items, index),
    ensures
        slot(items, index, 0) < items.len() ==> items[slot(items, index, 0)].index != index,
{
    lemma_found_at(items, index, 0);
}

proof fn lemma_set_is_held(
    items: Seq<IndexedItemView>,
    index: usize,
    item: ModelAssistantItemView,
)
    requires
        ascending(items),
    ensures
        holds_at(item_set(items, index, item), index, item),
{
    lemma_found_at(items, index, 0);
    lemma_item_set(items, index, item);
    let at = slot(items, index, 0);
    assert(item_set(items, index, item)[at] == (IndexedItemView { index, item }));
}

/// A piece of a refusal goes behind the refusal at its index, and begins one where there is none,
/// or only an empty text.
pub proof fn lemma_pieces_go_to_their_refusal(
    c: CollectorView,
    index: usize,
    text: Seq<char>,
    before: Seq<char>,
)
    requires
        ascending(c.items),
        (before.len() == 0 && (is_free(c.items, index) || holds_at(
            c.items,
            index,
            ModelAssistantItemView::Text { content: Seq::empty() },
        ))) || holds_at(c.items, index, ModelAssistantItemView::Refusal { content: before }),
    ensures
        holds_at(
            recorded(
                c,
                ModelEventView::AssistantRefusalDelta { index: Some(index), text },
            ).items,
            index,
            ModelAssistantItemView::Refusal { content: before + text },
        ),
{
    if is_free(c.items, index) {
        lemma_nothing_is_found(c.items, index);
        assert(before + text =~= Seq::<char>::empty() + text);
    } else if holds_at(c.items, index, ModelAssistantItemView::Refusal { content: before }) {
        lemma_item_is_found(c.items, index, ModelAssistantItemView::Refusal { content: before });
    } else {
        lemma_item_is_found(
            c.items,
            index,
            ModelAssistantItemView::Text { content: Seq::empty() },
        );
        assert(before + text =~= Seq::<char>::empty() + text);
    }
    lemma_set_is_held(
        c.items,
        index,
        ModelAssistantItemView::Refusal { content: before + text },
    );
}

/// Pieces of a refusal without an index make up one refusal, in order.
pub proof fn lemma_unindexed_refusals_join(c: CollectorView, a: Seq<char>, b: Seq<char>)
    requires
        forall|i: int| 0 <= i < c.unindexed.len() ==> !((#[trigger] c.unindexed[i]) is Refusal),
    ensures
        ({
            let one = recorded(c, ModelEventView::AssistantRefusalDelta { index: None, text: a });
            let two = recorded(one, ModelEventView::AssistantRefusalDelta { index: None, text: b });
            &&& one.unindexed == c.unindexed.push(ModelAssistantItemView::Refusal { content: a })
            &&& two.unindexed == c.unindexed.push(
                ModelAssistantItemView::Refusal { content: a + b },
            )
            &&& two.items == c.items
        }),
{
    lemma_no_refusal(c.unindexed, c.unindexed.len() as int);
    let one = recorded(c, ModelEventView::AssistantRefusalDelta { index: None, text: a });
    let two = recorded(one, ModelEventView::AssistantRefusalDelta { index: None, text: b });
    assert(one.unindexed.last() is Refusal);
    assert(two.unindexed =~= c.unindexed.push(ModelAssistantItemView::Refusal { content: a + b }));
}

proof fn lemma_no_refusal(items: Seq<ModelAssistantItemView>, end: int)
    requires
        0 <= end <= items.len(),
        forall|i: int| 0 <= i < items.len() ==> !((#[trigger] items[i]) is Refusal),
    ensures
        crate::model::collector::last_of_kind(items, true, end) is None,
    decreases end,
{
    if end > 0 {
        lemma_no_refusal(items, end - 1);
    }
}

/// A whole text or refusal takes the place of the pieces that came before it at its index.
pub proof fn lemma_whole_items_take_the_place_of_pieces(
    c: CollectorView,
    index: usize,
    before: Seq<char>,
    text: Seq<char>,
)
    requires
        ascending(c.items),
    ensures
        is_free(c.items, index) || holds_at(
            c.items,
            index,
            ModelAssistantItemView::Text { content: before },
        ) ==> holds_at(
            recorded(
                c,
                ModelEventView::AssistantTextItem { index, content: Some(text) },
            ).items,
            index,
            ModelAssistantItemView::Text { content: text },
        ),
        is_free(c.items, index) || holds_at(
            c.items,
            index,
            ModelAssistantItemView::Refusal { content: before },
        ) ==> holds_at(
            recorded(
                c,
                ModelEventView::AssistantRefusalItem { index, content: Some(text) },
            ).items,
            index,
            ModelAssistantItemView::Refusal { content: text },
        ),
        holds_at(c.items, index, ModelAssistantItemView::Text { content: before }) ==> holds_at(
            recorded(c, ModelEventView::AssistantTextItem { index, content: None }).items,
            index,
            ModelAssistantItemView::Text { content: before },
        ),
{
    if is_free(c.items, index) {
        lemma_nothing_is_found(c.items, index);
    }
    if holds_at(c.items, index, ModelAssistantItemView::Text { content: before }) {
        lemma_item_is_found(c.items, index, ModelAssistantItemView::Text { content: before });
    }
    if holds_at(c.items, index, ModelAssistantItemView::Refusal { content: before }) {
        lemma_item_is_found(c.items, index, ModelAssistantItemView::Refusal { content: before });
    }
    lemma_set_is_held(c.items, index, ModelAssistantItemView::Text { content: text });
    lemma_set_is_held(c.items, index, ModelAssistantItemView::Refusal { content: text });
    lemma_set_is_held(c.items, index, ModelAssistantItemView::Text { content: before });
}

/// A whole reasoning item is taken as it is; what it does not say stays what it was.
pub proof fn lemma_whole_reasoning_is_taken(
    c: CollectorView,
    index: usize,
    thinking: ModelThinkingView,
    item_id: Option<Seq<char>>,
    summary: Option<Seq<char>>,
    content: Option<Seq<char>>,
    encrypted_content: Option<Seq<char>>,
)
    requires
        ascending(c.items),
        holds_at(c.items, index, ModelAssistantItemView::Reasoning(thinking)),
    ensures
        holds_at(
            recorded(
                c,
                ModelEventView::AssistantThinkingItem {
                    index,
                    item_id,
                    summary,
                    content,
                    encrypted_content,
                },
            ).items,
            index,
            ModelAssistantItemView::Reasoning(
                ModelThinkingView {
                    item_id: if item_id is Some {
                        item_id
                    } else {
                        thinking.item_id
                    },
                    summary: if summary is Some {
                        summary->0
                    } else {
                        thinking.summary
                    },
                    content: if content is Some {
                        content->0
                    } else {
                        thinking.content
                    },
                    encrypted_content: if encrypted_content is Some {
                        encrypted_content
                    } else {
                        thinking.encrypted_content
                    },
                },
            ),
        ),
{
    lemma_item_is_found(c.items, index, ModelAssistantItemView::Reasoning(thinking));
    lemma_set_is_held(
        c.items,
        index,
        ModelAssistantItemView::Reasoning(
            ModelThinkingView {
                item_id: if item_id is Some {
                    item_id
                } else {
                    thinking.item_id
                },
                summary: if summary is Some {
                    summary->0
                } else {
                    thinking.summary
                },
                content: if content is Some {
                    content->0
                } else {
                    thinking.content
                },
                encrypted_content: if encrypted_content is Some {
                    encrypted_content
                } else {
                    thinking.encrypted_content
                },
            },
        ),
    );
}

/// A piece of reasoning goes to the last reasoning of its identifier among the items without an
/// index, at the end of its summary or of its content; where there is none, it begins one.
pub proof fn lemma_reasoning_goes_to_its_item(
    c: CollectorView,
    thinking: ModelThinkingView,
    id: Seq<char>,
    text: Seq<char>,
    other: Seq<char>,
)
    requires
        c.items.len() == 0,
        thinking.item_id == Some(id),
    ensures
        c.unindexed == seq![ModelAssistantItemView::Reasoning(thinking)] ==> {
            let one = recorded(
                c,
                ModelEventView::AssistantThinkingDelta { item_id: Some(id), text },
            );
            let two = recorded(
                c,
                ModelEventView::AssistantThinkingContentDelta { item_id: Some(id), text },
            );
            &&& one.unindexed =~= seq![
                ModelAssistantItemView::Reasoning(
                    ModelThinkingView { summary: thinking.summary + text, ..thinking },
                ),
            ]
            &&& two.unindexed =~= seq![
                ModelAssistantItemView::Reasoning(
                    ModelThinkingView { content: thinking.content + text, ..thinking },
                ),
            ]
        },
        c.unindexed == seq![ModelAssistantItemView::Reasoning(thinking)] && other != id ==> {
            let after = recorded(
                c,
                ModelEventView::AssistantThinkingDelta { item_id: Some(other), text },
            );
            &&& after.unindexed.len() == 2
            &&& after.unindexed[0] == ModelAssistantItemView::Reasoning(thinking)
            &&& after.unindexed[1] matches ModelAssistantItemView::Reasoning(begun)
            &&& begun.item_id == Some(other)
            &&& begun.summary =~= text
        },
{
    reveal_with_fuel(crate::model::collector::last_meant, 3);
}

/// A failed response is reported with the message of its error, or with its own where the response
/// has none.
pub proof fn lemma_failed_responses_say_why(json: Json, response: Json)
    requires
        member(json, "type"@) == Some(Json::Text("response.failed"@)),
        member(json, "response"@) == Some(response),
    ensures
        responses_payload(json) is Err,
        member(response, "error"@) matches Some(error) ==> (string_member(
            error,
            "message"@,
        ) matches Some(message) ==> responses_payload(json) == Err::<
            ParsedPayloadView,
            ProviderErrorView,
        >(ProviderErrorView::Failed { message })),
        member(response, "error"@) is None ==> (string_member(json, "message"@) matches Some(
            message,
        ) ==> responses_payload(json) == Err::<ParsedPayloadView, ProviderErrorView>(
            ProviderErrorView::Failed { message },
        )),
{
    crate::model::reply_laws::lemma_responses_end_the_answer(
        json,
        "response.failed"@,
        response,
        crate::model::message::StopReason::Stop,
    );
}

} // verus!
