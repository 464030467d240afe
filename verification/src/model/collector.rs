//! Collecting the events of a stream into a response.

use crate::model::message::{
    ModelAssistantItem, ModelAssistantItemView, ModelEvent, ModelEventView, ModelResponse,
    ModelResponseView, ModelThinking, ModelThinkingView, ModelToolCall, ModelToolCallView,
    ProviderError, ProviderErrorView, StopReason, Usage,
};
use crate::model::payload::{ParsedPayload, ParsedPayloadView};
use crate::text::{concat, same_text};
use vstd::prelude::*;

verus! {

/// An output item under its index.
#[derive(Debug, PartialEq, Eq)]
pub struct IndexedItem {
    pub index: usize,
    pub item: ModelAssistantItem,
}

/// What an [`IndexedItem`] holds.
#[verifier::ext_equal]
pub struct IndexedItemView {
    pub index: usize,
    pub item: ModelAssistantItemView,
}

impl DeepView for IndexedItem {
    type V = IndexedItemView;

    open spec fn deep_view(&self) -> IndexedItemView {
        IndexedItemView { index: self.index, item: self.item.deep_view() }
    }
}

/// What has been collected of a response.
#[derive(Debug, PartialEq, Eq)]
pub struct ResponseCollector {
    items: Vec<IndexedItem>,
    unindexed_items: Vec<ModelAssistantItem>,
    stop_reason: Option<StopReason>,
    terminal_seen: bool,
    usage: Option<Usage>,
}

/// What a [`ResponseCollector`] holds: the items with an index, in ascending order; those
/// without one, as they came.
#[verifier::ext_equal]
pub struct CollectorView {
    pub items: Seq<IndexedItemView>,
    pub unindexed: Seq<ModelAssistantItemView>,
    pub stop_reason: Option<StopReason>,
    pub terminal_seen: bool,
    pub usage: Option<Usage>,
}

impl DeepView for ResponseCollector {
    type V = CollectorView;

    closed spec fn deep_view(&self) -> CollectorView {
        CollectorView {
            items: self.items.deep_view(),
            unindexed: self.unindexed_items.deep_view(),
            stop_reason: self.stop_reason,
            terminal_seen: self.terminal_seen,
            usage: self.usage,
        }
    }
}

/// The indices ascend.
pub open spec fn ascending(items: Seq<IndexedItemView>) -> bool {
    forall|i: int, j: int| 0 <= i < j < items.len() ==> items[i].index < items[j].index
}

/// Where the item `index` stands or belongs: behind all smaller indices, from `from` on.
pub open spec fn slot(items: Seq<IndexedItemView>, index: usize, from: int) -> int
    decreases items.len() - from,
{
    if from >= items.len() || items[from].index >= index {
        from
    } else {
        slot(items, index, from + 1)
    }
}

/// The item `index` is there.
pub open spec fn has_item(items: Seq<IndexedItemView>, index: usize) -> bool {
    let at = slot(items, index, 0);
    at < items.len() && items[at].index == index
}

/// The item `index`, or `fallback` where it is not there.
pub open spec fn item_or(
    items: Seq<IndexedItemView>,
    index: usize,
    fallback: ModelAssistantItemView,
) -> ModelAssistantItemView {
    if has_item(items, index) {
        items[slot(items, index, 0)].item
    } else {
        fallback
    }
}

/// The item `index` becomes `item`.
pub open spec fn item_set(
    items: Seq<IndexedItemView>,
    index: usize,
    item: ModelAssistantItemView,
) -> Seq<IndexedItemView> {
    let at = slot(items, index, 0);
    if has_item(items, index) {
        items.update(at, IndexedItemView { index, item })
    } else {
        items.insert(at, IndexedItemView { index, item })
    }
}

/// A text with nothing in it.
pub open spec fn empty_text() -> ModelAssistantItemView {
    ModelAssistantItemView::Text { content: Seq::empty() }
}

/// A refusal with nothing in it.
pub open spec fn empty_refusal() -> ModelAssistantItemView {
    ModelAssistantItemView::Refusal { content: Seq::empty() }
}

/// Thinking with nothing in it.
pub open spec fn empty_thinking() -> ModelThinkingView {
    ModelThinkingView {
        item_id: None,
        summary: Seq::empty(),
        content: Seq::empty(),
        encrypted_content: None,
    }
}

/// `new`, or `old` where nothing new is given.
pub open spec fn newer(new: Option<Seq<char>>, old: Option<Seq<char>>) -> Option<Seq<char>> {
    if new is Some {
        new
    } else {
        old
    }
}

/// What a tool call event makes of an item: of a call, one with what the event says; nothing else.
pub open spec fn call_updated(
    item: ModelAssistantItemView,
    call_id: Option<Seq<char>>,
    item_id: Option<Seq<char>>,
    name: Option<Seq<char>>,
    arguments: Seq<char>,
    complete: bool,
) -> ModelAssistantItemView {
    match item {
        ModelAssistantItemView::ToolCall(call) => ModelAssistantItemView::ToolCall(
            ModelToolCallView {
                index: call.index,
                call_id: newer(call_id, call.call_id),
                item_id: newer(item_id, call.item_id),
                name: newer(name, call.name),
                arguments: if complete {
                    arguments
                } else {
                    call.arguments + arguments
                },
            },
        ),
        _ => item,
    }
}

/// What a piece of text makes of an item.
pub open spec fn text_extended(item: ModelAssistantItemView, text: Seq<char>) ->
    ModelAssistantItemView {
    match item {
        ModelAssistantItemView::Text { content } => ModelAssistantItemView::Text {
            content: content + text,
        },
        _ => item,
    }
}

/// What a whole text makes of an item.
pub open spec fn text_given(item: ModelAssistantItemView, text: Option<Seq<char>>) ->
    ModelAssistantItemView {
    match (item, text) {
        (ModelAssistantItemView::Text { .. }, Some(text)) => ModelAssistantItemView::Text {
            content: text,
        },
        _ => item,
    }
}

/// An empty text turns out to be a refusal.
pub open spec fn as_refusal(item: ModelAssistantItemView) -> ModelAssistantItemView {
    match item {
        ModelAssistantItemView::Text { content } => if content.len() == 0 {
            empty_refusal()
        } else {
            item
        },
        _ => item,
    }
}

/// What a piece of a refusal makes of an item.
pub open spec fn refusal_extended(item: ModelAssistantItemView, text: Seq<char>) ->
    ModelAssistantItemView {
    match as_refusal(item) {
        ModelAssistantItemView::Refusal { content } => ModelAssistantItemView::Refusal {
            content: content + text,
        },
        other => other,
    }
}

/// What a whole refusal makes of an item.
pub open spec fn refusal_given(item: ModelAssistantItemView, text: Option<Seq<char>>) ->
    ModelAssistantItemView {
    match (as_refusal(item), text) {
        (ModelAssistantItemView::Refusal { .. }, Some(text)) => ModelAssistantItemView::Refusal {
            content: text,
        },
        (other, _) => other,
    }
}

/// What a reasoning item makes of an item.
pub open spec fn thinking_given(
    item: ModelAssistantItemView,
    item_id: Option<Seq<char>>,
    summary: Option<Seq<char>>,
    content: Option<Seq<char>>,
    encrypted_content: Option<Seq<char>>,
) -> ModelAssistantItemView {
    match item {
        ModelAssistantItemView::Reasoning(thinking) => ModelAssistantItemView::Reasoning(
            ModelThinkingView {
                item_id: newer(item_id, thinking.item_id),
                summary: match summary {
                    Some(summary) => summary,
                    None => thinking.summary,
                },
                content: match content {
                    Some(content) => content,
                    None => thinking.content,
                },
                encrypted_content: newer(encrypted_content, thinking.encrypted_content),
            },
        ),
        _ => item,
    }
}

/// An item is reasoning that `item_id` means: any, where it is not given.
pub open spec fn is_meant(item: ModelAssistantItemView, item_id: Option<Seq<char>>) -> bool {
    match item {
        ModelAssistantItemView::Reasoning(thinking) => item_id is None || thinking.item_id
            == item_id,
        _ => false,
    }
}

/// The position of the last item that is meant, among the first `end`.
pub open spec fn last_meant(
    items: Seq<ModelAssistantItemView>,
    item_id: Option<Seq<char>>,
    end: int,
) -> Option<int>
    decreases end,
{
    if end <= 0 {
        None
    } else if is_meant(items[end - 1], item_id) {
        Some(end - 1)
    } else {
        last_meant(items, item_id, end - 1)
    }
}

/// The items without their indices, in order.
pub open spec fn bare_items(items: Seq<IndexedItemView>) -> Seq<ModelAssistantItemView> {
    items.map_values(|indexed: IndexedItemView| indexed.item)
}

/// What a piece of reasoning adds to an item: to its summary or to its content.
pub open spec fn thinking_extended(
    item: ModelAssistantItemView,
    text: Seq<char>,
    to_summary: bool,
) -> ModelAssistantItemView {
    match item {
        ModelAssistantItemView::Reasoning(thinking) => ModelAssistantItemView::Reasoning(
            if to_summary {
                ModelThinkingView { summary: thinking.summary + text, ..thinking }
            } else {
                ModelThinkingView { content: thinking.content + text, ..thinking }
            },
        ),
        _ => item,
    }
}

/// A piece of reasoning is taken: by the last indexed item that is meant, else by the last one
/// without an index, else by a new one.
pub open spec fn thinking_taken(
    c: CollectorView,
    item_id: Option<Seq<char>>,
    text: Seq<char>,
    to_summary: bool,
) -> CollectorView {
    match last_meant(bare_items(c.items), item_id, c.items.len() as int) {
        Some(at) => CollectorView {
            items: c.items.update(
                at,
                IndexedItemView {
                    index: c.items[at].index,
                    item: thinking_extended(c.items[at].item, text, to_summary),
                },
            ),
            ..c
        },
        None => match last_meant(c.unindexed, item_id, c.unindexed.len() as int) {
            Some(at) => CollectorView {
                unindexed: c.unindexed.update(
                    at,
                    thinking_extended(c.unindexed[at], text, to_summary),
                ),
                ..c
            },
            None => CollectorView {
                unindexed: c.unindexed.push(
                    thinking_extended(
                        ModelAssistantItemView::Reasoning(
                            ModelThinkingView { item_id, ..empty_thinking() },
                        ),
                        text,
                        to_summary,
                    ),
                ),
                ..c
            },
        },
    }
}

/// The position of the last text, or of the last refusal, among the first `end`.
pub open spec fn last_of_kind(
    items: Seq<ModelAssistantItemView>,
    refusal: bool,
    end: int,
) -> Option<int>
    decreases end,
{
    if end <= 0 {
        None
    } else if (refusal && items[end - 1] is Refusal) || (!refusal && items[end - 1] is Text) {
        Some(end - 1)
    } else {
        last_of_kind(items, refusal, end - 1)
    }
}

/// A piece of text without an index extends the last text without one, or is a new one.
pub open spec fn unindexed_text_taken(c: CollectorView, text: Seq<char>) -> CollectorView {
    match last_of_kind(c.unindexed, false, c.unindexed.len() as int) {
        Some(at) => CollectorView {
            unindexed: c.unindexed.update(at, text_extended(c.unindexed[at], text)),
            ..c
        },
        None => CollectorView {
            unindexed: c.unindexed.push(ModelAssistantItemView::Text { content: text }),
            ..c
        },
    }
}

/// A piece of a refusal without an index extends the last refusal without one, or is a new one.
pub open spec fn unindexed_refusal_taken(c: CollectorView, text: Seq<char>) -> CollectorView {
    match last_of_kind(c.unindexed, true, c.unindexed.len() as int) {
        Some(at) => CollectorView {
            unindexed: c.unindexed.update(at, refusal_extended(c.unindexed[at], text)),
            ..c
        },
        None => CollectorView {
            unindexed: c.unindexed.push(ModelAssistantItemView::Refusal { content: text }),
            ..c
        },
    }
}

/// The collector with the item `index` set.
pub open spec fn with_item(
    c: CollectorView,
    index: usize,
    item: ModelAssistantItemView,
) -> CollectorView {
    CollectorView { items: item_set(c.items, index, item), ..c }
}

/// What an event makes of a collector.
pub open spec fn recorded(c: CollectorView, event: ModelEventView) -> CollectorView {
    match event {
        ModelEventView::ToolCallDelta {
            index,
            call_id,
            item_id,
            name,
            arguments,
            arguments_complete,
        } => {
            let fallback = ModelAssistantItemView::ToolCall(
                ModelToolCallView {
                    index,
                    call_id: None,
                    item_id: None,
                    name: None,
                    arguments: Seq::empty(),
                },
            );
            with_item(
                c,
                index,
                call_updated(
                    item_or(c.items, index, fallback),
                    call_id,
                    item_id,
                    name,
                    arguments,
                    arguments_complete,
                ),
            )
        },
        ModelEventView::AssistantTextDelta { index, text } => match index {
            Some(index) => with_item(
                c,
                index,
                text_extended(item_or(c.items, index, empty_text()), text),
            ),
            None => unindexed_text_taken(c, text),
        },
        ModelEventView::AssistantTextItem { index, content } => with_item(
            c,
            index,
            text_given(item_or(c.items, index, empty_text()), content),
        ),
        ModelEventView::AssistantRefusalDelta { index, text } => match index {
            Some(index) => with_item(
                c,
                index,
                refusal_extended(item_or(c.items, index, empty_refusal()), text),
            ),
            None => unindexed_refusal_taken(c, text),
        },
        ModelEventView::AssistantRefusalItem { index, content } => with_item(
            c,
            index,
            refusal_given(item_or(c.items, index, empty_refusal()), content),
        ),
        ModelEventView::AssistantThinkingDelta { item_id, text } => thinking_taken(
            c,
            item_id,
            text,
            true,
        ),
        ModelEventView::AssistantThinkingContentDelta { item_id, text } => thinking_taken(
            c,
            item_id,
            text,
            false,
        ),
        ModelEventView::AssistantThinkingItem {
            index,
            item_id,
            summary,
            content,
            encrypted_content,
        } => with_item(
            c,
            index,
            thinking_given(
                item_or(c.items, index, ModelAssistantItemView::Reasoning(empty_thinking())),
                item_id,
                summary,
                content,
                encrypted_content,
            ),
        ),
        ModelEventView::UsageUpdated(usage) => CollectorView { usage: Some(usage), ..c },
    }
}

/// Every event is recorded, in order.
pub open spec fn all_recorded(c: CollectorView, events: Seq<ModelEventView>) -> CollectorView
    decreases events.len(),
{
    if events.len() == 0 {
        c
    } else {
        recorded(all_recorded(c, events.drop_last()), events.last())
    }
}

/// A payload is taken: what it says of the end, then its events.
pub open spec fn payload_taken(c: CollectorView, payload: ParsedPayloadView) -> CollectorView {
    all_recorded(
        CollectorView {
            terminal_seen: c.terminal_seen || payload.terminal,
            stop_reason: match payload.stop_reason {
                Some(reason) => Some(reason),
                None => c.stop_reason,
            },
            ..c
        },
        payload.events,
    )
}

/// Some item is a call of a tool.
pub open spec fn has_calls(items: Seq<ModelAssistantItemView>) -> bool {
    exists|i: int| 0 <= i < items.len() && (#[trigger] items[i]) is ToolCall
}

/// The items of the response: those without an index, then the others in ascending order.
pub open spec fn collected_items(c: CollectorView) -> Seq<ModelAssistantItemView> {
    c.unindexed + bare_items(c.items)
}

/// The response that was collected, once the stream has come to its end.
pub open spec fn collected(c: CollectorView) -> Result<ModelResponseView, ProviderErrorView> {
    if !c.terminal_seen {
        Err(
            ProviderErrorView::Failed {
                message: "response stream ended before a terminal event"@,
            },
        )
    } else {
        let items = collected_items(c);
        Ok(
            ModelResponseView {
                items,
                stop_reason: match c.stop_reason {
                    Some(StopReason::Stop) => if has_calls(items) {
                        StopReason::ToolCalls
                    } else {
                        StopReason::Stop
                    },
                    Some(reason) => reason,
                    None => if has_calls(items) {
                        StopReason::ToolCalls
                    } else {
                        StopReason::Stop
                    },
                },
                usage: c.usage,
            },
        )
    }
}

proof fn lemma_slot(items: Seq<IndexedItemView>, index: usize, from: int)
    requires
        ascending(items),
        0 <= from <= items.len(),
        forall|i: int| 0 <= i < from ==> items[i].index < index,
    ensures
        from <= slot(items, index, from) <= items.len(),
        forall|i: int| 0 <= i < slot(items, index, from) ==> items[i].index < index,
        forall|i: int|
            slot(items, index, from) <= i < items.len() ==> items[i].index >= index,
    decreases items.len() - from,
{
    if from < items.len() && items[from].index < index {
        lemma_slot(items, index, from + 1);
    }
}

/// Setting an item keeps the indices ascending.
pub proof fn lemma_item_set(
    items: Seq<IndexedItemView>,
    index: usize,
    item: ModelAssistantItemView,
)
    requires
        ascending(items),
    ensures
        ascending(item_set(items, index, item)),
        has_item(item_set(items, index, item), index),
        forall|fallback: ModelAssistantItemView|
            item_or(item_set(items, index, item), index, fallback) == item,
        forall|again: ModelAssistantItemView|
            item_set(item_set(items, index, item), index, again) == item_set(
                items,
                index,
                again,
            ),
{
    lemma_slot(items, index, 0);
    let at = slot(items, index, 0);
    let after = item_set(items, index, item);
    assert(ascending(after)) by {
        assert forall|i: int, j: int| 0 <= i < j < after.len() implies after[i].index
            < after[j].index by {
            if has_item(items, index) {
            } else {
                if i < at && j > at {
                    assert(after[j] == items[j - 1]);
                    assert(items[i].index < items[j - 1].index);
                } else if i > at {
                    assert(after[i] == items[i - 1]);
                    assert(after[j] == items[j - 1]);
                } else if i == at {
                    assert(after[j] == items[j - 1]);
                    assert(items[j - 1].index >= index);
                    if items[j - 1].index == index {
                        assert(at == j - 1 || items[at].index < items[j - 1].index);
                        assert(items[at].index >= index);
                        assert(false);
                    }
                }
            }
        }
    }
    lemma_slot(after, index, 0);
    assert(after[at].index == index);
    assert(slot(after, index, 0) == at) by {
        let s = slot(after, index, 0);
        if s < at {
            assert(after[s] == items[s]);
            assert(items[s].index < index);
        } else if s > at {
            assert(after[at].index < index);
        }
    }
    assert forall|again: ModelAssistantItemView|
        #[trigger] item_set(item_set(items, index, item), index, again) == item_set(
            items,
            index,
            again,
        ) by {
        assert(item_set(after, index, again) =~= item_set(items, index, again));
    }
}

/// How a text is cut into pieces makes no difference to what is collected of it.
pub proof fn lemma_text_pieces_join(c: CollectorView, index: usize, a: Seq<char>, b: Seq<char>)
    requires
        ascending(c.items),
    ensures
        recorded(
            recorded(c, ModelEventView::AssistantTextDelta { index: Some(index), text: a }),
            ModelEventView::AssistantTextDelta { index: Some(index), text: b },
        ) == recorded(
            c,
            ModelEventView::AssistantTextDelta { index: Some(index), text: a + b },
        ),
{
    let before = item_or(c.items, index, empty_text());
    lemma_item_set(c.items, index, text_extended(before, a));
    if let ModelAssistantItemView::Text { content } = before {
        assert(content + a + b =~= content + (a + b));
    }
}

/// How the arguments of a call are cut into pieces makes no difference to what is collected.
pub proof fn lemma_argument_pieces_join(
    c: CollectorView,
    index: usize,
    call_id: Option<Seq<char>>,
    name: Option<Seq<char>>,
    a: Seq<char>,
    b: Seq<char>,
)
    requires
        ascending(c.items),
    ensures
        recorded(
            recorded(
                c,
                ModelEventView::ToolCallDelta {
                    index,
                    call_id,
                    item_id: None,
                    name,
                    arguments: a,
                    arguments_complete: false,
                },
            ),
            ModelEventView::ToolCallDelta {
                index,
                call_id: None,
                item_id: None,
                name: None,
                arguments: b,
                arguments_complete: false,
            },
        ) == recorded(
            c,
            ModelEventView::ToolCallDelta {
                index,
                call_id,
                item_id: None,
                name,
                arguments: a + b,
                arguments_complete: false,
            },
        ),
{
    let fallback = ModelAssistantItemView::ToolCall(
        ModelToolCallView {
            index,
            call_id: None,
            item_id: None,
            name: None,
            arguments: Seq::empty(),
        },
    );
    let before = item_or(c.items, index, fallback);
    lemma_item_set(c.items, index, call_updated(before, call_id, None, name, a, false));
    if let ModelAssistantItemView::ToolCall(call) = before {
        assert(call.arguments + a + b =~= call.arguments + (a + b));
    }
}

/// Complete arguments replace whatever came before them.
pub proof fn lemma_complete_arguments_replace(c: CollectorView, index: usize, text: Seq<char>)
    requires
        ascending(c.items),
        has_item(c.items, index) ==> item_or(c.items, index, empty_text()) is ToolCall,
    ensures
        item_or(
            recorded(
                c,
                ModelEventView::ToolCallDelta {
                    index,
                    call_id: None,
                    item_id: None,
                    name: None,
                    arguments: text,
                    arguments_complete: true,
                },
            ).items,
            index,
            empty_text(),
        )->ToolCall_0.arguments == text,
{
    let fallback = ModelAssistantItemView::ToolCall(
        ModelToolCallView {
            index,
            call_id: None,
            item_id: None,
            name: None,
            arguments: Seq::empty(),
        },
    );
    let before = item_or(c.items, index, fallback);
    lemma_item_set(c.items, index, call_updated(before, None, None, None, text, true));
}

/// Recording keeps the indices ascending.
pub proof fn lemma_recorded_ascending(c: CollectorView, event: ModelEventView)
    requires
        ascending(c.items),
    ensures
        ascending(recorded(c, event).items),
{
    assert forall|index: usize, item: ModelAssistantItemView| ascending(
        #[trigger] item_set(c.items, index, item),
    ) by {
        lemma_item_set(c.items, index, item);
    }
    match event {
        ModelEventView::AssistantThinkingDelta { item_id, .. } => lemma_last_meant(
            bare_items(c.items),
            item_id,
            c.items.len() as int,
        ),
        ModelEventView::AssistantThinkingContentDelta { item_id, .. } => lemma_last_meant(
            bare_items(c.items),
            item_id,
            c.items.len() as int,
        ),
        _ => {},
    }
}

proof fn lemma_last_meant(
    items: Seq<ModelAssistantItemView>,
    item_id: Option<Seq<char>>,
    end: int,
)
    requires
        end <= items.len(),
    ensures
        last_meant(items, item_id, end) matches Some(at) ==> 0 <= at < end,
    decreases end,
{
    if end > 0 && !is_meant(items[end - 1], item_id) {
        lemma_last_meant(items, item_id, end - 1);
    }
}

// ---- collecting ----

impl Default for ResponseCollector {
    fn default() -> (res: Self)
        ensures
            res.wf(),
            res.deep_view() == (CollectorView {
                items: Seq::empty(),
                unindexed: Seq::empty(),
                stop_reason: None,
                terminal_seen: false,
                usage: None,
            }),
    {
        let res = ResponseCollector {
            items: Vec::new(),
            unindexed_items: Vec::new(),
            stop_reason: None,
            terminal_seen: false,
            usage: None,
        };
        assert(res.items.deep_view() =~= Seq::<IndexedItemView>::empty());
        assert(res.unindexed_items.deep_view() =~= Seq::<ModelAssistantItemView>::empty());
        res
    }
}

fn updated_text(new: &Option<String>, old: Option<String>) -> (res: Option<String>)
    ensures
        res.deep_view() == newer(new.deep_view(), old.deep_view()),
{
    match new {
        Some(text) => Some(text.clone()),
        None => old,
    }
}

fn is_same_id(a: &Option<String>, b: &Option<String>) -> (res: bool)
    ensures
        res == (a.deep_view() == b.deep_view()),
{
    match (a, b) {
        (Some(a), Some(b)) => same_text(a, b),
        (None, None) => true,
        _ => false,
    }
}

fn means(item: &ModelAssistantItem, item_id: &Option<String>) -> (res: bool)
    ensures
        res == is_meant(item.deep_view(), item_id.deep_view()),
{
    match item {
        ModelAssistantItem::Reasoning(thinking) => item_id.is_none() || is_same_id(
            &thinking.item_id,
            item_id,
        ),
        _ => false,
    }
}

fn extend_thinking(item: ModelAssistantItem, text: &str, to_summary: bool) -> (res:
    ModelAssistantItem)
    ensures
        res.deep_view() == thinking_extended(item.deep_view(), text@, to_summary),
{
    match item {
        ModelAssistantItem::Reasoning(thinking) => {
            let mut thinking = thinking;
            if to_summary {
                thinking.summary = concat(&thinking.summary, text);
            } else {
                thinking.content = concat(&thinking.content, text);
            }
            ModelAssistantItem::Reasoning(thinking)
        },
        other => other,
    }
}

fn extend_text(item: ModelAssistantItem, text: &str) -> (res: ModelAssistantItem)
    ensures
        res.deep_view() == text_extended(item.deep_view(), text@),
{
    match item {
        ModelAssistantItem::Text { content } => ModelAssistantItem::Text {
            content: concat(&content, text),
        },
        other => other,
    }
}

fn turn_to_refusal(item: ModelAssistantItem) -> (res: ModelAssistantItem)
    ensures
        res.deep_view() == as_refusal(item.deep_view()),
{
    match item {
        ModelAssistantItem::Text { content } => if content.as_str().is_empty() {
            ModelAssistantItem::Refusal { content: String::new() }
        } else {
            ModelAssistantItem::Text { content }
        },
        other => other,
    }
}

fn extend_refusal(item: ModelAssistantItem, text: &str) -> (res: ModelAssistantItem)
    ensures
        res.deep_view() == refusal_extended(item.deep_view(), text@),
{
    match turn_to_refusal(item) {
        ModelAssistantItem::Refusal { content } => ModelAssistantItem::Refusal {
            content: concat(&content, text),
        },
        other => other,
    }
}

fn update_call(
    item: ModelAssistantItem,
    call_id: &Option<String>,
    item_id: &Option<String>,
    name: &Option<String>,
    arguments: &str,
    complete: bool,
) -> (res: ModelAssistantItem)
    ensures
        res.deep_view() == call_updated(
            item.deep_view(),
            call_id.deep_view(),
            item_id.deep_view(),
            name.deep_view(),
            arguments@,
            complete,
        ),
{
    match item {
        ModelAssistantItem::ToolCall(call) => ModelAssistantItem::ToolCall(
            ModelToolCall {
                index: call.index,
                call_id: updated_text(call_id, call.call_id),
                item_id: updated_text(item_id, call.item_id),
                name: updated_text(name, call.name),
                arguments: if complete {
                    arguments.to_owned()
                } else {
                    concat(&call.arguments, arguments)
                },
            },
        ),
        other => other,
    }
}

fn update_thinking(
    item: ModelAssistantItem,
    item_id: &Option<String>,
    summary: &Option<String>,
    content: &Option<String>,
    encrypted_content: &Option<String>,
) -> (res: ModelAssistantItem)
    ensures
        res.deep_view() == thinking_given(
            item.deep_view(),
            item_id.deep_view(),
            summary.deep_view(),
            content.deep_view(),
            encrypted_content.deep_view(),
        ),
{
    match item {
        ModelAssistantItem::Reasoning(thinking) => ModelAssistantItem::Reasoning(
            ModelThinking {
                item_id: updated_text(item_id, thinking.item_id),
                summary: match summary {
                    Some(summary) => summary.clone(),
                    None => thinking.summary,
                },
                content: match content {
                    Some(content) => content.clone(),
                    None => thinking.content,
                },
                encrypted_content: updated_text(encrypted_content, thinking.encrypted_content),
            },
        ),
        other => other,
    }
}

impl ResponseCollector {
    /// The indices ascend.
    pub open spec fn wf(&self) -> bool {
        ascending(self.deep_view().items)
    }

    /// Where the item `index` stands or belongs.
    fn find_slot(&self, index: usize) -> (res: usize)
        requires
            self.wf(),
        ensures
            res == slot(self.deep_view().items, index, 0),
            res <= self.items@.len(),
    {
        let ghost all = self.deep_view().items;
        let mut at: usize = 0;
        while at < self.items.len()
            invariant
                all == self.deep_view().items,
                at <= self.items.len(),
                slot(all, index, 0) == slot(all, index, at as int),
            decreases self.items.len() - at,
        {
            assert(all[at as int] == self.items@[at as int].deep_view());
            if self.items[at].index >= index {
                return at;
            }
            at += 1;
        }
        at
    }

    /// A copy of the item `index`, or `fallback` where it is not there.
    fn item_at(&self, index: usize, fallback: ModelAssistantItem) -> (res: ModelAssistantItem)
        requires
            self.wf(),
        ensures
            res.deep_view() == item_or(self.deep_view().items, index, fallback.deep_view()),
    {
        let at = self.find_slot(index);
        if at < self.items.len() {
            assert(self.deep_view().items[at as int] == self.items@[at as int].deep_view());
            if self.items[at].index == index {
                return self.items[at].item.clone();
            }
        }
        fallback
    }

    /// Sets the item `index`.
    fn set_item(&mut self, index: usize, item: ModelAssistantItem)
        requires
            old(self).wf(),
        ensures
            final(self).wf(),
            final(self).deep_view() == with_item(
                old(self).deep_view(),
                index,
                item.deep_view(),
            ),
    {
        let ghost all = self.deep_view().items;
        let at = self.find_slot(index);
        proof {
            lemma_item_set(all, index, item.deep_view());
            if at < all.len() {
                assert(all[at as int] == self.items@[at as int].deep_view());
            }
        }
        if at < self.items.len() && self.items[at].index == index {
            self.items[at] = IndexedItem { index, item };
        } else {
            self.items.insert(at, IndexedItem { index, item });
        }
        assert(self.items.deep_view() =~= item_set(all, index, item.deep_view()));
    }

    fn take_unindexed_text(&mut self, text: &str)
        requires
            old(self).wf(),
        ensures
            final(self).wf(),
            final(self).deep_view() == unindexed_text_taken(old(self).deep_view(), text@),
    {
        let ghost all = self.unindexed_items.deep_view();
        let mut end: usize = self.unindexed_items.len();
        while end > 0
            invariant
                *self == *old(self),
                self.wf(),
                all == self.unindexed_items.deep_view(),
                end <= self.unindexed_items.len(),
                last_of_kind(all, false, all.len() as int) == last_of_kind(
                    all,
                    false,
                    end as int,
                ),
            decreases end,
        {
            assert(all[end - 1] == self.unindexed_items@[end - 1].deep_view());
            let is_text = match &self.unindexed_items[end - 1] {
                ModelAssistantItem::Text { .. } => true,
                _ => false,
            };
            if is_text {
                let item = extend_text(self.unindexed_items[end - 1].clone(), text);
                self.unindexed_items[end - 1] = item;
                assert(self.unindexed_items.deep_view() =~= all.update(
                    end - 1,
                    text_extended(all[end - 1], text@),
                ));
                return;
            }
            end -= 1;
        }
        self.unindexed_items.push(ModelAssistantItem::Text { content: text.to_owned() });
        assert(self.unindexed_items.deep_view() =~= all.push(
            ModelAssistantItemView::Text { content: text@ },
        ));
    }

    fn take_unindexed_refusal(&mut self, text: &str)
        requires
            old(self).wf(),
        ensures
            final(self).wf(),
            final(self).deep_view() == unindexed_refusal_taken(old(self).deep_view(), text@),
    {
        let ghost all = self.unindexed_items.deep_view();
        let mut end: usize = self.unindexed_items.len();
        while end > 0
            invariant
                *self == *old(self),
                self.wf(),
                all == self.unindexed_items.deep_view(),
                end <= self.unindexed_items.len(),
                last_of_kind(all, true, all.len() as int) == last_of_kind(all, true, end as int),
            decreases end,
        {
            assert(all[end - 1] == self.unindexed_items@[end - 1].deep_view());
            let is_refusal = match &self.unindexed_items[end - 1] {
                ModelAssistantItem::Refusal { .. } => true,
                _ => false,
            };
            if is_refusal {
                let item = extend_refusal(self.unindexed_items[end - 1].clone(), text);
                self.unindexed_items[end - 1] = item;
                assert(self.unindexed_items.deep_view() =~= all.update(
                    end - 1,
                    refusal_extended(all[end - 1], text@),
                ));
                return;
            }
            end -= 1;
        }
        self.unindexed_items.push(ModelAssistantItem::Refusal { content: text.to_owned() });
        assert(self.unindexed_items.deep_view() =~= all.push(
            ModelAssistantItemView::Refusal { content: text@ },
        ));
    }

    fn take_thinking(&mut self, item_id: &Option<String>, text: &str, to_summary: bool)
        requires
            old(self).wf(),
        ensures
            final(self).wf(),
            final(self).deep_view() == thinking_taken(
                old(self).deep_view(),
                item_id.deep_view(),
                text@,
                to_summary,
            ),
    {
        let ghost c = self.deep_view();
        let ghost id = item_id.deep_view();
        let ghost bare = bare_items(c.items);
        let mut end: usize = self.items.len();
        while end > 0
            invariant
                *self == *old(self),
                self.wf(),
                c == self.deep_view(),
                bare == bare_items(c.items),
                id == item_id.deep_view(),
                end <= self.items.len(),
                last_meant(bare, id, bare.len() as int) == last_meant(bare, id, end as int),
            decreases end,
        {
            assert(c.items[end - 1] == self.items@[end - 1].deep_view());
            assert(bare[end - 1] == c.items[end - 1].item);
            if means(&self.items[end - 1].item, item_id) {
                let index = self.items[end - 1].index;
                let item = extend_thinking(self.items[end - 1].item.clone(), text, to_summary);
                self.items[end - 1] = IndexedItem { index, item };
                assert(self.items.deep_view() =~= c.items.update(
                    end - 1,
                    IndexedItemView {
                        index,
                        item: thinking_extended(c.items[end - 1].item, text@, to_summary),
                    },
                ));
                return;
            }
            end -= 1;
        }
        let ghost all = c.unindexed;
        let mut end: usize = self.unindexed_items.len();
        while end > 0
            invariant
                *self == *old(self),
                self.wf(),
                c == self.deep_view(),
                all == c.unindexed,
                id == item_id.deep_view(),
                last_meant(bare_items(c.items), id, c.items.len() as int) is None,
                end <= self.unindexed_items.len(),
                last_meant(all, id, all.len() as int) == last_meant(all, id, end as int),
            decreases end,
        {
            assert(all[end - 1] == self.unindexed_items@[end - 1].deep_view());
            if means(&self.unindexed_items[end - 1], item_id) {
                let item = extend_thinking(
                    self.unindexed_items[end - 1].clone(),
                    text,
                    to_summary,
                );
                self.unindexed_items[end - 1] = item;
                assert(self.unindexed_items.deep_view() =~= all.update(
                    end - 1,
                    thinking_extended(all[end - 1], text@, to_summary),
                ));
                return;
            }
            end -= 1;
        }
        let mut thinking = ModelThinking::default();
        thinking.item_id = item_id.clone();
        let item = extend_thinking(ModelAssistantItem::Reasoning(thinking), text, to_summary);
        self.unindexed_items.push(item);
        assert(self.unindexed_items.deep_view() =~= all.push(item.deep_view()));
    }

    /// Records an event.
    pub fn record(&mut self, event: &ModelEvent)
        requires
            old(self).wf(),
        ensures
            final(self).wf(),
            final(self).deep_view() == recorded(old(self).deep_view(), event.deep_view()),
    {
        match event {
            ModelEvent::ToolCallDelta {
                index,
                call_id,
                item_id,
                name,
                arguments,
                arguments_complete,
            } => {
                let mut call = ModelToolCall::default();
                call.index = *index;
                let item = self.item_at(*index, ModelAssistantItem::ToolCall(call));
                let item = update_call(
                    item,
                    call_id,
                    item_id,
                    name,
                    arguments,
                    *arguments_complete,
                );
                self.set_item(*index, item);
            },
            ModelEvent::AssistantTextDelta { index, text } => match index {
                Some(index) => {
                    let item = self.item_at(
                        *index,
                        ModelAssistantItem::Text { content: String::new() },
                    );
                    self.set_item(*index, extend_text(item, text));
                },
                None => self.take_unindexed_text(text),
            },
            ModelEvent::AssistantTextItem { index, content } => {
                let item = self.item_at(
                    *index,
                    ModelAssistantItem::Text { content: String::new() },
                );
                let item = match (item, content) {
                    (ModelAssistantItem::Text { .. }, Some(text)) => ModelAssistantItem::Text {
                        content: text.clone(),
                    },
                    (item, _) => item,
                };
                self.set_item(*index, item);
            },
            ModelEvent::AssistantRefusalDelta { index, text } => match index {
                Some(index) => {
                    let item = self.item_at(
                        *index,
                        ModelAssistantItem::Refusal { content: String::new() },
                    );
                    self.set_item(*index, extend_refusal(item, text));
                },
                None => self.take_unindexed_refusal(text),
            },
            ModelEvent::AssistantRefusalItem { index, content } => {
                let item = self.item_at(
                    *index,
                    ModelAssistantItem::Refusal { content: String::new() },
                );
                let item = match (turn_to_refusal(item), content) {
                    (ModelAssistantItem::Refusal { .. }, Some(text)) =>
                        ModelAssistantItem::Refusal { content: text.clone() },
                    (item, _) => item,
                };
                self.set_item(*index, item);
            },
            ModelEvent::AssistantThinkingDelta { item_id, text } => self.take_thinking(
                item_id,
                text,
                true,
            ),
            ModelEvent::AssistantThinkingContentDelta { item_id, text } => self.take_thinking(
                item_id,
                text,
                false,
            ),
            ModelEvent::AssistantThinkingItem {
                index,
                item_id,
                summary,
                content,
                encrypted_content,
            } => {
                let item = self.item_at(
                    *index,
                    ModelAssistantItem::Reasoning(ModelThinking::default()),
                );
                let item = update_thinking(item, item_id, summary, content, encrypted_content);
                self.set_item(*index, item);
            },
            ModelEvent::UsageUpdated(usage) => {
                self.usage = Some(*usage);
            },
        }
    }

    /// Takes a payload: what it says of the end, and its events.
    pub fn take_payload(&mut self, payload: &ParsedPayload)
        requires
            old(self).wf(),
        ensures
            final(self).wf(),
            final(self).deep_view() == payload_taken(old(self).deep_view(), payload.deep_view()),
    {
        if payload.terminal {
            self.terminal_seen = true;
        }
        if let Some(reason) = payload.stop_reason {
            self.stop_reason = Some(reason);
        }
        let ghost start = self.deep_view();
        let ghost all = payload.events.deep_view();
        let mut i: usize = 0;
        assert(all.take(0) =~= Seq::<ModelEventView>::empty());
        while i < payload.events.len()
            invariant
                self.wf(),
                i <= payload.events.len(),
                all == payload.events.deep_view(),
                self.deep_view() == all_recorded(start, all.take(i as int)),
            decreases payload.events.len() - i,
        {
            proof {
                assert(all.take(i + 1).drop_last() =~= all.take(i as int));
                assert(all.take(i + 1).last() == payload.events@[i as int].deep_view());
            }
            self.record(&payload.events[i]);
            i += 1;
        }
        assert(all.take(i as int) =~= all);
    }

    /// The response that was collected.
    pub fn finish(self) -> (res: Result<ModelResponse, ProviderError>)
        ensures
            match (res, collected(self.deep_view())) {
                (Ok(response), Ok(expected)) => response.deep_view() == expected,
                (Err(error), Err(expected)) => error.deep_view() == expected,
                _ => false,
            },
    {
        if !self.terminal_seen {
            return Err(
                ProviderError::Failed {
                    message: "response stream ended before a terminal event".to_owned(),
                },
            );
        }
        let ghost c = self.deep_view();
        let mut items = self.unindexed_items;
        let mut i: usize = 0;
        let ghost bare = bare_items(c.items);
        assert(c.unindexed + bare.take(0) =~= c.unindexed);
        while i < self.items.len()
            invariant
                i <= self.items.len(),
                c.items == self.items.deep_view(),
                bare == bare_items(c.items),
                items.deep_view() == c.unindexed + bare.take(i as int),
            decreases self.items.len() - i,
        {
            let ghost so_far = items.deep_view();
            items.push(self.items[i].item.clone());
            proof {
                assert(bare[i as int] == self.items@[i as int].deep_view().item);
                assert(items.deep_view() =~= so_far.push(bare[i as int]));
                assert(items.deep_view() =~= c.unindexed + bare.take(i + 1));
            }
            i += 1;
        }
        assert(bare.take(i as int) =~= bare);
        let ghost all = items.deep_view();
        let mut has_tool_calls = false;
        let mut k: usize = 0;
        while k < items.len()
            invariant
                k <= items.len(),
                all == items.deep_view(),
                has_tool_calls <==> exists|j: int| 0 <= j < k && (#[trigger] all[j]) is ToolCall,
            decreases items.len() - k,
        {
            assert(all[k as int] == items@[k as int].deep_view());
            if let ModelAssistantItem::ToolCall(_) = &items[k] {
                has_tool_calls = true;
                assert(all[k as int] is ToolCall);
            }
            k += 1;
        }
        let by_items = if has_tool_calls {
            StopReason::ToolCalls
        } else {
            StopReason::Stop
        };
        let stop_reason = match self.stop_reason {
            Some(StopReason::Stop) => by_items,
            Some(reason) => reason,
            None => by_items,
        };
        Ok(ModelResponse { items, stop_reason, usage: self.usage })
    }
}

} // verus!
