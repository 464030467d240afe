//! How estimates and budgets relate to what they are made of.

use crate::context::accounting::{
    clamped_output, compaction_threshold, input_room, item_bytes, items_bytes, lemma_counts,
    lemma_messages_tokens, lemma_tools_tokens, message_bytes, message_tokens, request_tokens,
    target_tokens, tokens_in_use, tool_call_tokens, tool_tokens, ContextUsage,
};
use crate::json::json_text;
use crate::model::message::{
    ModelAssistantItemView, ModelLimits, ModelMessageView, ModelRequestView, ModelToolCallView,
    ToolDefinitionView,
};
use crate::text::utf8_len;
use vstd::prelude::*;

verus! {

/// Whether a number of tokens is what so many bytes make: three bytes to a token, rounded up.
pub open spec fn makes(bytes: int, tokens: int) -> bool {
    bytes <= 3 * tokens < bytes + 3
}

/// A message is estimated by the bytes of its text, with twelve more for what goes around it.
pub proof fn lemma_texts_are_estimated_by_their_bytes(content: Seq<char>)
    requires
        utf8_len(content) + 14 <= u64::MAX,
    ensures
        makes(
            utf8_len(content) + 12,
            message_tokens(ModelMessageView::User { content }),
        ),
        makes(
            utf8_len(content) + 12,
            message_tokens(ModelMessageView::System { content }),
        ),
        makes(
            utf8_len(content) + 12,
            message_tokens(ModelMessageView::Developer { content }),
        ),
{
}

/// The result of a tool is estimated by the bytes of all its three texts.
pub proof fn lemma_results_are_estimated_by_their_bytes(
    tool_call_id: Seq<char>,
    tool_name: Seq<char>,
    content: Seq<char>,
)
    requires
        utf8_len(tool_call_id) + utf8_len(tool_name) + utf8_len(content) + 22 <= u64::MAX,
    ensures
        makes(
            utf8_len(tool_call_id) + utf8_len(tool_name) + utf8_len(content) + 20,
            message_tokens(ModelMessageView::ToolResult { tool_call_id, tool_name, content }),
        ),
{
}

/// A reply is estimated by all its items: each adds to it what it holds.
pub proof fn lemma_replies_are_estimated_by_their_items(
    items: Seq<ModelAssistantItemView>,
    item: ModelAssistantItemView,
)
    ensures
        message_bytes(ModelMessageView::Assistant { items: Seq::empty() }) == 8,
        message_bytes(ModelMessageView::Assistant { items: items.push(item) }) == message_bytes(
            ModelMessageView::Assistant { items },
        ) + item_bytes(item),
        item matches ModelAssistantItemView::Text { content } ==> item_bytes(item) == utf8_len(
            content,
        ) + 4,
        item matches ModelAssistantItemView::Refusal { content } ==> item_bytes(item) == utf8_len(
            content,
        ) + 4,
        item matches ModelAssistantItemView::Reasoning(thinking) ==> item_bytes(item) == utf8_len(
            thinking.summary,
        ) + utf8_len(thinking.content) + 8 + (if thinking.item_id is Some {
            utf8_len(thinking.item_id->0) + 4
        } else {
            0
        }) + (if thinking.encrypted_content is Some {
            utf8_len(thinking.encrypted_content->0) + 4
        } else {
            0
        }),
{
    assert(items.push(item).drop_last() =~= items);
    assert(items_bytes(items.push(item)) == items_bytes(items) + item_bytes(item));
}

/// A call is estimated by the bytes of its identities, its name and its arguments.
pub proof fn lemma_calls_are_estimated_by_their_bytes(call: ModelToolCallView)
    requires
        call.call_id is Some,
        call.name is Some,
        call.item_id is None,
        utf8_len(call.call_id->0) + utf8_len(call.name->0) + utf8_len(call.arguments) + 26
            <= u64::MAX,
    ensures
        makes(
            utf8_len(call.call_id->0) + utf8_len(call.name->0) + utf8_len(call.arguments) + 24,
            tool_call_tokens(call),
        ),
        item_bytes(ModelAssistantItemView::ToolCall(call)) == tool_call_tokens(call),
{
}

/// A tool is estimated by the bytes of its name, its description and its parameters.
pub proof fn lemma_tools_are_estimated_by_their_bytes(tool: ToolDefinitionView)
    requires
        tool.description is Some,
        utf8_len(tool.name) + utf8_len(tool.description->0) + utf8_len(json_text(tool.parameters))
            + 30 <= u64::MAX,
    ensures
        makes(
            utf8_len(tool.name) + utf8_len(tool.description->0) + utf8_len(
                json_text(tool.parameters),
            ) + 28,
            tool_tokens(tool),
        ),
{
}

/// A request is estimated by all its messages and all its tools: one more adds its own estimate,
/// and a request of nothing has none.
pub proof fn lemma_requests_are_estimated_by_their_parts(
    request: ModelRequestView,
    message: ModelMessageView,
    tool: ToolDefinitionView,
)
    ensures
        request.messages.len() == 0 && request.tools.len() == 0 ==> request_tokens(request) == 0,
        request_tokens(request) + message_tokens(message) <= u64::MAX && request_tokens(request)
            < u64::MAX ==> request_tokens(
            ModelRequestView { messages: request.messages.push(message), ..request },
        ) == request_tokens(request) + message_tokens(message),
        request_tokens(request) + tool_tokens(tool) <= u64::MAX && request_tokens(request)
            < u64::MAX ==> request_tokens(
            ModelRequestView { tools: request.tools.push(tool), ..request },
        ) == request_tokens(request) + tool_tokens(tool),
{
    assert(request.messages.push(message).drop_last() =~= request.messages);
    assert(request.tools.push(tool).drop_last() =~= request.tools);
    lemma_messages_tokens(request.messages);
    lemma_tools_tokens(request.tools);
    lemma_counts(message);
    lemma_messages_tokens(request.messages.push(message));
    lemma_tools_tokens(request.tools.push(tool));
}

/// A conversation is compacted once so little of the window is left as was to be kept free.
pub proof fn lemma_the_threshold_keeps_the_reserve_free(limits: ModelLimits, reserve_tokens: u64)
    ensures
        limits.context_window is None ==> compaction_threshold(limits, reserve_tokens) is None,
        limits.context_window matches Some(window) ==> (compaction_threshold(
            limits,
            reserve_tokens,
        ) matches Some(threshold) && if reserve_tokens <= window {
            threshold + reserve_tokens == window
        } else {
            threshold == 0
        }),
{
}

/// What goes into a request, what may come out of it and a margin fill the window.
pub proof fn lemma_the_budget_fills_the_window(context_window: Option<u64>, output_tokens: u64)
    ensures
        context_window is None ==> input_room(context_window, output_tokens) is None,
        context_window matches Some(window) ==> (input_room(context_window, output_tokens) matches
            Some(room) && if output_tokens + 4_096 <= window {
            room + output_tokens + 4_096 == window
        } else {
            room == 0
        }),
{
}

/// A conversation is compacted to half of its budget.
pub proof fn lemma_the_target_is_half_of_the_budget(budget: u64)
    requires
        budget * 50 <= u64::MAX,
    ensures
        2 * target_tokens(budget) <= budget < 2 * target_tokens(budget) + 2,
{
}

/// A request asks for no more output than the model gives and than its input leaves room for, and
/// for as much as both allow.
pub proof fn lemma_requests_ask_for_what_there_is_room_for(
    limits: ModelLimits,
    estimated_input_tokens: u64,
)
    ensures
        clamped_output(limits, estimated_input_tokens) is Some <==> limits.max_output_tokens
            is Some && limits.context_window is Some,
        clamped_output(limits, estimated_input_tokens) matches Some(asked) ==> {
            let maximum = limits.max_output_tokens->0;
            let window = limits.context_window->0;
            &&& asked <= maximum
            &&& estimated_input_tokens + 4_096 <= window ==> asked + estimated_input_tokens + 4_096
                <= window
            &&& estimated_input_tokens + 4_096 <= window ==> asked == maximum || asked
                + estimated_input_tokens + 4_096 == window
            &&& estimated_input_tokens + 4_096 > window ==> asked == 0
        },
{
}

/// What the provider counted goes before the estimate.
pub proof fn lemma_counts_go_before_estimates(usage: ContextUsage)
    ensures
        usage.input_tokens is Some ==> Some(tokens_in_use(usage)) == usage.input_tokens,
        usage.input_tokens is None ==> tokens_in_use(usage) == usage.estimated_input_tokens,
{
}

} // verus!
