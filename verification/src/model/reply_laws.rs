//! What is read from the answer of a model.

use crate::config::ApiKind;
use crate::json::{member, string_member, u64_member, Json};
use crate::model::collector::{
    all_recorded, ascending, collected, item_set, payload_taken, recorded, slot, CollectorView,
    IndexedItemView,
};
use crate::model::message::{
    ModelAssistantItemView, ModelEventView, ModelToolCallView, ProviderErrorView, StopReason,
};
use crate::model::payload::{
    completions_payload, joined_parts, payload_meaning, responses_payload, usage_of,
    ParsedPayloadView,
};
use crate::model::stream::payloads_processed;
use vstd::prelude::*;

verus! {

// ---- payloads of completions ----

/// The event is the piece of a call that the entry of a delta holds: at its index, with its
/// identifier, its name and its piece of the arguments.
pub open spec fn is_piece_of_call(event: ModelEventView, call: Json) -> bool {
    event matches ModelEventView::ToolCallDelta {
        index,
        call_id,
        item_id,
        name,
        arguments,
        arguments_complete,
    } && (u64_member(call, "index"@) matches Some(n) ==> index == n as usize) && (u64_member(
        call,
        "index"@,
    ) is None ==> index == 0) && call_id == string_member(call, "id"@) && item_id is None
        && !arguments_complete && (member(call, "function"@) matches Some(function) ==> name
        == string_member(function, "name"@) && (string_member(
        function,
        "arguments"@,
    ) matches Some(text) ==> arguments == text))
}

/// A delta of a chat completion brings its text, its refusal and its reasoning, and then every call
/// of its list, in order, each at its own index and under its own identifier.
pub proof fn lemma_calls_of_a_delta_come_through(
    json: Json,
    choices: Seq<Json>,
    delta: Json,
    calls: Seq<Json>,
)
    requires
        member(json, "choices"@) == Some(Json::Array(choices)),
        choices.len() > 0,
        member(choices[0], "delta"@) == Some(delta),
        member(delta, "tool_calls"@) == Some(Json::Array(calls)),
    ensures
        exists|before: int|
            {
                let events = completions_payload(json).events;
                &&& #[trigger] is_offset(before)
                &&& before + calls.len() <= events.len()
                &&& forall|i: int|
                    0 <= i < calls.len() ==> is_piece_of_call(
                        #[trigger] events[before + i],
                        calls[i],
                    )
                &&& forall|i: int|
                    0 <= i < events.len() && (i < before || i >= before + calls.len())
                        ==> !((#[trigger] events[i]) is ToolCallDelta)
            },
{
    let events = completions_payload(json).events;
    let pieces = calls.map_values(|call: Json| crate::model::payload::call_event(call));
    let usage = crate::model::payload::usage_events(json);
    let front = events.take(events.len() - usage.len() - pieces.len());
    let before = front.len() as int;
    assert(is_offset(before));
    assert forall|i: int| 0 <= i < calls.len() implies is_piece_of_call(
        #[trigger] events[before + i],
        calls[i],
    ) by {
        assert(events[before + i] == pieces[i]);
        assert(pieces[i] == crate::model::payload::call_event(calls[i]));
    }
}

/// A place among events.
pub open spec fn is_offset(n: int) -> bool {
    0 <= n
}

/// The text, the refusal and the reasoning of a delta come through as they are.
pub proof fn lemma_texts_of_a_delta_come_through(
    json: Json,
    choices: Seq<Json>,
    delta: Json,
    text: Seq<char>,
)
    requires
        member(json, "choices"@) == Some(Json::Array(choices)),
        choices.len() > 0,
        member(choices[0], "delta"@) == Some(delta),
    ensures
        member(delta, "content"@) == Some(Json::Text(text)) ==> completions_payload(json).events.len()
            > 0 && completions_payload(json).events[0] == (ModelEventView::AssistantTextDelta {
            index: None,
            text,
        }),
        member(delta, "refusal"@) == Some(Json::Text(text)) ==> completions_payload(
            json,
        ).events.contains(ModelEventView::AssistantRefusalDelta { index: None, text }),
        member(delta, "reasoning_content"@) == Some(Json::Text(text)) || member(delta, "reasoning"@)
            == Some(Json::Text(text)) || member(delta, "thinking"@) == Some(Json::Text(text))
            ==> completions_payload(json).events.contains(
            ModelEventView::AssistantThinkingDelta { item_id: None, text },
        ),
        !(member(delta, "content"@) matches Some(Json::Text(_))) ==> forall|i: int|
            0 <= i < completions_payload(json).events.len() ==> !((
            #[trigger] completions_payload(json).events[i]) is AssistantTextDelta),
{
    let events = completions_payload(json).events;
    let first = match string_member(delta, "content"@) {
        Some(text) => seq![ModelEventView::AssistantTextDelta { index: None, text }],
        None => Seq::empty(),
    };
    let second = match string_member(delta, "refusal"@) {
        Some(text) => seq![ModelEventView::AssistantRefusalDelta { index: None, text }],
        None => Seq::empty(),
    };
    let a = crate::model::payload::thinking_events(delta, "reasoning_content"@);
    let b = crate::model::payload::thinking_events(delta, "reasoning"@);
    let c = crate::model::payload::thinking_events(delta, "thinking"@);
    let rest = events.skip((first + second + a + b + c).len() as int);
    assert(events =~= first + second + a + b + c + rest);
    if second.len() > 0 {
        assert(events[first.len() as int] == second[0]);
    }
    if a.len() > 0 {
        assert(events[(first + second).len() as int] == a[0]);
    }
    if b.len() > 0 {
        assert(events[(first + second + a).len() as int] == b[0]);
    }
    if c.len() > 0 {
        assert(events[(first + second + a + b).len() as int] == c[0]);
    }
}

/// The words by which a provider ends an answer.
proof fn lemma_words()
    ensures
        "stop"@ != "tool_calls"@,
        "stop"@ != "length"@,
        "stop"@ != "content_filter"@,
        "completed"@ != "tool_calls"@,
        "stop"@ != "function_call"@,
        "completed"@ != "function_call"@,
        "tool_calls"@ != "completed"@,
        "length"@ != "stop"@,
        "length"@ != "completed"@,
        "length"@ != "tool_calls"@,
        "length"@ != "function_call"@,
        "max_output_tokens"@ != "stop"@,
        "max_output_tokens"@ != "completed"@,
        "max_output_tokens"@ != "tool_calls"@,
        "max_output_tokens"@ != "function_call"@,
        "content_filter"@ != "stop"@,
        "content_filter"@ != "completed"@,
        "content_filter"@ != "tool_calls"@,
        "content_filter"@ != "function_call"@,
        "content_filter"@ != "length"@,
        "content_filter"@ != "max_output_tokens"@,
        "content_filter"@ != "max_tokens"@,
{
    reveal_strlit("stop");
    reveal_strlit("completed");
    reveal_strlit("tool_calls");
    reveal_strlit("function_call");
    reveal_strlit("length");
    reveal_strlit("max_output_tokens");
    reveal_strlit("max_tokens");
    reveal_strlit("content_filter");
    assert("stop"@.len() == 4 && "completed"@.len() == 9 && "tool_calls"@.len() == 10);
    assert("function_call"@.len() == 13 && "length"@.len() == 6);
    assert("max_output_tokens"@.len() == 17 && "max_tokens"@.len() == 10);
    assert("content_filter"@.len() == 14);
}

/// The reason that a word gives for the end of an answer.
pub open spec fn ends_as(word: Seq<char>, reason: StopReason) -> bool {
    ||| word == "stop"@ && reason == StopReason::Stop
    ||| word == "tool_calls"@ && reason == StopReason::ToolCalls
    ||| word == "function_call"@ && reason == StopReason::ToolCalls
    ||| word == "length"@ && reason == StopReason::Length
    ||| word == "max_output_tokens"@ && reason == StopReason::Length
    ||| word == "content_filter"@ && reason == StopReason::ContentFilter
}

/// The choice of a chat completion that gives a reason to finish ends the answer, for that reason;
/// one that gives none does not end it.
pub proof fn lemma_finished_choices_end_the_answer(
    json: Json,
    choices: Seq<Json>,
    reason: StopReason,
)
    requires
        member(json, "choices"@) == Some(Json::Array(choices)),
        choices.len() > 0,
    ensures
        completions_payload(json).terminal <==> string_member(choices[0], "finish_reason"@) is Some,
        string_member(choices[0], "finish_reason"@) matches Some(word) ==> ends_as(word, reason)
            ==> completions_payload(json).stop_reason == Some(reason),
        string_member(choices[0], "finish_reason"@) is None ==> completions_payload(
            json,
        ).stop_reason is None,
{
    lemma_words();
}

// ---- usage ----

/// The tokens that a provider counted are what its report holds, under either of the names that are
/// in use: input and prompt, output and completion, and those that were read from a cache.
pub proof fn lemma_usage_is_what_was_counted(json: Json, details: Json)
    ensures
        usage_of(json) matches Some(usage) ==> {
            &&& member(json, "input_tokens"@) is Some ==> usage.input_tokens == u64_member(
                json,
                "input_tokens"@,
            )
            &&& member(json, "input_tokens"@) is None ==> usage.input_tokens == u64_member(
                json,
                "prompt_tokens"@,
            )
            &&& member(json, "output_tokens"@) is Some ==> usage.output_tokens == u64_member(
                json,
                "output_tokens"@,
            )
            &&& member(json, "output_tokens"@) is None ==> usage.output_tokens == u64_member(
                json,
                "completion_tokens"@,
            )
            &&& usage.total_tokens == u64_member(json, "total_tokens"@)
            &&& member(json, "input_tokens_details"@) == Some(details) || member(
                json,
                "input_tokens_details"@,
            ) is None && member(json, "prompt_tokens_details"@) == Some(details)
                ==> usage.cache_read_tokens == u64_member(details, "cached_tokens"@)
            &&& usage.cache_write_tokens is None
        },
        u64_member(json, "total_tokens"@) is Some ==> usage_of(json) is Some,
        u64_member(json, "input_tokens"@) is Some || u64_member(json, "output_tokens"@) is Some
            ==> usage_of(json) is Some,
{
}

/// A chat completion that reports usage brings it as its last event.
pub proof fn lemma_usage_comes_through(json: Json, usage: Json)
    requires
        member(json, "usage"@) == Some(usage),
        usage_of(usage) is Some,
    ensures
        completions_payload(json).events.len() > 0,
        completions_payload(json).events.last() == ModelEventView::UsageUpdated(usage_of(usage)->0),
{
}

// ---- payloads of responses ----

proof fn lemma_kinds()
    ensures
        "response.output_text.delta"@.len() == 26,
        "response.refusal.delta"@.len() == 22,
        "response.refusal.done"@.len() == 21,
        "response.reasoning_summary_text.delta"@.len() == 37,
        "response.reasoning.delta"@.len() == 24,
        "response.reasoning_text.delta"@.len() == 29,
        "response.function_call_arguments.delta"@.len() == 38,
        "response.output_item.added"@.len() == 26,
        "response.output_item.done"@.len() == 25,
        "response.function_call_arguments.done"@.len() == 37,
        "response.incomplete"@.len() == 19,
        "response.failed"@.len() == 15,
        "response.completed"@.len() == 18,
        "response.done"@.len() == 13,
        "response.output_text.delta"@[16] == 't',
        "response.output_item.added"@[16] == 'i',
        "response.reasoning_summary_text.delta"@[9] == 'r',
        "response.function_call_arguments.done"@[9] == 'f',
{
    reveal_strlit("response.output_text.delta");
    reveal_strlit("response.refusal.delta");
    reveal_strlit("response.refusal.done");
    reveal_strlit("response.reasoning_summary_text.delta");
    reveal_strlit("response.reasoning.delta");
    reveal_strlit("response.reasoning_text.delta");
    reveal_strlit("response.function_call_arguments.delta");
    reveal_strlit("response.output_item.added");
    reveal_strlit("response.output_item.done");
    reveal_strlit("response.function_call_arguments.done");
    reveal_strlit("response.incomplete");
    reveal_strlit("response.failed");
    reveal_strlit("response.completed");
    reveal_strlit("response.done");
}

/// The index of an output, where the payload gives one, and 0 where it gives none.
pub open spec fn is_output_index(index: usize, json: Json) -> bool {
    match u64_member(json, "output_index"@) {
        Some(n) => index == n as usize,
        None => index == 0,
    }
}

/// A piece of text, of a refusal or of reasoning in a stream of responses comes through as it is, at
/// the index or under the identifier of its output; it does not end the answer.
pub proof fn lemma_pieces_of_a_response_come_through(json: Json, kind: Seq<char>, text: Seq<char>)
    requires
        member(json, "type"@) == Some(Json::Text(kind)),
        member(json, "delta"@) == Some(Json::Text(text)),
    ensures
        kind == "response.output_text.delta"@ ==> (responses_payload(json) matches Ok(payload)
            && payload.events.len() == 1 && payload.stop_reason is None && !payload.terminal && (
        payload.events[0] matches ModelEventView::AssistantTextDelta { index, text: piece } && piece
            == text && (u64_member(json, "output_index"@) matches Some(n) ==> index == Some(
            n as usize,
        )) && (u64_member(json, "output_index"@) is None ==> index is None))),
        kind == "response.refusal.delta"@ ==> (responses_payload(json) matches Ok(payload)
            && payload.events.len() == 1 && !payload.terminal && (
        payload.events[0] matches ModelEventView::AssistantRefusalDelta { index, text: piece }
            && piece == text && (u64_member(json, "output_index"@) matches Some(n) ==> index == Some(
            n as usize,
        )))),
        kind == "response.reasoning_summary_text.delta"@ || kind == "response.reasoning.delta"@
            ==> (responses_payload(json) matches Ok(payload) && payload.events =~= seq![
            ModelEventView::AssistantThinkingDelta {
                item_id: string_member(json, "item_id"@),
                text,
            },
        ] && !payload.terminal),
        kind == "response.reasoning_text.delta"@ ==> (responses_payload(json) matches Ok(payload)
            && payload.events =~= seq![
            ModelEventView::AssistantThinkingContentDelta {
                item_id: string_member(json, "item_id"@),
                text,
            },
        ] && !payload.terminal),
        kind == "response.function_call_arguments.delta"@ ==> (
        responses_payload(json) matches Ok(payload) && payload.events.len() == 1
            && !payload.terminal && (payload.events[0] matches ModelEventView::ToolCallDelta {
            index,
            call_id,
            item_id,
            name,
            arguments,
            arguments_complete,
        } && is_output_index(index, json) && arguments == text && !arguments_complete && call_id
            == string_member(json, "call_id"@) && item_id == string_member(json, "item_id"@) && name
            == string_member(json, "name"@))),
{
    lemma_kinds();
}

/// Whole outputs of a stream of responses come through: a call that is announced with its
/// identifiers and its name, its arguments once they are complete, and a refusal.
pub proof fn lemma_outputs_of_a_response_come_through(json: Json, kind: Seq<char>, item: Json)
    requires
        member(json, "type"@) == Some(Json::Text(kind)),
    ensures
        kind == "response.output_item.added"@ && member(json, "item"@) == Some(item)
            && string_member(item, "type"@) == Some("function_call"@) ==> (
        responses_payload(json) matches Ok(payload) && payload.events.len() == 1
            && !payload.terminal && (payload.events[0] matches ModelEventView::ToolCallDelta {
            index,
            call_id,
            item_id,
            name,
            arguments,
            arguments_complete,
        } && is_output_index(index, json) && call_id == string_member(item, "call_id"@) && item_id
            == string_member(item, "id"@) && name == string_member(item, "name"@)
            && !arguments_complete && (string_member(item, "arguments"@) matches Some(text)
            ==> arguments == text))),
        kind == "response.function_call_arguments.done"@ ==> (
        responses_payload(json) matches Ok(payload) && payload.events.len() == 1
            && !payload.terminal && (payload.events[0] matches ModelEventView::ToolCallDelta {
            index,
            call_id,
            item_id,
            name,
            arguments,
            arguments_complete,
        } && is_output_index(index, json) && arguments_complete && (string_member(
            json,
            "arguments"@,
        ) matches Some(text) ==> arguments == text) && (string_member(
            json,
            "call_id"@,
        ) matches Some(id) ==> call_id == Some(id)) && (string_member(
            json,
            "item_id"@,
        ) matches Some(id) ==> item_id == Some(id)) && (string_member(
            json,
            "name"@,
        ) matches Some(tool) ==> name == Some(tool)) && (member(json, "item"@) == Some(item) ==> (
        member(json, "arguments"@) is None ==> (string_member(
            item,
            "arguments"@,
        ) matches Some(text) ==> arguments == text)) && (member(json, "call_id"@) is None
            ==> call_id == string_member(item, "call_id"@)) && (member(json, "name"@) is None
            ==> name == string_member(item, "name"@)) && (member(json, "item_id"@) is None
            ==> item_id == string_member(item, "id"@))))),
        kind == "response.refusal.done"@ ==> (responses_payload(json) matches Ok(payload)
            && payload.events.len() == 1 && (
        payload.events[0] matches ModelEventView::AssistantRefusalItem { index, content }
            && is_output_index(index, json) && content == string_member(json, "refusal"@))),
{
    lemma_kinds();
}

/// A message or reasoning that a stream of responses announces or completes comes through with its
/// texts: those of all parts in a row.
pub proof fn lemma_items_of_a_response_come_through(
    json: Json,
    kind: Seq<char>,
    item: Json,
    parts: Seq<Json>,
)
    requires
        member(json, "type"@) == Some(Json::Text(kind)),
        kind == "response.output_item.added"@ || kind == "response.output_item.done"@,
        member(json, "item"@) == Some(item),
    ensures
        string_member(item, "type"@) == Some("message"@) && member(item, "content"@) == Some(
            Json::Array(parts),
        ) ==> (responses_payload(json) matches Ok(payload) && payload.events.len() == 1
            && !payload.terminal && (if joined_parts(parts, "refusal"@).len() > 0 {
            payload.events[0] matches ModelEventView::AssistantRefusalItem { index, content }
                && is_output_index(index, json) && content == Some(joined_parts(parts, "refusal"@))
        } else {
            payload.events[0] matches ModelEventView::AssistantTextItem { index, content }
                && is_output_index(index, json) && (joined_parts(parts, "text"@).len() > 0
                ==> content == Some(joined_parts(parts, "text"@)))
        })),
        string_member(item, "type"@) == Some("reasoning"@) ==> (
        responses_payload(json) matches Ok(payload) && payload.events.len() == 1
            && !payload.terminal && (payload.events[0] matches ModelEventView::AssistantThinkingItem {
            index,
            item_id,
            summary,
            content,
            encrypted_content,
        } && is_output_index(index, json) && item_id == string_member(item, "id"@)
            && encrypted_content == string_member(item, "encrypted_content"@) && (member(
            item,
            "summary"@,
        ) == Some(Json::Array(parts)) && joined_parts(parts, "text"@).len() > 0 ==> summary == Some(
            joined_parts(parts, "text"@),
        )) && (member(item, "content"@) == Some(Json::Array(parts)) && joined_parts(
            parts,
            "text"@,
        ).len() > 0 ==> content == Some(joined_parts(parts, "text"@))))),
{
    lemma_kinds();
    reveal_strlit("function_call");
    reveal_strlit("message");
    reveal_strlit("reasoning");
    assert("function_call"@.len() == 13 && "message"@.len() == 7 && "reasoning"@.len() == 9);
}

/// The text of parts is that of each, one after the other.
pub proof fn lemma_parts_join(parts: Seq<Json>, part: Json, name: Seq<char>)
    ensures
        joined_parts(Seq::empty(), name) == Seq::<char>::empty(),
        string_member(part, name) matches Some(text) ==> joined_parts(parts.push(part), name)
            == joined_parts(parts, name) + text,
        string_member(part, name) is None ==> joined_parts(parts.push(part), name) == joined_parts(
            parts,
            name,
        ),
{
    assert(parts.push(part).drop_last() =~= parts);
}

/// A stream of responses ends with its usage and the reason that it gives: completed, cut short or
/// failed.
pub proof fn lemma_responses_end_the_answer(
    json: Json,
    kind: Seq<char>,
    response: Json,
    reason: StopReason,
)
    requires
        member(json, "type"@) == Some(Json::Text(kind)),
        member(json, "response"@) == Some(response),
    ensures
        kind == "response.completed"@ || kind == "response.done"@ || kind
            == "response.incomplete"@ ==> (responses_payload(json) matches Ok(payload)
            && payload.terminal && (member(response, "usage"@) matches Some(usage) ==> (
        usage_of(usage) matches Some(counted) ==> payload.events =~= seq![
            ModelEventView::UsageUpdated(counted),
        ]))),
        kind == "response.completed"@ || kind == "response.done"@ ==> (string_member(
            response,
            "status"@,
        ) == Some("completed"@) ==> responses_payload(json)->Ok_0.stop_reason == Some(
            StopReason::Stop,
        )),
        kind == "response.incomplete"@ && member(response, "incomplete_details"@) is None
            ==> responses_payload(json)->Ok_0.stop_reason == Some(StopReason::Incomplete),
        kind == "response.incomplete"@ ==> (member(
            response,
            "incomplete_details"@,
        ) matches Some(details) ==> (string_member(details, "reason"@) matches Some(word)
            ==> responses_payload(json)->Ok_0.stop_reason == Some(
            if word == "max_output_tokens"@ || word == "max_tokens"@ || word == "length"@ {
                StopReason::Length
            } else if word == "content_filter"@ {
                StopReason::ContentFilter
            } else {
                StopReason::Incomplete
            },
        ))),
        kind == "response.failed"@ ==> responses_payload(json) is Err,
        kind == "response.failed"@ ==> (member(response, "error"@) matches Some(error) ==> (
        string_member(error, "message"@) matches Some(message) ==> responses_payload(json) == Err::<
            ParsedPayloadView,
            ProviderErrorView,
        >(ProviderErrorView::Failed { message }))),
{
    lemma_kinds();
    lemma_words();
}

/// An error that a provider reports in a payload is the error that comes of it, in either protocol.
pub proof fn lemma_reported_errors_come_through(api: ApiKind, json: Json, error: Json)
    ensures
        member(json, "error"@) == Some(error) ==> (string_member(
            error,
            "message"@,
        ) matches Some(message) ==> payload_meaning(api, json) == Err::<
            ParsedPayloadView,
            ProviderErrorView,
        >(ProviderErrorView::Failed { message })),
        member(json, "error"@) is None && string_member(json, "type"@) == Some("error"@) ==> (
        payload_meaning(api, json) is Err && (string_member(
            json,
            "message"@,
        ) matches Some(message) ==> payload_meaning(api, json) == Err::<
            ParsedPayloadView,
            ProviderErrorView,
        >(ProviderErrorView::Failed { message }))),
        member(json, "error"@) is None && string_member(json, "type"@) != Some("error"@)
            ==> payload_meaning(api, json) == (match api {
            ApiKind::OpenAiResponses => responses_payload(json),
            ApiKind::OpenAiCompletions => Ok(completions_payload(json)),
        }),
{
}

// ---- collecting ----

/// Among the items that came with an index, this one came at this index.
pub open spec fn holds_at(
    items: Seq<IndexedItemView>,
    index: usize,
    item: ModelAssistantItemView,
) -> bool {
    exists|k: int| 0 <= k < items.len() && #[trigger] items[k] == (IndexedItemView { index, item })
}

/// No item came at this index.
pub open spec fn is_free(items: Seq<IndexedItemView>, index: usize) -> bool {
    forall|k: int| 0 <= k < items.len() ==> (#[trigger] items[k]).index != index
}

proof fn lemma_slot_of(items: Seq<IndexedItemView>, index: usize, from: int)
    requires
        ascending(items),
        0 <= from <= items.len(),
        forall|i: int| 0 <= i < from ==> (#[trigger] items[i]).index < index,
    ensures
        from <= slot(items, index, from) <= items.len(),
        forall|i: int|
            0 <= i < slot(items, index, from) ==> (#[trigger] items[i]).index < index,
        slot(items, index, from) < items.len() ==> items[slot(items, index, from)].index >= index,
    decreases items.len() - from,
{
    if from < items.len() && items[from].index < index {
        lemma_slot_of(items, index, from + 1);
    }
}

/// Setting an item changes no other.
proof fn lemma_set_keeps_others(
    items: Seq<IndexedItemView>,
    index: usize,
    item: ModelAssistantItemView,
    other: usize,
    kept: ModelAssistantItemView,
)
    requires
        ascending(items),
    ensures
        holds_at(item_set(items, index, item), index, item),
        other != index ==> (holds_at(items, other, kept) <==> holds_at(
            item_set(items, index, item),
            other,
            kept,
        )),
        ascending(item_set(items, index, item)),
{
    lemma_slot_of(items, index, 0);
    crate::model::collector::lemma_item_set(items, index, item);
    let at = slot(items, index, 0);
    let after = item_set(items, index, item);
    assert(after[at] == (IndexedItemView { index, item }));
    let wanted = IndexedItemView { index: other, item: kept };
    if other != index {
        if holds_at(items, other, kept) {
            let k = choose|k: int| 0 <= k < items.len() && #[trigger] items[k] == wanted;
            if after.len() == items.len() {
                assert(after[k] == wanted);
            } else if k < at {
                assert(after[k] == wanted);
            } else {
                assert(after[k + 1] == wanted);
            }
        }
        if holds_at(after, other, kept) {
            let k = choose|k: int| 0 <= k < after.len() && #[trigger] after[k] == wanted;
            if after.len() == items.len() {
                assert(items[k] == wanted);
            } else if k < at {
                assert(items[k] == wanted);
            } else {
                assert(items[k - 1] == wanted);
            }
        }
    }
}

/// A piece of a call starts a call at its index where none came there, and goes to the one that
/// did: its identifier and its name where they are given, and its arguments behind the others, or
/// in their place where they are complete. Every other item stays as it is.
pub proof fn lemma_pieces_go_to_their_call(
    c: CollectorView,
    index: usize,
    call_id: Option<Seq<char>>,
    item_id: Option<Seq<char>>,
    name: Option<Seq<char>>,
    arguments: Seq<char>,
    complete: bool,
    before: ModelToolCallView,
    other: usize,
    kept: ModelAssistantItemView,
)
    requires
        ascending(c.items),
        is_free(c.items, index) || holds_at(
            c.items,
            index,
            ModelAssistantItemView::ToolCall(before),
        ),
    ensures
        ({
            let after = recorded(
                c,
                ModelEventView::ToolCallDelta {
                    index,
                    call_id,
                    item_id,
                    name,
                    arguments,
                    arguments_complete: complete,
                },
            );
            let fresh = is_free(c.items, index);
            &&& exists|call: ModelToolCallView|
                {
                    &&& #[trigger] holds_at(
                        after.items,
                        index,
                        ModelAssistantItemView::ToolCall(call),
                    )
                    &&& call.call_id == if call_id is Some || fresh {
                        call_id
                    } else {
                        before.call_id
                    }
                    &&& call.item_id == if item_id is Some || fresh {
                        item_id
                    } else {
                        before.item_id
                    }
                    &&& call.name == if name is Some || fresh {
                        name
                    } else {
                        before.name
                    }
                    &&& call.arguments =~= if complete || fresh {
                        arguments
                    } else {
                        before.arguments + arguments
                    }
                }
            &&& other != index ==> (holds_at(c.items, other, kept) <==> holds_at(
                after.items,
                other,
                kept,
            ))
            &&& after.unindexed == c.unindexed
            &&& ascending(after.items)
        }),
{
    lemma_slot_of(c.items, index, 0);
    let at = slot(c.items, index, 0);
    let event = ModelEventView::ToolCallDelta {
        index,
        call_id,
        item_id,
        name,
        arguments,
        arguments_complete: complete,
    };
    let after = recorded(c, event);
    if !is_free(c.items, index) {
        let k = choose|k: int|
            0 <= k < c.items.len() && #[trigger] c.items[k] == (IndexedItemView {
                index,
                item: ModelAssistantItemView::ToolCall(before),
            });
        assert(k == at) by {
            if k < at {
                assert(c.items[k].index < index);
            }
            if at < k {
                assert(c.items[at].index < c.items[k].index);
            }
        }
    } else if at < c.items.len() {
        assert(c.items[at].index != index);
    }
    let fallback = ModelAssistantItemView::ToolCall(
        ModelToolCallView {
            index,
            call_id: None,
            item_id: None,
            name: None,
            arguments: Seq::empty(),
        },
    );
    let item = crate::model::collector::call_updated(
        crate::model::collector::item_or(c.items, index, fallback),
        call_id,
        item_id,
        name,
        arguments,
        complete,
    );
    lemma_set_keeps_others(c.items, index, item, other, kept);
    assert(holds_at(after.items, index, ModelAssistantItemView::ToolCall(item->ToolCall_0)));
}

/// A piece of text at an index goes behind the text that came there, and starts one where none did;
/// every other item stays as it is.
pub proof fn lemma_pieces_go_to_their_text(
    c: CollectorView,
    index: usize,
    text: Seq<char>,
    before: Seq<char>,
    other: usize,
    kept: ModelAssistantItemView,
)
    requires
        ascending(c.items),
        is_free(c.items, index) && before.len() == 0 || holds_at(
            c.items,
            index,
            ModelAssistantItemView::Text { content: before },
        ),
    ensures
        ({
            let after = recorded(
                c,
                ModelEventView::AssistantTextDelta { index: Some(index), text },
            );
            &&& holds_at(
                after.items,
                index,
                ModelAssistantItemView::Text { content: before + text },
            )
            &&& other != index ==> (holds_at(c.items, other, kept) <==> holds_at(
                after.items,
                other,
                kept,
            ))
            &&& after.unindexed == c.unindexed
        }),
{
    lemma_slot_of(c.items, index, 0);
    let at = slot(c.items, index, 0);
    if holds_at(c.items, index, ModelAssistantItemView::Text { content: before }) {
        let k = choose|k: int|
            0 <= k < c.items.len() && #[trigger] c.items[k] == (IndexedItemView {
                index,
                item: ModelAssistantItemView::Text { content: before },
            });
        assert(k == at) by {
            if k < at {
                assert(c.items[k].index < index);
            }
            if at < k {
                assert(c.items[at].index < c.items[k].index);
            }
        }
    } else {
        if at < c.items.len() {
            assert(c.items[at].index != index);
        }
        assert(before =~= Seq::<char>::empty());
        assert(before + text =~= text);
        assert(Seq::<char>::empty() + text =~= text);
    }
    lemma_set_keeps_others(
        c.items,
        index,
        ModelAssistantItemView::Text { content: before + text },
        other,
        kept,
    );
}

/// Pieces of text without an index make up one text, in order.
pub proof fn lemma_unindexed_pieces_join(c: CollectorView, a: Seq<char>, b: Seq<char>)
    requires
        forall|i: int| 0 <= i < c.unindexed.len() ==> !((#[trigger] c.unindexed[i]) is Text),
    ensures
        ({
            let one = recorded(c, ModelEventView::AssistantTextDelta { index: None, text: a });
            let two = recorded(one, ModelEventView::AssistantTextDelta { index: None, text: b });
            &&& one.unindexed == c.unindexed.push(ModelAssistantItemView::Text { content: a })
            &&& two.unindexed == c.unindexed.push(ModelAssistantItemView::Text { content: a + b })
            &&& two.items == c.items
        }),
{
    lemma_none_of_kind(c.unindexed, c.unindexed.len() as int);
    let one = recorded(c, ModelEventView::AssistantTextDelta { index: None, text: a });
    let two = recorded(one, ModelEventView::AssistantTextDelta { index: None, text: b });
    assert(one.unindexed.last() is Text);
    assert(two.unindexed =~= c.unindexed.push(ModelAssistantItemView::Text { content: a + b }));
}

proof fn lemma_none_of_kind(items: Seq<ModelAssistantItemView>, end: int)
    requires
        0 <= end <= items.len(),
        forall|i: int| 0 <= i < items.len() ==> !((#[trigger] items[i]) is Text),
    ensures
        crate::model::collector::last_of_kind(items, false, end) is None,
    decreases end,
{
    if end > 0 {
        lemma_none_of_kind(items, end - 1);
    }
}

/// Reasoning without an identifier goes to the last reasoning that came, at the end of its summary
/// or of its content.
pub proof fn lemma_reasoning_is_collected(c: CollectorView, text: Seq<char>)
    requires
        c.items.len() == 0,
        c.unindexed.len() == 0,
    ensures
        ({
            let one = recorded(
                c,
                ModelEventView::AssistantThinkingDelta { item_id: None, text },
            );
            let two = recorded(
                c,
                ModelEventView::AssistantThinkingContentDelta { item_id: None, text },
            );
            &&& one.unindexed.len() == 1 && (
            one.unindexed[0] matches ModelAssistantItemView::Reasoning(thinking)
                && thinking.summary =~= text && thinking.content.len() == 0)
            &&& two.unindexed.len() == 1 && (
            two.unindexed[0] matches ModelAssistantItemView::Reasoning(thinking)
                && thinking.content =~= text && thinking.summary.len() == 0)
        }),
{
}

/// A payload that ends the answer does so for good, with the last reason that was given; the usage
/// is the last that was reported.
pub proof fn lemma_payloads_are_taken(c: CollectorView, payload: ParsedPayloadView)
    ensures
        payload_taken(c, payload).terminal_seen == (c.terminal_seen || payload.terminal),
        payload_taken(c, payload).stop_reason == (if payload.stop_reason is Some {
            payload.stop_reason
        } else {
            c.stop_reason
        }),
        payload.events.len() > 0 ==> (payload.events.last() matches ModelEventView::UsageUpdated(
            usage,
        ) ==> payload_taken(c, payload).usage == Some(usage)),
        payload.events.len() == 0 ==> payload_taken(c, payload).usage == c.usage
            && payload_taken(c, payload).items == c.items && payload_taken(c, payload).unindexed
            == c.unindexed,
{
    lemma_recording_keeps_the_end(
        CollectorView {
            terminal_seen: c.terminal_seen || payload.terminal,
            stop_reason: match payload.stop_reason {
                Some(reason) => Some(reason),
                None => c.stop_reason,
            },
            ..c
        },
        payload.events,
    );
}

proof fn lemma_recording_keeps_the_end(c: CollectorView, events: Seq<ModelEventView>)
    ensures
        all_recorded(c, events).terminal_seen == c.terminal_seen,
        all_recorded(c, events).stop_reason == c.stop_reason,
    decreases events.len(),
{
    if events.len() > 0 {
        lemma_recording_keeps_the_end(c, events.drop_last());
    }
}

/// Every event of a payload is recorded, in order.
pub proof fn lemma_every_event_is_recorded(
    c: CollectorView,
    events: Seq<ModelEventView>,
    event: ModelEventView,
)
    ensures
        all_recorded(c, Seq::empty()) == c,
        all_recorded(c, events.push(event)) == recorded(all_recorded(c, events), event),
{
    assert(events.push(event).drop_last() =~= events);
}

/// What is collected is everything that came: what came without an index, then what came with one,
/// by index. It calls tools where there is a call, unless the provider gave another reason than
/// that it was done; an answer that was not ended is none.
pub proof fn lemma_everything_is_collected(c: CollectorView)
    ensures
        collected(c) is Ok <==> c.terminal_seen,
        collected(c) matches Ok(response) ==> {
            let has_call = exists|i: int|
                0 <= i < response.items.len() && (#[trigger] response.items[i]) is ToolCall;
            &&& response.items.len() == c.unindexed.len() + c.items.len()
            &&& forall|i: int|
                0 <= i < c.unindexed.len() ==> #[trigger] response.items[i] == c.unindexed[i]
            &&& forall|i: int|
                0 <= i < c.items.len() ==> response.items[c.unindexed.len() + i] == (
                #[trigger] c.items[i]).item
            &&& response.usage == c.usage
            &&& (c.stop_reason is None || c.stop_reason == Some(StopReason::Stop))
                ==> response.stop_reason == if has_call {
                StopReason::ToolCalls
            } else {
                StopReason::Stop
            }
            &&& c.stop_reason matches Some(reason) ==> reason != StopReason::Stop
                ==> response.stop_reason == reason
        },
{
}

/// Two calls of one stream at different indices are two items of the reply, the lower index first,
/// each with what came for it.
pub proof fn lemma_parallel_calls_stay_apart(
    c: CollectorView,
    first: ModelToolCallView,
    second: ModelToolCallView,
)
    requires
        c.items.len() == 0,
        first.index != second.index,
    ensures
        ({
            let one = recorded(
                c,
                ModelEventView::ToolCallDelta {
                    index: first.index,
                    call_id: first.call_id,
                    item_id: first.item_id,
                    name: first.name,
                    arguments: first.arguments,
                    arguments_complete: false,
                },
            );
            let two = recorded(
                one,
                ModelEventView::ToolCallDelta {
                    index: second.index,
                    call_id: second.call_id,
                    item_id: second.item_id,
                    name: second.name,
                    arguments: second.arguments,
                    arguments_complete: false,
                },
            );
            let low = if first.index < second.index {
                first
            } else {
                second
            };
            let high = if first.index < second.index {
                second
            } else {
                first
            };
            &&& two.items.len() == 2
            &&& two.items[0].item == ModelAssistantItemView::ToolCall(low)
            &&& two.items[1].item == ModelAssistantItemView::ToolCall(high)
        }),
{
    reveal_with_fuel(slot, 3);
    assert(Seq::<char>::empty() + first.arguments =~= first.arguments);
    assert(Seq::<char>::empty() + second.arguments =~= second.arguments);
}

// ---- the stream ----

/// Each payload of a stream brings its events, until the mark of the end, a payload that is an error
/// or one that is no JSON; what comes behind is not read.
pub proof fn lemma_payloads_are_read_in_order(
    c: CollectorView,
    api: ApiKind,
    payload: Seq<char>,
    rest: Seq<Seq<char>>,
    json: Json,
)
    requires
        crate::text::trimmed(payload) != "[DONE]"@,
        crate::json::json_parsed(payload) == Ok::<Json, Seq<char>>(json),
    ensures
        ({
            let all = payloads_processed(c, api, seq![payload] + rest);
            match payload_meaning(api, json) {
                Ok(parsed) => {
                    let later = payloads_processed(payload_taken(c, parsed), api, rest);
                    &&& all.events == parsed.events + later.events
                    &&& all.collector == later.collector
                    &&& all.outcome == later.outcome
                },
                Err(error) => all.events.len() == 0 && all.outcome == Err::<
                    bool,
                    ProviderErrorView,
                >(error) && all.collector == c,
            }
        }),
        payloads_processed(c, api, Seq::empty()).outcome == Ok::<bool, ProviderErrorView>(false),
        payloads_processed(c, api, Seq::empty()).collector == c,
{
    assert((seq![payload] + rest)[0] == payload);
    assert((seq![payload] + rest).drop_first() =~= rest);
}

/// The mark of the end ends a stream, with or without white space around it, and nothing behind it
/// counts; what is no JSON is malformed.
pub proof fn lemma_streams_end_at_the_mark(
    c: CollectorView,
    api: ApiKind,
    payload: Seq<char>,
    rest: Seq<Seq<char>>,
    message: Seq<char>,
)
    ensures
        crate::text::trimmed(payload) == "[DONE]"@ ==> {
            let all = payloads_processed(c, api, seq![payload] + rest);
            &&& all.outcome == Ok::<bool, ProviderErrorView>(true)
            &&& all.collector == c
            &&& all.events.len() == 0
        },
        crate::text::trimmed(payload) != "[DONE]"@ && crate::json::json_parsed(payload) == Err::<
            Json,
            Seq<char>,
        >(message) ==> payloads_processed(c, api, seq![payload] + rest).outcome == Err::<
            bool,
            ProviderErrorView,
        >(ProviderErrorView::Malformed { message }),
{
    assert((seq![payload] + rest)[0] == payload);
}

} // verus!
