//! What the payloads of a provider's event stream mean.

use crate::config::model::ApiKind;
use crate::json::{
    either, items_of, json_parsed, member, string_member, string_of, u64_member, u64_of, Json,
    JsonValue,
};
use crate::model::message::{
    ModelEvent, ModelEventView, ProviderError, ProviderErrorView, StopReason, Usage,
};
use crate::text::same_text;
use vstd::prelude::*;

verus! {

/// What one payload reports.
#[derive(Debug, PartialEq, Eq)]
pub struct ParsedPayload {
    pub events: Vec<ModelEvent>,
    pub stop_reason: Option<StopReason>,
    pub terminal: bool,
}

/// What a [`ParsedPayload`] holds.
#[verifier::ext_equal]
pub struct ParsedPayloadView {
    pub events: Seq<ModelEventView>,
    pub stop_reason: Option<StopReason>,
    pub terminal: bool,
}

impl DeepView for ParsedPayload {
    type V = ParsedPayloadView;

    open spec fn deep_view(&self) -> ParsedPayloadView {
        ParsedPayloadView {
            events: self.events.deep_view(),
            stop_reason: self.stop_reason,
            terminal: self.terminal,
        }
    }
}

// ---- pieces of payloads ----

/// The text of an optional member, empty where there is none.
pub open spec fn text_or_empty(text: Option<Seq<char>>) -> Seq<char> {
    match text {
        Some(text) => text,
        None => Seq::empty(),
    }
}

/// The index of the output item that a payload is about.
pub open spec fn output_index(json: Json) -> Option<usize> {
    match u64_member(json, "output_index"@) {
        Some(index) => Some(index as usize),
        None => None,
    }
}

/// The index of the output item that a payload is about, 0 where none is given.
pub open spec fn output_index_or_first(json: Json) -> usize {
    match u64_member(json, "output_index"@) {
        Some(index) => index as usize,
        None => 0,
    }
}

/// A member, or null where there is none.
pub open spec fn member_or_null(json: Json, name: Seq<char>) -> Json {
    match member(json, name) {
        Some(value) => value,
        None => Json::Null,
    }
}

/// The strings under `name` in the parts, one after the other.
pub open spec fn joined_parts(parts: Seq<Json>, name: Seq<char>) -> Seq<char>
    decreases parts.len(),
{
    if parts.len() == 0 {
        Seq::empty()
    } else {
        let before = joined_parts(parts.drop_last(), name);
        match string_member(parts.last(), name) {
            Some(text) => before + text,
            None => before,
        }
    }
}

/// The text of a content: a string, or the strings under `name` in its parts.
pub open spec fn content_text(content: Option<Json>, name: Seq<char>) -> Option<Seq<char>> {
    match content {
        Some(Json::Text(text)) => Some(text),
        Some(Json::Array(parts)) => {
            let text = joined_parts(parts, name);
            if text.len() == 0 {
                None
            } else {
                Some(text)
            }
        },
        _ => None,
    }
}

/// The event of a reasoning item.
pub open spec fn reasoning_event(index: usize, item: Json) -> ModelEventView {
    ModelEventView::AssistantThinkingItem {
        index,
        item_id: string_member(item, "id"@),
        summary: content_text(member(item, "summary"@), "text"@),
        content: content_text(member(item, "content"@), "text"@),
        encrypted_content: string_member(item, "encrypted_content"@),
    }
}

/// The event of a message item: a refusal, else a text.
pub open spec fn message_event(index: usize, item: Json) -> ModelEventView {
    match content_text(member(item, "content"@), "refusal"@) {
        Some(refusal) => ModelEventView::AssistantRefusalItem { index, content: Some(refusal) },
        None => ModelEventView::AssistantTextItem {
            index,
            content: content_text(member(item, "content"@), "text"@),
        },
    }
}

/// The counts of a usage object, where it has any.
pub open spec fn usage_of(json: Json) -> Option<Usage> {
    let input_tokens = u64_of(either(member(json, "input_tokens"@), member(json, "prompt_tokens"@)));
    let output_tokens = u64_of(
        either(member(json, "output_tokens"@), member(json, "completion_tokens"@)),
    );
    let total_tokens = u64_member(json, "total_tokens"@);
    let cache_read_tokens = match either(
        member(json, "input_tokens_details"@),
        member(json, "prompt_tokens_details"@),
    ) {
        Some(details) => u64_member(details, "cached_tokens"@),
        None => None,
    };
    if input_tokens is None && output_tokens is None && total_tokens is None
        && cache_read_tokens is None {
        None
    } else {
        Some(
            Usage {
                input_tokens,
                output_tokens,
                total_tokens,
                cache_read_tokens,
                cache_write_tokens: None,
            },
        )
    }
}

/// The usage that a payload reports, as events.
pub open spec fn usage_events(json: Json) -> Seq<ModelEventView> {
    match member(json, "usage"@) {
        Some(usage) => match usage_of(usage) {
            Some(usage) => seq![ModelEventView::UsageUpdated(usage)],
            None => Seq::empty(),
        },
        None => Seq::empty(),
    }
}

/// The reason that a provider's word stands for.
pub open spec fn stop_reason_named(word: Seq<char>) -> Option<StopReason> {
    if word == "stop"@ || word == "completed"@ {
        Some(StopReason::Stop)
    } else if word == "tool_calls"@ || word == "function_call"@ {
        Some(StopReason::ToolCalls)
    } else if word == "length"@ || word == "max_output_tokens"@ || word == "max_tokens"@ {
        Some(StopReason::Length)
    } else if word == "content_filter"@ {
        Some(StopReason::ContentFilter)
    } else {
        None
    }
}

/// The reason why a response is incomplete.
pub open spec fn incomplete_reason_named(word: Seq<char>) -> StopReason {
    if word == "max_output_tokens"@ || word == "max_tokens"@ || word == "length"@ {
        StopReason::Length
    } else if word == "content_filter"@ {
        StopReason::ContentFilter
    } else {
        StopReason::Incomplete
    }
}

/// The word for why a response is incomplete.
pub open spec fn incomplete_word(response: Json) -> Option<Seq<char>> {
    match member(response, "incomplete_details"@) {
        Some(details) => string_member(details, "reason"@),
        None => None,
    }
}

// ---- the Responses protocol ----

/// Events alone.
pub open spec fn reports(events: Seq<ModelEventView>) -> Result<
    ParsedPayloadView,
    ProviderErrorView,
> {
    Ok(ParsedPayloadView { events, stop_reason: None, terminal: false })
}

/// The call that a payload adds arguments to.
pub open spec fn arguments_delta(json: Json) -> ModelEventView {
    ModelEventView::ToolCallDelta {
        index: output_index_or_first(json),
        call_id: string_member(json, "call_id"@),
        item_id: string_member(json, "item_id"@),
        name: string_member(json, "name"@),
        arguments: text_or_empty(string_member(json, "delta"@)),
        arguments_complete: false,
    }
}

/// The call that a payload completes.
pub open spec fn arguments_done(json: Json) -> ModelEventView {
    let item = member_or_null(json, "item"@);
    ModelEventView::ToolCallDelta {
        index: output_index_or_first(json),
        call_id: string_of(either(member(json, "call_id"@), member(item, "call_id"@))),
        item_id: string_of(either(member(json, "item_id"@), member(item, "id"@))),
        name: string_of(either(member(json, "name"@), member(item, "name"@))),
        arguments: text_or_empty(
            string_of(either(member(json, "arguments"@), member(item, "arguments"@))),
        ),
        arguments_complete: true,
    }
}

/// The events of an output item that begins.
pub open spec fn item_added(json: Json) -> Seq<ModelEventView> {
    let item = member_or_null(json, "item"@);
    let kind = string_member(item, "type"@);
    if kind == Some("function_call"@) {
        seq![
            ModelEventView::ToolCallDelta {
                index: output_index_or_first(json),
                call_id: string_member(item, "call_id"@),
                item_id: string_member(item, "id"@),
                name: string_member(item, "name"@),
                arguments: text_or_empty(string_member(item, "arguments"@)),
                arguments_complete: false,
            },
        ]
    } else {
        item_done(json)
    }
}

/// The events of an output item that ends.
pub open spec fn item_done(json: Json) -> Seq<ModelEventView> {
    let item = member_or_null(json, "item"@);
    let kind = string_member(item, "type"@);
    if kind == Some("reasoning"@) {
        seq![reasoning_event(output_index_or_first(json), item)]
    } else if kind == Some("message"@) {
        seq![message_event(output_index_or_first(json), item)]
    } else {
        Seq::empty()
    }
}

/// The response that a payload is about: its own member, or the payload itself.
pub open spec fn response_of(json: Json) -> Json {
    match member(json, "response"@) {
        Some(response) => response,
        None => json,
    }
}

/// The message of a failed response.
pub open spec fn failure_message(json: Json) -> Seq<char> {
    let nested = match member(response_of(json), "error"@) {
        Some(error) => string_member(error, "message"@),
        None => None,
    };
    match nested {
        Some(message) => message,
        None => match string_member(json, "message"@) {
            Some(message) => message,
            None => "Responses stream reported a failure"@,
        },
    }
}

/// What a payload of the Responses protocol means.
pub open spec fn responses_payload(json: Json) -> Result<ParsedPayloadView, ProviderErrorView> {
    let kind = text_or_empty(string_member(json, "type"@));
    let delta = string_member(json, "delta"@);
    if kind == "response.output_text.delta"@ {
        reports(
            match delta {
                Some(text) => seq![
                    ModelEventView::AssistantTextDelta { index: output_index(json), text },
                ],
                None => Seq::empty(),
            },
        )
    } else if kind == "response.refusal.delta"@ {
        reports(
            match delta {
                Some(text) => seq![
                    ModelEventView::AssistantRefusalDelta { index: output_index(json), text },
                ],
                None => Seq::empty(),
            },
        )
    } else if kind == "response.refusal.done"@ {
        reports(
            seq![
                ModelEventView::AssistantRefusalItem {
                    index: output_index_or_first(json),
                    content: string_member(json, "refusal"@),
                },
            ],
        )
    } else if kind == "response.reasoning_summary_text.delta"@ || kind
        == "response.reasoning.delta"@ {
        reports(
            match delta {
                Some(text) => seq![
                    ModelEventView::AssistantThinkingDelta {
                        item_id: string_member(json, "item_id"@),
                        text,
                    },
                ],
                None => Seq::empty(),
            },
        )
    } else if kind == "response.reasoning_text.delta"@ {
        reports(
            match delta {
                Some(text) => seq![
                    ModelEventView::AssistantThinkingContentDelta {
                        item_id: string_member(json, "item_id"@),
                        text,
                    },
                ],
                None => Seq::empty(),
            },
        )
    } else if kind == "response.function_call_arguments.delta"@ {
        reports(seq![arguments_delta(json)])
    } else if kind == "response.output_item.added"@ {
        reports(item_added(json))
    } else if kind == "response.output_item.done"@ {
        reports(item_done(json))
    } else if kind == "response.function_call_arguments.done"@ {
        reports(seq![arguments_done(json)])
    } else if kind == "response.incomplete"@ {
        let response = response_of(json);
        Ok(
            ParsedPayloadView {
                events: usage_events(response),
                stop_reason: Some(
                    match incomplete_word(response) {
                        Some(word) => incomplete_reason_named(word),
                        None => StopReason::Incomplete,
                    },
                ),
                terminal: true,
            },
        )
    } else if kind == "response.failed"@ {
        Err(ProviderErrorView::Failed { message: failure_message(json) })
    } else if kind == "response.completed"@ || kind == "response.done"@ {
        let response = response_of(json);
        let by_status = match string_member(response, "status"@) {
            Some(word) => stop_reason_named(word),
            None => None,
        };
        Ok(
            ParsedPayloadView {
                events: usage_events(response),
                stop_reason: match by_status {
                    Some(reason) => Some(reason),
                    None => match incomplete_word(response) {
                        Some(word) => stop_reason_named(word),
                        None => None,
                    },
                },
                terminal: true,
            },
        )
    } else {
        reports(Seq::empty())
    }
}

// ---- the Completions protocol ----

/// The first choice of a payload.
pub open spec fn first_choice(json: Json) -> Option<Json> {
    match items_of(member(json, "choices"@)) {
        Some(choices) => if choices.len() > 0 {
            Some(choices[0])
        } else {
            None
        },
        None => None,
    }
}

/// The event of a text, where there is one.
pub open spec fn thinking_events(delta: Json, name: Seq<char>) -> Seq<ModelEventView> {
    match string_member(delta, name) {
        Some(text) => seq![ModelEventView::AssistantThinkingDelta { item_id: None, text }],
        None => Seq::empty(),
    }
}

/// The event of one call in a delta.
pub open spec fn call_event(call: Json) -> ModelEventView {
    let function = member_or_null(call, "function"@);
    ModelEventView::ToolCallDelta {
        index: match u64_member(call, "index"@) {
            Some(index) => index as usize,
            None => 0,
        },
        call_id: string_member(call, "id"@),
        item_id: None,
        name: string_member(function, "name"@),
        arguments: text_or_empty(string_member(function, "arguments"@)),
        arguments_complete: false,
    }
}

/// The events of a delta: text, refusal, reasoning under its three names, and calls.
pub open spec fn delta_events(delta: Json) -> Seq<ModelEventView> {
    let text = match string_member(delta, "content"@) {
        Some(text) => seq![ModelEventView::AssistantTextDelta { index: None, text }],
        None => Seq::empty(),
    };
    let refusal = match string_member(delta, "refusal"@) {
        Some(text) => seq![ModelEventView::AssistantRefusalDelta { index: None, text }],
        None => Seq::empty(),
    };
    let calls = match items_of(member(delta, "tool_calls"@)) {
        Some(calls) => calls.map_values(|call: Json| call_event(call)),
        None => Seq::empty(),
    };
    text + refusal + thinking_events(delta, "reasoning_content"@) + thinking_events(
        delta,
        "reasoning"@,
    ) + thinking_events(delta, "thinking"@) + calls
}

/// The events of the delta of a choice, where it has one.
pub open spec fn choice_events(choice: Option<Json>) -> Seq<ModelEventView> {
    match choice {
        Some(choice) => match member(choice, "delta"@) {
            Some(delta) => delta_events(delta),
            None => Seq::empty(),
        },
        None => Seq::empty(),
    }
}

/// The word for why a choice ended.
pub open spec fn finish_word(choice: Option<Json>) -> Option<Seq<char>> {
    match choice {
        Some(choice) => string_member(choice, "finish_reason"@),
        None => None,
    }
}

/// What a payload of the Completions protocol means.
pub open spec fn completions_payload(json: Json) -> ParsedPayloadView {
    let choice = first_choice(json);
    let word = finish_word(choice);
    ParsedPayloadView {
        events: choice_events(choice) + usage_events(json),
        stop_reason: match word {
            Some(word) => stop_reason_named(word),
            None => None,
        },
        terminal: word is Some,
    }
}

// ---- any payload ----

/// The message of the error object of a payload.
pub open spec fn error_message(json: Json) -> Option<Seq<char>> {
    match member(json, "error"@) {
        Some(error) => string_member(error, "message"@),
        None => None,
    }
}

/// What a parsed payload means.
pub open spec fn payload_meaning(api: ApiKind, json: Json) -> Result<
    ParsedPayloadView,
    ProviderErrorView,
> {
    match error_message(json) {
        Some(message) => Err(ProviderErrorView::Failed { message }),
        None => if string_member(json, "type"@) == Some("error"@) {
            Err(
                ProviderErrorView::Failed {
                    message: match string_member(json, "message"@) {
                        Some(message) => message,
                        None => "Responses stream reported an error"@,
                    },
                },
            )
        } else {
            match api {
                ApiKind::OpenAiResponses => responses_payload(json),
                ApiKind::OpenAiCompletions => Ok(completions_payload(json)),
            }
        },
    }
}

/// What the text of a payload means: an error where it is no JSON.
pub open spec fn payload_text_meaning(api: ApiKind, payload: Seq<char>) -> Result<
    ParsedPayloadView,
    ProviderErrorView,
> {
    match json_parsed(payload) {
        Ok(json) => payload_meaning(api, json),
        Err(message) => Err(ProviderErrorView::Malformed { message }),
    }
}

// ---- reading payloads ----

fn get_output_index(value: &JsonValue) -> (res: Option<usize>)
    ensures
        res == output_index(value.deep_view()),
{
    match value.get_u64("output_index") {
        Some(index) => Some(index as usize),
        None => None,
    }
}

fn get_output_index_or_first(value: &JsonValue) -> (res: usize)
    ensures
        res == output_index_or_first(value.deep_view()),
{
    match value.get_u64("output_index") {
        Some(index) => index as usize,
        None => 0,
    }
}

fn get_text(value: &JsonValue, name: &str) -> (res: String)
    ensures
        res@ == text_or_empty(string_member(value.deep_view(), name@)),
{
    match value.get_string(name) {
        Some(text) => text,
        None => String::new(),
    }
}

/// The member `name` of `value`, else the member `other` of `item`, where that is a string.
fn get_either_string(value: &JsonValue, name: &str, item: Option<&JsonValue>, other: &str) -> (res:
    Option<String>)
    ensures
        res.deep_view() == string_of(
            either(
                member(value.deep_view(), name@),
                match item {
                    Some(item) => member(item.deep_view(), other@),
                    None => None,
                },
            ),
        ),
{
    let found = match value.get(name) {
        Some(found) => Some(found),
        None => match item {
            Some(item) => item.get(other),
            None => None,
        },
    };
    match found {
        Some(found) => match found.as_str() {
            Some(text) => Some(text.to_owned()),
            None => None,
        },
        None => None,
    }
}

fn join_parts(parts: &Vec<JsonValue>, name: &str) -> (res: String)
    ensures
        res@ == joined_parts(parts.deep_view(), name@),
{
    let ghost all = parts.deep_view();
    let mut joined = String::new();
    let mut i: usize = 0;
    assert(all.take(0) =~= Seq::<Json>::empty());
    while i < parts.len()
        invariant
            i <= parts.len(),
            all == parts.deep_view(),
            joined@ == joined_parts(all.take(i as int), name@),
        decreases parts.len() - i,
    {
        proof {
            assert(all.take(i + 1).drop_last() =~= all.take(i as int));
            assert(all.take(i + 1).last() == parts@[i as int].deep_view());
        }
        if let Some(text) = parts[i].get_str(name) {
            joined.append(text);
        }
        i += 1;
    }
    assert(all.take(i as int) =~= all);
    joined
}

/// The text of a content: a string, or the strings under `name` in its parts.
fn text_of_content(content: Option<&JsonValue>, name: &str) -> (res: Option<String>)
    ensures
        res.deep_view() == content_text(content.deep_view(), name@),
{
    match content {
        Some(value) => match value.as_str() {
            Some(text) => Some(text.to_owned()),
            None => match value.as_array() {
                Some(parts) => {
                    let text = join_parts(parts, name);
                    if text.as_str().is_empty() {
                        None
                    } else {
                        Some(text)
                    }
                },
                None => None,
            },
        },
        None => None,
    }
}

fn reasoning_item_event(index: usize, item: &JsonValue) -> (res: ModelEvent)
    ensures
        res.deep_view() == reasoning_event(index, item.deep_view()),
{
    ModelEvent::AssistantThinkingItem {
        index,
        item_id: item.get_string("id"),
        summary: text_of_content(item.get("summary"), "text"),
        content: text_of_content(item.get("content"), "text"),
        encrypted_content: item.get_string("encrypted_content"),
    }
}

fn message_item_event(index: usize, item: &JsonValue) -> (res: ModelEvent)
    ensures
        res.deep_view() == message_event(index, item.deep_view()),
{
    match text_of_content(item.get("content"), "refusal") {
        Some(refusal) => ModelEvent::AssistantRefusalItem { index, content: Some(refusal) },
        None => ModelEvent::AssistantTextItem {
            index,
            content: text_of_content(item.get("content"), "text"),
        },
    }
}

fn get_either<'a>(value: &'a JsonValue, first: &str, second: &str) -> (res: Option<&'a JsonValue>)
    ensures
        res.deep_view() == either(
            member(value.deep_view(), first@),
            member(value.deep_view(), second@),
        ),
{
    match value.get(first) {
        Some(found) => Some(found),
        None => value.get(second),
    }
}

fn count_of(value: Option<&JsonValue>) -> (res: Option<u64>)
    ensures
        res == u64_of(value.deep_view()),
{
    match value {
        Some(value) => value.as_u64(),
        None => None,
    }
}

/// The counts of a usage object, where it has any.
pub fn parse_usage(value: &JsonValue) -> (res: Option<Usage>)
    ensures
        res == usage_of(value.deep_view()),
{
    let input_tokens = count_of(get_either(value, "input_tokens", "prompt_tokens"));
    let output_tokens = count_of(get_either(value, "output_tokens", "completion_tokens"));
    let total_tokens = value.get_u64("total_tokens");
    let cache_read_tokens = match get_either(
        value,
        "input_tokens_details",
        "prompt_tokens_details",
    ) {
        Some(details) => details.get_u64("cached_tokens"),
        None => None,
    };
    if input_tokens.is_none() && output_tokens.is_none() && total_tokens.is_none()
        && cache_read_tokens.is_none() {
        return None;
    }
    Some(
        Usage {
            input_tokens,
            output_tokens,
            total_tokens,
            cache_read_tokens,
            cache_write_tokens: None,
        },
    )
}

/// Adds the usage that a payload reports.
fn push_usage(events: &mut Vec<ModelEvent>, value: &JsonValue)
    ensures
        final(events).deep_view() == old(events).deep_view() + usage_events(value.deep_view()),
{
    let ghost before = events.deep_view();
    if let Some(usage) = value.get("usage") {
        if let Some(usage) = parse_usage(usage) {
            events.push(ModelEvent::UsageUpdated(usage));
            assert(events.deep_view() =~= before + seq![ModelEventView::UsageUpdated(usage)]);
            return;
        }
    }
    assert(before + Seq::<ModelEventView>::empty() =~= before);
}

/// The reason that a provider's word stands for.
pub fn normalize_stop_reason(value: &str) -> (res: Option<StopReason>)
    ensures
        res == stop_reason_named(value@),
{
    if same_text(value, "stop") || same_text(value, "completed") {
        Some(StopReason::Stop)
    } else if same_text(value, "tool_calls") || same_text(value, "function_call") {
        Some(StopReason::ToolCalls)
    } else if same_text(value, "length") || same_text(value, "max_output_tokens") || same_text(
        value,
        "max_tokens",
    ) {
        Some(StopReason::Length)
    } else if same_text(value, "content_filter") {
        Some(StopReason::ContentFilter)
    } else {
        None
    }
}

/// The reason why a response is incomplete.
pub fn normalize_incomplete_reason(value: &str) -> (res: StopReason)
    ensures
        res == incomplete_reason_named(value@),
{
    if same_text(value, "max_output_tokens") || same_text(value, "max_tokens") || same_text(
        value,
        "length",
    ) {
        StopReason::Length
    } else if same_text(value, "content_filter") {
        StopReason::ContentFilter
    } else {
        StopReason::Incomplete
    }
}

fn get_incomplete_word(response: &JsonValue) -> (res: Option<&str>)
    ensures
        res.deep_view() == incomplete_word(response.deep_view()),
{
    match response.get("incomplete_details") {
        Some(details) => details.get_str("reason"),
        None => None,
    }
}

/// A payload that reports one event.
fn report(event: ModelEvent) -> (res: Result<ParsedPayload, ProviderError>)
    ensures
        res is Ok,
        Ok::<ParsedPayloadView, ProviderErrorView>(res->Ok_0.deep_view()) == reports(
            seq![event.deep_view()],
        ),
{
    let mut events: Vec<ModelEvent> = Vec::new();
    events.push(event);
    assert(events.deep_view() =~= seq![event.deep_view()]);
    Ok(ParsedPayload { events, stop_reason: None, terminal: false })
}

/// A payload that reports nothing.
fn report_nothing() -> (res: Result<ParsedPayload, ProviderError>)
    ensures
        res is Ok,
        Ok::<ParsedPayloadView, ProviderErrorView>(res->Ok_0.deep_view()) == reports(Seq::empty()),
{
    let events: Vec<ModelEvent> = Vec::new();
    assert(events.deep_view() =~= Seq::<ModelEventView>::empty());
    Ok(ParsedPayload { events, stop_reason: None, terminal: false })
}

/// The two results say the same.
pub open spec fn same_outcome(
    res: Result<ParsedPayload, ProviderError>,
    meaning: Result<ParsedPayloadView, ProviderErrorView>,
) -> bool {
    match (res, meaning) {
        (Ok(parsed), Ok(expected)) => parsed.deep_view() == expected,
        (Err(error), Err(expected)) => error.deep_view() == expected,
        _ => false,
    }
}

fn report_item_done(value: &JsonValue) -> (res: Result<ParsedPayload, ProviderError>)
    ensures
        same_outcome(res, reports(item_done(value.deep_view()))),
{
    if let Some(item) = value.get("item") {
        if let Some(kind) = item.get_str("type") {
            if same_text(kind, "reasoning") {
                return report(reasoning_item_event(get_output_index_or_first(value), item));
            } else if same_text(kind, "message") {
                return report(message_item_event(get_output_index_or_first(value), item));
            }
        }
    }
    report_nothing()
}

fn report_item_added(value: &JsonValue) -> (res: Result<ParsedPayload, ProviderError>)
    ensures
        same_outcome(res, reports(item_added(value.deep_view()))),
{
    if let Some(item) = value.get("item") {
        if let Some(kind) = item.get_str("type") {
            if same_text(kind, "function_call") {
                return report(
                    ModelEvent::ToolCallDelta {
                        index: get_output_index_or_first(value),
                        call_id: item.get_string("call_id"),
                        item_id: item.get_string("id"),
                        name: item.get_string("name"),
                        arguments: get_text(item, "arguments"),
                        arguments_complete: false,
                    },
                );
            }
        }
    }
    report_item_done(value)
}

fn report_arguments_done(value: &JsonValue) -> (res: Result<ParsedPayload, ProviderError>)
    ensures
        same_outcome(res, reports(seq![arguments_done(value.deep_view())])),
{
    let item = value.get("item");
    let arguments = match get_either_string(value, "arguments", item, "arguments") {
        Some(arguments) => arguments,
        None => String::new(),
    };
    report(
        ModelEvent::ToolCallDelta {
            index: get_output_index_or_first(value),
            call_id: get_either_string(value, "call_id", item, "call_id"),
            item_id: get_either_string(value, "item_id", item, "id"),
            name: get_either_string(value, "name", item, "name"),
            arguments,
            arguments_complete: true,
        },
    )
}

fn get_response(value: &JsonValue) -> (res: &JsonValue)
    ensures
        res.deep_view() == response_of(value.deep_view()),
{
    match value.get("response") {
        Some(response) => response,
        None => value,
    }
}

fn get_failure_message(value: &JsonValue) -> (res: String)
    ensures
        res@ == failure_message(value.deep_view()),
{
    if let Some(error) = get_response(value).get("error") {
        if let Some(message) = error.get_string("message") {
            return message;
        }
    }
    match value.get_string("message") {
        Some(message) => message,
        None => "Responses stream reported a failure".to_owned(),
    }
}

/// What a payload of the Responses protocol means.
pub fn parse_responses_payload(value: &JsonValue) -> (res: Result<ParsedPayload, ProviderError>)
    ensures
        same_outcome(res, responses_payload(value.deep_view())),
{
    let kind = get_text(value, "type");
    let delta = value.get_string("delta");
    if same_text(&kind, "response.output_text.delta") {
        match delta {
            Some(text) => report(
                ModelEvent::AssistantTextDelta { index: get_output_index(value), text },
            ),
            None => report_nothing(),
        }
    } else if same_text(&kind, "response.refusal.delta") {
        match delta {
            Some(text) => report(
                ModelEvent::AssistantRefusalDelta { index: get_output_index(value), text },
            ),
            None => report_nothing(),
        }
    } else if same_text(&kind, "response.refusal.done") {
        report(
            ModelEvent::AssistantRefusalItem {
                index: get_output_index_or_first(value),
                content: value.get_string("refusal"),
            },
        )
    } else if same_text(&kind, "response.reasoning_summary_text.delta") || same_text(
        &kind,
        "response.reasoning.delta",
    ) {
        match delta {
            Some(text) => report(
                ModelEvent::AssistantThinkingDelta { item_id: value.get_string("item_id"), text },
            ),
            None => report_nothing(),
        }
    } else if same_text(&kind, "response.reasoning_text.delta") {
        match delta {
            Some(text) => report(
                ModelEvent::AssistantThinkingContentDelta {
                    item_id: value.get_string("item_id"),
                    text,
                },
            ),
            None => report_nothing(),
        }
    } else if same_text(&kind, "response.function_call_arguments.delta") {
        report(
            ModelEvent::ToolCallDelta {
                index: get_output_index_or_first(value),
                call_id: value.get_string("call_id"),
                item_id: value.get_string("item_id"),
                name: value.get_string("name"),
                arguments: get_text(value, "delta"),
                arguments_complete: false,
            },
        )
    } else if same_text(&kind, "response.output_item.added") {
        report_item_added(value)
    } else if same_text(&kind, "response.output_item.done") {
        report_item_done(value)
    } else if same_text(&kind, "response.function_call_arguments.done") {
        report_arguments_done(value)
    } else if same_text(&kind, "response.incomplete") {
        let response = get_response(value);
        let mut events: Vec<ModelEvent> = Vec::new();
        push_usage(&mut events, response);
        assert(events.deep_view() =~= usage_events(response.deep_view()));
        let reason = match get_incomplete_word(response) {
            Some(word) => normalize_incomplete_reason(word),
            None => StopReason::Incomplete,
        };
        Ok(ParsedPayload { events, stop_reason: Some(reason), terminal: true })
    } else if same_text(&kind, "response.failed") {
        Err(ProviderError::Failed { message: get_failure_message(value) })
    } else if same_text(&kind, "response.completed") || same_text(&kind, "response.done") {
        let response = get_response(value);
        let mut events: Vec<ModelEvent> = Vec::new();
        push_usage(&mut events, response);
        assert(events.deep_view() =~= usage_events(response.deep_view()));
        let by_status = match response.get_str("status") {
            Some(word) => normalize_stop_reason(word),
            None => None,
        };
        let stop_reason = match by_status {
            Some(reason) => Some(reason),
            None => match get_incomplete_word(response) {
                Some(word) => normalize_stop_reason(word),
                None => None,
            },
        };
        Ok(ParsedPayload { events, stop_reason, terminal: true })
    } else {
        report_nothing()
    }
}

fn push_thinking(events: &mut Vec<ModelEvent>, delta: &JsonValue, name: &str)
    ensures
        final(events).deep_view() == old(events).deep_view() + thinking_events(
            delta.deep_view(),
            name@,
        ),
{
    let ghost before = events.deep_view();
    match delta.get_string(name) {
        Some(text) => {
            events.push(ModelEvent::AssistantThinkingDelta { item_id: None, text });
            assert(events.deep_view() =~= before + thinking_events(delta.deep_view(), name@));
        },
        None => {
            assert(before + Seq::<ModelEventView>::empty() =~= before);
        },
    }
}

fn call_delta(call: &JsonValue) -> (res: ModelEvent)
    ensures
        res.deep_view() == call_event(call.deep_view()),
{
    let (name, arguments) = match call.get("function") {
        Some(function) => (function.get_string("name"), get_text(function, "arguments")),
        None => (None, String::new()),
    };
    ModelEvent::ToolCallDelta {
        index: match call.get_u64("index") {
            Some(index) => index as usize,
            None => 0,
        },
        call_id: call.get_string("id"),
        item_id: None,
        name,
        arguments,
        arguments_complete: false,
    }
}

fn push_calls(events: &mut Vec<ModelEvent>, calls: &Vec<JsonValue>)
    ensures
        final(events).deep_view() == old(events).deep_view() + calls.deep_view().map_values(
            |call: Json| call_event(call),
        ),
{
    let ghost before = events.deep_view();
    let ghost all = calls.deep_view();
    let mut i: usize = 0;
    assert(before + all.take(0).map_values(|call: Json| call_event(call)) =~= before);
    while i < calls.len()
        invariant
            i <= calls.len(),
            all == calls.deep_view(),
            events.deep_view() == before + all.take(i as int).map_values(
                |call: Json| call_event(call),
            ),
        decreases calls.len() - i,
    {
        let ghost so_far = events.deep_view();
        events.push(call_delta(&calls[i]));
        proof {
            assert(all[i as int] == calls@[i as int].deep_view());
            assert(events.deep_view() =~= so_far.push(call_event(all[i as int])));
            assert(events.deep_view() =~= before + all.take(i + 1).map_values(
                |call: Json| call_event(call),
            ));
        }
        i += 1;
    }
    assert(all.take(i as int) =~= all);
}

fn push_delta(events: &mut Vec<ModelEvent>, delta: &JsonValue)
    requires
        old(events)@.len() == 0,
    ensures
        final(events).deep_view() == delta_events(delta.deep_view()),
{
    let ghost d = delta.deep_view();
    assert(events.deep_view() =~= Seq::<ModelEventView>::empty());
    if let Some(text) = delta.get_string("content") {
        events.push(ModelEvent::AssistantTextDelta { index: None, text });
        assert(events.deep_view() =~= seq![
            ModelEventView::AssistantTextDelta { index: None, text: text@ },
        ]);
    }
    let ghost first = events.deep_view();
    if let Some(text) = delta.get_string("refusal") {
        events.push(ModelEvent::AssistantRefusalDelta { index: None, text });
        assert(events.deep_view() =~= first + seq![
            ModelEventView::AssistantRefusalDelta { index: None, text: text@ },
        ]);
    } else {
        assert(first + Seq::<ModelEventView>::empty() =~= first);
    }
    push_thinking(events, delta, "reasoning_content");
    push_thinking(events, delta, "reasoning");
    push_thinking(events, delta, "thinking");
    let ghost last = events.deep_view();
    if let Some(calls) = delta.get("tool_calls") {
        if let Some(calls) = calls.as_array() {
            push_calls(events, calls);
            assert(events.deep_view() =~= delta_events(d));
            return;
        }
    }
    assert(last + Seq::<ModelEventView>::empty() =~= last);
}

/// What a payload of the Completions protocol means.
pub fn parse_completions_payload(value: &JsonValue) -> (res: Result<ParsedPayload, ProviderError>)
    ensures
        res is Ok,
        res->Ok_0.deep_view() == completions_payload(value.deep_view()),
{
    let mut events: Vec<ModelEvent> = Vec::new();
    let mut stop_reason: Option<StopReason> = None;
    let mut terminal = false;
    let choice = match value.get("choices") {
        Some(choices) => match choices.as_array() {
            Some(choices) => if choices.len() > 0 {
                assert(choices.deep_view()[0] == choices@[0].deep_view());
                Some(&choices[0])
            } else {
                None
            },
            None => None,
        },
        None => None,
    };
    assert(choice.deep_view() == first_choice(value.deep_view()));
    assert(events.deep_view() =~= Seq::<ModelEventView>::empty());
    if let Some(choice) = choice {
        if let Some(delta) = choice.get("delta") {
            push_delta(&mut events, delta);
        }
        if let Some(word) = choice.get_str("finish_reason") {
            terminal = true;
            stop_reason = normalize_stop_reason(word);
        }
    }
    assert(events.deep_view() =~= choice_events(first_choice(value.deep_view())));
    push_usage(&mut events, value);
    Ok(ParsedPayload { events, stop_reason, terminal })
}

/// What a parsed payload means.
pub fn interpret_payload(api: ApiKind, value: &JsonValue) -> (res: Result<
    ParsedPayload,
    ProviderError,
>)
    ensures
        same_outcome(res, payload_meaning(api, value.deep_view())),
{
    if let Some(error) = value.get("error") {
        if let Some(message) = error.get_string("message") {
            return Err(ProviderError::Failed { message });
        }
    }
    if let Some(kind) = value.get_str("type") {
        if same_text(kind, "error") {
            let message = match value.get_string("message") {
                Some(message) => message,
                None => "Responses stream reported an error".to_owned(),
            };
            return Err(ProviderError::Failed { message });
        }
    }
    match api {
        ApiKind::OpenAiResponses => parse_responses_payload(value),
        ApiKind::OpenAiCompletions => parse_completions_payload(value),
    }
}

/// What the text of a payload means.
pub fn parse_payload(api: ApiKind, payload: &str) -> (res: Result<ParsedPayload, ProviderError>)
    ensures
        same_outcome(res, payload_text_meaning(api, payload@)),
{
    match JsonValue::parse(payload) {
        Ok(value) => interpret_payload(api, &value),
        Err(message) => Err(ProviderError::Malformed { message }),
    }
}

} // verus!
