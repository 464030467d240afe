//! What a request to a model holds.

use crate::config::ApiKind;
use crate::config::model::{HeaderView, ResolvedModelView};
use crate::json::{member, number_from_u64, Json};
use crate::model::message::{
    ModelAssistantItemView, ModelMessageView, ModelRequestView, ModelThinkingView,
    ModelToolCallView, ToolDefinitionView,
};
use crate::model::requests::{
    completions_assistant, completions_calls, completions_message_of, endpoint_of, joined_texts,
    request_body, responses_input, responses_items, without_slashes,
};
use crate::model::stream::{first_header_error, header_error, http_request_of, request_headers};
use vstd::prelude::*;

verus! {

/// The names of the members of a request are all different.
proof fn lemma_member_names()
    ensures
        "model"@ != "input"@,
        "model"@ != "messages"@,
        "model"@ != "stream"@,
        "model"@ != "tools"@,
        "input"@ != "stream"@,
        "input"@ != "tools"@,
        "input"@ != "max_output_tokens"@,
        "input"@ != "reasoning"@,
        "messages"@ != "stream"@,
        "messages"@ != "stream_options"@,
        "messages"@ != "max_tokens"@,
        "messages"@ != "reasoning_effort"@,
        "messages"@ != "tools"@,
        "stream"@ != "tools"@,
        "stream_options"@ != "tools"@,
        "stream_options"@ != "max_tokens"@,
        "stream_options"@ != "reasoning_effort"@,
        "max_output_tokens"@ != "tools"@,
        "max_output_tokens"@ != "reasoning"@,
        "max_tokens"@ != "tools"@,
        "max_tokens"@ != "reasoning_effort"@,
        "reasoning"@ != "tools"@,
        "reasoning_effort"@ != "tools"@,
{
    reveal_strlit("model");
    reveal_strlit("input");
    reveal_strlit("messages");
    reveal_strlit("stream");
    reveal_strlit("stream_options");
    reveal_strlit("max_output_tokens");
    reveal_strlit("max_tokens");
    reveal_strlit("reasoning");
    reveal_strlit("reasoning_effort");
    reveal_strlit("tools");
    assert("model"@.len() == 5 && "input"@.len() == 5 && "messages"@.len() == 8);
    assert("stream"@.len() == 6 && "stream_options"@.len() == 14 && "tools"@.len() == 5);
    assert("max_output_tokens"@.len() == 17 && "max_tokens"@.len() == 10);
    assert("reasoning"@.len() == 9 && "reasoning_effort"@.len() == 16);
    assert("model"@[0] == 'm' && "input"@[0] == 'i' && "tools"@[0] == 't');
}

/// The names of the members of its parts are all different.
proof fn lemma_part_names()
    ensures
        "type"@ != "name"@,
        "type"@ != "description"@,
        "type"@ != "parameters"@,
        "type"@ != "function"@,
        "type"@ != "id"@,
        "type"@ != "call_id"@,
        "type"@ != "arguments"@,
        "type"@ != "output"@,
        "type"@ != "summary"@,
        "type"@ != "content"@,
        "type"@ != "encrypted_content"@,
        "type"@ != "text"@,
        "type"@ != "refusal"@,
        "name"@ != "description"@,
        "name"@ != "parameters"@,
        "name"@ != "arguments"@,
        "name"@ != "id"@,
        "name"@ != "call_id"@,
        "description"@ != "parameters"@,
        "id"@ != "call_id"@,
        "id"@ != "arguments"@,
        "id"@ != "function"@,
        "id"@ != "summary"@,
        "id"@ != "content"@,
        "id"@ != "encrypted_content"@,
        "summary"@ != "content"@,
        "summary"@ != "encrypted_content"@,
        "content"@ != "encrypted_content"@,
        "call_id"@ != "arguments"@,
        "call_id"@ != "output"@,
        "role"@ != "content"@,
        "role"@ != "tool_call_id"@,
        "role"@ != "refusal"@,
        "role"@ != "tool_calls"@,
        "content"@ != "tool_call_id"@,
        "content"@ != "refusal"@,
        "content"@ != "tool_calls"@,
        "refusal"@ != "tool_calls"@,
{
    reveal_strlit("type");
    reveal_strlit("name");
    reveal_strlit("description");
    reveal_strlit("parameters");
    reveal_strlit("function");
    reveal_strlit("id");
    reveal_strlit("call_id");
    reveal_strlit("arguments");
    reveal_strlit("output");
    reveal_strlit("summary");
    reveal_strlit("content");
    reveal_strlit("encrypted_content");
    reveal_strlit("role");
    reveal_strlit("tool_call_id");
    reveal_strlit("refusal");
    reveal_strlit("tool_calls");
    reveal_strlit("text");
    assert("type"@.len() == 4 && "name"@.len() == 4 && "text"@.len() == 4 && "role"@.len() == 4);
    assert("description"@.len() == 11 && "parameters"@.len() == 10 && "function"@.len() == 8);
    assert("id"@.len() == 2 && "call_id"@.len() == 7 && "arguments"@.len() == 9);
    assert("output"@.len() == 6 && "summary"@.len() == 7 && "content"@.len() == 7);
    assert("encrypted_content"@.len() == 17 && "tool_call_id"@.len() == 12);
    assert("refusal"@.len() == 7 && "tool_calls"@.len() == 10);
    assert("type"@[1] == 'y' && "name"@[1] == 'a' && "text"@[1] == 'e');
    assert("call_id"@[0] == 'c' && "summary"@[0] == 's' && "content"@[1] == 'o' && "refusal"@[0]
        == 'r' && "call_id"@[1] == 'a');
}

/// An entry tells a model of a tool: its name, its description and its parameters.
pub open spec fn describes(function: Json, tool: ToolDefinitionView) -> bool {
    &&& member(function, "name"@) == Some(Json::Text(tool.name))
    &&& member(function, "description"@) == Some(
        match tool.description {
            Some(description) => Json::Text(description),
            None => Json::Null,
        },
    )
    &&& member(function, "parameters"@) == Some(tool.parameters)
}

/// Whatever the model and its protocol, a request with tools offers every one of them, in order,
/// with its name, its description and its parameters; one without offers none.
pub proof fn lemma_every_tool_is_offered(model: ResolvedModelView, request: ModelRequestView)
    ensures
        request.tools.len() > 0 ==> {
            &&& member(request_body(model, request), "tools"@) matches Some(Json::Array(list))
            &&& list.len() == request.tools.len()
            &&& forall|i: int|
                0 <= i < list.len() ==> {
                    &&& member(#[trigger] list[i], "type"@) == Some(Json::Text("function"@))
                    &&& match model.api {
                        ApiKind::OpenAiResponses => describes(list[i], request.tools[i]),
                        ApiKind::OpenAiCompletions => member(
                            list[i],
                            "function"@,
                        ) matches Some(function) && describes(function, request.tools[i]),
                    }
                }
        },
        request.tools.len() == 0 && !request.sampling_params.contains_key("tools"@)
            && !model.sampling_params.contains_key("tools"@) ==> member(
            request_body(model, request),
            "tools"@,
        ) is None,
{
    lemma_member_names();
    lemma_part_names();
}

/// The name of the member for the longest output, and the one that counts.
pub open spec fn limit_name(api: ApiKind) -> Seq<char> {
    match api {
        ApiKind::OpenAiResponses => "max_output_tokens"@,
        ApiKind::OpenAiCompletions => "max_tokens"@,
    }
}

/// A request says how long an answer may be: what the request asks for goes before what the model
/// is configured with.
pub proof fn lemma_answers_are_limited(model: ResolvedModelView, request: ModelRequestView)
    ensures
        request.max_tokens matches Some(limit) ==> member(
            request_body(model, request),
            limit_name(model.api),
        ) == Some(Json::Number(number_from_u64(limit))),
        request.max_tokens is None ==> (model.max_tokens matches Some(limit) ==> member(
            request_body(model, request),
            limit_name(model.api),
        ) == Some(Json::Number(number_from_u64(limit)))),
{
    lemma_member_names();
}

/// A request carries the effort that it asks for exactly where the model takes one; a stream of
/// completions is asked for its usage.
pub proof fn lemma_effort_goes_along(model: ResolvedModelView, request: ModelRequestView)
    ensures
        request.reasoning_effort matches Some(effort)
            ==> model.compatibility.supports_reasoning_effort ==> match model.api {
            ApiKind::OpenAiResponses => member(
                request_body(model, request),
                "reasoning"@,
            ) matches Some(reasoning) && member(reasoning, "effort"@) == Some(Json::Text(effort)),
            ApiKind::OpenAiCompletions => member(request_body(model, request), "reasoning_effort"@)
                == Some(Json::Text(effort)),
        },
        (request.reasoning_effort is None || !model.compatibility.supports_reasoning_effort)
            && !request.sampling_params.contains_key("reasoning"@)
            && !request.sampling_params.contains_key("reasoning_effort"@)
            && !model.sampling_params.contains_key("reasoning"@)
            && !model.sampling_params.contains_key("reasoning_effort"@) ==> member(
            request_body(model, request),
            "reasoning"@,
        ) is None && member(request_body(model, request), "reasoning_effort"@) is None,
        model.api == ApiKind::OpenAiCompletions ==> {
            &&& member(request_body(model, request), "stream_options"@) matches Some(options)
            &&& member(options, "include_usage"@) == Some(Json::Bool(true))
        },
{
    lemma_member_names();
    reveal_strlit("model");
    reveal_strlit("input");
    reveal_strlit("messages");
    reveal_strlit("stream");
    reveal_strlit("stream_options");
    reveal_strlit("max_output_tokens");
    reveal_strlit("max_tokens");
    reveal_strlit("reasoning");
    reveal_strlit("reasoning_effort");
    reveal_strlit("tools");
    assert("reasoning"@.len() == 9 && "reasoning_effort"@.len() == 16 && "max_tokens"@.len() == 10);
    assert("stream"@.len() == 6 && "stream_options"@.len() == 14 && "messages"@.len() == 8);
    assert("max_output_tokens"@.len() == 17);
}

/// A message of one speaker.
pub open spec fn says(entry: Json, role: Seq<char>, content: Seq<char>) -> bool {
    member(entry, "role"@) == Some(Json::Text(role)) && member(entry, "content"@) == Some(
        Json::Text(content),
    )
}

/// The text where there is one, and null where there is none.
pub open spec fn is_text_or_null(value: Option<Json>, text: Option<Seq<char>>) -> bool {
    match text {
        Some(text) => value == Some(Json::Text(text)),
        None => value == Some(Json::Null),
    }
}

/// What a message is in a request for completions.
pub open spec fn is_completions_message(
    entry: Json,
    message: ModelMessageView,
    model: ResolvedModelView,
) -> bool {
    match message {
        ModelMessageView::System { content } => says(entry, "system"@, content),
        ModelMessageView::Developer { content } => says(
            entry,
            if model.compatibility.supports_developer_role {
                "developer"@
            } else {
                "system"@
            },
            content,
        ),
        ModelMessageView::User { content } => says(entry, "user"@, content),
        ModelMessageView::ToolResult { tool_call_id, content, .. } => says(entry, "tool"@, content)
            && member(entry, "tool_call_id"@) == Some(Json::Text(tool_call_id)),
        ModelMessageView::Assistant { items } => member(entry, "role"@) == Some(
            Json::Text("assistant"@),
        ),
    }
}

/// A request for completions holds every message, in order, each with its speaker and its text, and
/// a result with the identifier of its call.
pub proof fn lemma_every_message_is_sent(model: ResolvedModelView, request: ModelRequestView)
    requires
        model.api == ApiKind::OpenAiCompletions,
    ensures
        member(request_body(model, request), "messages"@) matches Some(Json::Array(list))
            && list.len() == request.messages.len() && forall|i: int|
            0 <= i < list.len() ==> #[trigger] list[i] == completions_message_of(
                request.messages[i],
                model,
            ) && is_completions_message(list[i], request.messages[i], model),
{
    lemma_member_names();
    let list = member(request_body(model, request), "messages"@)->0->Array_0;
    assert forall|i: int| 0 <= i < list.len() implies #[trigger] list[i] == completions_message_of(
        request.messages[i],
        model,
    ) && is_completions_message(list[i], request.messages[i], model) by {
        lemma_completions_message(request.messages[i], model);
    }
}

proof fn lemma_completions_message(message: ModelMessageView, model: ResolvedModelView)
    ensures
        is_completions_message(completions_message_of(message, model), message, model),
{
    lemma_part_names();
}

/// An entry is the call of a tool.
pub open spec fn is_completions_call(entry: Json, call: ModelToolCallView) -> bool {
    &&& is_text_or_null(member(entry, "id"@), call.call_id)
    &&& member(entry, "type"@) == Some(Json::Text("function"@))
    &&& member(entry, "function"@) matches Some(function) && is_text_or_null(
        member(function, "name"@),
        call.name,
    ) && member(function, "arguments"@) == Some(Json::Text(call.arguments))
}

/// The calls among the items.
pub open spec fn calls_among(items: Seq<ModelAssistantItemView>) -> Seq<ModelAssistantItemView> {
    items.filter(|item: ModelAssistantItemView| item is ToolCall)
}

proof fn lemma_completions_calls(items: Seq<ModelAssistantItemView>)
    ensures
        completions_calls(items).len() == calls_among(items).len(),
        forall|i: int|
            0 <= i < completions_calls(items).len() ==> calls_among(items)[i] is ToolCall
                && is_completions_call(
                #[trigger] completions_calls(items)[i],
                calls_among(items)[i]->ToolCall_0,
            ),
    decreases items.len(),
{
    reveal(Seq::filter);
    lemma_part_names();
    if items.len() > 0 {
        lemma_completions_calls(items.drop_last());
    }
}

/// A reply in a request for completions holds every call of the reply, in order, with its
/// identifier, its name and its arguments; one without calls has no list of them.
pub proof fn lemma_calls_of_replies_are_sent(
    items: Seq<ModelAssistantItemView>,
    model: ResolvedModelView,
)
    ensures
        ({
            let entry = completions_message_of(ModelMessageView::Assistant { items }, model);
            let calls = calls_among(items);
            &&& calls.len() > 0 ==> (member(entry, "tool_calls"@) matches Some(Json::Array(list))
                && list.len() == calls.len() && forall|i: int|
                0 <= i < list.len() ==> calls[i] is ToolCall && is_completions_call(
                    #[trigger] list[i],
                    calls[i]->ToolCall_0,
                ))
            &&& calls.len() == 0 ==> member(entry, "tool_calls"@) is None
        }),
{
    lemma_part_names();
    lemma_completions_calls(items);
}

/// The texts of a reply make up its content: a text behind the others is added at the end, and what
/// is neither text nor refusal adds nothing.
pub proof fn lemma_texts_of_replies_are_sent(
    items: Seq<ModelAssistantItemView>,
    item: ModelAssistantItemView,
)
    ensures
        joined_texts(Seq::empty(), false) == Seq::<char>::empty(),
        joined_texts(Seq::empty(), true) == Seq::<char>::empty(),
        joined_texts(items.push(item), false) == joined_texts(items, false) + (match item {
            ModelAssistantItemView::Text { content } => content,
            _ => Seq::empty(),
        }),
        joined_texts(items.push(item), true) == joined_texts(items, true) + (match item {
            ModelAssistantItemView::Refusal { content } => content,
            _ => Seq::empty(),
        }),
        ({
            let entry = completions_assistant(items);
            let text = joined_texts(items, false);
            let refusal = joined_texts(items, true);
            &&& text.len() > 0 ==> member(entry, "content"@) == Some(Json::Text(text))
            &&& text.len() == 0 && refusal.len() == 0 && calls_among(items).len() == 0 ==> member(
                entry,
                "content"@,
            ) == Some(Json::Text(text))
            &&& text.len() == 0 && (refusal.len() > 0 || calls_among(items).len() > 0) ==> member(
                entry,
                "content"@,
            ) == Some(Json::Null)
            &&& refusal.len() > 0 ==> member(entry, "refusal"@) == Some(Json::Text(refusal))
            &&& refusal.len() == 0 ==> member(entry, "refusal"@) is None
        }),
{
    assert(items.push(item).drop_last() =~= items);
    lemma_part_names();
    lemma_completions_calls(items);
}

/// What an item of a reply is in a request for responses.
pub open spec fn is_responses_item(entry: Json, item: ModelAssistantItemView) -> bool {
    match item {
        ModelAssistantItemView::Text { content } => says(entry, "assistant"@, content),
        ModelAssistantItemView::Refusal { content } => {
            &&& member(entry, "role"@) == Some(Json::Text("assistant"@))
            &&& member(entry, "content"@) matches Some(Json::Array(parts)) && parts.len() == 1
                && member(parts[0], "refusal"@) == Some(Json::Text(content)) && member(
                parts[0],
                "type"@,
            ) == Some(Json::Text("refusal"@))
        },
        ModelAssistantItemView::ToolCall(call) => {
            &&& member(entry, "type"@) == Some(Json::Text("function_call"@))
            &&& is_text_or_null(member(entry, "id"@), call.item_id)
            &&& is_text_or_null(member(entry, "call_id"@), call.call_id)
            &&& is_text_or_null(member(entry, "name"@), call.name)
            &&& member(entry, "arguments"@) == Some(Json::Text(call.arguments))
        },
        ModelAssistantItemView::Reasoning(thinking) => is_responses_reasoning(entry, thinking),
    }
}

/// One part of text.
pub open spec fn is_one_part(value: Option<Json>, kind: Seq<char>, text: Seq<char>) -> bool {
    value matches Some(Json::Array(parts)) && parts.len() == 1 && member(parts[0], "type"@) == Some(
        Json::Text(kind),
    ) && member(parts[0], "text"@) == Some(Json::Text(text))
}

/// Reasoning goes back as it came: its identifier, its summary, its content and its opaque state.
pub open spec fn is_responses_reasoning(entry: Json, thinking: ModelThinkingView) -> bool {
    &&& member(entry, "type"@) == Some(Json::Text("reasoning"@))
    &&& match thinking.item_id {
        Some(id) => member(entry, "id"@) == Some(Json::Text(id)),
        None => member(entry, "id"@) is None,
    }
    &&& if thinking.summary.len() > 0 {
        is_one_part(member(entry, "summary"@), "summary_text"@, thinking.summary)
    } else {
        member(entry, "summary"@) matches Some(Json::Array(parts)) && parts.len() == 0
    }
    &&& if thinking.content.len() > 0 {
        is_one_part(member(entry, "content"@), "reasoning_text"@, thinking.content)
    } else {
        member(entry, "content"@) is None
    }
    &&& match thinking.encrypted_content {
        Some(state) => member(entry, "encrypted_content"@) == Some(Json::Text(state)),
        None => member(entry, "encrypted_content"@) is None,
    }
}

/// A request for responses holds what its messages hold, one after the other.
pub proof fn lemma_input_follows_the_messages(
    model: ResolvedModelView,
    request: ModelRequestView,
    front: Seq<ModelMessageView>,
    message: ModelMessageView,
    back: Seq<ModelMessageView>,
)
    requires
        model.api == ApiKind::OpenAiResponses,
        request.messages == front.push(message) + back,
    ensures
        member(request_body(model, request), "input"@) == Some(
            Json::Array(
                responses_input(front, model) + responses_items(message, model) + responses_input(
                    back,
                    model,
                ),
            ),
        ),
{
    lemma_member_names();
    lemma_input_concat(front.push(message), back, model);
    assert(front.push(message).drop_last() =~= front);
}

proof fn lemma_input_concat(
    a: Seq<ModelMessageView>,
    b: Seq<ModelMessageView>,
    model: ResolvedModelView,
)
    ensures
        responses_input(a + b, model) == responses_input(a, model) + responses_input(b, model),
    decreases b.len(),
{
    if b.len() == 0 {
        assert(a + b =~= a);
        assert(responses_input(a, model) + responses_input(b, model) =~= responses_input(a, model));
    } else {
        lemma_input_concat(a, b.drop_last(), model);
        assert((a + b).drop_last() =~= a + b.drop_last());
        assert(responses_input(a + b, model) =~= responses_input(a, model) + responses_input(
            b,
            model,
        ));
    }
}

/// In a request for responses every message has its entries: one with its speaker and its text, one
/// with the identifier and the text of a result, and for a reply one for each of its items, in
/// order, calls and reasoning among them.
pub proof fn lemma_messages_have_their_entries(message: ModelMessageView, model: ResolvedModelView)
    ensures
        ({
            let entries = responses_items(message, model);
            match message {
                ModelMessageView::System { content } => entries.len() == 1 && says(
                    entries[0],
                    "system"@,
                    content,
                ),
                ModelMessageView::Developer { content } => entries.len() == 1 && says(
                    entries[0],
                    if model.compatibility.supports_developer_role {
                        "developer"@
                    } else {
                        "system"@
                    },
                    content,
                ),
                ModelMessageView::User { content } => entries.len() == 1 && says(
                    entries[0],
                    "user"@,
                    content,
                ),
                ModelMessageView::ToolResult { tool_call_id, content, .. } => {
                    &&& entries.len() == 1
                    &&& member(entries[0], "type"@) == Some(Json::Text("function_call_output"@))
                    &&& member(entries[0], "call_id"@) == Some(Json::Text(tool_call_id))
                    &&& member(entries[0], "output"@) == Some(Json::Text(content))
                },
                ModelMessageView::Assistant { items } => entries.len() == items.len() && forall|
                    i: int,
                |
                    0 <= i < items.len() ==> is_responses_item(#[trigger] entries[i], items[i]),
            }
        }),
{
    lemma_part_names();
}

proof fn lemma_without_slashes(s: Seq<char>)
    ensures
        without_slashes(s).is_prefix_of(s),
        without_slashes(s).len() == 0 || without_slashes(s).last() != '/',
        forall|i: int| without_slashes(s).len() <= i < s.len() ==> s[i] == '/',
    decreases s.len(),
{
    if s.len() > 0 && s.last() == '/' {
        lemma_without_slashes(s.drop_last());
        let t = without_slashes(s);
        assert(s.take(t.len() as int) =~= s.drop_last().take(t.len() as int));
        assert forall|i: int| t.len() <= i < s.len() implies s[i] == '/' by {
            if i < s.len() - 1 {
                assert(s.drop_last()[i] == '/');
            }
        }
    } else {
        assert(s.take(s.len() as int) =~= s);
    }
}

/// A request goes to the address of the provider, without the slashes at its end, followed by the
/// path of the protocol.
pub proof fn lemma_requests_go_to_the_provider(model: ResolvedModelView)
    ensures
        exists|address: Seq<char>|
            {
                &&& #[trigger] address.is_prefix_of(model.base_url)
                &&& address.len() == 0 || address.last() != '/'
                &&& forall|i: int|
                    address.len() <= i < model.base_url.len() ==> model.base_url[i] == '/'
                &&& endpoint_of(model) == address + (match model.api {
                    ApiKind::OpenAiResponses => "/responses"@,
                    ApiKind::OpenAiCompletions => "/chat/completions"@,
                })
            },
{
    let address = without_slashes(model.base_url);
    lemma_without_slashes(model.base_url);
    reveal_strlit("/");
    reveal_strlit("responses");
    reveal_strlit("/responses");
    reveal_strlit("chat/completions");
    reveal_strlit("/chat/completions");
    assert("/"@ + "responses"@ =~= "/responses"@);
    assert("/"@ + "chat/completions"@ =~= "/chat/completions"@);
    assert(address + "/"@ + "responses"@ =~= address + ("/"@ + "responses"@));
    assert(address + "/"@ + "chat/completions"@ =~= address + ("/"@ + "chat/completions"@));
    assert(address.is_prefix_of(model.base_url));
}

/// A character of a header's name as it is sent: the small letter for a capital one.
pub open spec fn is_sent_char(sent: char, given: char) -> bool {
    if 'A' <= given <= 'Z' {
        sent as int == given as int + 32
    } else {
        sent == given
    }
}

proof fn lemma_first_header_error(headers: Seq<HeaderView>)
    ensures
        first_header_error(headers) is None <==> forall|i: int|
            0 <= i < headers.len() ==> header_error(#[trigger] headers[i]) is None,
    decreases headers.len(),
{
    if headers.len() > 0 {
        let rest = headers.drop_last();
        lemma_first_header_error(rest);
        if first_header_error(headers) is None {
            assert forall|i: int| 0 <= i < headers.len() implies header_error(
                #[trigger] headers[i],
            ) is None by {
                if i < rest.len() {
                    assert(header_error(rest[i]) is None);
                }
            }
        }
        if forall|i: int| 0 <= i < headers.len() ==> header_error(#[trigger] headers[i]) is None {
            assert forall|i: int| 0 <= i < rest.len() implies header_error(
                #[trigger] rest[i],
            ) is None by {
                assert(header_error(headers[i]) is None);
            }
            assert(header_error(headers[headers.len() - 1]) is None);
        }
    }
}

/// A request is sent with the type of its body and of the answer that it takes, then with every
/// configured header in order, and with the key exactly where there is one and it is to be sent; a
/// configured header that is none stands against it.
pub proof fn lemma_headers_are_sent(model: ResolvedModelView, request: ModelRequestView)
    ensures
        http_request_of(model, request) is Ok <==> forall|i: int|
            0 <= i < model.headers.len() ==> header_error(#[trigger] model.headers[i]) is None,
        http_request_of(model, request) matches Ok(sent) ==> {
            let n = model.headers.len() as int;
            let key = if model.auth_header && model.api_key is Some {
                1int
            } else {
                0
            };
            &&& sent.body == request_body(model, request)
            &&& sent.endpoint == endpoint_of(model)
            &&& sent.headers.len() == 2 + n + key
            &&& sent.headers[0] == (HeaderView {
                name: "content-type"@,
                value: "application/json"@,
            })
            &&& sent.headers[1] == (HeaderView { name: "accept"@, value: "text/event-stream"@ })
            &&& forall|i: int|
                0 <= i < n ==> {
                    let header = sent.headers[2 + i];
                    &&& header.value == (#[trigger] model.headers[i]).value
                    &&& header.name.len() == model.headers[i].name.len()
                    &&& forall|k: int|
                        0 <= k < header.name.len() ==> is_sent_char(
                            #[trigger] header.name[k],
                            model.headers[i].name[k],
                        )
                }
            &&& key == 1 ==> sent.headers[2 + n].name == "authorization"@ && sent.headers[2
                + n].value == "Bearer "@ + model.api_key->0
        },
{
    lemma_first_header_error(model.headers);
    let n = model.headers.len() as int;
    assert forall|i: int| 0 <= i < n implies {
        let header = request_headers(model)[2 + i];
        &&& header.value == (#[trigger] model.headers[i]).value
        &&& header.name.len() == model.headers[i].name.len()
        &&& forall|k: int|
            0 <= k < header.name.len() ==> is_sent_char(
                #[trigger] header.name[k],
                model.headers[i].name[k],
            )
    } by {
        let header = request_headers(model)[2 + i];
        assert(header == crate::model::stream::sent_header(model.headers[i]));
    }
}

} // verus!
