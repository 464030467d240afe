//! The requests that are sent to a provider.

use crate::config::model::{ApiKind, ResolvedModel, ResolvedModelView};
use crate::json::{
    array, clone_members, lemma_object_of_concat, member, no_members, number_from_u64, object, object_of,
    put, Json, JsonMember, JsonValue,
};
use crate::model::message::{
    ModelAssistantItem, ModelAssistantItemView, ModelMessage, ModelMessageView, ModelRequest,
    ModelRequestView, ModelThinking, ModelThinkingView, ModelToolCall, ModelToolCallView,
    ToolDefinition, ToolDefinitionView,
};
use crate::text::{chars_of, concat, concat3, text_of_range};
use vstd::prelude::*;

verus! {

/// The members of a JSON object.
pub type Members = Map<Seq<char>, Json>;

/// A text, or null where there is none.
pub open spec fn text_or_null(text: Option<Seq<char>>) -> Json {
    match text {
        Some(text) => Json::Text(text),
        None => Json::Null,
    }
}

/// `s` without the slashes at its end.
pub open spec fn without_slashes(s: Seq<char>) -> Seq<char>
    decreases s.len(),
{
    if s.len() > 0 && s.last() == '/' {
        without_slashes(s.drop_last())
    } else {
        s
    }
}

/// Where the requests go.
pub open spec fn endpoint_of(model: ResolvedModelView) -> Seq<char> {
    without_slashes(model.base_url) + "/"@ + match model.api {
        ApiKind::OpenAiResponses => "responses"@,
        ApiKind::OpenAiCompletions => "chat/completions"@,
    }
}

/// The sampling parameters: those of the model, overridden by those of the request.
pub open spec fn sampling_of(model: ResolvedModelView, request: ModelRequestView) -> Members {
    model.sampling_params.union_prefer_right(request.sampling_params)
}

/// The role of a developer message: systems that do not know it see a system message.
pub open spec fn developer_role(model: ResolvedModelView) -> Seq<char> {
    if model.compatibility.supports_developer_role {
        "developer"@
    } else {
        "system"@
    }
}

/// A message of a role.
pub open spec fn role_message(role: Seq<char>, content: Seq<char>) -> Json {
    Json::Object(
        Members::empty().insert("role"@, Json::Text(role)).insert("content"@, Json::Text(content)),
    )
}

/// The most tokens that may be generated.
pub open spec fn token_limit(model: ResolvedModelView, request: ModelRequestView) -> Option<u64> {
    if request.max_tokens is Some {
        request.max_tokens
    } else {
        model.max_tokens
    }
}

/// The effort asked for, where the provider knows of it.
pub open spec fn effort_of(model: ResolvedModelView, request: ModelRequestView) -> Option<
    Seq<char>,
> {
    if model.compatibility.supports_reasoning_effort {
        request.reasoning_effort
    } else {
        None
    }
}

// ---- the responses protocol ----

/// A function call among the input items.
pub open spec fn responses_call(call: ModelToolCallView) -> Json {
    Json::Object(
        Members::empty().insert("type"@, Json::Text("function_call"@)).insert(
            "id"@,
            text_or_null(call.item_id),
        ).insert("call_id"@, text_or_null(call.call_id)).insert(
            "name"@,
            text_or_null(call.name),
        ).insert("arguments"@, Json::Text(call.arguments)),
    )
}

/// A part of a list: an object with its kind and one text.
pub open spec fn typed_part(kind: Seq<char>, name: Seq<char>, text: Seq<char>) -> Json {
    Json::Object(
        Members::empty().insert("type"@, Json::Text(kind)).insert(name, Json::Text(text)),
    )
}

/// A list of one part.
pub open spec fn one_part(kind: Seq<char>, name: Seq<char>, text: Seq<char>) -> Json {
    Json::Array(seq![typed_part(kind, name, text)])
}

/// Adds a member, where there is a value for it.
pub open spec fn with_member(members: Members, name: Seq<char>, value: Option<Json>) -> Members {
    match value {
        Some(value) => members.insert(name, value),
        None => members,
    }
}

/// A text as JSON, where there is one.
pub open spec fn some_text(text: Option<Seq<char>>) -> Option<Json> {
    match text {
        Some(text) => Some(Json::Text(text)),
        None => None,
    }
}

/// A reasoning item among the input items.
pub open spec fn responses_reasoning(thinking: ModelThinkingView) -> Json {
    let summary = if thinking.summary.len() == 0 {
        Json::Array(Seq::empty())
    } else {
        one_part("summary_text"@, "text"@, thinking.summary)
    };
    let content = if thinking.content.len() == 0 {
        None
    } else {
        Some(one_part("reasoning_text"@, "text"@, thinking.content))
    };
    let members = Members::empty().insert("type"@, Json::Text("reasoning"@));
    let members = with_member(members, "id"@, some_text(thinking.item_id));
    let members = members.insert("summary"@, summary);
    let members = with_member(members, "content"@, content);
    Json::Object(
        with_member(members, "encrypted_content"@, some_text(thinking.encrypted_content)),
    )
}

/// An item of the assistant among the input items.
pub open spec fn responses_item(item: ModelAssistantItemView) -> Json {
    match item {
        ModelAssistantItemView::Text { content } => role_message("assistant"@, content),
        ModelAssistantItemView::Reasoning(thinking) => responses_reasoning(thinking),
        ModelAssistantItemView::Refusal { content } => Json::Object(
            Members::empty().insert("role"@, Json::Text("assistant"@)).insert(
                "content"@,
                one_part("refusal"@, "refusal"@, content),
            ),
        ),
        ModelAssistantItemView::ToolCall(call) => responses_call(call),
    }
}

/// The input items of a message.
pub open spec fn responses_items(message: ModelMessageView, model: ResolvedModelView) -> Seq<Json> {
    match message {
        ModelMessageView::System { content } => seq![role_message("system"@, content)],
        ModelMessageView::Developer { content } => seq![
            role_message(developer_role(model), content),
        ],
        ModelMessageView::User { content } => seq![role_message("user"@, content)],
        ModelMessageView::Assistant { items } => items.map_values(
            |item: ModelAssistantItemView| responses_item(item),
        ),
        ModelMessageView::ToolResult { tool_call_id, content, .. } => seq![
            Json::Object(
                Members::empty().insert("type"@, Json::Text("function_call_output"@)).insert(
                    "call_id"@,
                    Json::Text(tool_call_id),
                ).insert("output"@, Json::Text(content)),
            ),
        ],
    }
}

/// The input items of all messages, in order.
pub open spec fn responses_input(messages: Seq<ModelMessageView>, model: ResolvedModelView) -> Seq<
    Json,
>
    decreases messages.len(),
{
    if messages.len() == 0 {
        Seq::empty()
    } else {
        responses_input(messages.drop_last(), model) + responses_items(messages.last(), model)
    }
}

/// A tool as it is offered.
pub open spec fn responses_tool_of(tool: ToolDefinitionView) -> Json {
    Json::Object(
        Members::empty().insert("type"@, Json::Text("function"@)).insert(
            "name"@,
            Json::Text(tool.name),
        ).insert("description"@, text_or_null(tool.description)).insert(
            "parameters"@,
            tool.parameters,
        ),
    )
}

/// The list of tools, where there are any.
pub open spec fn tool_list(tools: Seq<ToolDefinitionView>, responses: bool) -> Option<Json> {
    if tools.len() == 0 {
        None
    } else {
        Some(
            Json::Array(
                tools.map_values(
                    |tool: ToolDefinitionView|
                        if responses {
                            responses_tool_of(tool)
                        } else {
                            completions_tool_of(tool)
                        },
                ),
            ),
        )
    }
}

/// A number as JSON, where there is one.
pub open spec fn some_number(value: Option<u64>) -> Option<Json> {
    match value {
        Some(value) => Some(Json::Number(number_from_u64(value))),
        None => None,
    }
}

/// The request in the responses protocol.
pub open spec fn responses_request(model: ResolvedModelView, request: ModelRequestView) -> Json {
    let members = sampling_of(model, request);
    let members = members.insert("model"@, Json::Text(model.model_ref.model));
    let members = members.insert(
        "input"@,
        Json::Array(responses_input(request.messages, model)),
    );
    let members = members.insert("stream"@, Json::Bool(true));
    let members = with_member(
        members,
        "max_output_tokens"@,
        some_number(token_limit(model, request)),
    );
    let members = with_member(
        members,
        "reasoning"@,
        match effort_of(model, request) {
            Some(effort) => Some(
                Json::Object(Members::empty().insert("effort"@, Json::Text(effort))),
            ),
            None => None,
        },
    );
    Json::Object(with_member(members, "tools"@, tool_list(request.tools, true)))
}

// ---- the completions protocol ----

/// The texts of the assistant, joined.
pub open spec fn joined_texts(items: Seq<ModelAssistantItemView>, refusals: bool) -> Seq<char>
    decreases items.len(),
{
    if items.len() == 0 {
        Seq::empty()
    } else {
        joined_texts(items.drop_last(), refusals) + match items.last() {
            ModelAssistantItemView::Text { content } => if refusals {
                Seq::empty()
            } else {
                content
            },
            ModelAssistantItemView::Refusal { content } => if refusals {
                content
            } else {
                Seq::empty()
            },
            _ => Seq::empty(),
        }
    }
}

/// A call of a tool in an assistant message.
pub open spec fn completions_call(call: ModelToolCallView) -> Json {
    Json::Object(
        Members::empty().insert("id"@, text_or_null(call.call_id)).insert(
            "type"@,
            Json::Text("function"@),
        ).insert(
            "function"@,
            Json::Object(
                Members::empty().insert("name"@, text_or_null(call.name)).insert(
                    "arguments"@,
                    Json::Text(call.arguments),
                ),
            ),
        ),
    )
}

/// The calls of the assistant, in order.
pub open spec fn completions_calls(items: Seq<ModelAssistantItemView>) -> Seq<Json>
    decreases items.len(),
{
    if items.len() == 0 {
        Seq::empty()
    } else {
        let before = completions_calls(items.drop_last());
        match items.last() {
            ModelAssistantItemView::ToolCall(call) => before.push(completions_call(call)),
            _ => before,
        }
    }
}

/// An assistant message: what was said is null where there are only calls or refusals.
pub open spec fn completions_assistant(items: Seq<ModelAssistantItemView>) -> Json {
    let content = joined_texts(items, false);
    let refusals = joined_texts(items, true);
    let calls = completions_calls(items);
    let said = if content.len() == 0 && (calls.len() > 0 || refusals.len() > 0) {
        Json::Null
    } else {
        Json::Text(content)
    };
    let members = Members::empty().insert("role"@, Json::Text("assistant"@)).insert(
        "content"@,
        said,
    );
    let members = if refusals.len() > 0 {
        members.insert("refusal"@, Json::Text(refusals))
    } else {
        members
    };
    Json::Object(
        if calls.len() > 0 {
            members.insert("tool_calls"@, Json::Array(calls))
        } else {
            members
        },
    )
}

/// A message.
pub open spec fn completions_message_of(message: ModelMessageView, model: ResolvedModelView) ->
    Json {
    match message {
        ModelMessageView::System { content } => role_message("system"@, content),
        ModelMessageView::Developer { content } => role_message(developer_role(model), content),
        ModelMessageView::User { content } => role_message("user"@, content),
        ModelMessageView::Assistant { items } => completions_assistant(items),
        ModelMessageView::ToolResult { tool_call_id, content, .. } => Json::Object(
            Members::empty().insert("role"@, Json::Text("tool"@)).insert(
                "tool_call_id"@,
                Json::Text(tool_call_id),
            ).insert("content"@, Json::Text(content)),
        ),
    }
}

/// A tool as it is offered.
pub open spec fn completions_tool_of(tool: ToolDefinitionView) -> Json {
    Json::Object(
        Members::empty().insert("type"@, Json::Text("function"@)).insert(
            "function"@,
            Json::Object(
                Members::empty().insert("name"@, Json::Text(tool.name)).insert(
                    "description"@,
                    text_or_null(tool.description),
                ).insert("parameters"@, tool.parameters),
            ),
        ),
    )
}

/// The request in the completions protocol.
pub open spec fn completions_request(model: ResolvedModelView, request: ModelRequestView) -> Json {
    let members = sampling_of(model, request);
    let members = members.insert("model"@, Json::Text(model.model_ref.model));
    let members = members.insert(
        "messages"@,
        Json::Array(
            request.messages.map_values(
                |message: ModelMessageView| completions_message_of(message, model),
            ),
        ),
    );
    let members = members.insert("stream"@, Json::Bool(true));
    let members = members.insert(
        "stream_options"@,
        Json::Object(Members::empty().insert("include_usage"@, Json::Bool(true))),
    );
    let members = with_member(
        members,
        "max_tokens"@,
        some_number(token_limit(model, request)),
    );
    let members = with_member(
        members,
        "reasoning_effort"@,
        some_text(effort_of(model, request)),
    );
    Json::Object(with_member(members, "tools"@, tool_list(request.tools, false)))
}

/// The members that a request sets itself.
pub open spec fn is_own_member(name: Seq<char>) -> bool {
    name == "model"@ || name == "input"@ || name == "messages"@ || name == "stream"@ || name
        == "stream_options"@ || name == "max_output_tokens"@ || name == "max_tokens"@ || name
        == "reasoning"@ || name == "reasoning_effort"@ || name == "tools"@
}

/// Whatever the sampling parameters are, a request is for the selected model and asks for a
/// stream; a parameter that a request does not set itself goes along, and that of the request
/// goes before that of the model.
pub proof fn lemma_requests_are_for_the_selected_model(
    model: ResolvedModelView,
    request: ModelRequestView,
    name: Seq<char>,
)
    ensures
        member(request_body(model, request), "model"@) == Some(Json::Text(model.model_ref.model)),
        member(request_body(model, request), "stream"@) == Some(Json::Bool(true)),
        !is_own_member(name) ==> member(request_body(model, request), name) == (
        if request.sampling_params.contains_key(name) {
            Some(request.sampling_params[name])
        } else if model.sampling_params.contains_key(name) {
            Some(model.sampling_params[name])
        } else {
            None
        }),
{
    reveal_strlit("model");
    reveal_strlit("input");
    reveal_strlit("messages");
    reveal_strlit("stream");
    reveal_strlit("stream_options");
    reveal_strlit("max_output_tokens");
    reveal_strlit("max_tokens");
    reveal_strlit("reasoning");
    reveal_strlit("reasoning_effort");
    reveal_strlit("tools");
    assert("model"@.len() == 5 && "input"@.len() == 5 && "messages"@.len() == 8);
    assert("stream"@.len() == 6 && "stream_options"@.len() == 14 && "tools"@.len() == 5);
    assert("max_output_tokens"@.len() == 17 && "max_tokens"@.len() == 10);
    assert("reasoning"@.len() == 9 && "reasoning_effort"@.len() == 16);
    assert("model"@[0] == 'm' && "input"@[0] == 'i' && "tools"@[0] == 't');
}

/// The body of a request.
pub open spec fn request_body(model: ResolvedModelView, request: ModelRequestView) -> Json {
    match model.api {
        ApiKind::OpenAiResponses => responses_request(model, request),
        ApiKind::OpenAiCompletions => completions_request(model, request),
    }
}

// ---- building ----

fn text_or_null_value(text: &Option<String>) -> (res: JsonValue)
    ensures
        res.deep_view() == text_or_null(text.deep_view()),
{
    match text {
        Some(text) => JsonValue::string(text),
        None => JsonValue::Null,
    }
}

fn trim_slashes(s: &str) -> (res: String)
    ensures
        res@ == without_slashes(s@),
{
    let chars = chars_of(s);
    let mut end: usize = chars.len();
    assert(s@.take(end as int) =~= s@);
    while end > 0 && chars[end - 1] == '/'
        invariant
            end <= chars.len(),
            chars@ == s@,
            without_slashes(s@) == without_slashes(s@.take(end as int)),
        decreases end,
    {
        assert(s@.take(end as int).drop_last() =~= s@.take(end - 1));
        assert(s@.take(end as int).last() == chars@[end - 1]);
        end -= 1;
    }
    assert(end > 0 ==> s@.take(end as int).last() == chars@[end - 1]);
    let res = text_of_range(&chars, 0, end);
    assert(res@ =~= s@.take(end as int));
    res
}

fn build_role_message(role: &str, content: &str) -> (res: JsonValue)
    ensures
        res.deep_view() == role_message(role@, content@),
{
    let mut members = no_members();
    put(&mut members, "role", JsonValue::string(role));
    put(&mut members, "content", JsonValue::string(content));
    object(members)
}

/// The role under which instructions go to the model.
pub fn role_name(model: &ResolvedModel) -> (res: &'static str)
    ensures
        res@ == developer_role(model.deep_view()),
{
    if model.compatibility.supports_developer_role {
        "developer"
    } else {
        "system"
    }
}

/// The sampling parameters of a model, and over them those of a request.
pub fn sampling_body(model: &ResolvedModel, request: &ModelRequest) -> (res: Vec<JsonMember>)
    ensures
        object_of(res@) == sampling_of(model.deep_view(), request.deep_view()),
{
    let mut members = clone_members(&model.sampling_params);
    let mut more = clone_members(&request.sampling_params);
    proof {
        lemma_object_of_concat(members@, more@);
    }
    members.append(&mut more);
    members
}

fn single(value: JsonValue) -> (res: Vec<JsonValue>)
    ensures
        res.deep_view() == seq![value.deep_view()],
{
    let mut items: Vec<JsonValue> = Vec::new();
    items.push(value);
    assert(items.deep_view() =~= seq![value.deep_view()]);
    items
}

fn build_part(kind: &str, name: &str, text: &str) -> (res: JsonValue)
    ensures
        res.deep_view() == one_part(kind@, name@, text@),
{
    let mut members = no_members();
    put(&mut members, "type", JsonValue::string(kind));
    put(&mut members, name, JsonValue::string(text));
    array(single(object(members)))
}

/// The call of a tool, as the Responses API takes it.
pub fn responses_tool_call(call: &ModelToolCall) -> (res: JsonValue)
    ensures
        res.deep_view() == responses_call(call.deep_view()),
{
    let mut members = no_members();
    put(&mut members, "type", JsonValue::string("function_call"));
    put(&mut members, "id", text_or_null_value(&call.item_id));
    put(&mut members, "call_id", text_or_null_value(&call.call_id));
    put(&mut members, "name", text_or_null_value(&call.name));
    put(&mut members, "arguments", JsonValue::string(&call.arguments));
    object(members)
}

/// A piece of thinking, as the Responses API takes it.
pub fn responses_reasoning_item(thinking: &ModelThinking) -> (res: JsonValue)
    ensures
        res.deep_view() == responses_reasoning(thinking.deep_view()),
{
    let mut members = no_members();
    put(&mut members, "type", JsonValue::string("reasoning"));
    if let Some(item_id) = &thinking.item_id {
        put(&mut members, "id", JsonValue::string(item_id));
    }
    if thinking.summary.as_str().is_empty() {
        let none: Vec<JsonValue> = Vec::new();
        assert(none.deep_view() =~= Seq::<Json>::empty());
        put(&mut members, "summary", array(none));
    } else {
        put(&mut members, "summary", build_part("summary_text", "text", &thinking.summary));
    }
    if !thinking.content.as_str().is_empty() {
        put(&mut members, "content", build_part("reasoning_text", "text", &thinking.content));
    }
    if let Some(encrypted_content) = &thinking.encrypted_content {
        put(&mut members, "encrypted_content", JsonValue::string(encrypted_content));
    }
    object(members)
}

/// An item of a reply, as the Responses API takes it.
pub fn responses_assistant_item(item: &ModelAssistantItem) -> (res: JsonValue)
    ensures
        res.deep_view() == responses_item(item.deep_view()),
{
    match item {
        ModelAssistantItem::Text { content } => build_role_message("assistant", content),
        ModelAssistantItem::Reasoning(thinking) => responses_reasoning_item(thinking),
        ModelAssistantItem::Refusal { content } => {
            let mut members = no_members();
            put(&mut members, "role", JsonValue::string("assistant"));
            put(&mut members, "content", build_part("refusal", "refusal", content));
            object(members)
        },
        ModelAssistantItem::ToolCall(call) => responses_tool_call(call),
    }
}

/// The items of a message, as the Responses API takes them.
pub fn responses_message_items(message: &ModelMessage, model: &ResolvedModel) -> (res: Vec<JsonValue>)
    ensures
        res.deep_view() == responses_items(message.deep_view(), model.deep_view()),
{
    match message {
        ModelMessage::System { content } => single(build_role_message("system", content)),
        ModelMessage::Developer { content } => single(
            build_role_message(role_name(model), content),
        ),
        ModelMessage::User { content } => single(build_role_message("user", content)),
        ModelMessage::Assistant { items } => {
            let ghost wanted = responses_items(message.deep_view(), model.deep_view());
            let mut values: Vec<JsonValue> = Vec::new();
            let mut i: usize = 0;
            while i < items.len()
                invariant
                    i <= items.len(),
                    wanted.len() == items.len(),
                    forall|j: int|
                        0 <= j < items.len() ==> #[trigger] wanted[j] == responses_item(
                            items@[j].deep_view(),
                        ),
                    values.deep_view() == wanted.take(i as int),
                decreases items.len() - i,
            {
                let ghost before = values.deep_view();
                values.push(responses_assistant_item(&items[i]));
                proof {
                    assert(values.deep_view() =~= before.push(wanted[i as int]));
                    assert(values.deep_view() =~= wanted.take(i + 1));
                }
                i += 1;
            }
            assert(wanted.take(i as int) =~= wanted);
            values
        },
        ModelMessage::ToolResult { tool_call_id, content, .. } => {
            let mut members = no_members();
            put(&mut members, "type", JsonValue::string("function_call_output"));
            put(&mut members, "call_id", JsonValue::string(tool_call_id));
            put(&mut members, "output", JsonValue::string(content));
            single(object(members))
        },
    }
}

/// A tool, as the Responses API takes it.
pub fn responses_tool(tool: &ToolDefinition) -> (res: JsonValue)
    ensures
        res.deep_view() == responses_tool_of(tool.deep_view()),
{
    let mut members = no_members();
    put(&mut members, "type", JsonValue::string("function"));
    put(&mut members, "name", JsonValue::string(&tool.name));
    put(&mut members, "description", text_or_null_value(&tool.description));
    put(&mut members, "parameters", tool.parameters.clone());
    object(members)
}

/// A tool, as the Chat Completions API takes it.
pub fn completions_tool(tool: &ToolDefinition) -> (res: JsonValue)
    ensures
        res.deep_view() == completions_tool_of(tool.deep_view()),
{
    let mut function = no_members();
    put(&mut function, "name", JsonValue::string(&tool.name));
    put(&mut function, "description", text_or_null_value(&tool.description));
    put(&mut function, "parameters", tool.parameters.clone());
    let mut members = no_members();
    put(&mut members, "type", JsonValue::string("function"));
    put(&mut members, "function", object(function));
    object(members)
}

fn put_tools(members: &mut Vec<JsonMember>, tools: &Vec<ToolDefinition>, responses: bool)
    ensures
        object_of(final(members)@) == with_member(
            object_of(old(members)@),
            "tools"@,
            tool_list(tools.deep_view(), responses),
        ),
{
    if tools.len() > 0 {
        let ghost wanted = tool_list(tools.deep_view(), responses)->0->Array_0;
        let mut values: Vec<JsonValue> = Vec::new();
        let mut i: usize = 0;
        while i < tools.len()
            invariant
                i <= tools.len(),
                wanted.len() == tools.len(),
                forall|j: int|
                    0 <= j < tools.len() ==> #[trigger] wanted[j] == (if responses {
                        responses_tool_of(tools@[j].deep_view())
                    } else {
                        completions_tool_of(tools@[j].deep_view())
                    }),
                values.deep_view() == wanted.take(i as int),
            decreases tools.len() - i,
        {
            let ghost before = values.deep_view();
            if responses {
                values.push(responses_tool(&tools[i]));
            } else {
                values.push(completions_tool(&tools[i]));
            }
            proof {
                assert(values.deep_view() =~= before.push(wanted[i as int]));
                assert(values.deep_view() =~= wanted.take(i + 1));
            }
            i += 1;
        }
        assert(wanted.take(i as int) =~= wanted);
        put(members, "tools", array(values));
    }
}

fn max_tokens_of(model: &ResolvedModel, request: &ModelRequest) -> (res: Option<u64>)
    ensures
        res == token_limit(model.deep_view(), request.deep_view()),
{
    if request.max_tokens.is_some() {
        request.max_tokens
    } else {
        model.max_tokens
    }
}

/// The body of a request in the responses protocol.
pub fn responses_body(model: &ResolvedModel, request: &ModelRequest) -> (res: JsonValue)
    ensures
        res.deep_view() == responses_request(model.deep_view(), request.deep_view()),
{
    let mut members = sampling_body(model, request);
    put(&mut members, "model", JsonValue::string(&model.model_ref.model));
    let ghost all = request.messages.deep_view();
    let mut input: Vec<JsonValue> = Vec::new();
    let mut i: usize = 0;
    assert(all.take(0) =~= Seq::<ModelMessageView>::empty());
    assert(input.deep_view() =~= Seq::<Json>::empty());
    while i < request.messages.len()
        invariant
            i <= request.messages.len(),
            all == request.messages.deep_view(),
            input.deep_view() == responses_input(all.take(i as int), model.deep_view()),
        decreases request.messages.len() - i,
    {
        let ghost before = input.deep_view();
        let mut items = responses_message_items(&request.messages[i], model);
        let ghost more = items.deep_view();
        input.append(&mut items);
        proof {
            assert(input.deep_view() =~= before + more);
            assert(all.take(i + 1).drop_last() =~= all.take(i as int));
            assert(all.take(i + 1).last() == request.messages@[i as int].deep_view());
        }
        i += 1;
    }
    assert(all.take(i as int) =~= all);
    put(&mut members, "input", array(input));
    put(&mut members, "stream", JsonValue::Bool(true));
    if let Some(max_tokens) = max_tokens_of(model, request) {
        put(&mut members, "max_output_tokens", JsonValue::from_u64(max_tokens));
    }
    if let Some(effort) = &request.reasoning_effort {
        if model.compatibility.supports_reasoning_effort {
            let mut reasoning = no_members();
            put(&mut reasoning, "effort", JsonValue::string(effort));
            put(&mut members, "reasoning", object(reasoning));
        }
    }
    put_tools(&mut members, &request.tools, true);
    object(members)
}

/// The call of a tool, as the Chat Completions API takes it.
pub fn completions_tool_call(call: &ModelToolCall) -> (res: JsonValue)
    ensures
        res.deep_view() == completions_call(call.deep_view()),
{
    let mut function = no_members();
    put(&mut function, "name", text_or_null_value(&call.name));
    put(&mut function, "arguments", JsonValue::string(&call.arguments));
    let mut members = no_members();
    put(&mut members, "id", text_or_null_value(&call.call_id));
    put(&mut members, "type", JsonValue::string("function"));
    put(&mut members, "function", object(function));
    object(members)
}

fn completions_assistant_message(items: &Vec<ModelAssistantItem>) -> (res: JsonValue)
    ensures
        res.deep_view() == completions_assistant(items.deep_view()),
{
    let ghost all = items.deep_view();
    let mut content = String::new();
    let mut refusals = String::new();
    let mut calls: Vec<JsonValue> = Vec::new();
    let mut i: usize = 0;
    assert(all.take(0) =~= Seq::<ModelAssistantItemView>::empty());
    assert(calls.deep_view() =~= Seq::<Json>::empty());
    assert(content@ =~= Seq::<char>::empty());
    while i < items.len()
        invariant
            i <= items.len(),
            all == items.deep_view(),
            content@ == joined_texts(all.take(i as int), false),
            refusals@ == joined_texts(all.take(i as int), true),
            calls.deep_view() == completions_calls(all.take(i as int)),
        decreases items.len() - i,
    {
        let ghost before = calls.deep_view();
        proof {
            assert(all.take(i + 1).drop_last() =~= all.take(i as int));
            assert(all.take(i + 1).last() == items@[i as int].deep_view());
        }
        let ghost content_before = content@;
        let ghost refusals_before = refusals@;
        match &items[i] {
            ModelAssistantItem::Text { content: text } => {
                content = concat(&content, text);
            },
            ModelAssistantItem::Refusal { content: text } => {
                refusals = concat(&refusals, text);
            },
            ModelAssistantItem::ToolCall(call) => {
                calls.push(completions_tool_call(call));
                assert(calls.deep_view() =~= before.push(completions_call(call.deep_view())));
            },
            ModelAssistantItem::Reasoning(_) => {},
        }
        proof {
            assert(content_before + Seq::<char>::empty() =~= content_before);
            assert(refusals_before + Seq::<char>::empty() =~= refusals_before);
        }
        i += 1;
    }
    assert(all.take(i as int) =~= all);
    let has_calls = calls.len() > 0;
    let has_refusals = !refusals.as_str().is_empty();
    let mut members = no_members();
    put(&mut members, "role", JsonValue::string("assistant"));
    if content.as_str().is_empty() && (has_calls || has_refusals) {
        put(&mut members, "content", JsonValue::Null);
    } else {
        put(&mut members, "content", JsonValue::string(&content));
    }
    if has_refusals {
        put(&mut members, "refusal", JsonValue::string(&refusals));
    }
    if has_calls {
        put(&mut members, "tool_calls", array(calls));
    }
    object(members)
}

/// A message in the completions protocol.
pub fn completions_message(message: &ModelMessage, model: &ResolvedModel) -> (res: JsonValue)
    ensures
        res.deep_view() == completions_message_of(message.deep_view(), model.deep_view()),
{
    match message {
        ModelMessage::System { content } => build_role_message("system", content),
        ModelMessage::Developer { content } => build_role_message(role_name(model), content),
        ModelMessage::User { content } => build_role_message("user", content),
        ModelMessage::Assistant { items } => completions_assistant_message(items),
        ModelMessage::ToolResult { tool_call_id, content, .. } => {
            let mut members = no_members();
            put(&mut members, "role", JsonValue::string("tool"));
            put(&mut members, "tool_call_id", JsonValue::string(tool_call_id));
            put(&mut members, "content", JsonValue::string(content));
            object(members)
        },
    }
}

/// The body of a request in the completions protocol.
pub fn completions_body(model: &ResolvedModel, request: &ModelRequest) -> (res: JsonValue)
    ensures
        res.deep_view() == completions_request(model.deep_view(), request.deep_view()),
{
    let mut members = sampling_body(model, request);
    put(&mut members, "model", JsonValue::string(&model.model_ref.model));
    let ghost wanted = request.messages.deep_view().map_values(
        |message: ModelMessageView| completions_message_of(message, model.deep_view()),
    );
    let mut messages: Vec<JsonValue> = Vec::new();
    let mut i: usize = 0;
    while i < request.messages.len()
        invariant
            i <= request.messages.len(),
            wanted.len() == request.messages.len(),
            forall|j: int|
                0 <= j < request.messages.len() ==> #[trigger] wanted[j] == completions_message_of(
                    request.messages@[j].deep_view(),
                    model.deep_view(),
                ),
            messages.deep_view() == wanted.take(i as int),
        decreases request.messages.len() - i,
    {
        let ghost before = messages.deep_view();
        messages.push(completions_message(&request.messages[i], model));
        proof {
            assert(messages.deep_view() =~= before.push(wanted[i as int]));
            assert(messages.deep_view() =~= wanted.take(i + 1));
        }
        i += 1;
    }
    assert(wanted.take(i as int) =~= wanted);
    put(&mut members, "messages", array(messages));
    put(&mut members, "stream", JsonValue::Bool(true));
    let mut options = no_members();
    put(&mut options, "include_usage", JsonValue::Bool(true));
    put(&mut members, "stream_options", object(options));
    if let Some(max_tokens) = max_tokens_of(model, request) {
        put(&mut members, "max_tokens", JsonValue::from_u64(max_tokens));
    }
    if let Some(effort) = &request.reasoning_effort {
        if model.compatibility.supports_reasoning_effort {
            put(&mut members, "reasoning_effort", JsonValue::string(effort));
        }
    }
    put_tools(&mut members, &request.tools, false);
    object(members)
}

/// Where a request goes, and its body.
pub fn request_for(model: &ResolvedModel, request: &ModelRequest) -> (res: (String, JsonValue))
    ensures
        res.0@ == endpoint_of(model.deep_view()),
        res.1.deep_view() == request_body(model.deep_view(), request.deep_view()),
{
    let base = trim_slashes(&model.base_url);
    match model.api {
        ApiKind::OpenAiResponses => (
            concat3(&base, "/", "responses"),
            responses_body(model, request),
        ),
        ApiKind::OpenAiCompletions => (
            concat3(&base, "/", "chat/completions"),
            completions_body(model, request),
        ),
    }
}

} // verus!
