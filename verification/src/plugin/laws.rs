//! What is exchanged with plugins, and what becomes of what they answer.

use crate::json::{json_parsed, json_text, member, number_from_u64, string_member, u64_of, Json};
use crate::model::message::ToolDefinitionView;
use crate::plugin::host::{
    activated, failures_of, PluginActivationErrorView, PluginHostView, ToolsOutcomeView,
};
use crate::plugin::installed::{
    installed, manifest_path, resolved_from, selected_before, InstalledPluginErrorView,
    ManifestReadView, ResolutionView,
};
use crate::plugin::manifest::{
    is_plugin_id, manifest_error, LoadedPluginManifestView, PluginManifestErrorView,
    PluginManifestView,
};
use crate::plugin::process::{
    after_message, captured, checked_initialize, failed, opened, process_error_text, program_path,
    read_initialize, routed, settled, shown, shutdown_step, CaptureView, DispatchView,
    PluginProcessErrorView, ReceivedView, ShutdownActionView, ShutdownEvent,
};
use crate::plugin::protocol::{
    call_json, call_of, call_result_json, call_result_of, encoded_request, error_object_of,
    identity_of, initialize_json, initialize_result_of, line_message, message_json, message_of,
    number_as_i64, number_from_i64, request_line, tool_json, tool_of, tools_list_of, tools_of,
    InitializeParamsView, InitializeResultView, PluginCapabilitiesView, PluginIdentityView,
    PluginMessageView, PluginToolDefinitionView, ProtocolErrorView, RpcErrorObjectView,
    RpcNotificationView, RpcResponseView, ToolCallParamsView, ToolCallResultView,
};
use crate::plugin::tools::{
    definitions_of, first_taken, is_tool_name, listed_tools, ExternalToolErrorView,
};
use crate::text::{decimal_text, is_blank_text, utf8_len};
use crate::tools::has_tool;
use vstd::prelude::*;

verus! {

/// A request to a plugin is one line of JSON that names the version of JSON-RPC, the request, the
/// method and the parameters.
pub proof fn lemma_requests_say_what_they_ask(id: u64, method: Seq<char>, params: Json)
    ensures
        ({
            let line = request_line(id, method, params);
            let version = "{\"jsonrpc\":"@ + json_text(Json::Text("2.0"@));
            let number = ",\"id\":"@ + decimal_text(id as nat);
            let asked = ",\"method\":"@ + json_text(Json::Text(method));
            let with = ",\"params\":"@ + json_text(params) + "}"@;
            &&& line == version + number + asked + with
            &&& utf8_len(line) <= 1_048_576 ==> encoded_request(line) == Ok::<
                Seq<char>,
                ProtocolErrorView,
            >(line)
            &&& utf8_len(line) > 1_048_576 ==> encoded_request(line) == Err::<
                Seq<char>,
                ProtocolErrorView,
            >(ProtocolErrorView::FrameTooLarge)
        }),
{
    let line = request_line(id, method, params);
    let version = "{\"jsonrpc\":"@ + json_text(Json::Text("2.0"@));
    let number = ",\"id\":"@ + decimal_text(id as nat);
    let asked = ",\"method\":"@ + json_text(Json::Text(method));
    let with = ",\"params\":"@ + json_text(params) + "}"@;
    assert(line =~= version + (number + (asked + with)));
    assert(version + (number + (asked + with)) =~= version + number + asked + with);
}

/// A response is read with its number and its result, or with its error.
pub proof fn lemma_responses_are_read(json: Json, id: u64, result: Json, code: i64)
    requires
        json is Object,
        member(json, "jsonrpc"@) == Some(Json::Text("2.0"@)),
        u64_of(member(json, "id"@)) == Some(id),
        member(json, "method"@) is None,
    ensures
        member(json, "result"@) == Some(result) && member(json, "error"@) is None ==> message_of(
            json,
        ) == Ok::<PluginMessageView, ProtocolErrorView>(
            PluginMessageView::Response(
                RpcResponseView { jsonrpc: "2.0"@, id, result: Some(result), error: None },
            ),
        ),
        member(json, "result"@) is Some && member(json, "error"@) is Some ==> message_of(json)
            is Err,
        member(json, "result"@) is None && member(json, "error"@) is None ==> message_of(json)
            is Err,
        member(json, "result"@) is None ==> (member(json, "error"@) matches Some(error) ==> error
            is Object ==> (member(error, "code"@) matches Some(Json::Number(number))
            && number_as_i64(number) == Some(code)) ==> (string_member(error, "message"@) matches
            Some(message) ==> (message_of(json) matches Ok(PluginMessageView::Response(response))
            && response.id == id && response.result is None && (response.error matches Some(told)
            && told.code == code && told.message == message && (member(error, "data"@) is None
            ==> told.data is None) && (member(error, "data"@) matches Some(data) ==> data
            != Json::Null ==> told.data == Some(data)))))),
{
}

/// A message without a number is a notification, read with its method and its parameters; what
/// does not say that it is JSON-RPC is refused.
pub proof fn lemma_notifications_are_read(json: Json, method: Seq<char>)
    ensures
        !(json is Object) ==> message_of(json) is Err,
        json is Object && member(json, "jsonrpc"@) != Some(Json::Text("2.0"@)) ==> message_of(json)
            is Err,
        json is Object && member(json, "jsonrpc"@) == Some(Json::Text("2.0"@)) && member(
            json,
            "id"@,
        ) is None && string_member(json, "method"@) == Some(method) && (forall|name: Seq<char>| #[
        trigger] json->Object_0.contains_key(name) ==> name == "jsonrpc"@ || name == "method"@
            || name == "params"@) ==> (message_of(json) matches Ok(
            PluginMessageView::Notification(told),
        ) && told.method == method && (member(json, "params"@) matches Some(params) ==> told.params
            == params) && (member(json, "params"@) is None ==> told.params == Json::Null)),
        json is Object && member(json, "id"@) is None && string_member(json, "method"@) is None
            ==> message_of(json) is Err,
        json is Object && member(json, "id"@) is None && (exists|name: Seq<char>| #[trigger]
            json->Object_0.contains_key(name) && name != "jsonrpc"@ && name != "method"@ && name
                != "params"@) ==> message_of(json) is Err,
{
}

/// A line is read as the JSON it holds, unless it is too long.
pub proof fn lemma_lines_are_read(line: Seq<char>, json: Json)
    ensures
        utf8_len(line) > 1_048_576 ==> line_message(line) == Err::<
            PluginMessageView,
            ProtocolErrorView,
        >(ProtocolErrorView::FrameTooLarge),
        utf8_len(line) <= 1_048_576 && json_parsed(line) == Ok::<Json, Seq<char>>(json)
            ==> line_message(line) == message_of(json),
        utf8_len(line) <= 1_048_576 ==> (json_parsed(line) matches Err(message) ==> line_message(
            line,
        ) == Err::<PluginMessageView, ProtocolErrorView>(ProtocolErrorView::Json(message))),
{
}

/// A call names the tool and hands its arguments over.
pub proof fn lemma_calls_name_the_tool(params: ToolCallParamsView)
    ensures
        string_member(call_json(params), "name"@) == Some(params.name),
        member(call_json(params), "arguments"@) == Some(params.arguments),
{
    reveal_strlit("name");
    reveal_strlit("arguments");
    assert("name"@.len() != "arguments"@.len());
}

/// The result of a call is its content, and whether it is an error, which it is only where the
/// plugin says so.
pub proof fn lemma_results_of_calls_are_read(json: Json, content: Seq<char>)
    requires
        json is Object,
    ensures
        string_member(json, "content"@) == Some(content) && member(json, "isError"@) is None ==> (
        call_result_of(json) matches Some(result) && result.content == content && !result.is_error),
        string_member(json, "content"@) == Some(content) ==> (member(json, "isError"@) matches
            Some(Json::Bool(is_error)) ==> call_result_of(json) matches Some(result)
            && result.content == content && result.is_error == is_error),
        string_member(json, "content"@) is None ==> call_result_of(json) is None,
{
}

/// A tool of a plugin is written under the names under which it is read, and so is the result of a
/// call.
pub proof fn lemma_tools_are_written_under_their_names(
    tool: PluginToolDefinitionView,
    result: ToolCallResultView,
)
    ensures
        string_member(tool_json(tool), "name"@) == Some(tool.name),
        member(tool_json(tool), "inputSchema"@) == Some(tool.input_schema),
        tool.description matches Some(text) ==> string_member(tool_json(tool), "description"@)
            == Some(text),
        tool.description is None ==> member(tool_json(tool), "description"@) == Some(Json::Null),
        string_member(call_result_json(result), "content"@) == Some(result.content),
        member(call_result_json(result), "isError"@) == Some(Json::Bool(result.is_error)),
{
    reveal_strlit("name");
    reveal_strlit("description");
    reveal_strlit("inputSchema");
    reveal_strlit("content");
    reveal_strlit("isError");
    assert("name"@.len() == 4 && "description"@.len() == 11 && "inputSchema"@.len() == 11);
    assert("description"@[0] == 'd' && "inputSchema"@[0] == 'i');
    assert("content"@[0] == 'c' && "isError"@[0] == 'i');
}

/// A message is written under the names of JSON-RPC: a response with its number and its result or
/// its error, a notification with its method and its parameters.
pub proof fn lemma_messages_are_written_under_their_names(
    response: RpcResponseView,
    notification: RpcNotificationView,
)
    ensures
        ({
            let json = message_json(PluginMessageView::Response(response));
            &&& string_member(json, "jsonrpc"@) == Some(response.jsonrpc)
            &&& member(json, "id"@) == Some(Json::Number(number_from_u64(response.id)))
            &&& member(json, "result"@) == response.result
            &&& response.error is None ==> member(json, "error"@) is None
            &&& response.error matches Some(error) ==> (member(json, "error"@) matches Some(told)
                && member(told, "code"@) == Some(Json::Number(number_from_i64(error.code)))
                && string_member(told, "message"@) == Some(error.message) && member(told, "data"@)
                == error.data)
        }),
        ({
            let json = message_json(PluginMessageView::Notification(notification));
            &&& string_member(json, "jsonrpc"@) == Some(notification.jsonrpc)
            &&& string_member(json, "method"@) == Some(notification.method)
            &&& member(json, "params"@) == Some(notification.params)
            &&& member(json, "id"@) is None
        }),
{
    reveal_strlit("jsonrpc");
    reveal_strlit("id");
    reveal_strlit("result");
    reveal_strlit("error");
    reveal_strlit("method");
    reveal_strlit("params");
    reveal_strlit("code");
    reveal_strlit("message");
    reveal_strlit("data");
    assert("jsonrpc"@.len() == 7 && "id"@.len() == 2 && "result"@.len() == 6 && "error"@.len() == 5);
    assert("method"@.len() == 6 && "params"@.len() == 6);
    assert("result"@[0] == 'r' && "method"@[0] == 'm' && "params"@[0] == 'p');
    assert("code"@.len() == 4 && "message"@.len() == 7 && "data"@.len() == 4);
    assert("code"@[0] == 'c' && "data"@[0] == 'd');
}

/// An error that a plugin tells has a number and a message; without either it is none.
pub proof fn lemma_errors_have_a_number_and_a_message(json: Json)
    requires
        json is Object,
    ensures
        error_object_of(json) is Some <==> (member(json, "code"@) is Some && member(
            json,
            "code"@,
        )->0 is Number && number_as_i64(member(json, "code"@)->0->Number_0) is Some)
            && string_member(json, "message"@) is Some,
        error_object_of(json) matches Some(error) ==> string_member(json, "message"@) == Some(
            error.message,
        ) && number_as_i64(member(json, "code"@)->0->Number_0) == Some(error.code),
{
}

/// What is exchanged with a plugin may also be written as a list, with the same parts in order.
pub proof fn lemma_lists_are_read_in_order(
    name: Seq<char>,
    text: Seq<char>,
    third: Seq<char>,
    value: Json,
    is_error: bool,
)
    ensures
        call_of(Json::Array(seq![Json::Text(name), value])) == Some(
            ToolCallParamsView { name, arguments: value },
        ),
        call_result_of(Json::Array(seq![Json::Text(text), Json::Bool(is_error)])) == Some(
            ToolCallResultView { content: text, is_error },
        ),
        call_result_of(Json::Array(seq![Json::Text(text)])) == Some(
            ToolCallResultView { content: text, is_error: false },
        ),
        tool_of(Json::Array(seq![Json::Text(name), Json::Text(text), value])) == Some(
            PluginToolDefinitionView { name, description: Some(text), input_schema: value },
        ),
        identity_of(
            Json::Array(seq![Json::Text(name), Json::Text(text), Json::Text(third)]),
        ) == Some(PluginIdentityView { id: name, name: text, version: third }),
{
}

/// A plugin is told the version of the protocol and who speaks to it.
pub proof fn lemma_plugins_are_told_who_speaks(params: InitializeParamsView)
    ensures
        string_member(initialize_json(params), "protocolVersion"@) == Some(
            params.protocol_version,
        ),
        member(initialize_json(params), "host"@) matches Some(host) && string_member(
            host,
            "name"@,
        ) == Some(params.host.name) && string_member(host, "version"@) == Some(params.host.version),
{
    reveal_strlit("protocolVersion");
    reveal_strlit("host");
    reveal_strlit("name");
    reveal_strlit("version");
    assert("protocolVersion"@.len() != "host"@.len());
    assert("name"@.len() != "version"@.len());
}

/// What a plugin says of itself is read as it says it.
pub proof fn lemma_plugins_say_who_they_are(json: Json, plugin: Json, capabilities: Json)
    requires
        json is Object,
        plugin is Object,
        capabilities is Object,
        member(json, "plugin"@) == Some(plugin),
        member(json, "capabilities"@) == Some(capabilities),
    ensures
        initialize_result_of(json) matches Some(told) ==> {
            &&& string_member(json, "protocolVersion"@) == Some(told.protocol_version)
            &&& string_member(plugin, "id"@) == Some(told.plugin.id)
            &&& string_member(plugin, "name"@) == Some(told.plugin.name)
            &&& string_member(plugin, "version"@) == Some(told.plugin.version)
            &&& told.capabilities.tools <==> member(capabilities, "tools"@) == Some(
                Json::Bool(true),
            )
        },
        string_member(json, "protocolVersion"@) is Some && string_member(plugin, "id"@) is Some
            && string_member(plugin, "name"@) is Some && string_member(plugin, "version"@) is Some
            && (member(capabilities, "tools"@) is None || member(
            capabilities,
            "tools"@,
        )->0 is Bool) ==> initialize_result_of(json) is Some,
{
}

/// A plugin is taken only where it speaks this version of the protocol and is who its manifest
/// says; it then has the capabilities that it told of.
pub proof fn lemma_only_the_named_plugin_is_taken(
    manifest: PluginManifestView,
    told: InitializeResultView,
)
    ensures
        checked_initialize(manifest, told) is Ok <==> told.protocol_version == "ri.plugin.v1"@
            && told.plugin.id == manifest.id && told.plugin.name == manifest.name
            && told.plugin.version == manifest.version,
        checked_initialize(manifest, told) matches Ok(capabilities) ==> capabilities
            == told.capabilities,
        told.protocol_version != "ri.plugin.v1"@ ==> checked_initialize(manifest, told) == Err::<
            PluginCapabilitiesView,
            PluginProcessErrorView,
        >(PluginProcessErrorView::ProtocolMismatch(told.protocol_version)),
        checked_initialize(manifest, told) matches Err(
            PluginProcessErrorView::IdentityMismatch { field, expected, actual },
        ) ==> expected != actual && ((field == "id"@ && expected == manifest.id && actual
            == told.plugin.id) || (field == "name"@ && expected == manifest.name && actual
            == told.plugin.name) || (field == "version"@ && expected == manifest.version && actual
            == told.plugin.version)),
{
}

/// A tool of a plugin is read with its name, its description and its schema.
pub proof fn lemma_tools_of_plugins_are_read(json: Json)
    requires
        json is Object,
    ensures
        tool_of(json) matches Some(tool) ==> {
            &&& string_member(json, "name"@) == Some(tool.name)
            &&& member(json, "inputSchema"@) == Some(tool.input_schema)
            &&& tool.description is Some ==> string_member(json, "description"@)
                == tool.description
            &&& tool.description is None ==> member(json, "description"@) is None || member(
                json,
                "description"@,
            ) == Some(Json::Null)
        },
        tool_of(json) is Some <==> string_member(json, "name"@) is Some && member(
            json,
            "inputSchema"@,
        ) is Some && (member(json, "description"@) is None || member(json, "description"@) == Some(
            Json::Null,
        ) || string_member(json, "description"@) is Some),
{
}

/// The tools of a plugin are read from its list, all of them, in order.
pub proof fn lemma_lists_of_tools_are_read(json: Json, items: Seq<Json>, i: int)
    requires
        json is Object,
        member(json, "tools"@) == Some(Json::Array(items)),
    ensures
        tools_list_of(json) matches Some(list) ==> list.tools.len() == items.len() && (0 <= i
            < items.len() ==> tool_of(items[i]) == Some(list.tools[i])),
        (forall|k: int| 0 <= k < items.len() ==> tool_of(#[trigger] items[k]) is Some)
            ==> tools_list_of(json) is Some,
{
    lemma_each_tool(items, i);
}

proof fn lemma_each_tool(items: Seq<Json>, i: int)
    ensures
        tools_of(items) matches Some(tools) ==> tools.len() == items.len() && (0 <= i < items.len()
            ==> tool_of(items[i]) == Some(tools[i])),
        (forall|k: int| 0 <= k < items.len() ==> tool_of(#[trigger] items[k]) is Some)
            ==> tools_of(items) is Some,
    decreases items.len(),
{
    if items.len() > 0 {
        let rest = items.drop_last();
        lemma_each_tool(rest, i);
        if forall|k: int| 0 <= k < items.len() ==> tool_of(#[trigger] items[k]) is Some {
            assert forall|k: int| 0 <= k < rest.len() implies tool_of(#[trigger] rest[k])
                is Some by {
                assert(tool_of(items[k]) is Some);
            }
            assert(tool_of(items[items.len() - 1]) is Some);
        }
    }
}

/// Whether a plugin may offer the tool: its name is short and plain, it has a description that
/// says something or none, and its schema is an object.
pub open spec fn may_be_offered(tool: PluginToolDefinitionView) -> bool {
    &&& is_tool_name(tool.name)
    &&& tool.description matches Some(text) ==> !is_blank_text(text) && utf8_len(text) <= 16_384
    &&& tool.input_schema is Object
}

/// The tools of a plugin are offered to the model as they are, where all may be offered, no two
/// have one name and there are not too many; otherwise none is.
pub proof fn lemma_tools_are_offered_as_they_are(
    plugin_id: Seq<char>,
    tools: Seq<PluginToolDefinitionView>,
    i: int,
)
    ensures
        definitions_of(plugin_id, tools) is Ok <==> tools.len() <= 128 && (forall|k: int|
            0 <= k < tools.len() ==> may_be_offered(#[trigger] tools[k])) && (forall|j: int, k: int|
            0 <= j < k < tools.len() ==> tools[j].name != tools[k].name),
        definitions_of(plugin_id, tools) matches Ok(definitions) ==> definitions.len()
            == tools.len() && (0 <= i < tools.len() ==> definitions[i].name == tools[i].name
            && definitions[i].description == tools[i].description && definitions[i].parameters
            == tools[i].input_schema),
        definitions_of(plugin_id, tools) matches Err(
            ExternalToolErrorView::InvalidDefinition { plugin_id: told, .. },
        ) ==> told == plugin_id,
        tools.len() > 128 ==> definitions_of(plugin_id, tools) == Err::<
            Seq<ToolDefinitionView>,
            ExternalToolErrorView,
        >(
            ExternalToolErrorView::TooManyTools {
                plugin_id,
                count: tools.len() as usize,
                max: 128,
            },
        ),
{
    lemma_no_error(plugin_id, tools);
}

proof fn lemma_no_error(plugin_id: Seq<char>, tools: Seq<PluginToolDefinitionView>)
    ensures
        crate::plugin::tools::tools_error(plugin_id, tools) is None <==> (forall|k: int|
            0 <= k < tools.len() ==> may_be_offered(#[trigger] tools[k])) && (forall|j: int, k: int|
            0 <= j < k < tools.len() ==> tools[j].name != tools[k].name),
        crate::plugin::tools::tools_error(plugin_id, tools) matches Some(
            ExternalToolErrorView::InvalidDefinition { plugin_id: told, .. },
        ) ==> told == plugin_id,
    decreases tools.len(),
{
    if tools.len() > 0 {
        let rest = tools.drop_last();
        let last = tools.len() - 1;
        lemma_no_error(plugin_id, rest);
        assert forall|k: int| 0 <= k < rest.len() implies rest[k] == tools[k] by {}
        let all = forall|k: int| 0 <= k < tools.len() ==> may_be_offered(#[trigger] tools[k]);
        let apart = forall|j: int, k: int|
            0 <= j < k < tools.len() ==> tools[j].name != tools[k].name;
        if all && apart {
            assert forall|k: int| 0 <= k < rest.len() implies may_be_offered(
                #[trigger] rest[k],
            ) by {
                assert(may_be_offered(tools[k]));
            }
            assert forall|j: int, k: int| 0 <= j < k < rest.len() implies rest[j].name
                != rest[k].name by {
                assert(tools[j].name != tools[k].name);
            }
            assert(may_be_offered(tools[last]));
            if crate::plugin::tools::has_definition(rest, tools.last().name) {
                let i: int = choose|i: int|
                    0 <= i < rest.len() && (#[trigger] rest[i]).name == tools.last().name;
                assert(tools[i].name == tools[last].name);
            }
        }
        if crate::plugin::tools::tools_error(plugin_id, tools) is None {
            assert forall|k: int| 0 <= k < tools.len() implies may_be_offered(
                #[trigger] tools[k],
            ) by {
                if k < rest.len() {
                    assert(may_be_offered(rest[k]));
                }
            }
            assert forall|j: int, k: int| 0 <= j < k < tools.len() implies tools[j].name
                != tools[k].name by {
                assert(rest[j] == tools[j]);
                if k < rest.len() {
                    assert(rest[j].name != rest[k].name);
                }
            }
        }
    }
}

/// What a plugin lists is offered, or the reason why not is told.
pub proof fn lemma_listed_tools_are_offered(
    plugin_id: Seq<char>,
    json: Json,
    source: PluginProcessErrorView,
)
    ensures
        tools_list_of(json) matches Some(list) ==> listed_tools(plugin_id, Ok(json))
            == definitions_of(plugin_id, list.tools),
        tools_list_of(json) is None ==> (listed_tools(plugin_id, Ok(json)) matches Err(
            ExternalToolErrorView::InvalidListResult { plugin_id: told, .. },
        ) && told == plugin_id),
        listed_tools(plugin_id, Err(source)) == Err::<
            Seq<ToolDefinitionView>,
            ExternalToolErrorView,
        >(ExternalToolErrorView::Process { plugin_id, source }),
{
}

/// A plugin that is taken adds its tools behind those there are; one of whose tools has a name
/// that is taken, one that did not answer in time and one whose tools cannot be used are not
/// taken.
pub proof fn lemma_plugins_add_their_tools(
    host: PluginHostView,
    plugin_id: Seq<char>,
    tools: Seq<ToolDefinitionView>,
    source: ExternalToolErrorView,
    k: int,
)
    ensures
        activated(host, plugin_id, ToolsOutcomeView::Loaded(tools)) matches Ok(next) ==> next.tools
            == host.tools + tools && next.active == host.active.push(plugin_id),
        0 <= k < tools.len() && has_tool(host.tools, tools[k].name) ==> activated(
            host,
            plugin_id,
            ToolsOutcomeView::Loaded(tools),
        ) is Err,
        (forall|i: int| 0 <= i < tools.len() ==> !has_tool(host.tools, #[trigger] tools[i].name))
            && (forall|i: int, j: int|
            0 <= i < j < tools.len() ==> tools[i].name != tools[j].name) ==> activated(
            host,
            plugin_id,
            ToolsOutcomeView::Loaded(tools),
        ) is Ok,
        activated(host, plugin_id, ToolsOutcomeView::TimedOut) == Err::<
            PluginHostView,
            PluginActivationErrorView,
        >(PluginActivationErrorView::ToolsTimeout { plugin_id }),
        activated(host, plugin_id, ToolsOutcomeView::Failed(source)) == Err::<
            PluginHostView,
            PluginActivationErrorView,
        >(PluginActivationErrorView::Tools { plugin_id, source }),
{
    lemma_taken_names(host.tools, tools, k);
}

proof fn lemma_taken_names(
    registry: Seq<ToolDefinitionView>,
    tools: Seq<ToolDefinitionView>,
    k: int,
)
    ensures
        0 <= k < tools.len() && has_tool(registry, tools[k].name) ==> first_taken(registry, tools)
            is Some,
        (forall|i: int| 0 <= i < tools.len() ==> !has_tool(registry, #[trigger] tools[i].name))
            && (forall|i: int, j: int|
            0 <= i < j < tools.len() ==> tools[i].name != tools[j].name) ==> first_taken(
            registry,
            tools,
        ) is None,
    decreases tools.len(),
{
    if tools.len() > 0 {
        let rest = tools.drop_first();
        let more = registry.push(tools[0]);
        lemma_taken_names(more, rest, k - 1);
        assert forall|i: int| 0 <= i < rest.len() implies rest[i] == tools[i + 1] by {}
        if 0 < k < tools.len() && has_tool(registry, tools[k].name) {
            let i: int = choose|i: int|
                0 <= i < registry.len() && (#[trigger] registry[i]).name == tools[k].name;
            assert(more[i].name == rest[k - 1].name);
        }
        let free = forall|i: int|
            0 <= i < tools.len() ==> !has_tool(registry, #[trigger] tools[i].name);
        let apart = forall|i: int, j: int|
            0 <= i < j < tools.len() ==> tools[i].name != tools[j].name;
        if free && apart {
            assert(!has_tool(registry, tools[0].name));
            assert forall|i: int| 0 <= i < rest.len() implies !has_tool(
                more,
                #[trigger] rest[i].name,
            ) by {
                assert(!has_tool(registry, tools[i + 1].name));
                if has_tool(more, rest[i].name) {
                    let m: int = choose|m: int|
                        0 <= m < more.len() && (#[trigger] more[m]).name == rest[i].name;
                    if m < registry.len() {
                        assert(registry[m].name == tools[i + 1].name);
                    } else {
                        assert(tools[0].name == tools[i + 1].name);
                    }
                }
            }
            assert forall|i: int, j: int| 0 <= i < j < rest.len() implies rest[i].name
                != rest[j].name by {
                assert(tools[i + 1].name != tools[j + 1].name);
            }
        }
    }
}

/// Every plugin that could not be ended is reported, with the reason, in the order in which they
/// were ended.
pub proof fn lemma_failures_to_end_are_reported(
    ended: Seq<(Seq<char>, Result<(), PluginProcessErrorView>)>,
    plugin_id: Seq<char>,
    error: PluginProcessErrorView,
)
    ensures
        failures_of(Seq::empty()).len() == 0,
        failures_of(ended.push((plugin_id, Ok(())))) == failures_of(ended),
        ({
            let told = failures_of(ended.push((plugin_id, Err(error))));
            &&& told.len() == failures_of(ended).len() + 1
            &&& told.drop_last() == failures_of(ended)
            &&& told.last().plugin_id == plugin_id
            &&& told.last().message == process_error_text(error)
        }),
{
    assert(ended.push((plugin_id, Ok(()))).drop_last() =~= ended);
    assert(ended.push((plugin_id, Err(error))).drop_last() =~= ended);
    assert(failures_of(ended.push((plugin_id, Err(error)))).drop_last() =~= failures_of(ended));
}

/// An answer goes to the request that it answers, whatever else is open, and closes that one
/// alone; one that nobody waits for goes nowhere.
pub proof fn lemma_answers_go_to_their_requests(
    dispatch: DispatchView,
    id: u64,
    result: Json,
    error: RpcErrorObjectView,
    other: u64,
)
    ensures
        ({
            let answer = PluginMessageView::Response(
                RpcResponseView { jsonrpc: "2.0"@, id, result: Some(result), error: None },
            );
            let refusal = PluginMessageView::Response(
                RpcResponseView { jsonrpc: "2.0"@, id, result: None, error: Some(error) },
            );
            &&& dispatch.pending.contains(id) ==> routed(dispatch, answer)
                == ReceivedView::Answered(id, result)
            &&& dispatch.pending.contains(id) ==> routed(dispatch, refusal)
                == ReceivedView::Refused(id, error)
            &&& !dispatch.pending.contains(id) ==> routed(dispatch, answer) is Ignored && routed(
                dispatch,
                refusal,
            ) is Ignored
            &&& !after_message(dispatch, answer).pending.contains(id)
            &&& other != id ==> (after_message(dispatch, answer).pending.contains(other)
                <==> dispatch.pending.contains(other))
            &&& after_message(dispatch, answer).failure == dispatch.failure
            &&& after_message(dispatch, answer).next_id == dispatch.next_id
        }),
{
}

/// A notification is passed on and answers nothing.
pub proof fn lemma_notifications_answer_nothing(
    dispatch: DispatchView,
    notification: RpcNotificationView,
)
    ensures
        routed(dispatch, PluginMessageView::Notification(notification)) == ReceivedView::Notified(
            notification,
        ),
        after_message(dispatch, PluginMessageView::Notification(notification)) == dispatch,
{
}

/// Requests are numbered one after the other, and each is open until it is settled; once the
/// plugin has failed, none is taken, for the first reason that was given.
pub proof fn lemma_requests_are_numbered(
    dispatch: DispatchView,
    id: u64,
    reason: Seq<char>,
    again: Seq<char>,
)
    ensures
        dispatch.failure is None && dispatch.next_id < u64::MAX ==> {
            let (number, after) = opened(dispatch);
            &&& number == Ok::<u64, Seq<char>>(dispatch.next_id)
            &&& after.next_id == dispatch.next_id + 1
            &&& after.pending.contains(dispatch.next_id)
            &&& id != dispatch.next_id ==> (after.pending.contains(id)
                <==> dispatch.pending.contains(id))
        },
        dispatch.failure matches Some(why) ==> opened(dispatch) == (
            Err::<u64, Seq<char>>(why),
            dispatch,
        ),
        !settled(dispatch, id).pending.contains(id),
        dispatch.failure is None ==> opened(failed(dispatch, reason)).0 == Err::<u64, Seq<char>>(
            reason,
        ),
        failed(failed(dispatch, reason), again).failure == failed(dispatch, reason).failure,
        !failed(dispatch, reason).pending.contains(id),
{
}

/// A plugin is ended step by step: it is asked where it still runs, its input is closed once it
/// has answered, and it has ended as it should where it says so with its status. Anything else
/// is told as the reason why it was ended by force.
pub proof fn lemma_plugins_are_ended_step_by_step(event: ShutdownEvent)
    ensures
        shutdown_step(event) is Ask <==> event matches ShutdownEvent::Polled(Ok(None)),
        shutdown_step(event) is CloseAndWait <==> event matches ShutdownEvent::Answered(Ok(_)),
        shutdown_step(event) is Finish <==> (event is Waited && event->Waited_0 is Ok
            && event->Waited_0->Ok_0.success),
        event matches ShutdownEvent::Polled(Ok(Some(status))) ==> shutdown_step(event)
            == ShutdownActionView::CleanUp(PluginProcessErrorView::Exited(status@)),
        event matches ShutdownEvent::Answered(Err(error)) ==> shutdown_step(event)
            == ShutdownActionView::CleanUp(error.deep_view()),
        event matches ShutdownEvent::Waited(Ok(report)) ==> !report.success ==> shutdown_step(event)
            == ShutdownActionView::CleanUp(PluginProcessErrorView::Exited(report.status@)),
        event matches ShutdownEvent::Waited(Err(message)) ==> shutdown_step(event)
            == ShutdownActionView::CleanUp(PluginProcessErrorView::Reap(message@)),
        event matches ShutdownEvent::Polled(Err(message)) ==> shutdown_step(event)
            == ShutdownActionView::CleanUp(PluginProcessErrorView::Reap(message@)),
        event is TimedOut ==> shutdown_step(event) == ShutdownActionView::CleanUp(
            PluginProcessErrorView::ShutdownTimeout,
        ),
{
}

/// What a plugin writes besides is kept from its beginning, as far as it fits.
pub proof fn lemma_output_is_kept_from_its_beginning(capture: CaptureView, more: Seq<u8>)
    requires
        capture.bytes.len() <= 65_536,
    ensures
        captured(capture, more).bytes.is_prefix_of(capture.bytes + more),
        capture.bytes.len() + more.len() <= 65_536 ==> captured(capture, more).bytes
            == capture.bytes + more && captured(capture, more).truncated == capture.truncated,
        capture.bytes.len() + more.len() > 65_536 ==> captured(capture, more).bytes.len() == 65_536
            && captured(capture, more).truncated,
        capture.truncated ==> shown(capture).truncated,
{
    let all = capture.bytes + more;
    assert(captured(capture, more).bytes =~= all.subrange(
        0,
        captured(capture, more).bytes.len() as int,
    ));
}

/// A command that is a path within the plugin's directory is taken from there, any other as it is.
pub proof fn lemma_programs_are_found(
    command: Seq<char>,
    directory: Seq<char>,
    is_relative: bool,
    components: int,
)
    ensures
        is_relative && components > 1 ==> directory.is_prefix_of(
            program_path(command, directory, is_relative, components),
        ) && command.is_suffix_of(program_path(command, directory, is_relative, components)),
        !is_relative || components <= 1 ==> program_path(
            command,
            directory,
            is_relative,
            components,
        ) == command,
{
    crate::config::laws::lemma_paths_are_joined(directory, command);
}

/// The answer to the first request is read and held against the manifest.
pub proof fn lemma_first_answers_are_checked(manifest: PluginManifestView, answer: Json)
    ensures
        initialize_result_of(answer) matches Some(told) ==> read_initialize(manifest, answer)
            == checked_initialize(manifest, told),
        initialize_result_of(answer) is None ==> read_initialize(manifest, answer) is Err,
{
}

/// A manifest is taken where its versions are those of this host, its identifier is one, and
/// neither its name nor its version nor its command is blank; what is wrong is told with its path.
pub proof fn lemma_manifests_are_checked(manifest: PluginManifestView, path: Seq<char>)
    ensures
        manifest_error(manifest, path) is None <==> manifest.manifest_version == 1
            && manifest.protocol_version == "ri.plugin.v1"@ && is_plugin_id(manifest.id)
            && !is_blank_text(manifest.name) && !is_blank_text(manifest.version) && !is_blank_text(
            manifest.entrypoint.command,
        ),
        manifest.manifest_version != 1 ==> manifest_error(manifest, path) == Some(
            PluginManifestErrorView::UnsupportedManifestVersion {
                path,
                value: manifest.manifest_version,
            },
        ),
        manifest_error(manifest, path) matches Some(
            PluginManifestErrorView::UnsupportedProtocolVersion { path: told, value },
        ) ==> told == path && value == manifest.protocol_version && value != "ri.plugin.v1"@,
        manifest_error(manifest, path) matches Some(
            PluginManifestErrorView::InvalidField { path: told, field, value },
        ) ==> told == path && ((field == "id"@ && value == manifest.id && !is_plugin_id(value)) || (
        field == "name"@ && value == manifest.name && is_blank_text(value)) || (field == "version"@
            && value == manifest.version && is_blank_text(value)) || (field
            == "entrypoint.command"@ && value == manifest.entrypoint.command && is_blank_text(
            value,
        ))),
{
}

/// An identifier of a plugin is short, in small letters, digits, dots, hyphens and underscores,
/// and begins with a letter or a digit.
pub proof fn lemma_identifiers_are_plain(id: Seq<char>)
    ensures
        is_plugin_id(id) <==> 0 < id.len() <= 128 && (('a' <= id[0] <= 'z') || ('0' <= id[0]
            <= '9')) && (forall|i: int|
            0 <= i < id.len() ==> ('a' <= #[trigger] id[i] <= 'z') || ('0' <= id[i] <= '9') || id[i]
                == '.' || id[i] == '-' || id[i] == '_'),
        is_tool_name(id) <==> 0 < id.len() <= 64 && id[0] != '_' && id[0] != '-' && (forall|i: int|
            0 <= i < id.len() ==> ('a' <= #[trigger] id[i] <= 'z') || ('A' <= id[i] <= 'Z') || ('0'
                <= id[i] <= '9') || id[i] == '_' || id[i] == '-'),
{
}

/// Plugins that were selected are looked for one after the other: each must have an identifier
/// that was not selected before it, its manifest is read where it is installed, and it must be
/// the plugin that was selected.
pub proof fn lemma_selected_plugins_are_looked_for(
    root: Seq<char>,
    ids: Seq<Seq<char>>,
    reads: Seq<ManifestReadView>,
    done: Seq<LoadedPluginManifestView>,
)
    requires
        done.len() < ids.len(),
    ensures
        ({
            let n: int = done.len() as int;
            let next = resolved_from(root, ids, reads, done);
            &&& !is_plugin_id(ids[n]) ==> next is Refused && next->Refused_0 is InvalidId
                && next->Refused_0->InvalidId_id == ids[n]
            &&& is_plugin_id(ids[n]) && selected_before(ids, n) ==> next == ResolutionView::Refused(
                InstalledPluginErrorView::DuplicateSelection { id: ids[n] },
            )
            &&& is_plugin_id(ids[n]) && !selected_before(ids, n) && reads.len() <= n ==> next
                == ResolutionView::Read(manifest_path(root, ids[n]))
            &&& is_plugin_id(ids[n]) && !selected_before(ids, n) && n < reads.len() ==> (installed(
                root,
                ids[n],
                reads[n],
            ) matches Ok(loaded) ==> next == resolved_from(root, ids, reads, done.push(loaded)))
            &&& is_plugin_id(ids[n]) && !selected_before(ids, n) && n < reads.len() ==> (installed(
                root,
                ids[n],
                reads[n],
            ) matches Err(error) ==> next == ResolutionView::Refused(error))
        }),
        resolved_from(root, Seq::empty(), reads, Seq::empty()) == ResolutionView::Resolved(
            Seq::empty(),
        ),
{
}

/// A plugin is installed where its manifest lies in the directory of its name and names it.
pub proof fn lemma_plugins_lie_where_they_are_named(
    root: Seq<char>,
    id: Seq<char>,
    loaded: LoadedPluginManifestView,
    error: PluginManifestErrorView,
)
    ensures
        root.is_prefix_of(manifest_path(root, id)),
        "plugin.json"@.is_suffix_of(manifest_path(root, id)),
        loaded.manifest.id == id ==> installed(root, id, ManifestReadView::Loaded(loaded)) == Ok::<
            LoadedPluginManifestView,
            InstalledPluginErrorView,
        >(loaded),
        loaded.manifest.id != id ==> (installed(
            root,
            id,
            ManifestReadView::Loaded(loaded),
        ) matches Err(InstalledPluginErrorView::IdentityMismatch { expected, actual, .. })
            && expected == id && actual == loaded.manifest.id),
        (error is Io && error->not_found) ==> installed(root, id, ManifestReadView::Failed(error))
            == Err::<LoadedPluginManifestView, InstalledPluginErrorView>(
            InstalledPluginErrorView::NotInstalled { id, path: manifest_path(root, id) },
        ),
        !(error is Io && error->not_found) ==> installed(root, id, ManifestReadView::Failed(error))
            == Err::<LoadedPluginManifestView, InstalledPluginErrorView>(
            InstalledPluginErrorView::InvalidManifest {
                id,
                path: manifest_path(root, id),
                source: error,
            },
        ),
{
    let directory = crate::config::paths::joined_path(root, id);
    crate::config::laws::lemma_paths_are_joined(root, id);
    crate::config::laws::lemma_paths_are_joined(directory, "plugin.json"@);
    let path = manifest_path(root, id);
    assert(path.subrange(0, root.len() as int) =~= directory.subrange(0, root.len() as int));
}

} // verus!
