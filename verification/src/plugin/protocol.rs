//! The protocol that plugins speak: JSON-RPC, one message to a line.

use crate::json::{
    array, clone_members, items_of, json_parsed, json_text, member, no_members, number_as_u64,
    number_from_u64,
    object, object_of, put, string_of, u64_of, Json, JsonMember, JsonValue,
};
use crate::text::{byte_len, concat, concat3, decimal, decimal_text, same_text, utf8_len};
use vstd::prelude::*;

verus! {

/// The protocol.
pub const PLUGIN_PROTOCOL_VERSION: &'static str = "ri.plugin.v1";

/// The most bytes of a message.
pub const MAX_PLUGIN_FRAME_BYTES: usize = 1_048_576;

/// Why a message was not taken, or not made.
#[derive(Debug, PartialEq, Eq)]
pub enum ProtocolError {
    FrameTooLarge,
    Json(String),
    Invalid(String),
}

/// What a [`ProtocolError`] holds.
#[verifier::ext_equal]
pub enum ProtocolErrorView {
    FrameTooLarge,
    Json(Seq<char>),
    Invalid(Seq<char>),
}

impl DeepView for ProtocolError {
    type V = ProtocolErrorView;

    open spec fn deep_view(&self) -> ProtocolErrorView {
        match self {
            ProtocolError::FrameTooLarge => ProtocolErrorView::FrameTooLarge,
            ProtocolError::Json(value) => ProtocolErrorView::Json(value.deep_view()),
            ProtocolError::Invalid(value) => ProtocolErrorView::Invalid(value.deep_view()),
        }
    }
}

impl Clone for ProtocolError {
    fn clone(&self) -> (res: Self)
        ensures
            res.deep_view() == self.deep_view(),
    {
        let res = match self {
            ProtocolError::FrameTooLarge => ProtocolError::FrameTooLarge,
            ProtocolError::Json(value) => ProtocolError::Json(value.clone()),
            ProtocolError::Invalid(value) => ProtocolError::Invalid(value.clone()),
        };
        assert(res.deep_view() =~~= self.deep_view());
        res
    }
}

/// A request to a plugin.
#[derive(Debug, PartialEq, Eq)]
pub struct RpcRequest {
    pub jsonrpc: String,
    pub id: u64,
    pub method: String,
    pub params: JsonValue,
}

/// What a [`RpcRequest`] holds.
#[verifier::ext_equal]
pub struct RpcRequestView {
    pub jsonrpc: Seq<char>,
    pub id: u64,
    pub method: Seq<char>,
    pub params: Json,
}

impl DeepView for RpcRequest {
    type V = RpcRequestView;

    open spec fn deep_view(&self) -> RpcRequestView {
        RpcRequestView {
            jsonrpc: self.jsonrpc.deep_view(),
            id: self.id,
            method: self.method.deep_view(),
            params: self.params.deep_view(),
        }
    }
}

impl Clone for RpcRequest {
    fn clone(&self) -> (res: Self)
        ensures
            res.deep_view() == self.deep_view(),
    {
        let res = RpcRequest {
            jsonrpc: self.jsonrpc.clone(),
            id: self.id,
            method: self.method.clone(),
            params: self.params.clone(),
        };
        assert(res.deep_view() =~~= self.deep_view());
        res
    }
}

/// An error that a plugin reports.
#[derive(Debug, PartialEq, Eq)]
pub struct RpcErrorObject {
    pub code: i64,
    pub message: String,
    pub data: Option<JsonValue>,
}

/// What a [`RpcErrorObject`] holds.
#[verifier::ext_equal]
pub struct RpcErrorObjectView {
    pub code: i64,
    pub message: Seq<char>,
    pub data: Option<Json>,
}

impl DeepView for RpcErrorObject {
    type V = RpcErrorObjectView;

    open spec fn deep_view(&self) -> RpcErrorObjectView {
        RpcErrorObjectView {
            code: self.code,
            message: self.message.deep_view(),
            data: self.data.deep_view(),
        }
    }
}

impl Clone for RpcErrorObject {
    fn clone(&self) -> (res: Self)
        ensures
            res.deep_view() == self.deep_view(),
    {
        let res = RpcErrorObject {
            code: self.code,
            message: self.message.clone(),
            data: self.data.clone(),
        };
        assert(res.deep_view() =~~= self.deep_view());
        res
    }
}

/// The answer to a request: a result or an error.
#[derive(Debug, PartialEq, Eq)]
pub struct RpcResponse {
    pub jsonrpc: String,
    pub id: u64,
    pub result: Option<JsonValue>,
    pub error: Option<RpcErrorObject>,
}

/// What a [`RpcResponse`] holds.
#[verifier::ext_equal]
pub struct RpcResponseView {
    pub jsonrpc: Seq<char>,
    pub id: u64,
    pub result: Option<Json>,
    pub error: Option<RpcErrorObjectView>,
}

impl DeepView for RpcResponse {
    type V = RpcResponseView;

    open spec fn deep_view(&self) -> RpcResponseView {
        RpcResponseView {
            jsonrpc: self.jsonrpc.deep_view(),
            id: self.id,
            result: self.result.deep_view(),
            error: self.error.deep_view(),
        }
    }
}

impl Clone for RpcResponse {
    fn clone(&self) -> (res: Self)
        ensures
            res.deep_view() == self.deep_view(),
    {
        let res = RpcResponse {
            jsonrpc: self.jsonrpc.clone(),
            id: self.id,
            result: self.result.clone(),
            error: self.error.clone(),
        };
        assert(res.deep_view() =~~= self.deep_view());
        res
    }
}

/// Something that a plugin reports by itself.
#[derive(Debug, PartialEq, Eq)]
pub struct RpcNotification {
    pub jsonrpc: String,
    pub method: String,
    pub params: JsonValue,
}

/// What a [`RpcNotification`] holds.
#[verifier::ext_equal]
pub struct RpcNotificationView {
    pub jsonrpc: Seq<char>,
    pub method: Seq<char>,
    pub params: Json,
}

impl DeepView for RpcNotification {
    type V = RpcNotificationView;

    open spec fn deep_view(&self) -> RpcNotificationView {
        RpcNotificationView {
            jsonrpc: self.jsonrpc.deep_view(),
            method: self.method.deep_view(),
            params: self.params.deep_view(),
        }
    }
}

impl Clone for RpcNotification {
    fn clone(&self) -> (res: Self)
        ensures
            res.deep_view() == self.deep_view(),
    {
        let res = RpcNotification {
            jsonrpc: self.jsonrpc.clone(),
            method: self.method.clone(),
            params: self.params.clone(),
        };
        assert(res.deep_view() =~~= self.deep_view());
        res
    }
}

/// What a plugin says.
#[derive(Debug, PartialEq, Eq)]
pub enum PluginMessage {
    Response(RpcResponse),
    Notification(RpcNotification),
}

/// What a [`PluginMessage`] holds.
#[verifier::ext_equal]
pub enum PluginMessageView {
    Response(RpcResponseView),
    Notification(RpcNotificationView),
}

impl DeepView for PluginMessage {
    type V = PluginMessageView;

    open spec fn deep_view(&self) -> PluginMessageView {
        match self {
            PluginMessage::Response(value) => PluginMessageView::Response(value.deep_view()),
            PluginMessage::Notification(value) => PluginMessageView::Notification(value.deep_view()),
        }
    }
}

impl Clone for PluginMessage {
    fn clone(&self) -> (res: Self)
        ensures
            res.deep_view() == self.deep_view(),
    {
        let res = match self {
            PluginMessage::Response(value) => PluginMessage::Response(value.clone()),
            PluginMessage::Notification(value) => PluginMessage::Notification(value.clone()),
        };
        assert(res.deep_view() =~~= self.deep_view());
        res
    }
}

/// Who the host is.
#[derive(Debug, PartialEq, Eq)]
pub struct HostIdentity {
    pub name: String,
    pub version: String,
}

/// What a [`HostIdentity`] holds.
#[verifier::ext_equal]
pub struct HostIdentityView {
    pub name: Seq<char>,
    pub version: Seq<char>,
}

impl DeepView for HostIdentity {
    type V = HostIdentityView;

    open spec fn deep_view(&self) -> HostIdentityView {
        HostIdentityView {
            name: self.name.deep_view(),
            version: self.version.deep_view(),
        }
    }
}

impl Clone for HostIdentity {
    fn clone(&self) -> (res: Self)
        ensures
            res.deep_view() == self.deep_view(),
    {
        let res = HostIdentity {
            name: self.name.clone(),
            version: self.version.clone(),
        };
        assert(res.deep_view() =~~= self.deep_view());
        res
    }
}

/// What a plugin is told first.
#[derive(Debug, PartialEq, Eq)]
pub struct InitializeParams {
    pub protocol_version: String,
    pub host: HostIdentity,
}

/// What a [`InitializeParams`] holds.
#[verifier::ext_equal]
pub struct InitializeParamsView {
    pub protocol_version: Seq<char>,
    pub host: HostIdentityView,
}

impl DeepView for InitializeParams {
    type V = InitializeParamsView;

    open spec fn deep_view(&self) -> InitializeParamsView {
        InitializeParamsView {
            protocol_version: self.protocol_version.deep_view(),
            host: self.host.deep_view(),
        }
    }
}

impl Clone for InitializeParams {
    fn clone(&self) -> (res: Self)
        ensures
            res.deep_view() == self.deep_view(),
    {
        let res = InitializeParams {
            protocol_version: self.protocol_version.clone(),
            host: self.host.clone(),
        };
        assert(res.deep_view() =~~= self.deep_view());
        res
    }
}

/// Who a plugin is.
#[derive(Debug, PartialEq, Eq)]
pub struct PluginIdentity {
    pub id: String,
    pub name: String,
    pub version: String,
}

/// What a [`PluginIdentity`] holds.
#[verifier::ext_equal]
pub struct PluginIdentityView {
    pub id: Seq<char>,
    pub name: Seq<char>,
    pub version: Seq<char>,
}

impl DeepView for PluginIdentity {
    type V = PluginIdentityView;

    open spec fn deep_view(&self) -> PluginIdentityView {
        PluginIdentityView {
            id: self.id.deep_view(),
            name: self.name.deep_view(),
            version: self.version.deep_view(),
        }
    }
}

impl Clone for PluginIdentity {
    fn clone(&self) -> (res: Self)
        ensures
            res.deep_view() == self.deep_view(),
    {
        let res = PluginIdentity {
            id: self.id.clone(),
            name: self.name.clone(),
            version: self.version.clone(),
        };
        assert(res.deep_view() =~~= self.deep_view());
        res
    }
}

/// What a plugin can do; `extra` holds what means nothing here.
#[derive(Debug, PartialEq, Eq)]
pub struct PluginCapabilities {
    pub tools: bool,
    pub extra: Vec<JsonMember>,
}

/// What a [`PluginCapabilities`] holds.
#[verifier::ext_equal]
pub struct PluginCapabilitiesView {
    pub tools: bool,
    pub extra: Map<Seq<char>, Json>,
}

impl DeepView for PluginCapabilities {
    type V = PluginCapabilitiesView;

    open spec fn deep_view(&self) -> PluginCapabilitiesView {
        PluginCapabilitiesView { tools: self.tools, extra: object_of(self.extra@) }
    }
}

impl Clone for PluginCapabilities {
    fn clone(&self) -> (res: Self)
        ensures
            res.deep_view() == self.deep_view(),
    {
        PluginCapabilities { tools: self.tools, extra: clone_members(&self.extra) }
    }
}

/// What a plugin answers first.
#[derive(Debug, PartialEq, Eq)]
pub struct InitializeResult {
    pub protocol_version: String,
    pub plugin: PluginIdentity,
    pub capabilities: PluginCapabilities,
}

/// What a [`InitializeResult`] holds.
#[verifier::ext_equal]
pub struct InitializeResultView {
    pub protocol_version: Seq<char>,
    pub plugin: PluginIdentityView,
    pub capabilities: PluginCapabilitiesView,
}

impl DeepView for InitializeResult {
    type V = InitializeResultView;

    open spec fn deep_view(&self) -> InitializeResultView {
        InitializeResultView {
            protocol_version: self.protocol_version.deep_view(),
            plugin: self.plugin.deep_view(),
            capabilities: self.capabilities.deep_view(),
        }
    }
}

impl Clone for InitializeResult {
    fn clone(&self) -> (res: Self)
        ensures
            res.deep_view() == self.deep_view(),
    {
        let res = InitializeResult {
            protocol_version: self.protocol_version.clone(),
            plugin: self.plugin.clone(),
            capabilities: self.capabilities.clone(),
        };
        assert(res.deep_view() =~~= self.deep_view());
        res
    }
}

/// A tool as a plugin offers it.
#[derive(Debug, PartialEq, Eq)]
pub struct PluginToolDefinition {
    pub name: String,
    pub description: Option<String>,
    pub input_schema: JsonValue,
}

/// What a [`PluginToolDefinition`] holds.
#[verifier::ext_equal]
pub struct PluginToolDefinitionView {
    pub name: Seq<char>,
    pub description: Option<Seq<char>>,
    pub input_schema: Json,
}

impl DeepView for PluginToolDefinition {
    type V = PluginToolDefinitionView;

    open spec fn deep_view(&self) -> PluginToolDefinitionView {
        PluginToolDefinitionView {
            name: self.name.deep_view(),
            description: self.description.deep_view(),
            input_schema: self.input_schema.deep_view(),
        }
    }
}

impl Clone for PluginToolDefinition {
    fn clone(&self) -> (res: Self)
        ensures
            res.deep_view() == self.deep_view(),
    {
        let res = PluginToolDefinition {
            name: self.name.clone(),
            description: self.description.clone(),
            input_schema: self.input_schema.clone(),
        };
        assert(res.deep_view() =~~= self.deep_view());
        res
    }
}

/// The tools of a plugin.
#[derive(Debug, PartialEq, Eq)]
pub struct ToolsListResult {
    pub tools: Vec<PluginToolDefinition>,
}

/// What a [`ToolsListResult`] holds.
#[verifier::ext_equal]
pub struct ToolsListResultView {
    pub tools: Seq<PluginToolDefinitionView>,
}

impl DeepView for ToolsListResult {
    type V = ToolsListResultView;

    open spec fn deep_view(&self) -> ToolsListResultView {
        ToolsListResultView {
            tools: self.tools.deep_view(),
        }
    }
}

impl Clone for ToolsListResult {
    fn clone(&self) -> (res: Self)
        ensures
            res.deep_view() == self.deep_view(),
    {
        let res = ToolsListResult {
            tools: self.tools.clone(),
        };
        assert(res.deep_view() =~~= self.deep_view());
        res
    }
}

/// A call of a tool.
#[derive(Debug, PartialEq, Eq)]
pub struct ToolCallParams {
    pub name: String,
    pub arguments: JsonValue,
}

/// What a [`ToolCallParams`] holds.
#[verifier::ext_equal]
pub struct ToolCallParamsView {
    pub name: Seq<char>,
    pub arguments: Json,
}

impl DeepView for ToolCallParams {
    type V = ToolCallParamsView;

    open spec fn deep_view(&self) -> ToolCallParamsView {
        ToolCallParamsView {
            name: self.name.deep_view(),
            arguments: self.arguments.deep_view(),
        }
    }
}

impl Clone for ToolCallParams {
    fn clone(&self) -> (res: Self)
        ensures
            res.deep_view() == self.deep_view(),
    {
        let res = ToolCallParams {
            name: self.name.clone(),
            arguments: self.arguments.clone(),
        };
        assert(res.deep_view() =~~= self.deep_view());
        res
    }
}

/// What a call came to.
#[derive(Debug, PartialEq, Eq)]
pub struct ToolCallResult {
    pub content: String,
    pub is_error: bool,
}

/// What a [`ToolCallResult`] holds.
#[verifier::ext_equal]
pub struct ToolCallResultView {
    pub content: Seq<char>,
    pub is_error: bool,
}

impl DeepView for ToolCallResult {
    type V = ToolCallResultView;

    open spec fn deep_view(&self) -> ToolCallResultView {
        ToolCallResultView {
            content: self.content.deep_view(),
            is_error: self.is_error,
        }
    }
}

impl Clone for ToolCallResult {
    fn clone(&self) -> (res: Self)
        ensures
            res.deep_view() == self.deep_view(),
    {
        let res = ToolCallResult {
            content: self.content.clone(),
            is_error: self.is_error,
        };
        assert(res.deep_view() =~~= self.deep_view());
        res
    }
}

/// The message of an error.
pub open spec fn protocol_error_text(error: ProtocolErrorView) -> Seq<char> {
    match error {
        ProtocolErrorView::FrameTooLarge => "plugin frame exceeds "@ + decimal_text(
            MAX_PLUGIN_FRAME_BYTES as nat,
        ) + " bytes"@,
        ProtocolErrorView::Json(message) => "invalid plugin JSON: "@ + message,
        ProtocolErrorView::Invalid(message) => "invalid JSON-RPC message: "@ + message,
    }
}

impl ProtocolError {
    /// The message of the error.
    pub fn to_text(&self) -> (res: String)
        ensures
            res@ == protocol_error_text(self.deep_view()),
    {
        match self {
            ProtocolError::FrameTooLarge => concat3(
                "plugin frame exceeds ",
                &decimal(MAX_PLUGIN_FRAME_BYTES as u64),
                " bytes",
            ),
            ProtocolError::Json(message) => concat("invalid plugin JSON: ", message),
            ProtocolError::Invalid(message) => concat("invalid JSON-RPC message: ", message),
        }
    }
}

// ---- numbers ----

/// Names what `serde_json::Number::as_i64` returns: the number, where it was written as an integer
/// that an `i64` can hold.
pub uninterp spec fn number_as_i64(number: serde_json::Number) -> Option<i64>;

/// Names what `serde_json::Number::from` makes of an `i64`.
pub uninterp spec fn number_from_i64(value: i64) -> serde_json::Number;

/// `serde_json::Number::as_i64`, under its name.
pub assume_specification[ serde_json::Number::as_i64 ](number: &serde_json::Number) -> (res: Option<
    i64,
>)
    ensures
        res == number_as_i64(*number),
;

/// `serde_json::Number::from` on an `i64`: a number that reads back as that integer.
#[verifier::external_body]
fn signed_number(value: i64) -> (res: serde_json::Number)
    ensures
        res == number_from_i64(value),
        number_as_i64(res) == Some(value),
{
    serde_json::Number::from(value)
}

// ---- requests ----

/// A request as JSON text, its members in the order of the fields.
pub open spec fn request_text(request: RpcRequestView) -> Seq<char> {
    "{\"jsonrpc\":"@ + json_text(Json::Text(request.jsonrpc)) + (",\"id\":"@ + decimal_text(
        request.id as nat,
    ) + (",\"method\":"@ + json_text(Json::Text(request.method)) + (",\"params\":"@ + json_text(
        request.params,
    ) + "}"@)))
}

impl RpcRequest {
    /// The request as JSON text.
    pub fn to_text(&self) -> (res: String)
        ensures
            res@ == request_text(self.deep_view()),
    {
        let params = concat3(",\"params\":", &self.params.to_text(), "}");
        let method = concat3(",\"method\":", &JsonValue::string(&self.method).to_text(), &params);
        let id = concat3(",\"id\":", &decimal(self.id), &method);
        concat3("{\"jsonrpc\":", &JsonValue::string(&self.jsonrpc).to_text(), &id)
    }
}

/// A request as a line, without its end.
pub open spec fn request_line(id: u64, method: Seq<char>, params: Json) -> Seq<char> {
    request_text(RpcRequestView { jsonrpc: "2.0"@, id, method, params })
}

/// A request as a line, or the error that it is too long.
pub open spec fn encoded_request(line: Seq<char>) -> Result<Seq<char>, ProtocolErrorView> {
    if utf8_len(line) > MAX_PLUGIN_FRAME_BYTES {
        Err(ProtocolErrorView::FrameTooLarge)
    } else {
        Ok(line)
    }
}

/// A line that is not too long.
pub fn checked_frame(line: String) -> (res: Result<String, ProtocolError>)
    ensures
        match (res, encoded_request(line@)) {
            (Ok(line), Ok(expected)) => line@ == expected,
            (Err(error), Err(expected)) => error.deep_view() == expected,
            _ => false,
        },
{
    if byte_len(&line) > MAX_PLUGIN_FRAME_BYTES {
        Err(ProtocolError::FrameTooLarge)
    } else {
        Ok(line)
    }
}

/// A request as a line, without its end.
pub fn encode_request(id: u64, method: &str, params: &JsonValue) -> (res: Result<
    String,
    ProtocolError,
>)
    ensures
        match (res, encoded_request(request_line(id, method@, params.deep_view()))) {
            (Ok(line), Ok(expected)) => line@ == expected,
            (Err(error), Err(expected)) => error.deep_view() == expected,
            _ => false,
        },
{
    let request = RpcRequest {
        jsonrpc: "2.0".to_owned(),
        id,
        method: method.to_owned(),
        params: params.clone(),
    };
    checked_frame(request.to_text())
}

// ---- values on the wire ----

/// A member that a value has by name, or by position where the members are listed in order.
pub open spec fn wire_member(json: Json, name: Seq<char>, index: int) -> Option<Json> {
    match json {
        Json::Array(items) => if 0 <= index < items.len() {
            Some(items[index])
        } else {
            None
        },
        _ => member(json, name),
    }
}

/// A value lists its members by name, or at most `count` of them in order.
pub open spec fn is_record(json: Json, count: int) -> bool {
    match json {
        Json::Array(items) => items.len() <= count,
        Json::Object(_) => true,
        _ => false,
    }
}

fn get_member<'a>(value: &'a JsonValue, name: &str, index: usize) -> (res: Option<&'a JsonValue>)
    ensures
        res.deep_view() == wire_member(value.deep_view(), name@, index as int),
{
    match value.as_array() {
        Some(items) => if index < items.len() {
            assert(items.deep_view()[index as int] == items@[index as int].deep_view());
            Some(&items[index])
        } else {
            None
        },
        None => value.get(name),
    }
}

fn is_record_value(value: &JsonValue, count: usize) -> (res: bool)
    ensures
        res == is_record(value.deep_view(), count as int),
{
    match value.as_array() {
        Some(items) => items.len() <= count,
        None => value.is_object(),
    }
}

fn get_text(value: &JsonValue, name: &str, index: usize) -> (res: Option<String>)
    ensures
        res.deep_view() == string_of(wire_member(value.deep_view(), name@, index as int)),
{
    match get_member(value, name, index) {
        Some(found) => match found.as_str() {
            Some(text) => Some(text.to_owned()),
            None => None,
        },
        None => None,
    }
}

/// A switch that counts as off where it is not there; nothing where it is no switch.
pub open spec fn switch_of(json: Option<Json>) -> Option<bool> {
    match json {
        None => Some(false),
        Some(Json::Bool(value)) => Some(value),
        _ => None,
    }
}

fn get_switch(value: &JsonValue, name: &str, index: usize) -> (res: Option<bool>)
    ensures
        res == switch_of(wire_member(value.deep_view(), name@, index as int)),
{
    match get_member(value, name, index) {
        None => Some(false),
        Some(JsonValue::Bool(value)) => Some(*value),
        Some(_) => None,
    }
}

/// A text that may be null or not there; nothing where it is something else.
pub open spec fn optional_text_of(json: Option<Json>) -> Option<Option<Seq<char>>> {
    match json {
        None => Some(None),
        Some(Json::Null) => Some(None),
        Some(Json::Text(text)) => Some(Some(text)),
        _ => None,
    }
}

/// A value that may be null.
pub open spec fn not_null(json: Json) -> Option<Json> {
    match json {
        Json::Null => None,
        _ => Some(json),
    }
}

// ---- messages of plugins ----

/// The integer that a JSON number holds.
pub open spec fn i64_of(json: Option<Json>) -> Option<i64> {
    match json {
        Some(Json::Number(n)) => number_as_i64(n),
        _ => None,
    }
}

/// The error that a value describes.
pub open spec fn error_object_of(json: Json) -> Option<RpcErrorObjectView> {
    let code = i64_of(wire_member(json, "code"@, 0));
    let message = string_of(wire_member(json, "message"@, 1));
    let data = wire_member(json, "data"@, 2);
    if !is_record(json, 3) || code is None || message is None || (json is Array && data is None) {
        None
    } else {
        Some(
            RpcErrorObjectView {
                code: code->0,
                message: message->0,
                data: match data {
                    Some(data) => not_null(data),
                    None => None,
                },
            },
        )
    }
}

impl RpcErrorObject {
    /// The error that a value describes.
    pub fn from_json(value: &JsonValue) -> (res: Option<Self>)
        ensures
            res.deep_view() == error_object_of(value.deep_view()),
    {
        if !is_record_value(value, 3) {
            return None;
        }
        let code = match get_member(value, "code", 0) {
            Some(JsonValue::Number(number)) => match number.as_i64() {
                Some(code) => code,
                None => {
                    return None;
                },
            },
            _ => {
                return None;
            },
        };
        let message = match get_text(value, "message", 1) {
            Some(message) => message,
            None => {
                return None;
            },
        };
        let data = match get_member(value, "data", 2) {
            Some(JsonValue::Null) => None,
            Some(data) => Some(data.clone()),
            None => {
                if value.as_array().is_some() {
                    return None;
                }
                None
            },
        };
        Some(RpcErrorObject { code, message, data })
    }
}

/// All members of a notification are known ones.
pub open spec fn only_known(members: Map<Seq<char>, Json>) -> bool {
    forall|name: Seq<char>| #[trigger]
        members.contains_key(name) ==> name == "jsonrpc"@ || name == "method"@ || name
            == "params"@
}

/// What a message without an identifier says.
pub open spec fn notification_of(json: Json) -> Option<RpcNotificationView> {
    let jsonrpc = string_of(member(json, "jsonrpc"@));
    let method = string_of(member(json, "method"@));
    if !(json is Object) || !only_known(json->Object_0) || jsonrpc is None || method is None {
        None
    } else {
        Some(
            RpcNotificationView {
                jsonrpc: jsonrpc->0,
                method: method->0,
                params: match member(json, "params"@) {
                    Some(params) => params,
                    None => Json::Null,
                },
            },
        )
    }
}

/// What a plugin says in a message.
pub open spec fn message_of(json: Json) -> Result<PluginMessageView, ProtocolErrorView> {
    if !(json is Object) {
        Err(ProtocolErrorView::Invalid("expected object"@))
    } else if member(json, "jsonrpc"@) != Some(Json::Text("2.0"@)) {
        Err(ProtocolErrorView::Invalid("expected jsonrpc 2.0"@))
    } else {
        match member(json, "id"@) {
            None => match notification_of(json) {
                Some(notification) => Ok(PluginMessageView::Notification(notification)),
                None => Err(ProtocolErrorView::Json("invalid notification"@)),
            },
            Some(id) => match u64_of(Some(id)) {
                None => Err(ProtocolErrorView::Invalid("expected unsigned integer id"@)),
                Some(id) => {
                    let result = member(json, "result"@);
                    let error = member(json, "error"@);
                    if member(json, "method"@) is Some || (result is Some) == (error is Some) {
                        Err(
                            ProtocolErrorView::Invalid(
                                "response requires exactly one result or error"@,
                            ),
                        )
                    } else {
                        match error {
                            None => Ok(
                                PluginMessageView::Response(
                                    RpcResponseView { jsonrpc: "2.0"@, id, result, error: None },
                                ),
                            ),
                            Some(error) => match error_object_of(error) {
                                Some(error) => Ok(
                                    PluginMessageView::Response(
                                        RpcResponseView {
                                            jsonrpc: "2.0"@,
                                            id,
                                            result: None,
                                            error: Some(error),
                                        },
                                    ),
                                ),
                                None => Err(ProtocolErrorView::Json("invalid error object"@)),
                            },
                        }
                    }
                },
            },
        }
    }
}

/// What a plugin says in a line.
pub open spec fn line_message(line: Seq<char>) -> Result<PluginMessageView, ProtocolErrorView> {
    if utf8_len(line) > MAX_PLUGIN_FRAME_BYTES {
        Err(ProtocolErrorView::FrameTooLarge)
    } else {
        match json_parsed(line) {
            Err(message) => Err(ProtocolErrorView::Json(message)),
            Ok(json) => message_of(json),
        }
    }
}

/// An answer has a result or an error, and never both.
pub proof fn lemma_answers_have_one_outcome(json: Json)
    ensures
        message_of(json) matches Ok(PluginMessageView::Response(response)) ==> (response.result
            is Some) != (response.error is Some),
{
}

fn invalid(message: &str) -> (res: ProtocolError)
    ensures
        res.deep_view() == ProtocolErrorView::Invalid(message@),
{
    ProtocolError::Invalid(message.to_owned())
}

/// What a value that has no identifier notifies of.
pub fn notification_from_json(value: &JsonValue) -> (res: Option<RpcNotification>)
    ensures
        res.deep_view() == notification_of(value.deep_view()),
{
    let members = match value {
        JsonValue::Object(members) => members,
        _ => {
            return None;
        },
    };
    let mut i: usize = 0;
    while i < members.len()
        invariant
            i <= members.len(),
            *value == JsonValue::Object(*members),
            forall|j: int|
                0 <= j < i ==> (#[trigger] members@[j]).name@ == "jsonrpc"@ || members@[j].name@
                    == "method"@ || members@[j].name@ == "params"@,
        decreases members.len() - i,
    {
        let name = &members[i].name;
        if !(same_text(name, "jsonrpc") || same_text(name, "method") || same_text(name, "params")) {
            proof {
                lemma_has_member(members@, i as int);
            }
            return None;
        }
        i += 1;
    }
    proof {
        lemma_all_known(members@);
    }
    let jsonrpc = match value.get_string("jsonrpc") {
        Some(jsonrpc) => jsonrpc,
        None => {
            return None;
        },
    };
    let method = match value.get_string("method") {
        Some(method) => method,
        None => {
            return None;
        },
    };
    let params = match value.get("params") {
        Some(params) => params.clone(),
        None => JsonValue::Null,
    };
    Some(RpcNotification { jsonrpc, method, params })
}

proof fn lemma_has_member(members: Seq<JsonMember>, at: int)
    requires
        0 <= at < members.len(),
    ensures
        object_of(members).contains_key(members[at].name@),
    decreases members.len(),
{
    if at < members.len() - 1 {
        lemma_has_member(members.drop_last(), at);
    }
}

proof fn lemma_all_known(members: Seq<JsonMember>)
    requires
        forall|j: int|
            0 <= j < members.len() ==> (#[trigger] members[j]).name@ == "jsonrpc"@
                || members[j].name@ == "method"@ || members[j].name@ == "params"@,
    ensures
        only_known(object_of(members)),
    decreases members.len(),
{
    if members.len() > 0 {
        let before = members.drop_last();
        assert forall|j: int| 0 <= j < before.len() implies (#[trigger] before[j]).name@
            == "jsonrpc"@ || before[j].name@ == "method"@ || before[j].name@ == "params"@ by {
            assert(before[j] == members[j]);
        }
        lemma_all_known(before);
        assert(members[members.len() - 1].name@ == members.last().name@);
    }
}

/// What a plugin says in a message that was parsed.
pub fn interpret_message(value: &JsonValue) -> (res: Result<PluginMessage, ProtocolError>)
    ensures
        match (res, message_of(value.deep_view())) {
            (Ok(message), Ok(expected)) => message.deep_view() == expected,
            (Err(error), Err(expected)) => error.deep_view() == expected,
            _ => false,
        },
{
    if !value.is_object() {
        return Err(invalid("expected object"));
    }
    let version = match value.get_str("jsonrpc") {
        Some(version) => same_text(version, "2.0"),
        None => false,
    };
    if !version {
        return Err(invalid("expected jsonrpc 2.0"));
    }
    let id = match value.get("id") {
        Some(id) => match id.as_u64() {
            Some(id) => id,
            None => {
                return Err(invalid("expected unsigned integer id"));
            },
        },
        None => {
            return match notification_from_json(value) {
                Some(notification) => Ok(PluginMessage::Notification(notification)),
                None => Err(ProtocolError::Json("invalid notification".to_owned())),
            };
        },
    };
    let result = value.get("result");
    let error = value.get("error");
    if value.get("method").is_some() || result.is_some() == error.is_some() {
        return Err(invalid("response requires exactly one result or error"));
    }
    match error {
        None => {
            let result = match result {
                Some(result) => Some(result.clone()),
                None => None,
            };
            Ok(
                PluginMessage::Response(
                    RpcResponse { jsonrpc: "2.0".to_owned(), id, result, error: None },
                ),
            )
        },
        Some(error) => match RpcErrorObject::from_json(error) {
            Some(error) => Ok(
                PluginMessage::Response(
                    RpcResponse {
                        jsonrpc: "2.0".to_owned(),
                        id,
                        result: None,
                        error: Some(error),
                    },
                ),
            ),
            None => Err(ProtocolError::Json("invalid error object".to_owned())),
        },
    }
}

/// What a plugin says in a line.
pub fn decode_plugin_message(line: &str) -> (res: Result<PluginMessage, ProtocolError>)
    ensures
        match (res, line_message(line@)) {
            (Ok(message), Ok(expected)) => message.deep_view() == expected,
            (Err(error), Err(expected)) => error.deep_view() == expected,
            _ => false,
        },
{
    if byte_len(line) > MAX_PLUGIN_FRAME_BYTES {
        return Err(ProtocolError::FrameTooLarge);
    }
    match JsonValue::parse(line) {
        Ok(value) => interpret_message(&value),
        Err(message) => Err(ProtocolError::Json(message)),
    }
}

/// The members of an error.
pub open spec fn error_json(error: RpcErrorObjectView) -> Json {
    let members = Map::<Seq<char>, Json>::empty().insert(
        "code"@,
        Json::Number(number_from_i64(error.code)),
    ).insert("message"@, Json::Text(error.message));
    Json::Object(
        match error.data {
            Some(data) => members.insert("data"@, data),
            None => members,
        },
    )
}

/// A message as a value.
pub open spec fn message_json(message: PluginMessageView) -> Json {
    match message {
        PluginMessageView::Response(response) => {
            let version = Map::<Seq<char>, Json>::empty().insert(
                "jsonrpc"@,
                Json::Text(response.jsonrpc),
            );
            let members = version.insert("id"@, Json::Number(number_from_u64(response.id)));
            let members = match response.result {
                Some(result) => members.insert("result"@, result),
                None => members,
            };
            Json::Object(
                match response.error {
                    Some(error) => members.insert("error"@, error_json(error)),
                    None => members,
                },
            )
        },
        PluginMessageView::Notification(notification) => Json::Object(
            Map::<Seq<char>, Json>::empty().insert(
                "jsonrpc"@,
                Json::Text(notification.jsonrpc),
            ).insert("method"@, Json::Text(notification.method)).insert(
                "params"@,
                notification.params,
            ),
        ),
    }
}

/// A message of this protocol: an answer has either a result or an error, and what an error adds
/// is more than null.
pub open spec fn is_message(message: PluginMessageView) -> bool {
    match message {
        PluginMessageView::Response(response) => {
            &&& response.jsonrpc == "2.0"@
            &&& (response.result is Some) != (response.error is Some)
            &&& (response.error is Some ==> response.error->0.data != Some(Json::Null))
        },
        PluginMessageView::Notification(notification) => notification.jsonrpc == "2.0"@,
    }
}

proof fn lemma_member_names()
    ensures
        "jsonrpc"@ != "id"@,
        "jsonrpc"@ != "result"@,
        "jsonrpc"@ != "error"@,
        "jsonrpc"@ != "method"@,
        "jsonrpc"@ != "params"@,
        "id"@ != "result"@,
        "id"@ != "error"@,
        "id"@ != "method"@,
        "id"@ != "params"@,
        "result"@ != "error"@,
        "result"@ != "method"@,
        "error"@ != "method"@,
        "method"@ != "params"@,
        "code"@ != "message"@,
        "code"@ != "data"@,
        "message"@ != "data"@,
{
    reveal_strlit("jsonrpc");
    reveal_strlit("id");
    reveal_strlit("result");
    reveal_strlit("error");
    reveal_strlit("method");
    reveal_strlit("params");
    reveal_strlit("code");
    reveal_strlit("message");
    reveal_strlit("data");
    assert("jsonrpc"@.len() == 7 && "id"@.len() == 2 && "result"@.len() == 6);
    assert("error"@.len() == 5 && "method"@.len() == 6 && "params"@.len() == 6);
    assert("code"@.len() == 4 && "message"@.len() == 7 && "data"@.len() == 4);
    assert("result"@[0] == 'r' && "method"@[0] == 'm' && "params"@[0] == 'p');
    assert("code"@[0] == 'c' && "data"@[0] == 'd');
}

/// A message that is written down is read back as it was, given that its numbers are.
proof fn lemma_messages_round_trip(message: PluginMessageView)
    requires
        is_message(message),
        message matches PluginMessageView::Response(response) ==> number_as_u64(
            number_from_u64(response.id),
        ) == Some(response.id),
        message matches PluginMessageView::Response(response) ==> (response.error is Some
            ==> number_as_i64(number_from_i64(response.error->0.code)) == Some(
            response.error->0.code,
        )),
    ensures
        message_of(message_json(message)) == Ok::<PluginMessageView, ProtocolErrorView>(message),
{
    lemma_member_names();
    let json = message_json(message);
    match message {
        PluginMessageView::Response(response) => {
            assert(member(json, "jsonrpc"@) == Some(Json::Text("2.0"@)));
            assert(u64_of(member(json, "id"@)) == Some(response.id));
            assert(member(json, "method"@) is None);
            assert(member(json, "result"@) == response.result);
            if response.error is Some {
                let error = error_json(response.error->0);
                assert(member(json, "error"@) == Some(error));
                assert(error_object_of(error) == Some(response.error->0));
            }
        },
        PluginMessageView::Notification(notification) => {
            assert(member(json, "id"@) is None);
            assert(member(json, "jsonrpc"@) == Some(Json::Text("2.0"@)));
            assert(notification_of(json) == Some(notification));
        },
    }
}

impl PluginMessage {
    /// The message as a value, from which it is read back as it was.
    pub fn to_json(&self) -> (res: JsonValue)
        ensures
            res.deep_view() == message_json(self.deep_view()),
            is_message(self.deep_view()) ==> message_of(res.deep_view()) == Ok::<
                PluginMessageView,
                ProtocolErrorView,
            >(self.deep_view()),
    {
        let mut members = no_members();
        match self {
            PluginMessage::Response(response) => {
                put(&mut members, "jsonrpc", JsonValue::string(&response.jsonrpc));
                put(&mut members, "id", JsonValue::from_u64(response.id));
                if let Some(result) = &response.result {
                    put(&mut members, "result", result.clone());
                }
                if let Some(error) = &response.error {
                    let mut described = no_members();
                    put(&mut described, "code", JsonValue::Number(signed_number(error.code)));
                    put(&mut described, "message", JsonValue::string(&error.message));
                    if let Some(data) = &error.data {
                        put(&mut described, "data", data.clone());
                    }
                    put(&mut members, "error", object(described));
                }
            },
            PluginMessage::Notification(notification) => {
                put(&mut members, "jsonrpc", JsonValue::string(&notification.jsonrpc));
                put(&mut members, "method", JsonValue::string(&notification.method));
                put(&mut members, "params", notification.params.clone());
            },
        }
        proof {
            if is_message(self.deep_view()) {
                lemma_messages_round_trip(self.deep_view());
            }
        }
        object(members)
    }
}

// ---- the first exchange ----

/// What a plugin is told first, as a value.
pub open spec fn initialize_json(params: InitializeParamsView) -> Json {
    let host = Map::<Seq<char>, Json>::empty().insert("name"@, Json::Text(params.host.name)).insert(
        "version"@,
        Json::Text(params.host.version),
    );
    Json::Object(
        Map::<Seq<char>, Json>::empty().insert(
            "protocolVersion"@,
            Json::Text(params.protocol_version),
        ).insert("host"@, Json::Object(host)),
    )
}

impl InitializeParams {
    /// What a plugin is told first by a host of this version.
    pub fn of_host(version: &str) -> (res: Self)
        ensures
            res.deep_view() == (InitializeParamsView {
                protocol_version: PLUGIN_PROTOCOL_VERSION@,
                host: HostIdentityView { name: "ri"@, version: version@ },
            }),
    {
        InitializeParams {
            protocol_version: PLUGIN_PROTOCOL_VERSION.to_owned(),
            host: HostIdentity { name: "ri".to_owned(), version: version.to_owned() },
        }
    }

    /// The same as a value.
    pub fn to_json(&self) -> (res: JsonValue)
        ensures
            res.deep_view() == initialize_json(self.deep_view()),
    {
        let mut host = no_members();
        put(&mut host, "name", JsonValue::string(&self.host.name));
        put(&mut host, "version", JsonValue::string(&self.host.version));
        let mut members = no_members();
        put(&mut members, "protocolVersion", JsonValue::string(&self.protocol_version));
        put(&mut members, "host", object(host));
        object(members)
    }
}

impl Default for PluginCapabilities {
    fn default() -> (res: Self)
        ensures
            res.deep_view() == (PluginCapabilitiesView {
                tools: false,
                extra: Map::<Seq<char>, Json>::empty(),
            }),
    {
        PluginCapabilities { tools: false, extra: no_members() }
    }
}

/// What a plugin can do, as a value describes it by names.
pub open spec fn capabilities_of(json: Json) -> Option<PluginCapabilitiesView> {
    match json {
        Json::Object(members) => match switch_of(member(json, "tools"@)) {
            Some(tools) => Some(PluginCapabilitiesView { tools, extra: members.remove("tools"@) }),
            None => None,
        },
        _ => None,
    }
}

/// Who a plugin is, as a value describes it.
pub open spec fn identity_of(json: Json) -> Option<PluginIdentityView> {
    let id = string_of(wire_member(json, "id"@, 0));
    let name = string_of(wire_member(json, "name"@, 1));
    let version = string_of(wire_member(json, "version"@, 2));
    if !is_record(json, 3) || id is None || name is None || version is None {
        None
    } else {
        Some(PluginIdentityView { id: id->0, name: name->0, version: version->0 })
    }
}

/// What a plugin answers first, as a value describes it.
pub open spec fn initialize_result_of(json: Json) -> Option<InitializeResultView> {
    let version = string_of(wire_member(json, "protocolVersion"@, 0));
    let plugin = wire_member(json, "plugin"@, 1);
    let capabilities = wire_member(json, "capabilities"@, 2);
    if !is_record(json, 3) || version is None || plugin is None || capabilities is None {
        None
    } else {
        match (identity_of(plugin->0), capabilities_of(capabilities->0)) {
            (Some(plugin), Some(capabilities)) => Some(
                InitializeResultView { protocol_version: version->0, plugin, capabilities },
            ),
            _ => None,
        }
    }
}

proof fn lemma_without(members: Seq<JsonMember>, name: Seq<char>, kept: Seq<JsonMember>)
    requires
        object_of(kept) == object_of(members.drop_last()).remove(name),
        members.len() > 0,
    ensures
        members.last().name@ == name ==> object_of(kept) == object_of(members).remove(name),
        members.last().name@ != name ==> object_of(kept).insert(
            members.last().name@,
            members.last().value.deep_view(),
        ) == object_of(members).remove(name),
{
    let before = object_of(members.drop_last());
    if members.last().name@ == name {
        assert(object_of(members).remove(name) =~= before.remove(name));
    } else {
        assert(before.remove(name).insert(
            members.last().name@,
            members.last().value.deep_view(),
        ) =~= object_of(members).remove(name));
    }
}

impl PluginCapabilities {
    /// What a plugin can do, as a value describes it.
    pub fn from_json(value: &JsonValue) -> (res: Option<Self>)
        ensures
            res.deep_view() == capabilities_of(value.deep_view()),
    {
        let members = match value {
            JsonValue::Object(members) => members,
            _ => {
                return None;
            },
        };
        let tools = match value.get("tools") {
            None => false,
            Some(JsonValue::Bool(tools)) => *tools,
            Some(_) => {
                return None;
            },
        };
        let ghost all = members@;
        let mut extra = no_members();
        let mut i: usize = 0;
        proof {
            assert(object_of(all.take(0)).remove("tools"@) =~= Map::<Seq<char>, Json>::empty());
        }
        while i < members.len()
            invariant
                i <= members.len(),
                all == members@,
                object_of(extra@) == object_of(all.take(i as int)).remove("tools"@),
            decreases members.len() - i,
        {
            proof {
                assert(all.take(i + 1).drop_last() =~= all.take(i as int));
                assert(all.take(i + 1).last() == all[i as int]);
                lemma_without(all.take(i + 1), "tools"@, extra@);
            }
            if !same_text(&members[i].name, "tools") {
                put(&mut extra, &members[i].name, members[i].value.clone());
            }
            i += 1;
        }
        assert(all.take(i as int) =~= all);
        Some(PluginCapabilities { tools, extra })
    }
}

impl PluginIdentity {
    /// Who a plugin is, as a value describes it.
    pub fn from_json(value: &JsonValue) -> (res: Option<Self>)
        ensures
            res.deep_view() == identity_of(value.deep_view()),
    {
        if !is_record_value(value, 3) {
            return None;
        }
        match (
            get_text(value, "id", 0),
            get_text(value, "name", 1),
            get_text(value, "version", 2),
        ) {
            (Some(id), Some(name), Some(version)) => Some(PluginIdentity { id, name, version }),
            _ => None,
        }
    }
}

impl InitializeResult {
    /// What a plugin answers first, as a value describes it.
    pub fn from_json(value: &JsonValue) -> (res: Option<Self>)
        ensures
            res.deep_view() == initialize_result_of(value.deep_view()),
    {
        if !is_record_value(value, 3) {
            return None;
        }
        let protocol_version = match get_text(value, "protocolVersion", 0) {
            Some(version) => version,
            None => {
                return None;
            },
        };
        let plugin = match get_member(value, "plugin", 1) {
            Some(plugin) => PluginIdentity::from_json(plugin),
            None => None,
        };
        let capabilities = match get_member(value, "capabilities", 2) {
            Some(capabilities) => PluginCapabilities::from_json(capabilities),
            None => None,
        };
        match (plugin, capabilities) {
            (Some(plugin), Some(capabilities)) => Some(
                InitializeResult { protocol_version, plugin, capabilities },
            ),
            _ => None,
        }
    }
}

// ---- tools ----

/// A tool, as a value describes it.
pub open spec fn tool_of(json: Json) -> Option<PluginToolDefinitionView> {
    let name = string_of(wire_member(json, "name"@, 0));
    let description = optional_text_of(wire_member(json, "description"@, 1));
    let schema = wire_member(json, "inputSchema"@, 2);
    if !is_record(json, 3) || name is None || description is None || schema is None {
        None
    } else {
        Some(
            PluginToolDefinitionView {
                name: name->0,
                description: description->0,
                input_schema: schema->0,
            },
        )
    }
}

/// Tools, as values describe them.
pub open spec fn tools_of(items: Seq<Json>) -> Option<Seq<PluginToolDefinitionView>>
    decreases items.len(),
{
    if items.len() == 0 {
        Some(Seq::empty())
    } else {
        match (tools_of(items.drop_last()), tool_of(items.last())) {
            (Some(before), Some(tool)) => Some(before.push(tool)),
            _ => None,
        }
    }
}

/// The tools of a plugin, as a value describes them.
pub open spec fn tools_list_of(json: Json) -> Option<ToolsListResultView> {
    match items_of(wire_member(json, "tools"@, 0)) {
        Some(items) => if is_record(json, 1) {
            match tools_of(items) {
                Some(tools) => Some(ToolsListResultView { tools }),
                None => None,
            }
        } else {
            None
        },
        None => None,
    }
}

/// A tool as a value.
pub open spec fn tool_json(tool: PluginToolDefinitionView) -> Json {
    Json::Object(
        Map::<Seq<char>, Json>::empty().insert("name"@, Json::Text(tool.name)).insert(
            "description"@,
            match tool.description {
                Some(text) => Json::Text(text),
                None => Json::Null,
            },
        ).insert("inputSchema"@, tool.input_schema),
    )
}

/// A tool that is written down is read back as it was.
pub proof fn lemma_tools_round_trip(tool: PluginToolDefinitionView)
    ensures
        tool_of(tool_json(tool)) == Some(tool),
{
    reveal_strlit("name");
    reveal_strlit("description");
    reveal_strlit("inputSchema");
    assert("name"@.len() == 4 && "description"@.len() == 11 && "inputSchema"@.len() == 11);
    assert("description"@[0] != "inputSchema"@[0]);
}

proof fn lemma_tools_of_fails(items: Seq<Json>, n: int)
    requires
        0 <= n <= items.len(),
        tools_of(items.take(n)) is None,
    ensures
        tools_of(items) is None,
    decreases items.len(),
{
    if n == items.len() {
        assert(items.take(n) =~= items);
    } else {
        assert(items.drop_last().take(n) =~= items.take(n));
        lemma_tools_of_fails(items.drop_last(), n);
    }
}

impl PluginToolDefinition {
    /// A tool, as a value describes it.
    pub fn from_json(value: &JsonValue) -> (res: Option<Self>)
        ensures
            res.deep_view() == tool_of(value.deep_view()),
    {
        if !is_record_value(value, 3) {
            return None;
        }
        let name = match get_text(value, "name", 0) {
            Some(name) => name,
            None => {
                return None;
            },
        };
        let description = match get_member(value, "description", 1) {
            None => None,
            Some(JsonValue::Null) => None,
            Some(JsonValue::Text(text)) => Some(text.clone()),
            Some(_) => {
                return None;
            },
        };
        match get_member(value, "inputSchema", 2) {
            Some(schema) => Some(
                PluginToolDefinition { name, description, input_schema: schema.clone() },
            ),
            None => None,
        }
    }

    /// The tool as a value.
    pub fn to_json(&self) -> (res: JsonValue)
        ensures
            res.deep_view() == tool_json(self.deep_view()),
    {
        let mut members = no_members();
        put(&mut members, "name", JsonValue::string(&self.name));
        match &self.description {
            Some(text) => put(&mut members, "description", JsonValue::string(text)),
            None => put(&mut members, "description", JsonValue::Null),
        }
        put(&mut members, "inputSchema", self.input_schema.clone());
        object(members)
    }
}

impl ToolsListResult {
    /// The tools of a plugin, as a value describes them.
    pub fn from_json(value: &JsonValue) -> (res: Option<Self>)
        ensures
            res.deep_view() == tools_list_of(value.deep_view()),
    {
        if !is_record_value(value, 1) {
            return None;
        }
        let items = match get_member(value, "tools", 0) {
            Some(found) => match found.as_array() {
                Some(items) => items,
                None => {
                    return None;
                },
            },
            None => {
                return None;
            },
        };
        let ghost all = items.deep_view();
        let mut tools: Vec<PluginToolDefinition> = Vec::new();
        let mut i: usize = 0;
        assert(all.take(0) =~= Seq::<Json>::empty());
        assert(tools.deep_view() =~= Seq::<PluginToolDefinitionView>::empty());
        while i < items.len()
            invariant
                i <= items.len(),
                all == items.deep_view(),
                Some(all) == items_of(wire_member(value.deep_view(), "tools"@, 0)),
                tools_of(all.take(i as int)) == Some(tools.deep_view()),
            decreases items.len() - i,
        {
            let ghost before = tools.deep_view();
            proof {
                assert(all.take(i + 1).drop_last() =~= all.take(i as int));
                assert(all.take(i + 1).last() == items@[i as int].deep_view());
            }
            match PluginToolDefinition::from_json(&items[i]) {
                Some(tool) => {
                    tools.push(tool);
                    assert(tools.deep_view() =~= before.push(tool.deep_view()));
                },
                None => {
                    proof {
                        lemma_tools_of_fails(all, i + 1);
                    }
                    return None;
                },
            }
            i += 1;
        }
        assert(all.take(i as int) =~= all);
        Some(ToolsListResult { tools })
    }

    /// The tools as a value.
    pub fn to_json(&self) -> (res: JsonValue)
        ensures
            res.deep_view() == Json::Object(
                Map::<Seq<char>, Json>::empty().insert(
                    "tools"@,
                    Json::Array(
                        self.deep_view().tools.map_values(
                            |tool: PluginToolDefinitionView| tool_json(tool),
                        ),
                    ),
                ),
            ),
    {
        let ghost wanted = self.deep_view().tools.map_values(
            |tool: PluginToolDefinitionView| tool_json(tool),
        );
        let mut items: Vec<JsonValue> = Vec::new();
        let mut i: usize = 0;
        while i < self.tools.len()
            invariant
                i <= self.tools.len(),
                wanted == self.deep_view().tools.map_values(
                    |tool: PluginToolDefinitionView| tool_json(tool),
                ),
                items.deep_view() == wanted.take(i as int),
            decreases self.tools.len() - i,
        {
            let ghost before = items.deep_view();
            items.push(self.tools[i].to_json());
            proof {
                assert(wanted[i as int] == tool_json(self.tools@[i as int].deep_view()));
                assert(items.deep_view() =~= before.push(wanted[i as int]));
                assert(items.deep_view() =~= wanted.take(i + 1));
            }
            i += 1;
        }
        assert(wanted.take(i as int) =~= wanted);
        let mut members = no_members();
        put(&mut members, "tools", array(items));
        object(members)
    }
}

/// A call as a value.
pub open spec fn call_json(params: ToolCallParamsView) -> Json {
    Json::Object(
        Map::<Seq<char>, Json>::empty().insert("name"@, Json::Text(params.name)).insert(
            "arguments"@,
            params.arguments,
        ),
    )
}

/// A call, as a value describes it.
pub open spec fn call_of(json: Json) -> Option<ToolCallParamsView> {
    let name = string_of(wire_member(json, "name"@, 0));
    let arguments = wire_member(json, "arguments"@, 1);
    if !is_record(json, 2) || name is None || arguments is None {
        None
    } else {
        Some(ToolCallParamsView { name: name->0, arguments: arguments->0 })
    }
}

/// A call that is written down is read back as it was.
pub proof fn lemma_calls_round_trip(params: ToolCallParamsView)
    ensures
        call_of(call_json(params)) == Some(params),
{
    reveal_strlit("name");
    reveal_strlit("arguments");
    assert("name"@.len() == 4 && "arguments"@.len() == 9);
}

impl ToolCallParams {
    /// The call as a value.
    pub fn to_json(&self) -> (res: JsonValue)
        ensures
            res.deep_view() == call_json(self.deep_view()),
    {
        let mut members = no_members();
        put(&mut members, "name", JsonValue::string(&self.name));
        put(&mut members, "arguments", self.arguments.clone());
        object(members)
    }

    /// A call, as a value describes it.
    pub fn from_json(value: &JsonValue) -> (res: Option<Self>)
        ensures
            res.deep_view() == call_of(value.deep_view()),
    {
        if !is_record_value(value, 2) {
            return None;
        }
        let name = match get_text(value, "name", 0) {
            Some(name) => name,
            None => {
                return None;
            },
        };
        match get_member(value, "arguments", 1) {
            Some(arguments) => Some(ToolCallParams { name, arguments: arguments.clone() }),
            None => None,
        }
    }
}

/// What a call came to, as a value describes it.
pub open spec fn call_result_of(json: Json) -> Option<ToolCallResultView> {
    let content = string_of(wire_member(json, "content"@, 0));
    let is_error = switch_of(wire_member(json, "isError"@, 1));
    if !is_record(json, 2) || content is None || is_error is None {
        None
    } else {
        Some(ToolCallResultView { content: content->0, is_error: is_error->0 })
    }
}

/// What a call came to, as a value.
pub open spec fn call_result_json(result: ToolCallResultView) -> Json {
    Json::Object(
        Map::<Seq<char>, Json>::empty().insert("content"@, Json::Text(result.content)).insert(
            "isError"@,
            Json::Bool(result.is_error),
        ),
    )
}

/// A result that is written down is read back as it was.
pub proof fn lemma_call_results_round_trip(result: ToolCallResultView)
    ensures
        call_result_of(call_result_json(result)) == Some(result),
{
    reveal_strlit("content");
    reveal_strlit("isError");
    assert("content"@[0] != "isError"@[0]);
}

impl ToolCallResult {
    /// What a call came to, as a value describes it.
    pub fn from_json(value: &JsonValue) -> (res: Option<Self>)
        ensures
            res.deep_view() == call_result_of(value.deep_view()),
    {
        if !is_record_value(value, 2) {
            return None;
        }
        match (get_text(value, "content", 0), get_switch(value, "isError", 1)) {
            (Some(content), Some(is_error)) => Some(ToolCallResult { content, is_error }),
            _ => None,
        }
    }

    /// What a call came to, as a value.
    pub fn to_json(&self) -> (res: JsonValue)
        ensures
            res.deep_view() == call_result_json(self.deep_view()),
    {
        let mut members = no_members();
        put(&mut members, "content", JsonValue::string(&self.content));
        put(&mut members, "isError", JsonValue::Bool(self.is_error));
        object(members)
    }
}

} // verus!
