//! Messages, requests, events and responses of a model.

use crate::json::{clone_members, object_of, Json, JsonMember, JsonValue};
use crate::text::{concat, concat3, decimal, decimal_text};
use vstd::prelude::*;

verus! {

/// Why a response ended.
#[derive(Clone, Copy, Debug, PartialEq, Eq, Structural)]
pub enum StopReason {
    Stop,
    ToolCalls,
    Length,
    ContentFilter,
    Incomplete,
    Cancelled,
    Error,
}

/// Token counts that a provider reported.
#[derive(Clone, Copy, Debug, PartialEq, Eq)]
pub struct Usage {
    pub input_tokens: Option<u64>,
    pub output_tokens: Option<u64>,
    pub total_tokens: Option<u64>,
    pub cache_read_tokens: Option<u64>,
    pub cache_write_tokens: Option<u64>,
}

/// The token limits of a model, where they are known.
#[derive(Clone, Copy, Debug, PartialEq, Eq)]
pub struct ModelLimits {
    pub context_window: Option<u64>,
    pub max_output_tokens: Option<u64>,
}

impl Default for Usage {
    fn default() -> (res: Self)
        ensures
            res == (Usage {
                input_tokens: None,
                output_tokens: None,
                total_tokens: None,
                cache_read_tokens: None,
                cache_write_tokens: None,
            }),
    {
        Usage {
            input_tokens: None,
            output_tokens: None,
            total_tokens: None,
            cache_read_tokens: None,
            cache_write_tokens: None,
        }
    }
}

impl Default for ModelLimits {
    fn default() -> (res: Self)
        ensures
            res == (ModelLimits { context_window: None, max_output_tokens: None }),
    {
        ModelLimits { context_window: None, max_output_tokens: None }
    }
}

/// Reasoning that a model returned.
#[derive(Debug, PartialEq, Eq)]
pub struct ModelThinking {
    /// The Responses reasoning item identifier, when the provider supplies one.
    pub item_id: Option<String>,
    pub summary: String,
    pub content: String,
    /// Opaque provider-returned state required to replay encrypted reasoning.
    pub encrypted_content: Option<String>,
}

/// What a [`ModelThinking`] holds.
#[verifier::ext_equal]
pub struct ModelThinkingView {
    pub item_id: Option<Seq<char>>,
    pub summary: Seq<char>,
    pub content: Seq<char>,
    pub encrypted_content: Option<Seq<char>>,
}

impl DeepView for ModelThinking {
    type V = ModelThinkingView;

    open spec fn deep_view(&self) -> ModelThinkingView {
        ModelThinkingView {
            item_id: self.item_id.deep_view(),
            summary: self.summary.deep_view(),
            content: self.content.deep_view(),
            encrypted_content: self.encrypted_content.deep_view(),
        }
    }
}

impl Clone for ModelThinking {
    fn clone(&self) -> (res: Self)
        ensures
            res.deep_view() == self.deep_view(),
    {
        let res = ModelThinking {
            item_id: self.item_id.clone(),
            summary: self.summary.clone(),
            content: self.content.clone(),
            encrypted_content: self.encrypted_content.clone(),
        };
        assert(res.deep_view() =~~= self.deep_view());
        res
    }
}

/// A call of a tool that a model asked for.
#[derive(Debug, PartialEq, Eq)]
pub struct ModelToolCall {
    pub index: usize,
    /// The callable tool identifier (`call_...` for Responses API calls).
    pub call_id: Option<String>,
    /// The output item identifier (`fc_...` for Responses API calls).
    pub item_id: Option<String>,
    pub name: Option<String>,
    pub arguments: String,
}

/// What a [`ModelToolCall`] holds.
#[verifier::ext_equal]
pub struct ModelToolCallView {
    pub index: usize,
    pub call_id: Option<Seq<char>>,
    pub item_id: Option<Seq<char>>,
    pub name: Option<Seq<char>>,
    pub arguments: Seq<char>,
}

impl DeepView for ModelToolCall {
    type V = ModelToolCallView;

    open spec fn deep_view(&self) -> ModelToolCallView {
        ModelToolCallView {
            index: self.index,
            call_id: self.call_id.deep_view(),
            item_id: self.item_id.deep_view(),
            name: self.name.deep_view(),
            arguments: self.arguments.deep_view(),
        }
    }
}

impl Clone for ModelToolCall {
    fn clone(&self) -> (res: Self)
        ensures
            res.deep_view() == self.deep_view(),
    {
        let res = ModelToolCall {
            index: self.index,
            call_id: self.call_id.clone(),
            item_id: self.item_id.clone(),
            name: self.name.clone(),
            arguments: self.arguments.clone(),
        };
        assert(res.deep_view() =~~= self.deep_view());
        res
    }
}

/// One item of an assistant message.
#[derive(Debug, PartialEq, Eq)]
pub enum ModelAssistantItem {
    Text { content: String },
    Refusal { content: String },
    Reasoning(ModelThinking),
    ToolCall(ModelToolCall),
}

/// What a [`ModelAssistantItem`] holds.
#[verifier::ext_equal]
pub enum ModelAssistantItemView {
    Text { content: Seq<char> },
    Refusal { content: Seq<char> },
    Reasoning(ModelThinkingView),
    ToolCall(ModelToolCallView),
}

impl DeepView for ModelAssistantItem {
    type V = ModelAssistantItemView;

    open spec fn deep_view(&self) -> ModelAssistantItemView {
        match self {
            ModelAssistantItem::Text { content } => ModelAssistantItemView::Text {
                content: content.deep_view(),
            },
            ModelAssistantItem::Refusal { content } => ModelAssistantItemView::Refusal {
                content: content.deep_view(),
            },
            ModelAssistantItem::Reasoning(value) => ModelAssistantItemView::Reasoning(value.deep_view()),
            ModelAssistantItem::ToolCall(value) => ModelAssistantItemView::ToolCall(value.deep_view()),
        }
    }
}

impl Clone for ModelAssistantItem {
    fn clone(&self) -> (res: Self)
        ensures
            res.deep_view() == self.deep_view(),
    {
        let res = match self {
            ModelAssistantItem::Text { content } => ModelAssistantItem::Text {
                content: content.clone(),
            },
            ModelAssistantItem::Refusal { content } => ModelAssistantItem::Refusal {
                content: content.clone(),
            },
            ModelAssistantItem::Reasoning(value) => ModelAssistantItem::Reasoning(value.clone()),
            ModelAssistantItem::ToolCall(value) => ModelAssistantItem::ToolCall(value.clone()),
        };
        assert(res.deep_view() =~~= self.deep_view());
        res
    }
}

/// One message of a conversation.
#[derive(Debug, PartialEq, Eq)]
pub enum ModelMessage {
    System { content: String },
    Developer { content: String },
    User { content: String },
    Assistant { items: Vec<ModelAssistantItem> },
    ToolResult { tool_call_id: String, tool_name: String, content: String },
}

/// What a [`ModelMessage`] holds.
#[verifier::ext_equal]
pub enum ModelMessageView {
    System { content: Seq<char> },
    Developer { content: Seq<char> },
    User { content: Seq<char> },
    Assistant { items: Seq<ModelAssistantItemView> },
    ToolResult { tool_call_id: Seq<char>, tool_name: Seq<char>, content: Seq<char> },
}

impl DeepView for ModelMessage {
    type V = ModelMessageView;

    open spec fn deep_view(&self) -> ModelMessageView {
        match self {
            ModelMessage::System { content } => ModelMessageView::System {
                content: content.deep_view(),
            },
            ModelMessage::Developer { content } => ModelMessageView::Developer {
                content: content.deep_view(),
            },
            ModelMessage::User { content } => ModelMessageView::User {
                content: content.deep_view(),
            },
            ModelMessage::Assistant { items } => ModelMessageView::Assistant {
                items: items.deep_view(),
            },
            ModelMessage::ToolResult { tool_call_id, tool_name, content } => ModelMessageView::ToolResult {
                tool_call_id: tool_call_id.deep_view(),
                tool_name: tool_name.deep_view(),
                content: content.deep_view(),
            },
        }
    }
}

impl Clone for ModelMessage {
    fn clone(&self) -> (res: Self)
        ensures
            res.deep_view() == self.deep_view(),
    {
        let res = match self {
            ModelMessage::System { content } => ModelMessage::System {
                content: content.clone(),
            },
            ModelMessage::Developer { content } => ModelMessage::Developer {
                content: content.clone(),
            },
            ModelMessage::User { content } => ModelMessage::User {
                content: content.clone(),
            },
            ModelMessage::Assistant { items } => ModelMessage::Assistant {
                items: items.clone(),
            },
            ModelMessage::ToolResult { tool_call_id, tool_name, content } => ModelMessage::ToolResult {
                tool_call_id: tool_call_id.clone(),
                tool_name: tool_name.clone(),
                content: content.clone(),
            },
        };
        assert(res.deep_view() =~~= self.deep_view());
        res
    }
}

/// A tool as it is offered to a model.
#[derive(Debug, PartialEq, Eq)]
pub struct ToolDefinition {
    pub name: String,
    pub description: Option<String>,
    pub parameters: JsonValue,
}

/// What a [`ToolDefinition`] holds.
#[verifier::ext_equal]
pub struct ToolDefinitionView {
    pub name: Seq<char>,
    pub description: Option<Seq<char>>,
    pub parameters: Json,
}

impl DeepView for ToolDefinition {
    type V = ToolDefinitionView;

    open spec fn deep_view(&self) -> ToolDefinitionView {
        ToolDefinitionView {
            name: self.name.deep_view(),
            description: self.description.deep_view(),
            parameters: self.parameters.deep_view(),
        }
    }
}

impl Clone for ToolDefinition {
    fn clone(&self) -> (res: Self)
        ensures
            res.deep_view() == self.deep_view(),
    {
        let res = ToolDefinition {
            name: self.name.clone(),
            description: self.description.clone(),
            parameters: self.parameters.clone(),
        };
        assert(res.deep_view() =~~= self.deep_view());
        res
    }
}

/// What a provider reports while a response streams in.
#[allow(inconsistent_fields)]
#[derive(Debug, PartialEq, Eq)]
pub enum ModelEvent {
    AssistantTextDelta { index: Option<usize>, text: String },
    AssistantTextItem { index: usize, content: Option<String> },
    AssistantRefusalDelta { index: Option<usize>, text: String },
    AssistantRefusalItem { index: usize, content: Option<String> },
    AssistantThinkingDelta { item_id: Option<String>, text: String },
    AssistantThinkingContentDelta { item_id: Option<String>, text: String },
    AssistantThinkingItem { index: usize, item_id: Option<String>, summary: Option<String>, content: Option<String>, encrypted_content: Option<String> },
    ToolCallDelta { index: usize, call_id: Option<String>, item_id: Option<String>, name: Option<String>, arguments: String, arguments_complete: bool },
    UsageUpdated(Usage),
}

/// What a [`ModelEvent`] holds.
#[allow(inconsistent_fields)]
#[verifier::ext_equal]
pub enum ModelEventView {
    AssistantTextDelta { index: Option<usize>, text: Seq<char> },
    AssistantTextItem { index: usize, content: Option<Seq<char>> },
    AssistantRefusalDelta { index: Option<usize>, text: Seq<char> },
    AssistantRefusalItem { index: usize, content: Option<Seq<char>> },
    AssistantThinkingDelta { item_id: Option<Seq<char>>, text: Seq<char> },
    AssistantThinkingContentDelta { item_id: Option<Seq<char>>, text: Seq<char> },
    AssistantThinkingItem { index: usize, item_id: Option<Seq<char>>, summary: Option<Seq<char>>, content: Option<Seq<char>>, encrypted_content: Option<Seq<char>> },
    ToolCallDelta { index: usize, call_id: Option<Seq<char>>, item_id: Option<Seq<char>>, name: Option<Seq<char>>, arguments: Seq<char>, arguments_complete: bool },
    UsageUpdated(Usage),
}

impl DeepView for ModelEvent {
    type V = ModelEventView;

    open spec fn deep_view(&self) -> ModelEventView {
        match self {
            ModelEvent::AssistantTextDelta { index, text } => ModelEventView::AssistantTextDelta {
                index: *index,
                text: text.deep_view(),
            },
            ModelEvent::AssistantTextItem { index, content } => ModelEventView::AssistantTextItem {
                index: *index,
                content: content.deep_view(),
            },
            ModelEvent::AssistantRefusalDelta { index, text } => ModelEventView::AssistantRefusalDelta {
                index: *index,
                text: text.deep_view(),
            },
            ModelEvent::AssistantRefusalItem { index, content } => ModelEventView::AssistantRefusalItem {
                index: *index,
                content: content.deep_view(),
            },
            ModelEvent::AssistantThinkingDelta { item_id, text } => ModelEventView::AssistantThinkingDelta {
                item_id: item_id.deep_view(),
                text: text.deep_view(),
            },
            ModelEvent::AssistantThinkingContentDelta { item_id, text } => ModelEventView::AssistantThinkingContentDelta {
                item_id: item_id.deep_view(),
                text: text.deep_view(),
            },
            ModelEvent::AssistantThinkingItem { index, item_id, summary, content, encrypted_content } => ModelEventView::AssistantThinkingItem {
                index: *index,
                item_id: item_id.deep_view(),
                summary: summary.deep_view(),
                content: content.deep_view(),
                encrypted_content: encrypted_content.deep_view(),
            },
            ModelEvent::ToolCallDelta { index, call_id, item_id, name, arguments, arguments_complete } => ModelEventView::ToolCallDelta {
                index: *index,
                call_id: call_id.deep_view(),
                item_id: item_id.deep_view(),
                name: name.deep_view(),
                arguments: arguments.deep_view(),
                arguments_complete: *arguments_complete,
            },
            ModelEvent::UsageUpdated(value) => ModelEventView::UsageUpdated(*value),
        }
    }
}

impl Clone for ModelEvent {
    fn clone(&self) -> (res: Self)
        ensures
            res.deep_view() == self.deep_view(),
    {
        let res = match self {
            ModelEvent::AssistantTextDelta { index, text } => ModelEvent::AssistantTextDelta {
                index: *index,
                text: text.clone(),
            },
            ModelEvent::AssistantTextItem { index, content } => ModelEvent::AssistantTextItem {
                index: *index,
                content: content.clone(),
            },
            ModelEvent::AssistantRefusalDelta { index, text } => ModelEvent::AssistantRefusalDelta {
                index: *index,
                text: text.clone(),
            },
            ModelEvent::AssistantRefusalItem { index, content } => ModelEvent::AssistantRefusalItem {
                index: *index,
                content: content.clone(),
            },
            ModelEvent::AssistantThinkingDelta { item_id, text } => ModelEvent::AssistantThinkingDelta {
                item_id: item_id.clone(),
                text: text.clone(),
            },
            ModelEvent::AssistantThinkingContentDelta { item_id, text } => ModelEvent::AssistantThinkingContentDelta {
                item_id: item_id.clone(),
                text: text.clone(),
            },
            ModelEvent::AssistantThinkingItem { index, item_id, summary, content, encrypted_content } => ModelEvent::AssistantThinkingItem {
                index: *index,
                item_id: item_id.clone(),
                summary: summary.clone(),
                content: content.clone(),
                encrypted_content: encrypted_content.clone(),
            },
            ModelEvent::ToolCallDelta { index, call_id, item_id, name, arguments, arguments_complete } => ModelEvent::ToolCallDelta {
                index: *index,
                call_id: call_id.clone(),
                item_id: item_id.clone(),
                name: name.clone(),
                arguments: arguments.clone(),
                arguments_complete: *arguments_complete,
            },
            ModelEvent::UsageUpdated(value) => ModelEvent::UsageUpdated(*value),
        };
        assert(res.deep_view() =~~= self.deep_view());
        res
    }
}

/// A complete response of a model.
#[derive(Debug, PartialEq, Eq)]
pub struct ModelResponse {
    pub items: Vec<ModelAssistantItem>,
    pub stop_reason: StopReason,
    pub usage: Option<Usage>,
}

/// What a [`ModelResponse`] holds.
#[verifier::ext_equal]
pub struct ModelResponseView {
    pub items: Seq<ModelAssistantItemView>,
    pub stop_reason: StopReason,
    pub usage: Option<Usage>,
}

impl DeepView for ModelResponse {
    type V = ModelResponseView;

    open spec fn deep_view(&self) -> ModelResponseView {
        ModelResponseView {
            items: self.items.deep_view(),
            stop_reason: self.stop_reason,
            usage: self.usage,
        }
    }
}

impl Clone for ModelResponse {
    fn clone(&self) -> (res: Self)
        ensures
            res.deep_view() == self.deep_view(),
    {
        let res = ModelResponse {
            items: self.items.clone(),
            stop_reason: self.stop_reason,
            usage: self.usage,
        };
        assert(res.deep_view() =~~= self.deep_view());
        res
    }
}

/// Why a provider gave no response.
#[derive(Debug, PartialEq, Eq)]
pub enum ProviderError {
    Cancelled,
    Failed { message: String },
    ContextOverflow { message: String },
    Http { status: u16, message: String },
    Malformed { message: String },
}

/// What a [`ProviderError`] holds.
#[verifier::ext_equal]
pub enum ProviderErrorView {
    Cancelled,
    Failed { message: Seq<char> },
    ContextOverflow { message: Seq<char> },
    Http { status: u16, message: Seq<char> },
    Malformed { message: Seq<char> },
}

impl DeepView for ProviderError {
    type V = ProviderErrorView;

    open spec fn deep_view(&self) -> ProviderErrorView {
        match self {
            ProviderError::Cancelled => ProviderErrorView::Cancelled,
            ProviderError::Failed { message } => ProviderErrorView::Failed {
                message: message.deep_view(),
            },
            ProviderError::ContextOverflow { message } => ProviderErrorView::ContextOverflow {
                message: message.deep_view(),
            },
            ProviderError::Http { status, message } => ProviderErrorView::Http {
                status: *status,
                message: message.deep_view(),
            },
            ProviderError::Malformed { message } => ProviderErrorView::Malformed {
                message: message.deep_view(),
            },
        }
    }
}

impl Clone for ProviderError {
    fn clone(&self) -> (res: Self)
        ensures
            res.deep_view() == self.deep_view(),
    {
        let res = match self {
            ProviderError::Cancelled => ProviderError::Cancelled,
            ProviderError::Failed { message } => ProviderError::Failed {
                message: message.clone(),
            },
            ProviderError::ContextOverflow { message } => ProviderError::ContextOverflow {
                message: message.clone(),
            },
            ProviderError::Http { status, message } => ProviderError::Http {
                status: *status,
                message: message.clone(),
            },
            ProviderError::Malformed { message } => ProviderError::Malformed {
                message: message.clone(),
            },
        };
        assert(res.deep_view() =~~= self.deep_view());
        res
    }
}


/// What is asked of a model.
#[derive(Debug, PartialEq, Eq)]
pub struct ModelRequest {
    pub messages: Vec<ModelMessage>,
    pub tools: Vec<ToolDefinition>,
    pub max_tokens: Option<u64>,
    pub reasoning_effort: Option<String>,
    pub sampling_params: Vec<JsonMember>,
}

/// What a [`ModelRequest`] holds.
#[verifier::ext_equal]
pub struct ModelRequestView {
    pub messages: Seq<ModelMessageView>,
    pub tools: Seq<ToolDefinitionView>,
    pub max_tokens: Option<u64>,
    pub reasoning_effort: Option<Seq<char>>,
    pub sampling_params: Map<Seq<char>, Json>,
}

impl DeepView for ModelRequest {
    type V = ModelRequestView;

    open spec fn deep_view(&self) -> ModelRequestView {
        ModelRequestView {
            messages: self.messages.deep_view(),
            tools: self.tools.deep_view(),
            max_tokens: self.max_tokens,
            reasoning_effort: self.reasoning_effort.deep_view(),
            sampling_params: object_of(self.sampling_params@),
        }
    }
}

impl Clone for ModelRequest {
    fn clone(&self) -> (res: Self)
        ensures
            res.deep_view() == self.deep_view(),
    {
        let res = ModelRequest {
            messages: self.messages.clone(),
            tools: self.tools.clone(),
            max_tokens: self.max_tokens,
            reasoning_effort: self.reasoning_effort.clone(),
            sampling_params: clone_members(&self.sampling_params),
        };
        assert(res.messages.deep_view() =~= self.messages.deep_view());
        assert(res.tools.deep_view() =~= self.tools.deep_view());
        res
    }
}

/// The empty reasoning.
impl Default for ModelThinking {
    fn default() -> (res: Self)
        ensures
            res.deep_view() == (ModelThinkingView {
                item_id: None,
                summary: Seq::empty(),
                content: Seq::empty(),
                encrypted_content: None,
            }),
    {
        ModelThinking {
            item_id: None,
            summary: String::new(),
            content: String::new(),
            encrypted_content: None,
        }
    }
}

/// A call with nothing known of it, at index 0.
impl Default for ModelToolCall {
    fn default() -> (res: Self)
        ensures
            res.deep_view() == (ModelToolCallView {
                index: 0,
                call_id: None,
                item_id: None,
                name: None,
                arguments: Seq::empty(),
            }),
    {
        ModelToolCall {
            index: 0,
            call_id: None,
            item_id: None,
            name: None,
            arguments: String::new(),
        }
    }
}

impl ModelMessage {
    /// A message of the user.
    pub fn user(content: &str) -> (res: Self)
        ensures
            res.deep_view() == (ModelMessageView::User { content: content@ }),
    {
        ModelMessage::User { content: content.to_owned() }
    }
}

/// The text of the last message of the user, empty where there is none.
pub open spec fn last_user_text(messages: Seq<ModelMessageView>) -> Seq<char>
    decreases messages.len(),
{
    if messages.len() == 0 {
        Seq::empty()
    } else {
        match messages.last() {
            ModelMessageView::User { content } => content,
            _ => last_user_text(messages.drop_last()),
        }
    }
}

impl ModelRequest {
    /// A request that holds one message of the user and nothing else.
    pub fn single_user(text: &str) -> (res: Self)
        ensures
            res.deep_view() == (ModelRequestView {
                messages: seq![ModelMessageView::User { content: text@ }],
                tools: Seq::empty(),
                max_tokens: None,
                reasoning_effort: None,
                sampling_params: Map::empty(),
            }),
    {
        let mut messages: Vec<ModelMessage> = Vec::new();
        messages.push(ModelMessage::user(text));
        let res = ModelRequest {
            messages,
            tools: Vec::new(),
            max_tokens: None,
            reasoning_effort: None,
            sampling_params: Vec::new(),
        };
        assert(res.messages.deep_view() =~= seq![ModelMessageView::User { content: text@ }]);
        assert(res.tools.deep_view() =~= Seq::<ToolDefinitionView>::empty());
        res
    }

    /// The text of the last message of the user, empty where there is none.
    pub fn last_user_message(&self) -> (res: &str)
        ensures
            res@ == last_user_text(self.deep_view().messages),
    {
        let ghost all = self.messages.deep_view();
        let mut i: usize = self.messages.len();
        assert(all.take(i as int) =~= all);
        while i > 0
            invariant
                i <= self.messages.len(),
                all == self.messages.deep_view(),
                last_user_text(all) == last_user_text(all.take(i as int)),
            decreases i,
        {
            i -= 1;
            assert(all.take(i + 1).drop_last() =~= all.take(i as int));
            assert(all.take(i + 1).last() == self.messages@[i as int].deep_view());
            if let ModelMessage::User { content } = &self.messages[i] {
                return content.as_str();
            }
        }
        proof {
            reveal_strlit("");
        }
        assert(""@ =~= Seq::<char>::empty());
        ""
    }
}

/// The message of an error, as a user reads it.
pub open spec fn provider_error_text(error: ProviderErrorView) -> Seq<char> {
    match error {
        ProviderErrorView::Cancelled => "model stream cancelled"@,
        ProviderErrorView::Failed { message } => "provider request failed: "@ + message,
        ProviderErrorView::ContextOverflow { message } => "provider context window exceeded: "@
            + message,
        ProviderErrorView::Http { status, message } => "provider returned HTTP "@ + decimal_text(
            status as nat,
        ) + ": "@ + message,
        ProviderErrorView::Malformed { message } => "provider returned malformed streaming data: "@
            + message,
    }
}

impl ProviderError {
    /// The message of the error, as a user reads it.
    pub fn to_text(&self) -> (res: String)
        ensures
            res@ == provider_error_text(self.deep_view()),
    {
        match self {
            ProviderError::Cancelled => "model stream cancelled".to_owned(),
            ProviderError::Failed { message } => concat("provider request failed: ", message),
            ProviderError::ContextOverflow { message } => concat(
                "provider context window exceeded: ",
                message,
            ),
            ProviderError::Http { status, message } => {
                let mut text = concat3("provider returned HTTP ", &decimal(*status as u64), ": ");
                text.append(message);
                text
            },
            ProviderError::Malformed { message } => concat(
                "provider returned malformed streaming data: ",
                message,
            ),
        }
    }
}

} // verus!
