//! What the agent reports.

use crate::config::{ModelRef, ModelRefView};
use crate::context::accounting::ContextUsage;
use crate::model::message::{
    ModelAssistantItem, ModelAssistantItemView, ModelEvent, ModelEventView, ModelLimits,
    ModelMessage, ModelMessageView, StopReason, Usage,
};
use crate::session::{SessionInfo, SessionInfoView};
use crate::tools::{ToolExecutionResult, ToolExecutionResultView, ToolOutputStream};
use vstd::prelude::*;

verus! {

/// An error that the agent reports.
#[derive(Debug, PartialEq, Eq)]
pub struct AgentError {
    pub message: String,
}

/// What a [`AgentError`] holds.
#[verifier::ext_equal]
pub struct AgentErrorView {
    pub message: Seq<char>,
}

impl DeepView for AgentError {
    type V = AgentErrorView;

    open spec fn deep_view(&self) -> AgentErrorView {
        AgentErrorView {
            message: self.message.deep_view(),
        }
    }
}

impl Clone for AgentError {
    fn clone(&self) -> (res: Self)
        ensures
            res.deep_view() == self.deep_view(),
    {
        let res = AgentError {
            message: self.message.clone(),
        };
        assert(res.deep_view() =~~= self.deep_view());
        res
    }
}

/// What the agent reports.
#[allow(inconsistent_fields)]
#[derive(Debug, PartialEq, Eq)]
pub enum AgentEvent {
    TurnStarted,
    SteeringMessageDelivered { text: String },
    SteeringMessagesRecovered { messages: Vec<String> },
    AssistantMessageStarted,
    AssistantTextDelta { index: Option<usize>, text: String },
    AssistantTextItem { index: usize, content: Option<String> },
    AssistantRefusalDelta { index: Option<usize>, text: String },
    AssistantRefusalItem { index: usize, content: Option<String> },
    AssistantThinkingDelta { item_id: Option<String>, text: String },
    AssistantThinkingContentDelta { item_id: Option<String>, text: String },
    AssistantThinkingItem { index: usize, item_id: Option<String>, summary: Option<String>, content: Option<String>, encrypted_content: Option<String> },
    ToolCallDelta { index: usize, call_id: Option<String>, item_id: Option<String>, name: Option<String>, arguments: String, arguments_complete: bool },
    AssistantMessageFinished { items: Vec<ModelAssistantItem> },
    ToolExecutionStarted { call_id: String, name: String, arguments: String },
    ToolExecutionOutput { call_id: String, stream: ToolOutputStream, chunk: String },
    ToolExecutionFinished { call_id: String, name: String, result: ToolExecutionResult },
    UsageUpdated(Usage),
    ContextUsageUpdated(ContextUsage),
    ContextLimitsUpdated(ModelLimits),
    CompactionStarted { automatic: bool },
    CompactionFinished { automatic: bool, before_tokens: u64, after_tokens: u64 },
    CompactionFailed { message: String },
    ModelChanged(ModelRef),
    SessionChanged { info: SessionInfo },
    SessionLoaded { info: SessionInfo, history: Vec<ModelMessage> },
    TurnFinished { reason: StopReason },
    Error(AgentError),
}

/// What a [`AgentEvent`] holds.
#[allow(inconsistent_fields)]
#[verifier::ext_equal]
pub enum AgentEventView {
    TurnStarted,
    SteeringMessageDelivered { text: Seq<char> },
    SteeringMessagesRecovered { messages: Seq<Seq<char>> },
    AssistantMessageStarted,
    AssistantTextDelta { index: Option<usize>, text: Seq<char> },
    AssistantTextItem { index: usize, content: Option<Seq<char>> },
    AssistantRefusalDelta { index: Option<usize>, text: Seq<char> },
    AssistantRefusalItem { index: usize, content: Option<Seq<char>> },
    AssistantThinkingDelta { item_id: Option<Seq<char>>, text: Seq<char> },
    AssistantThinkingContentDelta { item_id: Option<Seq<char>>, text: Seq<char> },
    AssistantThinkingItem { index: usize, item_id: Option<Seq<char>>, summary: Option<Seq<char>>, content: Option<Seq<char>>, encrypted_content: Option<Seq<char>> },
    ToolCallDelta { index: usize, call_id: Option<Seq<char>>, item_id: Option<Seq<char>>, name: Option<Seq<char>>, arguments: Seq<char>, arguments_complete: bool },
    AssistantMessageFinished { items: Seq<ModelAssistantItemView> },
    ToolExecutionStarted { call_id: Seq<char>, name: Seq<char>, arguments: Seq<char> },
    ToolExecutionOutput { call_id: Seq<char>, stream: ToolOutputStream, chunk: Seq<char> },
    ToolExecutionFinished { call_id: Seq<char>, name: Seq<char>, result: ToolExecutionResultView },
    UsageUpdated(Usage),
    ContextUsageUpdated(ContextUsage),
    ContextLimitsUpdated(ModelLimits),
    CompactionStarted { automatic: bool },
    CompactionFinished { automatic: bool, before_tokens: u64, after_tokens: u64 },
    CompactionFailed { message: Seq<char> },
    ModelChanged(ModelRefView),
    SessionChanged { info: SessionInfoView },
    SessionLoaded { info: SessionInfoView, history: Seq<ModelMessageView> },
    TurnFinished { reason: StopReason },
    Error(AgentErrorView),
}

impl DeepView for AgentEvent {
    type V = AgentEventView;

    open spec fn deep_view(&self) -> AgentEventView {
        match self {
            AgentEvent::TurnStarted => AgentEventView::TurnStarted,
            AgentEvent::SteeringMessageDelivered { text } => AgentEventView::SteeringMessageDelivered {
                text: text.deep_view(),
            },
            AgentEvent::SteeringMessagesRecovered { messages } => AgentEventView::SteeringMessagesRecovered {
                messages: messages.deep_view(),
            },
            AgentEvent::AssistantMessageStarted => AgentEventView::AssistantMessageStarted,
            AgentEvent::AssistantTextDelta { index, text } => AgentEventView::AssistantTextDelta {
                index: *index,
                text: text.deep_view(),
            },
            AgentEvent::AssistantTextItem { index, content } => AgentEventView::AssistantTextItem {
                index: *index,
                content: content.deep_view(),
            },
            AgentEvent::AssistantRefusalDelta { index, text } => AgentEventView::AssistantRefusalDelta {
                index: *index,
                text: text.deep_view(),
            },
            AgentEvent::AssistantRefusalItem { index, content } => AgentEventView::AssistantRefusalItem {
                index: *index,
                content: content.deep_view(),
            },
            AgentEvent::AssistantThinkingDelta { item_id, text } => AgentEventView::AssistantThinkingDelta {
                item_id: item_id.deep_view(),
                text: text.deep_view(),
            },
            AgentEvent::AssistantThinkingContentDelta { item_id, text } => AgentEventView::AssistantThinkingContentDelta {
                item_id: item_id.deep_view(),
                text: text.deep_view(),
            },
            AgentEvent::AssistantThinkingItem { index, item_id, summary, content, encrypted_content } => AgentEventView::AssistantThinkingItem {
                index: *index,
                item_id: item_id.deep_view(),
                summary: summary.deep_view(),
                content: content.deep_view(),
                encrypted_content: encrypted_content.deep_view(),
            },
            AgentEvent::ToolCallDelta { index, call_id, item_id, name, arguments, arguments_complete } => AgentEventView::ToolCallDelta {
                index: *index,
                call_id: call_id.deep_view(),
                item_id: item_id.deep_view(),
                name: name.deep_view(),
                arguments: arguments.deep_view(),
                arguments_complete: *arguments_complete,
            },
            AgentEvent::AssistantMessageFinished { items } => AgentEventView::AssistantMessageFinished {
                items: items.deep_view(),
            },
            AgentEvent::ToolExecutionStarted { call_id, name, arguments } => AgentEventView::ToolExecutionStarted {
                call_id: call_id.deep_view(),
                name: name.deep_view(),
                arguments: arguments.deep_view(),
            },
            AgentEvent::ToolExecutionOutput { call_id, stream, chunk } => AgentEventView::ToolExecutionOutput {
                call_id: call_id.deep_view(),
                stream: *stream,
                chunk: chunk.deep_view(),
            },
            AgentEvent::ToolExecutionFinished { call_id, name, result } => AgentEventView::ToolExecutionFinished {
                call_id: call_id.deep_view(),
                name: name.deep_view(),
                result: result.deep_view(),
            },
            AgentEvent::UsageUpdated(value) => AgentEventView::UsageUpdated(*value),
            AgentEvent::ContextUsageUpdated(value) => AgentEventView::ContextUsageUpdated(*value),
            AgentEvent::ContextLimitsUpdated(value) => AgentEventView::ContextLimitsUpdated(*value),
            AgentEvent::CompactionStarted { automatic } => AgentEventView::CompactionStarted {
                automatic: *automatic,
            },
            AgentEvent::CompactionFinished { automatic, before_tokens, after_tokens } => AgentEventView::CompactionFinished {
                automatic: *automatic,
                before_tokens: *before_tokens,
                after_tokens: *after_tokens,
            },
            AgentEvent::CompactionFailed { message } => AgentEventView::CompactionFailed {
                message: message.deep_view(),
            },
            AgentEvent::ModelChanged(value) => AgentEventView::ModelChanged(value.deep_view()),
            AgentEvent::SessionChanged { info } => AgentEventView::SessionChanged {
                info: info.deep_view(),
            },
            AgentEvent::SessionLoaded { info, history } => AgentEventView::SessionLoaded {
                info: info.deep_view(),
                history: history.deep_view(),
            },
            AgentEvent::TurnFinished { reason } => AgentEventView::TurnFinished {
                reason: *reason,
            },
            AgentEvent::Error(value) => AgentEventView::Error(value.deep_view()),
        }
    }
}

impl Clone for AgentEvent {
    fn clone(&self) -> (res: Self)
        ensures
            res.deep_view() == self.deep_view(),
    {
        let res = match self {
            AgentEvent::TurnStarted => AgentEvent::TurnStarted,
            AgentEvent::SteeringMessageDelivered { text } => AgentEvent::SteeringMessageDelivered {
                text: text.clone(),
            },
            AgentEvent::SteeringMessagesRecovered { messages } => AgentEvent::SteeringMessagesRecovered {
                messages: messages.clone(),
            },
            AgentEvent::AssistantMessageStarted => AgentEvent::AssistantMessageStarted,
            AgentEvent::AssistantTextDelta { index, text } => AgentEvent::AssistantTextDelta {
                index: *index,
                text: text.clone(),
            },
            AgentEvent::AssistantTextItem { index, content } => AgentEvent::AssistantTextItem {
                index: *index,
                content: content.clone(),
            },
            AgentEvent::AssistantRefusalDelta { index, text } => AgentEvent::AssistantRefusalDelta {
                index: *index,
                text: text.clone(),
            },
            AgentEvent::AssistantRefusalItem { index, content } => AgentEvent::AssistantRefusalItem {
                index: *index,
                content: content.clone(),
            },
            AgentEvent::AssistantThinkingDelta { item_id, text } => AgentEvent::AssistantThinkingDelta {
                item_id: item_id.clone(),
                text: text.clone(),
            },
            AgentEvent::AssistantThinkingContentDelta { item_id, text } => AgentEvent::AssistantThinkingContentDelta {
                item_id: item_id.clone(),
                text: text.clone(),
            },
            AgentEvent::AssistantThinkingItem { index, item_id, summary, content, encrypted_content } => AgentEvent::AssistantThinkingItem {
                index: *index,
                item_id: item_id.clone(),
                summary: summary.clone(),
                content: content.clone(),
                encrypted_content: encrypted_content.clone(),
            },
            AgentEvent::ToolCallDelta { index, call_id, item_id, name, arguments, arguments_complete } => AgentEvent::ToolCallDelta {
                index: *index,
                call_id: call_id.clone(),
                item_id: item_id.clone(),
                name: name.clone(),
                arguments: arguments.clone(),
                arguments_complete: *arguments_complete,
            },
            AgentEvent::AssistantMessageFinished { items } => AgentEvent::AssistantMessageFinished {
                items: items.clone(),
            },
            AgentEvent::ToolExecutionStarted { call_id, name, arguments } => AgentEvent::ToolExecutionStarted {
                call_id: call_id.clone(),
                name: name.clone(),
                arguments: arguments.clone(),
            },
            AgentEvent::ToolExecutionOutput { call_id, stream, chunk } => AgentEvent::ToolExecutionOutput {
                call_id: call_id.clone(),
                stream: *stream,
                chunk: chunk.clone(),
            },
            AgentEvent::ToolExecutionFinished { call_id, name, result } => AgentEvent::ToolExecutionFinished {
                call_id: call_id.clone(),
                name: name.clone(),
                result: result.clone(),
            },
            AgentEvent::UsageUpdated(value) => AgentEvent::UsageUpdated(*value),
            AgentEvent::ContextUsageUpdated(value) => AgentEvent::ContextUsageUpdated(*value),
            AgentEvent::ContextLimitsUpdated(value) => AgentEvent::ContextLimitsUpdated(*value),
            AgentEvent::CompactionStarted { automatic } => AgentEvent::CompactionStarted {
                automatic: *automatic,
            },
            AgentEvent::CompactionFinished { automatic, before_tokens, after_tokens } => AgentEvent::CompactionFinished {
                automatic: *automatic,
                before_tokens: *before_tokens,
                after_tokens: *after_tokens,
            },
            AgentEvent::CompactionFailed { message } => AgentEvent::CompactionFailed {
                message: message.clone(),
            },
            AgentEvent::ModelChanged(value) => AgentEvent::ModelChanged(value.clone()),
            AgentEvent::SessionChanged { info } => AgentEvent::SessionChanged {
                info: info.clone(),
            },
            AgentEvent::SessionLoaded { info, history } => AgentEvent::SessionLoaded {
                info: info.clone(),
                history: history.clone(),
            },
            AgentEvent::TurnFinished { reason } => AgentEvent::TurnFinished {
                reason: *reason,
            },
            AgentEvent::Error(value) => AgentEvent::Error(value.clone()),
        };
        assert(res.deep_view() =~~= self.deep_view());
        res
    }
}

impl AgentError {
    /// An error with this message.
    pub fn new(message: &str) -> (res: Self)
        ensures
            res.deep_view() == (AgentErrorView { message: message@ }),
    {
        AgentError { message: message.to_owned() }
    }
}

/// An event of a model as the agent passes it on: under the same name, with the same contents.
pub open spec fn forwarded(event: ModelEventView) -> AgentEventView {
    match event {
        ModelEventView::AssistantTextDelta { index, text } => AgentEventView::AssistantTextDelta {
            index,
            text,
        },
        ModelEventView::AssistantTextItem { index, content } => AgentEventView::AssistantTextItem {
            index,
            content,
        },
        ModelEventView::AssistantRefusalDelta { index, text } => AgentEventView::AssistantRefusalDelta {
            index,
            text,
        },
        ModelEventView::AssistantRefusalItem { index, content } => AgentEventView::AssistantRefusalItem {
            index,
            content,
        },
        ModelEventView::AssistantThinkingDelta { item_id, text } => AgentEventView::AssistantThinkingDelta {
            item_id,
            text,
        },
        ModelEventView::AssistantThinkingContentDelta { item_id, text } => AgentEventView::AssistantThinkingContentDelta {
            item_id,
            text,
        },
        ModelEventView::AssistantThinkingItem { index, item_id, summary, content, encrypted_content } => AgentEventView::AssistantThinkingItem {
            index,
            item_id,
            summary,
            content,
            encrypted_content,
        },
        ModelEventView::ToolCallDelta { index, call_id, item_id, name, arguments, arguments_complete } => AgentEventView::ToolCallDelta {
            index,
            call_id,
            item_id,
            name,
            arguments,
            arguments_complete,
        },
        ModelEventView::UsageUpdated(usage) => AgentEventView::UsageUpdated(usage),
    }
}

/// Passes an event of a model on.
pub fn agent_event_from_model(event: ModelEvent) -> (res: AgentEvent)
    ensures
        res.deep_view() == forwarded(event.deep_view()),
{
    match event {
        ModelEvent::AssistantTextDelta { index, text } => AgentEvent::AssistantTextDelta {
            index,
            text,
        },
        ModelEvent::AssistantTextItem { index, content } => AgentEvent::AssistantTextItem {
            index,
            content,
        },
        ModelEvent::AssistantRefusalDelta { index, text } => AgentEvent::AssistantRefusalDelta {
            index,
            text,
        },
        ModelEvent::AssistantRefusalItem { index, content } => AgentEvent::AssistantRefusalItem {
            index,
            content,
        },
        ModelEvent::AssistantThinkingDelta { item_id, text } => AgentEvent::AssistantThinkingDelta {
            item_id,
            text,
        },
        ModelEvent::AssistantThinkingContentDelta { item_id, text } => AgentEvent::AssistantThinkingContentDelta {
            item_id,
            text,
        },
        ModelEvent::AssistantThinkingItem { index, item_id, summary, content, encrypted_content } => AgentEvent::AssistantThinkingItem {
            index,
            item_id,
            summary,
            content,
            encrypted_content,
        },
        ModelEvent::ToolCallDelta { index, call_id, item_id, name, arguments, arguments_complete } => AgentEvent::ToolCallDelta {
            index,
            call_id,
            item_id,
            name,
            arguments,
            arguments_complete,
        },
        ModelEvent::UsageUpdated(usage) => AgentEvent::UsageUpdated(usage),
    }
}

} // verus!
