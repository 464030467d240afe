//! What the agent passes on of a response and of a tool while they come, and what it makes of
//! their end.

use crate::agent::event::{agent_event_from_model, forwarded, AgentEvent, AgentEventView};
use crate::agent::turn::{skipped_result, TOOL_CANCELLED_TEXT};
use crate::json::{json_parsed, Json, JsonValue};
use crate::model::message::{
    ModelEvent, ModelEventView, ModelResponse, ModelResponseView, ModelToolCall, ProviderError,
    ProviderErrorView,
};
use crate::text::concat;
use crate::tools::{
    failed_result, tool_error_text, ToolError, ToolErrorView, ToolEvent, ToolEventView,
    ToolExecutionMetadata, ToolExecutionResult, ToolExecutionResultView,
};
use vstd::prelude::*;

verus! {

/// What was passed on of a response so far, as far as it matters for its end.
#[derive(Debug, PartialEq, Eq)]
pub struct ResponseForwarder {
    usage_seen: bool,
}

impl View for ResponseForwarder {
    type V = bool;

    closed spec fn view(&self) -> bool {
        self.usage_seen
    }
}

/// The events of a response as they are passed on: each in its place, and the usage that the
/// response brings where no event did.
pub open spec fn passed_on(events: Seq<ModelEventView>, response: ModelResponseView) -> Seq<
    AgentEventView,
> {
    let passed = events.map_values(|event: ModelEventView| forwarded(event));
    match response.usage {
        Some(usage) => if has_usage(events) {
            passed
        } else {
            passed.push(AgentEventView::UsageUpdated(usage))
        },
        None => passed,
    }
}

/// Some event tells the usage.
pub open spec fn has_usage(events: Seq<ModelEventView>) -> bool {
    exists|i: int| 0 <= i < events.len() && (#[trigger] events[i]) is UsageUpdated
}

/// Where a response tells its usage, so does what is passed on of it.
pub proof fn lemma_usage_is_passed_on(events: Seq<ModelEventView>, response: ModelResponseView)
    requires
        response.usage is Some,
    ensures
        exists|i: int|
            0 <= i < passed_on(events, response).len() && (#[trigger] passed_on(
                events,
                response,
            )[i]) is UsageUpdated,
{
    let passed = passed_on(events, response);
    if has_usage(events) {
        let i = choose|i: int| 0 <= i < events.len() && (#[trigger] events[i]) is UsageUpdated;
        assert(passed[i] == forwarded(events[i]));
        assert(passed[i] is UsageUpdated);
    } else {
        assert(passed[passed.len() - 1] is UsageUpdated);
    }
}

impl ResponseForwarder {
    /// Nothing has come yet.
    pub fn new() -> (res: Self)
        ensures
            !res@,
    {
        ResponseForwarder { usage_seen: false }
    }

    /// Passes an event on.
    pub fn forward(&mut self, event: ModelEvent) -> (res: AgentEvent)
        ensures
            res.deep_view() == forwarded(event.deep_view()),
            final(self)@ == (old(self)@ || event.deep_view() is UsageUpdated),
    {
        if let ModelEvent::UsageUpdated(_) = &event {
            self.usage_seen = true;
        }
        agent_event_from_model(event)
    }

    /// What is passed on at the end: the usage of the response, where no event told it.
    pub fn finish(&self, response: &ModelResponse) -> (res: Option<AgentEvent>)
        ensures
            res.deep_view() == (match response.deep_view().usage {
                Some(usage) => if self@ {
                    None
                } else {
                    Some(AgentEventView::UsageUpdated(usage))
                },
                None => None,
            }),
    {
        match response.usage {
            Some(usage) => if self.usage_seen {
                None
            } else {
                Some(AgentEvent::UsageUpdated(usage))
            },
            None => None,
        }
    }
}

/// Where the task of a provider failed itself.
pub fn provider_task_failed(error: &str) -> (res: ProviderError)
    ensures
        res.deep_view() == (ProviderErrorView::Failed {
            message: "provider task failed: "@ + error@,
        }),
{
    ProviderError::Failed { message: concat("provider task failed: ", error) }
}

// ---- tools ----

/// The arguments of a call, or the failure that they are.
pub open spec fn arguments_of(text: Seq<char>) -> Result<Json, ToolExecutionResultView> {
    match json_parsed(text) {
        Ok(json) => Ok(json),
        Err(message) => Err(failed_result("Tool error: invalid JSON arguments: "@ + message)),
    }
}

/// The arguments of a call, or the failure that they are.
pub fn tool_arguments(call: &ModelToolCall) -> (res: Result<JsonValue, ToolExecutionResult>)
    ensures
        match (res, arguments_of(call.deep_view().arguments)) {
            (Ok(value), Ok(expected)) => value.deep_view() == expected,
            (Err(result), Err(expected)) => result.deep_view() == expected,
            _ => false,
        },
{
    match JsonValue::parse(&call.arguments) {
        Ok(value) => Ok(value),
        Err(message) => Err(invalid_arguments(&message)),
    }
}

/// The failure that arguments are which are no JSON, for the reason given.
pub fn invalid_arguments(message: &str) -> (res: ToolExecutionResult)
    ensures
        res.deep_view() == failed_result("Tool error: invalid JSON arguments: "@ + message@),
{
    ToolExecutionResult::failure(&concat("Tool error: invalid JSON arguments: ", message))
}

/// The result of a tool that failed: it counts as cancelled where the turn was.
pub open spec fn error_result(error: ToolErrorView, cancelled: bool) -> ToolExecutionResultView {
    if error is Cancelled || cancelled {
        skipped_result()
    } else {
        failed_result("Tool error: "@ + tool_error_text(error))
    }
}

/// The result of a tool that failed.
pub fn tool_error_result(error: &ToolError, cancelled: bool) -> (res: ToolExecutionResult)
    ensures
        res.deep_view() == error_result(error.deep_view(), cancelled),
{
    let stopped = match error {
        ToolError::Cancelled => true,
        _ => false,
    };
    if stopped || cancelled {
        ToolExecutionResult {
            model_content: TOOL_CANCELLED_TEXT.to_owned(),
            metadata: ToolExecutionMetadata { success: false, cancelled: true, truncated: false },
        }
    } else {
        ToolExecutionResult::failure(&concat("Tool error: ", &error.to_text()))
    }
}

/// The result of a tool whose task failed itself.
pub fn tool_task_failed(error: &str) -> (res: ToolExecutionResult)
    ensures
        res.deep_view() == failed_result("Tool error: internal tool task failed: "@ + error@),
{
    ToolExecutionResult::failure(&concat("Tool error: internal tool task failed: ", error))
}

/// What is passed on of a tool while it runs.
pub fn forward_tool_event(call_id: &str, event: ToolEvent) -> (res: AgentEvent)
    ensures
        res.deep_view() == (match event.deep_view() {
            ToolEventView::Output { stream, chunk } => AgentEventView::ToolExecutionOutput {
                call_id: call_id@,
                stream,
                chunk,
            },
        }),
{
    match event {
        ToolEvent::Output { stream, chunk } => AgentEvent::ToolExecutionOutput {
            call_id: call_id.to_owned(),
            stream,
            chunk,
        },
    }
}

} // verus!
