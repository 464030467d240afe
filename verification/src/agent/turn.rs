//! A turn: from a request of the user to the last reply, with the tools in between.

use crate::agent::compaction::{
    normal_request_with_effort, request_of, CompactionError, CompactionErrorView,
};
use crate::agent::event::{AgentError, AgentErrorView, AgentEvent, AgentEventView};
use crate::context::accounting::{
    automatic_compaction_threshold, compaction_threshold, estimate_request_tokens,
    estimated_usage, request_tokens, ContextUsage,
};
use crate::agent::steering::{SteeringInjection, SteeringInjectionView};
use crate::conversation::{provider_projection, ConversationHistory, ConversationHistoryView};
use crate::model::message::{
    provider_error_text, ModelAssistantItem, ModelAssistantItemView, ModelLimits, ModelMessage,
    ModelMessageView, ModelRequest, ModelRequestView, ModelResponse, ModelResponseView,
    ModelToolCall, ModelToolCallView, ProviderError, ProviderErrorView, StopReason,
    ToolDefinition, ToolDefinitionView,
};
use crate::session::{SessionInfo, SessionInfoView};
use crate::text::concat;
use crate::tools::{
    ToolExecutionMetadata, ToolExecutionResult, ToolExecutionResultView,
};
use vstd::prelude::*;

verus! {

/// What a model is told of a tool that the user cancelled.
pub const TOOL_CANCELLED_TEXT: &'static str = "Tool execution cancelled by user.";

/// What is said where nobody listens any more.
pub const EVENTS_CLOSED_TEXT: &'static str = "agent event stream closed";

/// What a message is that is being stored.
#[derive(Debug, PartialEq, Eq)]
pub enum StorePurpose {
    /// The request of the user.
    Request,
    /// A message that steers the turn.
    Steering(String),
    /// The reply of the model.
    Reply,
    /// The result of a tool.
    ToolResult,
    /// The result of a tool that was not run.
    Skipped,
}

/// What a [`StorePurpose`] holds.
#[verifier::ext_equal]
pub enum StorePurposeView {
    Request,
    Steering(Seq<char>),
    Reply,
    ToolResult,
    Skipped,
}

impl DeepView for StorePurpose {
    type V = StorePurposeView;

    open spec fn deep_view(&self) -> StorePurposeView {
        match self {
            StorePurpose::Request => StorePurposeView::Request,
            StorePurpose::Steering(value) => StorePurposeView::Steering(value.deep_view()),
            StorePurpose::Reply => StorePurposeView::Reply,
            StorePurpose::ToolResult => StorePurposeView::ToolResult,
            StorePurpose::Skipped => StorePurposeView::Skipped,
        }
    }
}

impl Clone for StorePurpose {
    fn clone(&self) -> (res: Self)
        ensures
            res.deep_view() == self.deep_view(),
    {
        let res = match self {
            StorePurpose::Request => StorePurpose::Request,
            StorePurpose::Steering(value) => StorePurpose::Steering(value.clone()),
            StorePurpose::Reply => StorePurpose::Reply,
            StorePurpose::ToolResult => StorePurpose::ToolResult,
            StorePurpose::Skipped => StorePurpose::Skipped,
        };
        assert(res.deep_view() =~~= self.deep_view());
        res
    }
}

/// What a turn waits for.
#[derive(Debug, PartialEq, Eq)]
pub enum TurnPhase {
    /// For the request.
    Beginning,
    /// For a message to be stored.
    Storing(StorePurpose),
    /// For the change of the session to be sent.
    Announcing(StorePurpose),
    /// For the start of the turn to be sent.
    Opening,
    /// To hear, before a round, whether it was cancelled.
    CheckingRound,
    /// To hear, before an attempt, whether it was cancelled.
    CheckingAttempt,
    /// For a compaction that the size of the conversation calls for.
    Compacting,
    /// For a compaction after the provider refused the size.
    CompactingForced(String),
    /// For the start of a message to be sent.
    OpeningMessage,
    /// For the steering message that was set aside.
    TakingSteering,
    /// For the delivery of a steering message to be sent.
    Delivering,
    /// For the start of a message to be sent, after a delivery.
    OpeningSteered,
    /// For the response.
    Streaming,
    /// For the end of a message to be sent.
    ClosingMessage,
    /// For a steering message to be set aside, after the last reply or between rounds.
    Reserving(bool),
    /// To hear, before the first tool, whether it was cancelled.
    CheckingTools,
    /// For a tool.
    RunningTool,
    /// To hear, after a tool, whether it was cancelled.
    CheckingAfterTool(bool),
    /// For the start of a tool that is not run to be sent.
    OpeningSkipped,
    /// For the end of a tool that is not run to be sent.
    ClosingSkipped,
    /// For nothing.
    Finished,
}

/// What a [`TurnPhase`] holds.
#[verifier::ext_equal]
pub enum TurnPhaseView {
    Beginning,
    Storing(StorePurposeView),
    Announcing(StorePurposeView),
    Opening,
    CheckingRound,
    CheckingAttempt,
    Compacting,
    CompactingForced(Seq<char>),
    OpeningMessage,
    TakingSteering,
    Delivering,
    OpeningSteered,
    Streaming,
    ClosingMessage,
    Reserving(bool),
    CheckingTools,
    RunningTool,
    CheckingAfterTool(bool),
    OpeningSkipped,
    ClosingSkipped,
    Finished,
}

impl DeepView for TurnPhase {
    type V = TurnPhaseView;

    open spec fn deep_view(&self) -> TurnPhaseView {
        match self {
            TurnPhase::Beginning => TurnPhaseView::Beginning,
            TurnPhase::Storing(value) => TurnPhaseView::Storing(value.deep_view()),
            TurnPhase::Announcing(value) => TurnPhaseView::Announcing(value.deep_view()),
            TurnPhase::Opening => TurnPhaseView::Opening,
            TurnPhase::CheckingRound => TurnPhaseView::CheckingRound,
            TurnPhase::CheckingAttempt => TurnPhaseView::CheckingAttempt,
            TurnPhase::Compacting => TurnPhaseView::Compacting,
            TurnPhase::CompactingForced(value) => TurnPhaseView::CompactingForced(value.deep_view()),
            TurnPhase::OpeningMessage => TurnPhaseView::OpeningMessage,
            TurnPhase::TakingSteering => TurnPhaseView::TakingSteering,
            TurnPhase::Delivering => TurnPhaseView::Delivering,
            TurnPhase::OpeningSteered => TurnPhaseView::OpeningSteered,
            TurnPhase::Streaming => TurnPhaseView::Streaming,
            TurnPhase::ClosingMessage => TurnPhaseView::ClosingMessage,
            TurnPhase::Reserving(value) => TurnPhaseView::Reserving(*value),
            TurnPhase::CheckingTools => TurnPhaseView::CheckingTools,
            TurnPhase::RunningTool => TurnPhaseView::RunningTool,
            TurnPhase::CheckingAfterTool(value) => TurnPhaseView::CheckingAfterTool(*value),
            TurnPhase::OpeningSkipped => TurnPhaseView::OpeningSkipped,
            TurnPhase::ClosingSkipped => TurnPhaseView::ClosingSkipped,
            TurnPhase::Finished => TurnPhaseView::Finished,
        }
    }
}

impl Clone for TurnPhase {
    fn clone(&self) -> (res: Self)
        ensures
            res.deep_view() == self.deep_view(),
    {
        let res = match self {
            TurnPhase::Beginning => TurnPhase::Beginning,
            TurnPhase::Storing(value) => TurnPhase::Storing(value.clone()),
            TurnPhase::Announcing(value) => TurnPhase::Announcing(value.clone()),
            TurnPhase::Opening => TurnPhase::Opening,
            TurnPhase::CheckingRound => TurnPhase::CheckingRound,
            TurnPhase::CheckingAttempt => TurnPhase::CheckingAttempt,
            TurnPhase::Compacting => TurnPhase::Compacting,
            TurnPhase::CompactingForced(value) => TurnPhase::CompactingForced(value.clone()),
            TurnPhase::OpeningMessage => TurnPhase::OpeningMessage,
            TurnPhase::TakingSteering => TurnPhase::TakingSteering,
            TurnPhase::Delivering => TurnPhase::Delivering,
            TurnPhase::OpeningSteered => TurnPhase::OpeningSteered,
            TurnPhase::Streaming => TurnPhase::Streaming,
            TurnPhase::ClosingMessage => TurnPhase::ClosingMessage,
            TurnPhase::Reserving(value) => TurnPhase::Reserving(*value),
            TurnPhase::CheckingTools => TurnPhase::CheckingTools,
            TurnPhase::RunningTool => TurnPhase::RunningTool,
            TurnPhase::CheckingAfterTool(value) => TurnPhase::CheckingAfterTool(*value),
            TurnPhase::OpeningSkipped => TurnPhase::OpeningSkipped,
            TurnPhase::ClosingSkipped => TurnPhase::ClosingSkipped,
            TurnPhase::Finished => TurnPhase::Finished,
        };
        assert(res.deep_view() =~~= self.deep_view());
        res
    }
}

/// What a turn is told.
#[derive(Debug, PartialEq, Eq)]
pub enum TurnInput {
    /// The request of the user.
    Begin(String),
    /// The message is stored; the session may have changed.
    Stored(Option<SessionInfo>),
    /// The message could not be stored.
    NotStored(String),
    /// Whether the event could be sent.
    Sent(bool),
    /// Whether the turn was cancelled, and what the model takes.
    Checked { cancelled: bool, limits: ModelLimits },
    /// The conversation is compacted.
    Compacted(ConversationHistory),
    /// The conversation is not compacted.
    NotCompacted(CompactionError),
    /// The steering message that was set aside; none where the turn was cancelled.
    Steering(Option<String>),
    /// The response has come.
    Streamed(ModelResponse),
    /// No response has come.
    NotStreamed(ProviderError),
    /// The steering message that was set aside, where there was one.
    Reserved(SteeringInjection),
    /// The tool has run.
    ToolFinished(ToolExecutionResult),
}

/// What a [`TurnInput`] holds.
#[verifier::ext_equal]
pub enum TurnInputView {
    Begin(Seq<char>),
    Stored(Option<SessionInfoView>),
    NotStored(Seq<char>),
    Sent(bool),
    Checked { cancelled: bool, limits: ModelLimits },
    Compacted(ConversationHistoryView),
    NotCompacted(CompactionErrorView),
    Steering(Option<Seq<char>>),
    Streamed(ModelResponseView),
    NotStreamed(ProviderErrorView),
    Reserved(SteeringInjectionView),
    ToolFinished(ToolExecutionResultView),
}

impl DeepView for TurnInput {
    type V = TurnInputView;

    open spec fn deep_view(&self) -> TurnInputView {
        match self {
            TurnInput::Begin(value) => TurnInputView::Begin(value.deep_view()),
            TurnInput::Stored(value) => TurnInputView::Stored(value.deep_view()),
            TurnInput::NotStored(value) => TurnInputView::NotStored(value.deep_view()),
            TurnInput::Sent(value) => TurnInputView::Sent(*value),
            TurnInput::Checked { cancelled, limits } => TurnInputView::Checked {
                cancelled: *cancelled,
                limits: *limits,
            },
            TurnInput::Compacted(value) => TurnInputView::Compacted(value.deep_view()),
            TurnInput::NotCompacted(value) => TurnInputView::NotCompacted(value.deep_view()),
            TurnInput::Steering(value) => TurnInputView::Steering(value.deep_view()),
            TurnInput::Streamed(value) => TurnInputView::Streamed(value.deep_view()),
            TurnInput::NotStreamed(value) => TurnInputView::NotStreamed(value.deep_view()),
            TurnInput::Reserved(value) => TurnInputView::Reserved(value.deep_view()),
            TurnInput::ToolFinished(value) => TurnInputView::ToolFinished(value.deep_view()),
        }
    }
}

/// What is to be done for a turn.
#[derive(Debug, PartialEq, Eq)]
pub enum TurnAction {
    /// Store a message.
    Store(ModelMessage),
    /// Send an event, and say whether that was possible.
    Send(AgentEvent),
    /// Say whether the turn was cancelled, and what the model takes.
    Check,
    /// Compact the conversation.
    Compact { force: bool },
    /// Take the steering message that was set aside, unless the turn was cancelled.
    TakeSteering,
    /// Send a request, which may deliver a steering message.
    Stream { request: ModelRequest, delivery: bool },
    /// Set a steering message aside, unless the turn was cancelled; where there is none, the queue may be sealed.
    Reserve { seal: bool },
    /// Run a tool.
    RunTool(ModelToolCall),
    /// Nothing: the turn is over.
    Finish(StopReason),
}

/// What a [`TurnAction`] holds.
#[verifier::ext_equal]
pub enum TurnActionView {
    Store(ModelMessageView),
    Send(AgentEventView),
    Check,
    Compact { force: bool },
    TakeSteering,
    Stream { request: ModelRequestView, delivery: bool },
    Reserve { seal: bool },
    RunTool(ModelToolCallView),
    Finish(StopReason),
}

impl DeepView for TurnAction {
    type V = TurnActionView;

    open spec fn deep_view(&self) -> TurnActionView {
        match self {
            TurnAction::Store(value) => TurnActionView::Store(value.deep_view()),
            TurnAction::Send(value) => TurnActionView::Send(value.deep_view()),
            TurnAction::Check => TurnActionView::Check,
            TurnAction::Compact { force } => TurnActionView::Compact {
                force: *force,
            },
            TurnAction::TakeSteering => TurnActionView::TakeSteering,
            TurnAction::Stream { request, delivery } => TurnActionView::Stream {
                request: request.deep_view(),
                delivery: *delivery,
            },
            TurnAction::Reserve { seal } => TurnActionView::Reserve {
                seal: *seal,
            },
            TurnAction::RunTool(value) => TurnActionView::RunTool(value.deep_view()),
            TurnAction::Finish(value) => TurnActionView::Finish(*value),
        }
    }
}

/// What follows from what a turn is told: a delivery may be given up; then the reports are sent, whether or
/// not that is possible; then comes the action.
#[derive(Debug, PartialEq, Eq)]
pub struct TurnStep {
    pub abort_delivery: bool,
    pub reports: Vec<AgentEvent>,
    pub action: TurnAction,
}

/// What a [`TurnStep`] holds.
#[verifier::ext_equal]
pub struct TurnStepView {
    pub abort_delivery: bool,
    pub reports: Seq<AgentEventView>,
    pub action: TurnActionView,
}

impl DeepView for TurnStep {
    type V = TurnStepView;

    open spec fn deep_view(&self) -> TurnStepView {
        TurnStepView {
            abort_delivery: self.abort_delivery,
            reports: self.reports.deep_view(),
            action: self.action.deep_view(),
        }
    }
}

// ---- tool calls ----

/// The calls of tools among the items, in order.
pub open spec fn calls_of(items: Seq<ModelAssistantItemView>) -> Seq<ModelToolCallView>
    decreases items.len(),
{
    if items.len() == 0 {
        Seq::empty()
    } else {
        let before = calls_of(items.drop_last());
        match items.last() {
            ModelAssistantItemView::ToolCall(call) => before.push(call),
            _ => before,
        }
    }
}

/// A text is there, and not empty.
pub open spec fn is_given(text: Option<Seq<char>>) -> bool {
    text is Some && text->0.len() > 0
}

/// What is wrong with the first call that has no identifier or no name.
pub open spec fn first_call_error(calls: Seq<ModelToolCallView>) -> Option<Seq<char>>
    decreases calls.len(),
{
    if calls.len() == 0 {
        None
    } else if !is_given(calls[0].call_id) {
        Some("provider returned a tool call without a call_id"@)
    } else if !is_given(calls[0].name) {
        Some("provider returned a tool call without a name"@)
    } else {
        first_call_error(calls.drop_first())
    }
}

fn given(text: &Option<String>) -> (res: bool)
    ensures
        res == is_given(text.deep_view()),
{
    match text {
        Some(text) => !text.as_str().is_empty(),
        None => false,
    }
}

/// The calls of a response, each with an identifier and a name, or what is wrong with them.
pub fn validated_tool_calls(response: &ModelResponse) -> (res: Result<Vec<ModelToolCall>, String>)
    ensures
        match (res, first_call_error(calls_of(response.deep_view().items))) {
            (Ok(calls), None) => calls.deep_view() == calls_of(response.deep_view().items),
            (Err(message), Some(expected)) => message@ == expected,
            _ => false,
        },
{
    let ghost all = response.items.deep_view();
    let mut calls: Vec<ModelToolCall> = Vec::new();
    let mut i: usize = 0;
    assert(all.take(0) =~= Seq::<ModelAssistantItemView>::empty());
    assert(calls.deep_view() =~= Seq::<ModelToolCallView>::empty());
    while i < response.items.len()
        invariant
            i <= response.items.len(),
            all == response.items.deep_view(),
            calls.deep_view() == calls_of(all.take(i as int)),
        decreases response.items.len() - i,
    {
        let ghost before = calls.deep_view();
        proof {
            assert(all.take(i + 1).drop_last() =~= all.take(i as int));
            assert(all.take(i + 1).last() == response.items@[i as int].deep_view());
        }
        if let ModelAssistantItem::ToolCall(call) = &response.items[i] {
            calls.push(call.clone());
            assert(calls.deep_view() =~= before.push(call.deep_view()));
        }
        i += 1;
    }
    assert(all.take(i as int) =~= all);
    let ghost found = calls.deep_view();
    let mut k: usize = 0;
    assert(found.skip(0) =~= found);
    while k < calls.len()
        invariant
            k <= calls.len(),
            found == calls.deep_view(),
            found == calls_of(response.deep_view().items),
            first_call_error(found) == first_call_error(found.skip(k as int)),
        decreases calls.len() - k,
    {
        proof {
            assert(found.skip(k as int)[0] == calls@[k as int].deep_view());
            assert(found.skip(k as int).drop_first() =~= found.skip(k + 1));
        }
        if !given(&calls[k].call_id) {
            return Err("provider returned a tool call without a call_id".to_owned());
        }
        if !given(&calls[k].name) {
            return Err("provider returned a tool call without a name".to_owned());
        }
        k += 1;
    }
    Ok(calls)
}

/// The identifier of a call.
pub open spec fn id_of(call: ModelToolCallView) -> Seq<char> {
    match call.call_id {
        Some(id) => id,
        None => Seq::empty(),
    }
}

/// The tool that a call names.
pub open spec fn name_of(call: ModelToolCallView) -> Seq<char> {
    match call.name {
        Some(name) => name,
        None => Seq::empty(),
    }
}

fn text_or_empty(text: &Option<String>) -> (res: String)
    ensures
        res@ == (match text.deep_view() {
            Some(text) => text,
            None => Seq::<char>::empty(),
        }),
{
    match text {
        Some(text) => text.clone(),
        None => String::new(),
    }
}

// ---- a turn ----

/// A turn of the agent.
pub struct Turn {
    base_messages: Vec<ModelMessage>,
    tools: Vec<ToolDefinition>,
    reasoning_effort: Option<String>,
    compaction_enabled: bool,
    reserve_tokens: u64,
    history: ConversationHistory,
    limits: ModelLimits,
    emergency: bool,
    assistant_started: bool,
    pending: Option<String>,
    delivering: bool,
    stored: ModelMessage,
    items: Vec<ModelAssistantItem>,
    stop_reason: StopReason,
    calls: Vec<ModelToolCall>,
    index: usize,
    result: ToolExecutionResult,
    phase: TurnPhase,
}

/// What a [`Turn`] holds: what it was begun with; the conversation; what the model takes; whether
/// a compaction was forced in this round, whether a message was begun, the steering message that is
/// set aside and whether one is on its way; the message being stored; the reply with its calls,
/// how many of them have a result, and the last of those.
#[verifier::ext_equal]
pub struct TurnView {
    pub base: Seq<ModelMessageView>,
    pub tools: Seq<ToolDefinitionView>,
    pub effort: Option<Seq<char>>,
    pub compaction_enabled: bool,
    pub reserve_tokens: u64,
    pub history: ConversationHistoryView,
    pub limits: ModelLimits,
    pub emergency: bool,
    pub assistant_started: bool,
    pub pending: Option<Seq<char>>,
    pub delivering: bool,
    pub stored: ModelMessageView,
    pub items: Seq<ModelAssistantItemView>,
    pub stop_reason: StopReason,
    pub calls: Seq<ModelToolCallView>,
    pub index: int,
    pub result: ToolExecutionResultView,
    pub phase: TurnPhaseView,
}

impl DeepView for Turn {
    type V = TurnView;

    closed spec fn deep_view(&self) -> TurnView {
        TurnView {
            base: self.base_messages.deep_view(),
            tools: self.tools.deep_view(),
            effort: self.reasoning_effort.deep_view(),
            compaction_enabled: self.compaction_enabled,
            reserve_tokens: self.reserve_tokens,
            history: self.history.deep_view(),
            limits: self.limits,
            emergency: self.emergency,
            assistant_started: self.assistant_started,
            pending: self.pending.deep_view(),
            delivering: self.delivering,
            stored: self.stored.deep_view(),
            items: self.items.deep_view(),
            stop_reason: self.stop_reason,
            calls: self.calls.deep_view(),
            index: self.index as int,
            result: self.result.deep_view(),
            phase: self.phase.deep_view(),
        }
    }
}

/// A turn after it was told something, and what is to be done.
pub type TurnMove = (TurnView, TurnStepView);

/// The turn goes on, with nothing to report but what is to be done.
pub open spec fn goes_on(
    s: TurnView,
    phase: TurnPhaseView,
    reports: Seq<AgentEventView>,
    action: TurnActionView,
) -> TurnMove {
    (TurnView { phase, ..s }, TurnStepView { abort_delivery: false, reports, action })
}

/// The turn is over.
pub open spec fn ended(s: TurnView, reason: StopReason) -> TurnMove {
    goes_on(s, TurnPhaseView::Finished, Seq::empty(), TurnActionView::Finish(reason))
}

/// The event of an error.
pub open spec fn error_event(message: Seq<char>) -> AgentEventView {
    AgentEventView::Error(AgentErrorView { message })
}

/// The turn is over by an error, which is reported.
pub open spec fn failed(s: TurnView, message: Seq<char>) -> TurnMove {
    goes_on(
        s,
        TurnPhaseView::Finished,
        seq![error_event(message)],
        TurnActionView::Finish(StopReason::Error),
    )
}

/// A steering message did not arrive: its delivery is given up, and the turn fails.
pub open spec fn delivery_failed(s: TurnView, message: Seq<char>) -> TurnMove {
    (
        TurnView { phase: TurnPhaseView::Finished, delivering: false, ..s },
        TurnStepView {
            abort_delivery: true,
            reports: seq![error_event(provider_error_text(ProviderErrorView::Failed { message }))],
            action: TurnActionView::Finish(StopReason::Error),
        },
    )
}

/// A message is stored.
pub open spec fn stores(s: TurnView, purpose: StorePurposeView, message: ModelMessageView) ->
    TurnMove {
    goes_on(
        TurnView { stored: message, ..s },
        TurnPhaseView::Storing(purpose),
        Seq::empty(),
        TurnActionView::Store(message),
    )
}

/// An event is sent.
pub open spec fn sends(s: TurnView, phase: TurnPhaseView, event: AgentEventView) -> TurnMove {
    goes_on(s, phase, Seq::empty(), TurnActionView::Send(event))
}

/// It is asked whether the turn was cancelled.
pub open spec fn checks(s: TurnView, phase: TurnPhaseView) -> TurnMove {
    goes_on(s, phase, Seq::empty(), TurnActionView::Check)
}

/// The request for the next response.
pub open spec fn next_request(s: TurnView) -> ModelRequestView {
    request_of(s.base, s.history, s.tools, s.effort)
}

/// The next request with the steering message that is set aside: what goes to the model once the
/// message is delivered.
pub open spec fn due_request(s: TurnView) -> ModelRequestView {
    let request = next_request(s);
    match s.pending {
        Some(text) => ModelRequestView {
            messages: request.messages.push(ModelMessageView::User { content: text }),
            ..request
        },
        None => request,
    }
}

/// The request goes to the model.
pub open spec fn streams(s: TurnView, reports: Seq<AgentEventView>) -> TurnMove {
    goes_on(
        s,
        TurnPhaseView::Streaming,
        reports,
        TurnActionView::Stream { request: next_request(s), delivery: s.delivering },
    )
}

/// A message of the assistant begins, unless it did already, or a steering message goes first.
pub open spec fn opens_message(s: TurnView, reports: Seq<AgentEventView>) -> TurnMove {
    if s.pending is Some {
        goes_on(
            TurnView { pending: None, ..s },
            TurnPhaseView::TakingSteering,
            reports,
            TurnActionView::TakeSteering,
        )
    } else if !s.assistant_started {
        goes_on(
            s,
            TurnPhaseView::OpeningMessage,
            reports,
            TurnActionView::Send(AgentEventView::AssistantMessageStarted),
        )
    } else {
        streams(s, reports)
    }
}

/// The conversation, with the steering message that goes next, is so long that it is compacted
/// before the request.
pub open spec fn is_long(s: TurnView) -> bool {
    match compaction_threshold(s.limits, s.reserve_tokens) {
        Some(threshold) => request_tokens(due_request(s)) > threshold,
        None => false,
    }
}

/// What is reported of the conversation before a request.
pub open spec fn usage_reports(s: TurnView) -> Seq<AgentEventView> {
    seq![
        AgentEventView::ContextLimitsUpdated(s.limits),
        AgentEventView::ContextUsageUpdated(
            estimated_usage(request_tokens(due_request(s)) as u64, s.limits),
        ),
    ]
}

/// An attempt is made at the next response.
pub open spec fn attempts(s: TurnView) -> TurnMove {
    if s.compaction_enabled && !s.emergency && is_long(s) {
        goes_on(
            s,
            TurnPhaseView::Compacting,
            usage_reports(s),
            TurnActionView::Compact { force: false },
        )
    } else {
        opens_message(s, usage_reports(s))
    }
}

/// The next round begins.
pub open spec fn round_begins(s: TurnView, limits: ModelLimits) -> TurnView {
    TurnView {
        limits,
        emergency: false,
        assistant_started: false,
        items: Seq::empty(),
        calls: Seq::empty(),
        index: 0,
        ..s
    }
}

/// The call that comes next.
pub open spec fn next_call(s: TurnView) -> ModelToolCallView {
    s.calls[s.index]
}

/// The start of a call.
pub open spec fn call_started(call: ModelToolCallView) -> AgentEventView {
    AgentEventView::ToolExecutionStarted {
        call_id: id_of(call),
        name: name_of(call),
        arguments: call.arguments,
    }
}

/// The end of a call.
pub open spec fn call_finished(call: ModelToolCallView, result: ToolExecutionResultView) ->
    AgentEventView {
    AgentEventView::ToolExecutionFinished { call_id: id_of(call), name: name_of(call), result }
}

/// The message that holds the result of a call.
pub open spec fn result_message(call: ModelToolCallView, content: Seq<char>) -> ModelMessageView {
    ModelMessageView::ToolResult {
        tool_call_id: id_of(call),
        tool_name: name_of(call),
        content,
    }
}

/// The result of a tool that was not run.
pub open spec fn skipped_result() -> ToolExecutionResultView {
    ToolExecutionResultView {
        model_content: TOOL_CANCELLED_TEXT@,
        metadata: ToolExecutionMetadata { success: false, cancelled: true, truncated: false },
    }
}

/// The calls without a result are passed over, one after the other; then the turn is over.
pub open spec fn skips(s: TurnView) -> TurnMove {
    if s.index >= s.calls.len() {
        ended(s, StopReason::Cancelled)
    } else {
        sends(s, TurnPhaseView::OpeningSkipped, call_started(next_call(s)))
    }
}

/// The next tool runs; after the last, a steering message is looked for.
pub open spec fn runs_tools(s: TurnView) -> TurnMove {
    if s.index >= s.calls.len() {
        goes_on(
            s,
            TurnPhaseView::Reserving(false),
            Seq::empty(),
            TurnActionView::Reserve { seal: false },
        )
    } else {
        goes_on(
            s,
            TurnPhaseView::RunningTool,
            seq![call_started(next_call(s))],
            TurnActionView::RunTool(next_call(s)),
        )
    }
}

/// The message is in the conversation and the session knows of it.
pub open spec fn committed(s: TurnView, purpose: StorePurposeView) -> TurnMove {
    match purpose {
        StorePurposeView::Request => sends(s, TurnPhaseView::Opening, AgentEventView::TurnStarted),
        StorePurposeView::Steering(text) => sends(
            s,
            TurnPhaseView::Delivering,
            AgentEventView::SteeringMessageDelivered { text },
        ),
        StorePurposeView::Reply => sends(
            s,
            TurnPhaseView::ClosingMessage,
            AgentEventView::AssistantMessageFinished { items: s.items },
        ),
        StorePurposeView::ToolResult => goes_on(
            s,
            TurnPhaseView::CheckingAfterTool(s.result.metadata.cancelled),
            seq![call_finished(s.calls[s.index - 1], s.result)],
            TurnActionView::Check,
        ),
        StorePurposeView::Skipped => sends(
            s,
            TurnPhaseView::ClosingSkipped,
            call_finished(s.calls[s.index - 1], skipped_result()),
        ),
    }
}

/// The message could not be stored, or the session's change not be sent. `call` is the call whose
/// result it holds, where it holds one.
pub open spec fn not_committed(
    s: TurnView,
    purpose: StorePurposeView,
    call: int,
    message: Seq<char>,
) -> TurnMove {
    match purpose {
        StorePurposeView::Steering(_) => delivery_failed(s, message),
        StorePurposeView::ToolResult => goes_on(
            s,
            TurnPhaseView::Finished,
            seq![call_finished(s.calls[call], s.result), error_event(message)],
            TurnActionView::Finish(StopReason::Error),
        ),
        _ => failed(s, message),
    }
}

/// The message that was stored is added to the conversation.
pub open spec fn added(s: TurnView, purpose: StorePurposeView) -> TurnView {
    TurnView {
        history: ConversationHistoryView {
            messages: s.history.messages.push(s.stored),
            ..s.history
        },
        index: if purpose is ToolResult || purpose is Skipped {
            s.index + 1
        } else {
            s.index
        },
        ..s
    }
}

/// What follows once a message is stored.
pub open spec fn after_store(s: TurnView, purpose: StorePurposeView, info: Option<SessionInfoView>)
    -> TurnMove {
    let next = added(s, purpose);
    match info {
        Some(info) => sends(
            next,
            TurnPhaseView::Announcing(purpose),
            AgentEventView::SessionChanged { info },
        ),
        None => committed(next, purpose),
    }
}

/// What follows a compaction that did not come about.
pub open spec fn after_no_compaction(s: TurnView, error: CompactionErrorView) -> TurnMove {
    match s.phase {
        TurnPhaseView::Compacting => match error {
            CompactionErrorView::NoHistory => opens_message(s, Seq::empty()),
            CompactionErrorView::Cancelled => ended(s, StopReason::Cancelled),
            CompactionErrorView::Failed(message) => failed(s, message),
        },
        TurnPhaseView::CompactingForced(overflow) => match error {
            CompactionErrorView::NoHistory => failed(
                s,
                "context still exceeds the selected model's limit after compaction: "@ + overflow,
            ),
            CompactionErrorView::Cancelled => ended(s, StopReason::Cancelled),
            CompactionErrorView::Failed(message) => failed(s, message),
        },
        _ => (s, arbitrary()),
    }
}

/// What follows a response: its calls must be in order; then it is stored.
pub open spec fn after_response(s: TurnView, response: ModelResponseView) -> TurnMove {
    let calls = calls_of(response.items);
    match first_call_error(calls) {
        Some(message) => failed(s, message),
        None => if response.stop_reason == StopReason::ToolCalls && calls.len() == 0 {
            failed(s, "provider requested tool execution but returned no tool calls"@)
        } else {
            stores(
                TurnView {
                    items: response.items,
                    stop_reason: response.stop_reason,
                    calls,
                    index: 0,
                    ..s
                },
                StorePurposeView::Reply,
                ModelMessageView::Assistant { items: response.items },
            )
        },
    }
}

/// What follows where no response came: a conversation that is too long is compacted once.
pub open spec fn after_no_response(s: TurnView, error: ProviderErrorView) -> TurnMove {
    match error {
        ProviderErrorView::Cancelled => ended(s, StopReason::Cancelled),
        ProviderErrorView::ContextOverflow { message } => if s.compaction_enabled && !s.emergency {
            goes_on(
                TurnView { emergency: true, ..s },
                TurnPhaseView::CompactingForced(message),
                Seq::empty(),
                TurnActionView::Compact { force: true },
            )
        } else {
            failed(s, provider_error_text(error))
        },
        _ => failed(s, provider_error_text(error)),
    }
}

/// What follows where an event was sent, or could not be.
pub open spec fn after_send(s: TurnView, sent: bool) -> TurnMove {
    match s.phase {
        TurnPhaseView::Announcing(purpose) => if sent {
            committed(s, purpose)
        } else {
            not_committed(s, purpose, s.index - 1, EVENTS_CLOSED_TEXT@)
        },
        TurnPhaseView::Opening => if sent {
            checks(s, TurnPhaseView::CheckingRound)
        } else {
            ended(s, StopReason::Error)
        },
        TurnPhaseView::OpeningMessage => if sent {
            streams(TurnView { assistant_started: true, ..s }, Seq::empty())
        } else {
            ended(s, StopReason::Error)
        },
        TurnPhaseView::Delivering => if !sent {
            delivery_failed(s, EVENTS_CLOSED_TEXT@)
        } else if !s.assistant_started {
            sends(s, TurnPhaseView::OpeningSteered, AgentEventView::AssistantMessageStarted)
        } else {
            streams(s, Seq::empty())
        },
        TurnPhaseView::OpeningSteered => if sent {
            streams(TurnView { assistant_started: true, ..s }, Seq::empty())
        } else {
            delivery_failed(s, EVENTS_CLOSED_TEXT@)
        },
        TurnPhaseView::ClosingMessage => if !sent {
            ended(s, StopReason::Error)
        } else if s.calls.len() > 0 {
            checks(s, TurnPhaseView::CheckingTools)
        } else if s.stop_reason == StopReason::Error {
            failed(s, "provider returned an error stop reason"@)
        } else {
            goes_on(
                s,
                TurnPhaseView::Reserving(true),
                Seq::empty(),
                TurnActionView::Reserve { seal: true },
            )
        },
        TurnPhaseView::OpeningSkipped => if sent {
            stores(
                s,
                StorePurposeView::Skipped,
                result_message(next_call(s), TOOL_CANCELLED_TEXT@),
            )
        } else {
            failed(s, EVENTS_CLOSED_TEXT@)
        },
        TurnPhaseView::ClosingSkipped => if sent {
            skips(s)
        } else {
            failed(s, EVENTS_CLOSED_TEXT@)
        },
        _ => (s, arbitrary()),
    }
}

/// What follows once it is known whether the turn was cancelled.
pub open spec fn after_check(s: TurnView, cancelled: bool, limits: ModelLimits) -> TurnMove {
    match s.phase {
        TurnPhaseView::CheckingRound => if cancelled {
            ended(s, StopReason::Cancelled)
        } else {
            attempts(round_begins(s, limits))
        },
        TurnPhaseView::CheckingAttempt => if cancelled {
            ended(s, StopReason::Cancelled)
        } else {
            attempts(s)
        },
        TurnPhaseView::CheckingTools => if cancelled {
            skips(s)
        } else {
            runs_tools(s)
        },
        TurnPhaseView::CheckingAfterTool(result_cancelled) => if cancelled || result_cancelled {
            skips(s)
        } else {
            runs_tools(s)
        },
        _ => (s, arbitrary()),
    }
}

/// What follows once it is known whether a steering message is set aside.
pub open spec fn after_reserve(s: TurnView, reserved: SteeringInjectionView, last: bool) ->
    TurnMove {
    match reserved {
        SteeringInjectionView::Pending(text) => checks(
            TurnView { pending: Some(text), ..s },
            TurnPhaseView::CheckingRound,
        ),
        SteeringInjectionView::Empty => if last {
            ended(s, s.stop_reason)
        } else {
            checks(s, TurnPhaseView::CheckingRound)
        },
        SteeringInjectionView::Cancelled => ended(s, StopReason::Cancelled),
    }
}

/// What the turn waits for is what it is told.
pub open spec fn fits(phase: TurnPhaseView, input: TurnInputView) -> bool {
    match input {
        TurnInputView::Begin(_) => phase is Beginning,
        TurnInputView::Stored(_) => phase is Storing,
        TurnInputView::NotStored(_) => phase is Storing,
        TurnInputView::Sent(_) => phase is Announcing || phase is Opening || phase is OpeningMessage
            || phase is Delivering || phase is OpeningSteered || phase is ClosingMessage || phase
            is OpeningSkipped || phase is ClosingSkipped,
        TurnInputView::Checked { .. } => phase is CheckingRound || phase is CheckingAttempt || phase
            is CheckingTools || phase is CheckingAfterTool,
        TurnInputView::Compacted(_) => phase is Compacting || phase is CompactingForced,
        TurnInputView::NotCompacted(_) => phase is Compacting || phase is CompactingForced,
        TurnInputView::Steering(_) => phase is TakingSteering,
        TurnInputView::Streamed(_) => phase is Streaming,
        TurnInputView::NotStreamed(_) => phase is Streaming,
        TurnInputView::Reserved(_) => phase is Reserving,
        TurnInputView::ToolFinished(_) => phase is RunningTool,
    }
}

/// What follows from what the turn is told.
pub open spec fn turn_next(s: TurnView, input: TurnInputView) -> TurnMove {
    match input {
        TurnInputView::Begin(text) => stores(
            s,
            StorePurposeView::Request,
            ModelMessageView::User { content: text },
        ),
        TurnInputView::Stored(info) => after_store(s, s.phase->Storing_0, info),
        TurnInputView::NotStored(error) => not_committed(
            s,
            s.phase->Storing_0,
            s.index,
            "session persistence failed: "@ + error,
        ),
        TurnInputView::Sent(sent) => after_send(s, sent),
        TurnInputView::Checked { cancelled, limits } => after_check(s, cancelled, limits),
        TurnInputView::Compacted(history) => checks(
            TurnView { history, ..s },
            TurnPhaseView::CheckingAttempt,
        ),
        TurnInputView::NotCompacted(error) => after_no_compaction(s, error),
        TurnInputView::Steering(text) => match text {
            Some(text) => stores(
                TurnView { delivering: true, ..s },
                StorePurposeView::Steering(text),
                ModelMessageView::User { content: text },
            ),
            None => ended(s, StopReason::Cancelled),
        },
        TurnInputView::Streamed(response) => after_response(
            TurnView { delivering: false, ..s },
            response,
        ),
        TurnInputView::NotStreamed(error) => after_no_response(
            TurnView { delivering: false, ..s },
            error,
        ),
        TurnInputView::Reserved(reserved) => after_reserve(s, reserved, s.phase->Reserving_0),
        TurnInputView::ToolFinished(result) => stores(
            TurnView { result, ..s },
            StorePurposeView::ToolResult,
            result_message(next_call(s), result.model_content),
        ),
    }
}

// ---- what a turn keeps ----

/// A message holds the result of a call.
pub open spec fn answers_call(message: ModelMessageView, call: ModelToolCallView) -> bool {
    match message {
        ModelMessageView::ToolResult { tool_call_id, tool_name, .. } => tool_call_id == id_of(call)
            && tool_name == name_of(call),
        _ => false,
    }
}

/// The reply of the model and results for the first `n` of its calls end the conversation.
pub open spec fn answers_end(
    messages: Seq<ModelMessageView>,
    items: Seq<ModelAssistantItemView>,
    calls: Seq<ModelToolCallView>,
    n: int,
) -> bool {
    let results = messages.skip(messages.len() - n);
    &&& messages.len() > n
    &&& messages[messages.len() - n - 1] == (ModelMessageView::Assistant { items })
    &&& forall|i: int| 0 <= i < n ==> answers_call(#[trigger] results[i], calls[i])
}

/// How many calls have a result is in step with what the turn waits for.
pub open spec fn index_fits(s: TurnView) -> bool {
    &&& 0 <= s.index <= s.calls.len()
    &&& match s.phase {
        TurnPhaseView::Storing(purpose) => match purpose {
            StorePurposeView::Reply => s.index == 0,
            StorePurposeView::ToolResult => s.index < s.calls.len(),
            StorePurposeView::Skipped => s.index < s.calls.len(),
            _ => s.calls.len() == 0,
        },
        TurnPhaseView::Announcing(purpose) => match purpose {
            StorePurposeView::Reply => s.index == 0,
            StorePurposeView::ToolResult => 0 < s.index,
            StorePurposeView::Skipped => 0 < s.index,
            _ => s.calls.len() == 0,
        },
        TurnPhaseView::ClosingMessage => s.index == 0,
        TurnPhaseView::CheckingTools => s.index == 0,
        TurnPhaseView::RunningTool => s.index < s.calls.len(),
        TurnPhaseView::OpeningSkipped => s.index < s.calls.len(),
        TurnPhaseView::CheckingAfterTool(_) => true,
        TurnPhaseView::ClosingSkipped => true,
        TurnPhaseView::Finished => true,
        TurnPhaseView::CheckingRound => s.index == s.calls.len(),
        TurnPhaseView::Reserving(_) => s.index == s.calls.len(),
        _ => s.calls.len() == 0,
    }
}

/// The message being stored is what it is stored as.
pub open spec fn stored_fits(s: TurnView) -> bool {
    match s.phase {
        TurnPhaseView::Storing(purpose) => match purpose {
            StorePurposeView::Reply => s.stored == (ModelMessageView::Assistant { items: s.items }),
            StorePurposeView::ToolResult => answers_call(s.stored, next_call(s)),
            StorePurposeView::Skipped => answers_call(s.stored, next_call(s)),
            _ => true,
        },
        _ => true,
    }
}

/// The calls that have a result have it in the conversation, in order, behind the reply.
pub open spec fn answers_fit(s: TurnView) -> bool {
    ||| s.calls.len() == 0
    ||| s.phase is Finished
    ||| s.phase == TurnPhaseView::Storing(StorePurposeView::Reply)
    ||| answers_end(s.history.messages, s.items, s.calls, s.index)
}

/// A steering message is set aside only between its reservation and its delivery.
pub open spec fn steering_fits(s: TurnView) -> bool {
    &&& s.pending is Some ==> s.phase is CheckingRound || s.phase is CheckingAttempt || s.phase
        is Compacting || s.phase is Finished
    &&& s.delivering ==> match s.phase {
        TurnPhaseView::Streaming => true,
        TurnPhaseView::Delivering => true,
        TurnPhaseView::OpeningSteered => true,
        TurnPhaseView::Storing(purpose) => purpose is Steering,
        TurnPhaseView::Announcing(purpose) => purpose is Steering,
        _ => false,
    }
}

/// A turn is in order.
pub open spec fn turn_fits(s: TurnView) -> bool {
    index_fits(s) && stored_fits(s) && answers_fit(s) && steering_fits(s)
}
proof fn lemma_answers_grow(
    messages: Seq<ModelMessageView>,
    items: Seq<ModelAssistantItemView>,
    calls: Seq<ModelToolCallView>,
    n: int,
    result: ModelMessageView,
)
    requires
        0 <= n < calls.len(),
        answers_end(messages, items, calls, n),
        answers_call(result, calls[n]),
    ensures
        answers_end(messages.push(result), items, calls, n + 1),
{
    let more = messages.push(result);
    let before = messages.skip(messages.len() - n);
    let results = more.skip(more.len() - (n + 1));
    assert forall|i: int| 0 <= i < n + 1 implies answers_call(#[trigger] results[i], calls[i]) by {
        if i < n {
            assert(results[i] == before[i]);
        } else {
            assert(results[i] == result);
        }
    }
}

/// A turn stays in order, whatever it is told.
pub proof fn lemma_turn_stays_in_order(s: TurnView, input: TurnInputView)
    requires
        turn_fits(s),
        fits(s.phase, input),
    ensures
        turn_fits(turn_next(s, input).0),
{
    if let TurnInputView::Stored(_) = input {
        match s.phase->Storing_0 {
            StorePurposeView::Reply => {
                let more = s.history.messages.push(s.stored);
                assert(answers_end(more, s.items, s.calls, 0));
            },
            StorePurposeView::ToolResult => {
                lemma_answers_grow(s.history.messages, s.items, s.calls, s.index, s.stored);
            },
            StorePurposeView::Skipped => {
                lemma_answers_grow(s.history.messages, s.items, s.calls, s.index, s.stored);
            },
            _ => {},
        }
    }
}

/// A turn that ends other than by an error leaves no call of a tool without its result: the
/// conversation ends with the last reply and one result for each of its calls, in order.
pub proof fn lemma_every_call_is_answered(s: TurnView, input: TurnInputView)
    requires
        turn_fits(s),
        fits(s.phase, input),
    ensures
        ({
            let (next, step) = turn_next(s, input);
            step.action matches TurnActionView::Finish(reason) ==> reason != StopReason::Error
                && next.calls.len() > 0 ==> {
                &&& next.index == next.calls.len()
                &&& answers_end(
                    next.history.messages,
                    next.items,
                    next.calls,
                    next.calls.len() as int,
                )
            }
        }),
{
}

/// A message is part of the conversation only once it is stored, and nothing leaves it but by a
/// compaction.
pub proof fn lemma_only_stored_messages_are_added(s: TurnView, input: TurnInputView)
    requires
        fits(s.phase, input),
    ensures
        turn_next(s, input).0.history == (match input {
            TurnInputView::Stored(_) => ConversationHistoryView {
                messages: s.history.messages.push(s.stored),
                ..s.history
            },
            TurnInputView::Compacted(history) => history,
            _ => s.history,
        }),
{
}

/// A round forces at most one compaction.
pub proof fn lemma_compaction_is_forced_once(s: TurnView, input: TurnInputView)
    requires
        fits(s.phase, input),
    ensures
        ({
            let (next, step) = turn_next(s, input);
            step.action == (TurnActionView::Compact { force: true }) ==> !s.emergency
                && next.emergency
        }),
        s.emergency && !turn_next(s, input).0.emergency ==> s.phase is CheckingRound,
{
}

/// A steering message is set aside only while none is, and taken only once one is.
pub proof fn lemma_steering_is_taken_in_turn(s: TurnView, input: TurnInputView)
    requires
        turn_fits(s),
        fits(s.phase, input),
    ensures
        turn_next(s, input).1.action is Reserve ==> turn_next(s, input).0.pending is None,
        turn_next(s, input).1.action is TakeSteering ==> s.pending is Some,
        match turn_next(s, input).0.pending {
            Some(text) => s.pending == Some(text) || input == TurnInputView::Reserved(
                SteeringInjectionView::Pending(text),
            ),
            None => true,
        },
{
}

/// The request that delivers a steering message is the one that was made before it, with the
/// message behind it: the one that was measured while the message was set aside.
pub proof fn lemma_steering_ends_the_request(s: TurnView, text: Seq<char>)
    ensures
        ({
            let before = next_request(s);
            let message = ModelMessageView::User { content: text };
            let after = next_request(
                TurnView {
                    history: ConversationHistoryView {
                        messages: s.history.messages.push(message),
                        ..s.history
                    },
                    ..s
                },
            );
            &&& after == (ModelRequestView { messages: before.messages.push(message), ..before })
            &&& after == due_request(TurnView { pending: Some(text), ..s })
        }),
{
    let message = ModelMessageView::User { content: text };
    let longer = ConversationHistoryView {
        messages: s.history.messages.push(message),
        ..s.history
    };
    assert(s.base + provider_projection(longer) =~= (s.base + provider_projection(
        s.history,
    )).push(message));
}

// ---- taking a turn ----

fn no_reports() -> (res: Vec<AgentEvent>)
    ensures
        res.deep_view() == Seq::<AgentEventView>::empty(),
{
    let res: Vec<AgentEvent> = Vec::new();
    assert(res.deep_view() =~= Seq::<AgentEventView>::empty());
    res
}

fn one_report(event: AgentEvent) -> (res: Vec<AgentEvent>)
    ensures
        res.deep_view() == seq![event.deep_view()],
{
    let mut res: Vec<AgentEvent> = Vec::new();
    res.push(event);
    assert(res.deep_view() =~= seq![event.deep_view()]);
    res
}

fn two_reports(first: AgentEvent, second: AgentEvent) -> (res: Vec<AgentEvent>)
    ensures
        res.deep_view() == seq![first.deep_view(), second.deep_view()],
{
    let mut res: Vec<AgentEvent> = Vec::new();
    res.push(first);
    res.push(second);
    assert(res.deep_view() =~= seq![first.deep_view(), second.deep_view()]);
    res
}

fn error_report(message: &str) -> (res: AgentEvent)
    ensures
        res.deep_view() == error_event(message@),
{
    AgentEvent::Error(AgentError::new(message))
}

fn started_report(call: &ModelToolCall) -> (res: AgentEvent)
    ensures
        res.deep_view() == call_started(call.deep_view()),
{
    AgentEvent::ToolExecutionStarted {
        call_id: text_or_empty(&call.call_id),
        name: text_or_empty(&call.name),
        arguments: call.arguments.clone(),
    }
}

fn finished_report(call: &ModelToolCall, result: ToolExecutionResult) -> (res: AgentEvent)
    ensures
        res.deep_view() == call_finished(call.deep_view(), result.deep_view()),
{
    AgentEvent::ToolExecutionFinished {
        call_id: text_or_empty(&call.call_id),
        name: text_or_empty(&call.name),
        result,
    }
}

fn skipped() -> (res: ToolExecutionResult)
    ensures
        res.deep_view() == skipped_result(),
{
    ToolExecutionResult {
        model_content: TOOL_CANCELLED_TEXT.to_owned(),
        metadata: ToolExecutionMetadata { success: false, cancelled: true, truncated: false },
    }
}

fn message_with_result(call: &ModelToolCall, content: &str) -> (res: ModelMessage)
    ensures
        res.deep_view() == result_message(call.deep_view(), content@),
{
    ModelMessage::ToolResult {
        tool_call_id: text_or_empty(&call.call_id),
        tool_name: text_or_empty(&call.name),
        content: content.to_owned(),
    }
}

impl Turn {
    /// The turn is in order.
    pub open spec fn wf(&self) -> bool {
        turn_fits(self.deep_view())
    }

    /// A turn with what there is before its request.
    pub fn new(
        base_messages: Vec<ModelMessage>,
        history: ConversationHistory,
        tools: Vec<ToolDefinition>,
        reasoning_effort: Option<String>,
        compaction_enabled: bool,
        reserve_tokens: u64,
    ) -> (res: Self)
        ensures
            res.wf(),
            res.deep_view() == (TurnView {
                base: base_messages.deep_view(),
                tools: tools.deep_view(),
                effort: reasoning_effort.deep_view(),
                compaction_enabled,
                reserve_tokens,
                history: history.deep_view(),
                limits: ModelLimits { context_window: None, max_output_tokens: None },
                emergency: false,
                assistant_started: false,
                pending: None,
                delivering: false,
                stored: ModelMessageView::User { content: Seq::empty() },
                items: Seq::empty(),
                stop_reason: StopReason::Stop,
                calls: Seq::empty(),
                index: 0,
                result: skipped_result(),
                phase: TurnPhaseView::Beginning,
            }),
    {
        let res = Turn {
            base_messages,
            tools,
            reasoning_effort,
            compaction_enabled,
            reserve_tokens,
            history,
            limits: ModelLimits { context_window: None, max_output_tokens: None },
            emergency: false,
            assistant_started: false,
            pending: None,
            delivering: false,
            stored: ModelMessage::User { content: String::new() },
            items: Vec::new(),
            stop_reason: StopReason::Stop,
            calls: Vec::new(),
            index: 0,
            result: skipped(),
            phase: TurnPhase::Beginning,
        };
        proof {
            assert(res.items.deep_view() =~= Seq::<ModelAssistantItemView>::empty());
            assert(res.calls.deep_view() =~= Seq::<ModelToolCallView>::empty());
            assert(res.stored.deep_view()->User_content =~= Seq::<char>::empty());
        }
        res
    }

    /// The conversation so far.
    pub fn history(&self) -> (res: &ConversationHistory)
        ensures
            res.deep_view() == self.deep_view().history,
    {
        &self.history
    }

    /// The messages before the conversation.
    pub fn base_messages(&self) -> (res: &Vec<ModelMessage>)
        ensures
            res.deep_view() == self.deep_view().base,
    {
        &self.base_messages
    }

    /// The tools that are offered.
    pub fn tools(&self) -> (res: &Vec<ToolDefinition>)
        ensures
            res.deep_view() == self.deep_view().tools,
    {
        &self.tools
    }

    /// The conversation at the end.
    pub fn into_history(self) -> (res: ConversationHistory)
        ensures
            res.deep_view() == self.deep_view().history,
    {
        self.history
    }

    fn go_on(&mut self, phase: TurnPhase, reports: Vec<AgentEvent>, action: TurnAction) -> (res:
        TurnStep)
        ensures
            (final(self).deep_view(), res.deep_view()) == goes_on(
                old(self).deep_view(),
                phase.deep_view(),
                reports.deep_view(),
                action.deep_view(),
            ),
    {
        self.phase = phase;
        TurnStep { abort_delivery: false, reports, action }
    }

    fn end(&mut self, reason: StopReason) -> (res: TurnStep)
        ensures
            (final(self).deep_view(), res.deep_view()) == ended(old(self).deep_view(), reason),
    {
        self.go_on(TurnPhase::Finished, no_reports(), TurnAction::Finish(reason))
    }

    fn fail(&mut self, message: &str) -> (res: TurnStep)
        ensures
            (final(self).deep_view(), res.deep_view()) == failed(old(self).deep_view(), message@),
    {
        self.go_on(
            TurnPhase::Finished,
            one_report(error_report(message)),
            TurnAction::Finish(StopReason::Error),
        )
    }

    fn fail_delivery(&mut self, message: &str) -> (res: TurnStep)
        ensures
            (final(self).deep_view(), res.deep_view()) == delivery_failed(
                old(self).deep_view(),
                message@,
            ),
    {
        self.phase = TurnPhase::Finished;
        self.delivering = false;
        let error = ProviderError::Failed { message: message.to_owned() };
        TurnStep {
            abort_delivery: true,
            reports: one_report(error_report(&error.to_text())),
            action: TurnAction::Finish(StopReason::Error),
        }
    }

    fn store(&mut self, purpose: StorePurpose, message: ModelMessage) -> (res: TurnStep)
        ensures
            (final(self).deep_view(), res.deep_view()) == stores(
                old(self).deep_view(),
                purpose.deep_view(),
                message.deep_view(),
            ),
    {
        self.stored = message.clone();
        self.go_on(TurnPhase::Storing(purpose), no_reports(), TurnAction::Store(message))
    }

    fn send(&mut self, phase: TurnPhase, event: AgentEvent) -> (res: TurnStep)
        ensures
            (final(self).deep_view(), res.deep_view()) == sends(
                old(self).deep_view(),
                phase.deep_view(),
                event.deep_view(),
            ),
    {
        self.go_on(phase, no_reports(), TurnAction::Send(event))
    }

    fn check(&mut self, phase: TurnPhase) -> (res: TurnStep)
        ensures
            (final(self).deep_view(), res.deep_view()) == checks(
                old(self).deep_view(),
                phase.deep_view(),
            ),
    {
        self.go_on(phase, no_reports(), TurnAction::Check)
    }

    fn request(&self) -> (res: ModelRequest)
        ensures
            res.deep_view() == next_request(self.deep_view()),
    {
        let base = self.base_messages.as_slice();
        let tools = self.tools.as_slice();
        proof {
            assert(base.deep_view() =~= self.base_messages.deep_view());
            assert(tools.deep_view() =~= self.tools.deep_view());
        }
        normal_request_with_effort(base, &self.history, tools, self.reasoning_effort.clone())
    }

    fn due_request(&self) -> (res: ModelRequest)
        ensures
            res.deep_view() == due_request(self.deep_view()),
    {
        let mut request = self.request();
        if let Some(text) = &self.pending {
            let ghost before = request.messages.deep_view();
            request.messages.push(ModelMessage::User { content: text.clone() });
            assert(request.messages.deep_view() =~= before.push(
                ModelMessageView::User { content: text@ },
            ));
        }
        request
    }

    fn stream(&mut self, reports: Vec<AgentEvent>) -> (res: TurnStep)
        ensures
            (final(self).deep_view(), res.deep_view()) == streams(
                old(self).deep_view(),
                reports.deep_view(),
            ),
    {
        let request = self.request();
        let delivery = self.delivering;
        self.go_on(TurnPhase::Streaming, reports, TurnAction::Stream { request, delivery })
    }

    fn open_message(&mut self, reports: Vec<AgentEvent>) -> (res: TurnStep)
        ensures
            (final(self).deep_view(), res.deep_view()) == opens_message(
                old(self).deep_view(),
                reports.deep_view(),
            ),
    {
        if self.pending.is_some() {
            self.pending = None;
            self.go_on(TurnPhase::TakingSteering, reports, TurnAction::TakeSteering)
        } else if !self.assistant_started {
            self.go_on(
                TurnPhase::OpeningMessage,
                reports,
                TurnAction::Send(AgentEvent::AssistantMessageStarted),
            )
        } else {
            self.stream(reports)
        }
    }

    fn attempt(&mut self) -> (res: TurnStep)
        ensures
            (final(self).deep_view(), res.deep_view()) == attempts(old(self).deep_view()),
    {
        let tokens = estimate_request_tokens(&self.due_request());
        let reports = two_reports(
            AgentEvent::ContextLimitsUpdated(self.limits),
            AgentEvent::ContextUsageUpdated(ContextUsage::estimated(tokens, self.limits)),
        );
        let long = match automatic_compaction_threshold(self.limits, self.reserve_tokens) {
            Some(threshold) => tokens > threshold,
            None => false,
        };
        if self.compaction_enabled && !self.emergency && long {
            self.go_on(TurnPhase::Compacting, reports, TurnAction::Compact { force: false })
        } else {
            self.open_message(reports)
        }
    }

    fn begin_round(&mut self, limits: ModelLimits)
        ensures
            final(self).deep_view() == round_begins(old(self).deep_view(), limits),
    {
        self.limits = limits;
        self.emergency = false;
        self.assistant_started = false;
        self.items = Vec::new();
        self.calls = Vec::new();
        self.index = 0;
        assert(self.items.deep_view() =~= Seq::<ModelAssistantItemView>::empty());
        assert(self.calls.deep_view() =~= Seq::<ModelToolCallView>::empty());
    }

    fn skip(&mut self) -> (res: TurnStep)
        requires
            0 <= old(self).deep_view().index <= old(self).deep_view().calls.len(),
        ensures
            (final(self).deep_view(), res.deep_view()) == skips(old(self).deep_view()),
    {
        if self.index >= self.calls.len() {
            self.end(StopReason::Cancelled)
        } else {
            let event = started_report(&self.calls[self.index]);
            self.send(TurnPhase::OpeningSkipped, event)
        }
    }

    fn run_tools(&mut self) -> (res: TurnStep)
        requires
            0 <= old(self).deep_view().index <= old(self).deep_view().calls.len(),
        ensures
            (final(self).deep_view(), res.deep_view()) == runs_tools(old(self).deep_view()),
    {
        if self.index >= self.calls.len() {
            self.go_on(
                TurnPhase::Reserving(false),
                no_reports(),
                TurnAction::Reserve { seal: false },
            )
        } else {
            let call = self.calls[self.index].clone();
            let reports = one_report(started_report(&call));
            self.go_on(TurnPhase::RunningTool, reports, TurnAction::RunTool(call))
        }
    }

    fn commit(&mut self, purpose: StorePurpose) -> (res: TurnStep)
        requires
            purpose.deep_view() is ToolResult || purpose.deep_view() is Skipped ==> 0 < old(
                self,
            ).deep_view().index <= old(self).deep_view().calls.len(),
        ensures
            (final(self).deep_view(), res.deep_view()) == committed(
                old(self).deep_view(),
                purpose.deep_view(),
            ),
    {
        match purpose {
            StorePurpose::Request => self.send(TurnPhase::Opening, AgentEvent::TurnStarted),
            StorePurpose::Steering(text) => self.send(
                TurnPhase::Delivering,
                AgentEvent::SteeringMessageDelivered { text },
            ),
            StorePurpose::Reply => {
                let items = self.items.clone();
                assert(items.deep_view() =~= self.items.deep_view());
                self.send(
                    TurnPhase::ClosingMessage,
                    AgentEvent::AssistantMessageFinished { items },
                )
            },
            StorePurpose::ToolResult => {
                let cancelled = self.result.metadata.cancelled;
                let report = finished_report(&self.calls[self.index - 1], self.result.clone());
                self.go_on(
                    TurnPhase::CheckingAfterTool(cancelled),
                    one_report(report),
                    TurnAction::Check,
                )
            },
            StorePurpose::Skipped => {
                let report = finished_report(&self.calls[self.index - 1], skipped());
                self.send(TurnPhase::ClosingSkipped, report)
            },
        }
    }

    fn fail_commit(&mut self, purpose: StorePurpose, call: usize, message: &str) -> (res: TurnStep)
        requires
            purpose.deep_view() is ToolResult ==> call < old(self).deep_view().calls.len(),
        ensures
            (final(self).deep_view(), res.deep_view()) == not_committed(
                old(self).deep_view(),
                purpose.deep_view(),
                call as int,
                message@,
            ),
    {
        match purpose {
            StorePurpose::Steering(_) => self.fail_delivery(message),
            StorePurpose::ToolResult => {
                let report = finished_report(&self.calls[call], self.result.clone());
                self.go_on(
                    TurnPhase::Finished,
                    two_reports(report, error_report(message)),
                    TurnAction::Finish(StopReason::Error),
                )
            },
            _ => self.fail(message),
        }
    }

    fn on_stored(&mut self, purpose: StorePurpose, info: Option<SessionInfo>) -> (res: TurnStep)
        requires
            purpose.deep_view() is ToolResult || purpose.deep_view() is Skipped ==> 0 <= old(
                self,
            ).deep_view().index < old(self).deep_view().calls.len(),
        ensures
            (final(self).deep_view(), res.deep_view()) == after_store(
                old(self).deep_view(),
                purpose.deep_view(),
                info.deep_view(),
            ),
    {
        self.history.push(self.stored.clone());
        let count: usize = self.calls.len();
        match &purpose {
            StorePurpose::ToolResult => {
                assert(self.index < count);
                self.index = self.index + 1;
            },
            StorePurpose::Skipped => {
                assert(self.index < count);
                self.index = self.index + 1;
            },
            _ => {},
        }
        assert(self.deep_view() == added(old(self).deep_view(), purpose.deep_view()));
        match info {
            Some(info) => self.send(
                TurnPhase::Announcing(purpose),
                AgentEvent::SessionChanged { info },
            ),
            None => self.commit(purpose),
        }
    }

    fn on_not_compacted(&mut self, error: CompactionError) -> (res: TurnStep)
        requires
            old(self).deep_view().phase is Compacting || old(self).deep_view().phase
                is CompactingForced,
        ensures
            (final(self).deep_view(), res.deep_view()) == after_no_compaction(
                old(self).deep_view(),
                error.deep_view(),
            ),
    {
        match error {
            CompactionError::Cancelled => self.end(StopReason::Cancelled),
            CompactionError::Failed(message) => self.fail(&message),
            CompactionError::NoHistory => {
                let overflow = match &self.phase {
                    TurnPhase::CompactingForced(message) => Some(message.clone()),
                    _ => None,
                };
                match overflow {
                    Some(message) => self.fail(
                        &concat(
                            "context still exceeds the selected model's limit after compaction: ",
                            &message,
                        ),
                    ),
                    None => self.open_message(no_reports()),
                }
            },
        }
    }

    fn on_response(&mut self, response: ModelResponse) -> (res: TurnStep)
        ensures
            (final(self).deep_view(), res.deep_view()) == after_response(
                old(self).deep_view(),
                response.deep_view(),
            ),
    {
        let calls = match validated_tool_calls(&response) {
            Ok(calls) => calls,
            Err(message) => {
                return self.fail(&message);
            },
        };
        if response.stop_reason == StopReason::ToolCalls && calls.len() == 0 {
            return self.fail("provider requested tool execution but returned no tool calls");
        }
        let items = response.items.clone();
        assert(items.deep_view() =~= response.items.deep_view());
        self.items = response.items;
        self.stop_reason = response.stop_reason;
        self.calls = calls;
        self.index = 0;
        self.store(StorePurpose::Reply, ModelMessage::Assistant { items })
    }

    fn on_no_response(&mut self, error: ProviderError) -> (res: TurnStep)
        ensures
            (final(self).deep_view(), res.deep_view()) == after_no_response(
                old(self).deep_view(),
                error.deep_view(),
            ),
    {
        match error {
            ProviderError::Cancelled => self.end(StopReason::Cancelled),
            ProviderError::ContextOverflow { message } => {
                if self.compaction_enabled && !self.emergency {
                    self.emergency = true;
                    self.go_on(
                        TurnPhase::CompactingForced(message),
                        no_reports(),
                        TurnAction::Compact { force: true },
                    )
                } else {
                    let error = ProviderError::ContextOverflow { message };
                    self.fail(&error.to_text())
                }
            },
            error => self.fail(&error.to_text()),
        }
    }

    fn on_sent(&mut self, sent: bool) -> (res: TurnStep)
        requires
            old(self).wf(),
            fits(old(self).deep_view().phase, TurnInputView::Sent(sent)),
        ensures
            (final(self).deep_view(), res.deep_view()) == after_send(old(self).deep_view(), sent),
    {
        match self.phase.clone() {
            TurnPhase::Announcing(purpose) => if sent {
                self.commit(purpose)
            } else {
                let call: usize = if self.index > 0 {
                    self.index - 1
                } else {
                    0
                };
                self.fail_commit(purpose, call, EVENTS_CLOSED_TEXT)
            },
            TurnPhase::Opening => if sent {
                self.check(TurnPhase::CheckingRound)
            } else {
                self.end(StopReason::Error)
            },
            TurnPhase::OpeningMessage => if sent {
                self.assistant_started = true;
                self.stream(no_reports())
            } else {
                self.end(StopReason::Error)
            },
            TurnPhase::Delivering => if !sent {
                self.fail_delivery(EVENTS_CLOSED_TEXT)
            } else if !self.assistant_started {
                self.send(TurnPhase::OpeningSteered, AgentEvent::AssistantMessageStarted)
            } else {
                self.stream(no_reports())
            },
            TurnPhase::OpeningSteered => if sent {
                self.assistant_started = true;
                self.stream(no_reports())
            } else {
                self.fail_delivery(EVENTS_CLOSED_TEXT)
            },
            TurnPhase::ClosingMessage => if !sent {
                self.end(StopReason::Error)
            } else if self.calls.len() > 0 {
                self.check(TurnPhase::CheckingTools)
            } else if self.stop_reason == StopReason::Error {
                self.fail("provider returned an error stop reason")
            } else {
                self.go_on(
                    TurnPhase::Reserving(true),
                    no_reports(),
                    TurnAction::Reserve { seal: true },
                )
            },
            TurnPhase::OpeningSkipped => if sent {
                let message = message_with_result(&self.calls[self.index], TOOL_CANCELLED_TEXT);
                self.store(StorePurpose::Skipped, message)
            } else {
                self.fail(EVENTS_CLOSED_TEXT)
            },
            TurnPhase::ClosingSkipped => if sent {
                self.skip()
            } else {
                self.fail(EVENTS_CLOSED_TEXT)
            },
            _ => {
                assert(false);
                self.end(StopReason::Error)
            },
        }
    }

    fn on_checked(&mut self, cancelled: bool, limits: ModelLimits) -> (res: TurnStep)
        requires
            old(self).wf(),
            fits(old(self).deep_view().phase, TurnInputView::Checked { cancelled, limits }),
        ensures
            (final(self).deep_view(), res.deep_view()) == after_check(
                old(self).deep_view(),
                cancelled,
                limits,
            ),
    {
        match self.phase.clone() {
            TurnPhase::CheckingRound => if cancelled {
                self.end(StopReason::Cancelled)
            } else {
                self.begin_round(limits);
                self.attempt()
            },
            TurnPhase::CheckingAttempt => if cancelled {
                self.end(StopReason::Cancelled)
            } else {
                self.attempt()
            },
            TurnPhase::CheckingTools => if cancelled {
                self.skip()
            } else {
                self.run_tools()
            },
            TurnPhase::CheckingAfterTool(result_cancelled) => if cancelled || result_cancelled {
                self.skip()
            } else {
                self.run_tools()
            },
            _ => {
                assert(false);
                self.end(StopReason::Error)
            },
        }
    }

    fn on_reserved(&mut self, reserved: SteeringInjection) -> (res: TurnStep)
        requires
            old(self).deep_view().phase is Reserving,
        ensures
            (final(self).deep_view(), res.deep_view()) == after_reserve(
                old(self).deep_view(),
                reserved.deep_view(),
                old(self).deep_view().phase->Reserving_0,
            ),
    {
        let last = match &self.phase {
            TurnPhase::Reserving(last) => *last,
            _ => false,
        };
        match reserved {
            SteeringInjection::Pending(text) => {
                self.pending = Some(text);
                self.check(TurnPhase::CheckingRound)
            },
            SteeringInjection::Empty => if last {
                let reason = self.stop_reason;
                self.end(reason)
            } else {
                self.check(TurnPhase::CheckingRound)
            },
            SteeringInjection::Cancelled => self.end(StopReason::Cancelled),
        }
    }

    fn purpose(&self) -> (res: StorePurpose)
        requires
            self.deep_view().phase is Storing,
        ensures
            res.deep_view() == self.deep_view().phase->Storing_0,
    {
        match &self.phase {
            TurnPhase::Storing(purpose) => purpose.clone(),
            _ => StorePurpose::Request,
        }
    }

    /// Tells the turn what it waits for.
    pub fn step(&mut self, input: TurnInput) -> (res: TurnStep)
        requires
            old(self).wf(),
            fits(old(self).deep_view().phase, input.deep_view()),
        ensures
            final(self).wf(),
            (final(self).deep_view(), res.deep_view()) == turn_next(
                old(self).deep_view(),
                input.deep_view(),
            ),
    {
        proof {
            lemma_turn_stays_in_order(self.deep_view(), input.deep_view());
        }
        match input {
            TurnInput::Begin(text) => self.store(
                StorePurpose::Request,
                ModelMessage::User { content: text },
            ),
            TurnInput::Stored(info) => {
                let purpose = self.purpose();
                self.on_stored(purpose, info)
            },
            TurnInput::NotStored(error) => {
                let purpose = self.purpose();
                let index = self.index;
                self.fail_commit(purpose, index, &concat("session persistence failed: ", &error))
            },
            TurnInput::Sent(sent) => self.on_sent(sent),
            TurnInput::Checked { cancelled, limits } => self.on_checked(cancelled, limits),
            TurnInput::Compacted(history) => {
                self.history = history;
                self.check(TurnPhase::CheckingAttempt)
            },
            TurnInput::NotCompacted(error) => self.on_not_compacted(error),
            TurnInput::Steering(text) => match text {
                Some(text) => {
                    self.delivering = true;
                    self.store(
                        StorePurpose::Steering(text.clone()),
                        ModelMessage::User { content: text },
                    )
                },
                None => self.end(StopReason::Cancelled),
            },
            TurnInput::Streamed(response) => {
                self.delivering = false;
                self.on_response(response)
            },
            TurnInput::NotStreamed(error) => {
                self.delivering = false;
                self.on_no_response(error)
            },
            TurnInput::Reserved(reserved) => self.on_reserved(reserved),
            TurnInput::ToolFinished(result) => {
                let message = message_with_result(
                    &self.calls[self.index],
                    &result.model_content,
                );
                self.result = result;
                self.store(StorePurpose::ToolResult, message)
            },
        }
    }
}

} // verus!
