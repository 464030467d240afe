//! What a turn does with what it is told.

use crate::agent::compaction::CompactionErrorView;
use crate::agent::event::{AgentErrorView, AgentEventView};
use crate::agent::steering::SteeringInjectionView;
use crate::agent::turn::{
    calls_of, first_call_error, fits, turn_next, StorePurposeView, TurnActionView, TurnInputView,
    TurnPhaseView, TurnView, TOOL_CANCELLED_TEXT,
};
use crate::context::accounting::{request_tokens, UsageSource};
use crate::conversation::{COMPACTION_SUMMARY_END, COMPACTION_SUMMARY_START};
use crate::json::Json;
use crate::model::message::{
    provider_error_text, ModelAssistantItemView, ModelLimits, ModelMessageView, ModelRequestView,
    ModelResponseView, ModelToolCallView, ProviderErrorView, StopReason,
};
use vstd::prelude::*;

verus! {

/// A turn keeps what it was begun with: the messages in front, the tools, the effort, and what was
/// settled of compaction.
pub proof fn lemma_settings_of_a_turn_stay(s: TurnView, input: TurnInputView)
    requires
        fits(s.phase, input),
    ensures
        ({
            let next = turn_next(s, input).0;
            &&& next.base == s.base
            &&& next.tools == s.tools
            &&& next.effort == s.effort
            &&& next.compaction_enabled == s.compaction_enabled
            &&& next.reserve_tokens == s.reserve_tokens
        }),
{
}

/// A turn in which compaction is switched off asks for none, neither by the size of the
/// conversation nor after a refusal.
pub proof fn lemma_disabled_compaction_never_runs(s: TurnView, input: TurnInputView)
    requires
        fits(s.phase, input),
        !s.compaction_enabled,
    ensures
        !(turn_next(s, input).1.action is Compact),
        !turn_next(s, input).0.compaction_enabled,
{
}

/// The messages that go to a model: those in front, the summary where there is one, the
/// conversation, and the steering message that is set aside.
pub open spec fn is_sent(s: TurnView, with_pending: bool, request: ModelRequestView) -> bool {
    let summary = match s.history.summary {
        Some(summary) => seq![
            ModelMessageView::Developer {
                content: COMPACTION_SUMMARY_START@ + summary + COMPACTION_SUMMARY_END@,
            },
        ],
        None => Seq::empty(),
    };
    let last = match s.pending {
        Some(text) if with_pending => seq![ModelMessageView::User { content: text }],
        _ => Seq::empty(),
    };
    &&& request.messages =~= s.base + summary + s.history.messages + last
    &&& request.tools == s.tools
    &&& request.reasoning_effort == s.effort
    &&& request.max_tokens is None
    &&& request.sampling_params == Map::<Seq<char>, Json>::empty()
}

/// What is sent to the model is the whole conversation, with the tools and the effort of the turn,
/// and only once the start of its message was sent; a steering message that is on its way is
/// marked.
pub proof fn lemma_the_whole_conversation_is_sent(s: TurnView, input: TurnInputView)
    requires
        fits(s.phase, input),
    ensures
        turn_next(s, input).1.action matches TurnActionView::Stream { request, delivery } ==> {
            let next = turn_next(s, input).0;
            &&& is_sent(next, false, request)
            &&& delivery == s.delivering
            &&& next.assistant_started
            &&& next.phase is Streaming
        },
{
    let next = turn_next(s, input).0;
    if let TurnActionView::Stream { request, delivery } = turn_next(s, input).1.action {
        assert(is_sent(next, false, request));
    }
}

/// How many tokens of a window a conversation may take.
pub open spec fn exceeds(window: u64, reserve: u64, tokens: int) -> bool {
    tokens > 0 && tokens + reserve > window
}

/// Before a request, unless the turn was cancelled: the limits and the estimate of what is to be
/// sent are reported, and the conversation is compacted first exactly where that is allowed, was
/// not forced in this round already, and the estimate with the reserve exceeds the window.
pub proof fn lemma_long_conversations_are_compacted(
    s: TurnView,
    limits: ModelLimits,
    request: ModelRequestView,
)
    requires
        s.phase is CheckingRound || s.phase is CheckingAttempt,
        is_sent(s, true, request),
    ensures
        ({
            let (next, step) = turn_next(s, TurnInputView::Checked { cancelled: false, limits });
            let used = if s.phase is CheckingRound {
                limits
            } else {
                s.limits
            };
            let forced = s.phase is CheckingAttempt && s.emergency;
            &&& next.limits == used
            &&& step.reports.len() == 2
            &&& step.reports[0] == AgentEventView::ContextLimitsUpdated(used)
            &&& step.reports[1] matches AgentEventView::ContextUsageUpdated(usage)
                && usage.estimated_input_tokens == request_tokens(request)
                && usage.input_tokens is None && usage.context_window == used.context_window
                && usage.max_output_tokens == used.max_output_tokens
                && usage.source == UsageSource::Estimated
            &&& step.action is Compact <==> s.compaction_enabled && !forced && (
            used.context_window matches Some(window) && exceeds(
                window,
                s.reserve_tokens,
                request_tokens(request),
            ))
            &&& step.action is Compact ==> step.action == (TurnActionView::Compact { force: false })
        }),
{
    crate::context::accounting::lemma_messages_tokens(request.messages);
    crate::context::accounting::lemma_tools_tokens(request.tools);
    let with_limits = TurnView {
        limits,
        emergency: false,
        assistant_started: false,
        items: Seq::empty(),
        calls: Seq::empty(),
        index: 0,
        ..s
    };
    assert(crate::agent::turn::due_request(s).messages =~= request.messages);
    assert(crate::agent::turn::due_request(with_limits).messages =~= request.messages);
    assert(crate::agent::turn::due_request(s) == request);
    assert(crate::agent::turn::due_request(with_limits) == request);
}

/// Where nothing stands before the request, its message is opened, then it is sent; where a
/// steering message is set aside, that is taken first; where the message is open, it is sent at
/// once.
pub proof fn lemma_requests_follow_checks(s: TurnView, limits: ModelLimits)
    requires
        s.phase is CheckingAttempt,
        !s.compaction_enabled || s.emergency || s.limits.context_window is None,
    ensures
        ({
            let (next, step) = turn_next(s, TurnInputView::Checked { cancelled: false, limits });
            match s.pending {
                Some(_) => step.action is TakeSteering && next.pending is None && next.phase
                    is TakingSteering,
                None => if s.assistant_started {
                    step.action is Stream
                } else {
                    &&& step.action == TurnActionView::Send(AgentEventView::AssistantMessageStarted)
                    &&& next.phase is OpeningMessage
                },
            }
        }),
        turn_next(
            TurnView { phase: TurnPhaseView::OpeningMessage, ..s },
            TurnInputView::Sent(true),
        ).1.action is Stream,
{
}

/// A provider that finds the conversation too long makes the turn compact it, by force, where that
/// is allowed and was not done in this round; any other failure but a cancellation is reported and
/// ends the turn.
pub proof fn lemma_refused_conversations_are_compacted_once(s: TurnView, error: ProviderErrorView)
    requires
        s.phase is Streaming,
    ensures
        ({
            let (next, step) = turn_next(s, TurnInputView::NotStreamed(error));
            let too_long = error is ContextOverflow && s.compaction_enabled && !s.emergency;
            &&& too_long <==> step.action == (TurnActionView::Compact { force: true })
            &&& too_long ==> next.emergency && next.history == s.history
            &&& error is Cancelled ==> step.action == TurnActionView::Finish(StopReason::Cancelled)
                && step.reports.len() == 0
            &&& !too_long && !(error is Cancelled) ==> step.action == TurnActionView::Finish(
                StopReason::Error,
            ) && step.reports == seq![
                AgentEventView::Error(AgentErrorView { message: provider_error_text(error) }),
            ]
        }),
{
}

/// A compaction that came about is taken over, and the attempt made anew; one for which there is
/// nothing lets the request go unless it was forced; one that was cancelled or failed ends the
/// turn.
pub proof fn lemma_compactions_are_followed_up(
    s: TurnView,
    input: TurnInputView,
)
    requires
        s.phase is Compacting || s.phase is CompactingForced,
        fits(s.phase, input),
    ensures
        ({
            let (next, step) = turn_next(s, input);
            match input {
                TurnInputView::Compacted(history) => {
                    &&& next.history == history
                    &&& step.action is Check
                    &&& next.phase is CheckingAttempt
                    &&& next.pending == s.pending
                    &&& next.emergency == s.emergency
                },
                TurnInputView::NotCompacted(CompactionErrorView::NoHistory) => if s.phase
                    is Compacting {
                    !(step.action is Finish) && !(step.action is Compact) && step.reports.len() == 0
                } else {
                    step.action == TurnActionView::Finish(StopReason::Error) && step.reports.len()
                        == 1 && step.reports[0] is Error
                },
                TurnInputView::NotCompacted(CompactionErrorView::Cancelled) => step.action
                    == TurnActionView::Finish(StopReason::Cancelled),
                TurnInputView::NotCompacted(CompactionErrorView::Failed(message)) => step.action
                    == TurnActionView::Finish(StopReason::Error) && step.reports == seq![
                    AgentEventView::Error(AgentErrorView { message }),
                ],
                _ => true,
            }
        }),
{
}

/// The calls of tools among the items.
pub open spec fn is_call(item: ModelAssistantItemView) -> bool {
    item is ToolCall
}

/// A call that can be answered: it has an identifier and a name.
pub open spec fn can_run(call: ModelToolCallView) -> bool {
    &&& call.call_id matches Some(id) && id.len() > 0
    &&& call.name matches Some(name) && name.len() > 0
}

/// The calls of a reply are its items that are calls, all of them and in order.
pub proof fn lemma_calls_of_a_reply(items: Seq<ModelAssistantItemView>)
    ensures
        calls_of(items).len() == items.filter(|item: ModelAssistantItemView| is_call(item)).len(),
        forall|i: int|
            0 <= i < calls_of(items).len() ==> items.filter(
                |item: ModelAssistantItemView| is_call(item),
            )[i] == ModelAssistantItemView::ToolCall(#[trigger] calls_of(items)[i]),
    decreases items.len(),
{
    reveal(Seq::filter);
    if items.len() > 0 {
        lemma_calls_of_a_reply(items.drop_last());
    }
}

proof fn lemma_first_call_error(calls: Seq<ModelToolCallView>)
    ensures
        first_call_error(calls) is None <==> forall|i: int|
            0 <= i < calls.len() ==> can_run(#[trigger] calls[i]),
    decreases calls.len(),
{
    if calls.len() > 0 {
        let rest = calls.drop_first();
        lemma_first_call_error(rest);
        if first_call_error(calls) is None {
            assert forall|i: int| 0 <= i < calls.len() implies can_run(#[trigger] calls[i]) by {
                if i > 0 {
                    assert(can_run(rest[i - 1]));
                }
            }
        }
        if forall|i: int| 0 <= i < calls.len() ==> can_run(#[trigger] calls[i]) {
            assert(can_run(calls[0]));
            assert forall|i: int| 0 <= i < rest.len() implies can_run(#[trigger] rest[i]) by {
                assert(can_run(calls[i + 1]));
            }
        }
    }
}

/// A reply whose calls can all run, and which has one where it was to have some, is stored as it
/// came, and its calls and the reason of its end are remembered; any other reply ends the turn by
/// an error.
pub proof fn lemma_replies_are_stored(s: TurnView, response: ModelResponseView)
    requires
        s.phase is Streaming,
    ensures
        ({
            let (next, step) = turn_next(s, TurnInputView::Streamed(response));
            let calls = calls_of(response.items);
            let fine = (forall|i: int| 0 <= i < calls.len() ==> can_run(#[trigger] calls[i])) && (
            response.stop_reason == StopReason::ToolCalls ==> calls.len() > 0);
            &&& !next.delivering
            &&& fine ==> {
                &&& step.action == TurnActionView::Store(
                    ModelMessageView::Assistant { items: response.items },
                )
                &&& next.items == response.items
                &&& next.stop_reason == response.stop_reason
                &&& next.calls == calls
                &&& next.index == 0
                &&& next.phase == TurnPhaseView::Storing(StorePurposeView::Reply)
            }
            &&& !fine ==> {
                &&& step.action == TurnActionView::Finish(StopReason::Error)
                &&& step.reports.len() == 1 && step.reports[0] is Error
            }
        }),
{
    lemma_first_call_error(calls_of(response.items));
}

/// A stored message is announced: a request opens the turn, a steering message is delivered, a
/// reply is finished with its items, and a result finishes its call; where the session changed,
/// that is sent before.
pub proof fn lemma_stored_messages_are_announced(s: TurnView, input: TurnInputView)
    requires
        s.phase is Storing && input is Stored || s.phase is Announcing && input
            == TurnInputView::Sent(true),
        s.phase == TurnPhaseView::Storing(StorePurposeView::ToolResult) || s.phase
            == TurnPhaseView::Storing(StorePurposeView::Skipped) ==> 0 <= s.index < s.calls.len(),
        s.phase == TurnPhaseView::Announcing(StorePurposeView::ToolResult) || s.phase
            == TurnPhaseView::Announcing(StorePurposeView::Skipped) ==> 0 < s.index
            <= s.calls.len(),
    ensures
        ({
            let (next, step) = turn_next(s, input);
            let purpose = match s.phase {
                TurnPhaseView::Storing(purpose) => purpose,
                TurnPhaseView::Announcing(purpose) => purpose,
                _ => arbitrary(),
            };
            let call = if s.phase is Storing {
                s.calls[s.index]
            } else {
                s.calls[s.index - 1]
            };
            match input {
                TurnInputView::Stored(Some(info)) => {
                    &&& step.action == TurnActionView::Send(AgentEventView::SessionChanged { info })
                    &&& next.phase == TurnPhaseView::Announcing(purpose)
                },
                _ => match purpose {
                    StorePurposeView::Request => step.action == TurnActionView::Send(
                        AgentEventView::TurnStarted,
                    ),
                    StorePurposeView::Steering(text) => step.action == TurnActionView::Send(
                        AgentEventView::SteeringMessageDelivered { text },
                    ),
                    StorePurposeView::Reply => step.action == TurnActionView::Send(
                        AgentEventView::AssistantMessageFinished { items: s.items },
                    ),
                    StorePurposeView::ToolResult => {
                        &&& step.action is Check
                        &&& step.reports.len() == 1
                        &&& finishes(step.reports[0], call)
                        &&& step.reports[0]->ToolExecutionFinished_result == s.result
                        &&& next.phase == TurnPhaseView::CheckingAfterTool(
                            s.result.metadata.cancelled,
                        )
                    },
                    StorePurposeView::Skipped => {
                        &&& step.action matches TurnActionView::Send(event)
                        &&& finishes(event, call)
                        &&& event->ToolExecutionFinished_result.model_content
                            == TOOL_CANCELLED_TEXT@
                        &&& event->ToolExecutionFinished_result.metadata.cancelled
                        &&& !event->ToolExecutionFinished_result.metadata.success
                    },
                },
            }
        }),
{
}

/// The event ends this call.
pub open spec fn finishes(event: AgentEventView, call: ModelToolCallView) -> bool {
    event matches AgentEventView::ToolExecutionFinished { call_id, name, result } && (
    call.call_id matches Some(id) ==> call_id == id) && (call.name matches Some(tool) ==> name
        == tool)
}

/// The event begins this call.
pub open spec fn begins(event: AgentEventView, call: ModelToolCallView) -> bool {
    event matches AgentEventView::ToolExecutionStarted { call_id, name, arguments } && (
    call.call_id matches Some(id) ==> call_id == id) && (call.name matches Some(tool) ==> name
        == tool) && arguments == call.arguments
}

/// The message is the result of this call.
pub open spec fn results(
    message: ModelMessageView,
    call: ModelToolCallView,
    result: Seq<char>,
) -> bool {
    message matches ModelMessageView::ToolResult { tool_call_id, tool_name, content } && (
    call.call_id matches Some(id) ==> tool_call_id == id) && (
    call.name matches Some(tool) ==> tool_name == tool) && content == result
}

/// The calls of a reply run one after the other, each after its start was reported, as long as
/// nothing was cancelled; after the last a steering message is looked for, and the next round
/// begins.
pub proof fn lemma_tools_run_in_order(s: TurnView, limits: ModelLimits)
    requires
        s.phase is CheckingTools || s.phase == TurnPhaseView::CheckingAfterTool(false),
        0 <= s.index <= s.calls.len(),
    ensures
        ({
            let (next, step) = turn_next(s, TurnInputView::Checked { cancelled: false, limits });
            if s.index < s.calls.len() {
                &&& step.action == TurnActionView::RunTool(s.calls[s.index])
                &&& step.reports.len() == 1 && begins(step.reports[0], s.calls[s.index])
                &&& next.phase is RunningTool
                &&& next.index == s.index
            } else {
                &&& step.action == (TurnActionView::Reserve { seal: false })
                &&& next.phase == TurnPhaseView::Reserving(false)
            }
        }),
{
}

/// The result of a tool is stored under the identifier and the name of its call, and once stored
/// it stands at the end of the conversation.
pub proof fn lemma_results_are_fed_back(
    s: TurnView,
    result: crate::tools::ToolExecutionResultView,
    info: Option<crate::session::SessionInfoView>,
)
    requires
        s.phase is RunningTool,
        0 <= s.index < s.calls.len(),
    ensures
        ({
            let (stored, step) = turn_next(s, TurnInputView::ToolFinished(result));
            let after = turn_next(stored, TurnInputView::Stored(info)).0;
            &&& step.action matches TurnActionView::Store(message)
            &&& results(message, s.calls[s.index], result.model_content)
            &&& stored.result == result
            &&& after.history.messages == s.history.messages.push(message)
            &&& after.history.summary == s.history.summary
            &&& after.index == s.index + 1
            &&& after.calls == s.calls
        }),
{
}

/// After a cancellation no tool runs, nothing is sent to a model and nothing is compacted: each
/// call that is left gets a result that says so, and then the turn ends as cancelled.
pub proof fn lemma_cancelled_turns_come_to_an_end(s: TurnView, limits: ModelLimits)
    requires
        s.phase is CheckingRound || s.phase is CheckingAttempt || s.phase is CheckingTools
            || s.phase is CheckingAfterTool,
        0 <= s.index <= s.calls.len(),
    ensures
        ({
            let (next, step) = turn_next(s, TurnInputView::Checked { cancelled: true, limits });
            if s.phase is CheckingRound || s.phase is CheckingAttempt || s.index == s.calls.len() {
                step.action == TurnActionView::Finish(StopReason::Cancelled)
            } else {
                &&& step.action matches TurnActionView::Send(event)
                &&& begins(event, s.calls[s.index])
                &&& next.phase is OpeningSkipped
            }
        }),
        s.phase == TurnPhaseView::CheckingAfterTool(true) ==> turn_next(
            s,
            TurnInputView::Checked { cancelled: false, limits },
        ) == turn_next(s, TurnInputView::Checked { cancelled: true, limits }),
{
}

/// A call that is passed over gets a result in the conversation that says so, and the next one
/// follows; after the last the turn ends as cancelled.
pub proof fn lemma_skipped_calls_are_answered(s: TurnView)
    requires
        s.phase is OpeningSkipped || s.phase is ClosingSkipped,
        s.phase is OpeningSkipped ==> 0 <= s.index < s.calls.len(),
        s.phase is ClosingSkipped ==> 0 <= s.index <= s.calls.len(),
    ensures
        ({
            let (next, step) = turn_next(s, TurnInputView::Sent(true));
            if s.phase is OpeningSkipped {
                &&& step.action matches TurnActionView::Store(message)
                &&& results(message, s.calls[s.index], TOOL_CANCELLED_TEXT@)
                &&& next.phase == TurnPhaseView::Storing(StorePurposeView::Skipped)
            } else if s.index < s.calls.len() {
                &&& step.action matches TurnActionView::Send(event)
                &&& begins(event, s.calls[s.index])
                &&& next.phase is OpeningSkipped
            } else {
                step.action == TurnActionView::Finish(StopReason::Cancelled)
            }
        }),
{
}

/// A turn ends other than by an error or a cancellation only where its last reply called no tool
/// and no steering message is left, and then for the reason that the reply gave.
pub proof fn lemma_turns_end_for_the_reason_of_the_reply(s: TurnView, input: TurnInputView)
    requires
        fits(s.phase, input),
    ensures
        ({
            let (next, step) = turn_next(s, input);
            &&& step.action matches TurnActionView::Finish(reason) ==> {
                ||| reason == StopReason::Error
                ||| reason == StopReason::Cancelled
                ||| input == TurnInputView::Reserved(SteeringInjectionView::Empty) && s.phase
                    == TurnPhaseView::Reserving(true) && reason == s.stop_reason
            }
            &&& input == TurnInputView::Reserved(SteeringInjectionView::Empty) && s.phase
                == TurnPhaseView::Reserving(true) ==> step.action == TurnActionView::Finish(
                s.stop_reason,
            )
            &&& step.action == (TurnActionView::Reserve { seal: true }) ==> s.phase
                is ClosingMessage && s.calls.len() == 0 && s.stop_reason != StopReason::Error
            &&& next.phase == TurnPhaseView::Reserving(true) ==> step.action == (
            TurnActionView::Reserve { seal: true })
            &&& s.phase is ClosingMessage && input == TurnInputView::Sent(true) ==> if s.calls.len()
                > 0 {
                step.action is Check && next.phase is CheckingTools
            } else if s.stop_reason == StopReason::Error {
                step.action == TurnActionView::Finish(StopReason::Error)
            } else {
                step.action == (TurnActionView::Reserve { seal: true })
            }
        }),
{
}

/// A steering message that is set aside keeps the turn going: it is taken, stored, delivered and
/// then sent with the conversation; without one a round that ran tools is followed by the next,
/// and a cancellation ends the turn.
pub proof fn lemma_steering_keeps_the_turn_going(
    s: TurnView,
    reserved: SteeringInjectionView,
    taken: Option<Seq<char>>,
)
    ensures
        s.phase is Reserving ==> {
            let (next, step) = turn_next(s, TurnInputView::Reserved(reserved));
            match reserved {
                SteeringInjectionView::Pending(text) => next.pending == Some(text) && step.action
                    is Check && next.phase is CheckingRound,
                SteeringInjectionView::Empty => s.phase == TurnPhaseView::Reserving(false)
                    ==> step.action is Check && next.phase is CheckingRound,
                SteeringInjectionView::Cancelled => step.action == TurnActionView::Finish(
                    StopReason::Cancelled,
                ),
            }
        },
        s.phase is TakingSteering ==> {
            let (next, step) = turn_next(s, TurnInputView::Steering(taken));
            match taken {
                Some(text) => {
                    &&& step.action == TurnActionView::Store(
                        ModelMessageView::User { content: text },
                    )
                    &&& next.delivering
                    &&& next.phase == TurnPhaseView::Storing(StorePurposeView::Steering(text))
                },
                None => step.action == TurnActionView::Finish(StopReason::Cancelled),
            }
        },
        s.phase is Delivering ==> {
            let (next, step) = turn_next(s, TurnInputView::Sent(true));
            if s.assistant_started {
                step.action is Stream
            } else {
                step.action == TurnActionView::Send(AgentEventView::AssistantMessageStarted)
                    && next.phase is OpeningSteered
            }
        },
        s.phase is OpeningSteered ==> turn_next(s, TurnInputView::Sent(true)).1.action is Stream,
{
}

/// A turn begins with the request of the user, which is stored; once it is open, the first round
/// begins.
pub proof fn lemma_turns_begin_with_the_request(s: TurnView, text: Seq<char>)
    requires
        s.phase is Beginning || s.phase is Opening,
    ensures
        s.phase is Beginning ==> {
            let (next, step) = turn_next(s, TurnInputView::Begin(text));
            &&& step.action == TurnActionView::Store(ModelMessageView::User { content: text })
            &&& next.phase == TurnPhaseView::Storing(StorePurposeView::Request)
            &&& next.stored == (ModelMessageView::User { content: text })
        },
        s.phase is Opening ==> {
            let (next, step) = turn_next(s, TurnInputView::Sent(true));
            step.action is Check && next.phase is CheckingRound
        },
{
}

/// Whatever could not be stored or sent ends the turn by an error, and what could not be stored is
/// not part of the conversation; a steering message that did not arrive is given up, and nothing
/// else is.
pub proof fn lemma_failures_end_the_turn(s: TurnView, input: TurnInputView)
    requires
        fits(s.phase, input),
        input is NotStored || input == TurnInputView::Sent(false),
    ensures
        ({
            let (next, step) = turn_next(s, input);
            let steering = match s.phase {
                TurnPhaseView::Storing(purpose) => purpose is Steering,
                TurnPhaseView::Announcing(purpose) => purpose is Steering,
                TurnPhaseView::Delivering => true,
                TurnPhaseView::OpeningSteered => true,
                _ => false,
            };
            &&& step.action == TurnActionView::Finish(StopReason::Error)
            &&& next.history == s.history
            &&& step.abort_delivery == steering
            &&& steering ==> !next.delivering
            &&& input is NotStored ==> step.reports.len() > 0 && step.reports.last() is Error
        }),
        !(input is NotStored) || turn_next(s, input).1.reports.len() > 0,
{
}

/// A delivery is given up only where something failed.
pub proof fn lemma_deliveries_are_given_up_on_failure(s: TurnView, input: TurnInputView)
    requires
        fits(s.phase, input),
        !(input is NotStored) && input != TurnInputView::Sent(false),
    ensures
        !turn_next(s, input).1.abort_delivery,
{
}

/// In a new round nothing of the last is left: no call, no open message and no forced compaction.
pub proof fn lemma_rounds_begin_anew(s: TurnView, limits: ModelLimits)
    requires
        s.phase is CheckingRound,
    ensures
        ({
            let next = turn_next(s, TurnInputView::Checked { cancelled: false, limits }).0;
            &&& next.calls.len() == 0
            &&& next.items.len() == 0
            &&& next.index == 0
            &&& !next.emergency
            &&& !next.assistant_started
            &&& next.limits == limits
            &&& next.history == s.history
        }),
{
}

} // verus!
