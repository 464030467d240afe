//! What commands do to an agent, what becomes of what runs, and what is passed on of it.

use crate::agent::event::{forwarded, AgentErrorView, AgentEventView};
use crate::agent::forward::{arguments_of, error_result, passed_on};
use crate::agent::runtime::{
    commanded, configured, context_snapshot, loaded_report, task_over, ActiveTask, AgentCommandView,
    AgentRuntimeConfigView, RuntimeActionView, RuntimeView, TaskOutcomeView,
};
use crate::agent::steering::{
    accepted, cancel_asked, cancels_now, delivery_begun, delivery_finished, drained, injection,
    reserved_next, undelivered, SteeringInjectionView, SteeringView,
};
use crate::context::accounting::{request_tokens, UsageSource};
use crate::conversation::{
    begins_with_summary, lemma_history_projects_back, provider_projection, ConversationHistoryView,
    COMPACTION_SUMMARY_END, COMPACTION_SUMMARY_START,
};
use crate::json::json_parsed;
use crate::model::message::{
    ModelEventView, ModelLimits, ModelMessageView, ModelRequestView, ModelResponseView, StopReason,
};
use crate::session::{SessionHandleView, SessionInfoView, SessionModeView};
use crate::text::is_blank_text;
use crate::tools::ToolErrorView;
use vstd::prelude::*;

verus! {

/// An error is sent, and nothing else happens.
pub open spec fn only_reports(
    before: RuntimeView,
    after: (RuntimeView, Seq<RuntimeActionView>),
    message: Seq<char>,
) -> bool {
    after.0 == before && after.1 == seq![
        RuntimeActionView::Send(AgentEventView::Error(AgentErrorView { message })),
    ]
}

/// An agent that has nothing to do starts a turn with the text that was submitted, or a
/// compaction, and has something to do from then on.
pub proof fn lemma_submissions_start_turns(s: RuntimeView, text: Seq<char>, limits: ModelLimits)
    requires
        s.active is None,
    ensures
        commanded(s, AgentCommandView::Submit { text }, limits) == (
            RuntimeView { active: Some(ActiveTask::Turn), ..s },
            seq![RuntimeActionView::StartTurn { text }],
        ),
        commanded(s, AgentCommandView::Compact, limits) == (
            RuntimeView { active: Some(ActiveTask::Compaction), ..s },
            seq![RuntimeActionView::StartCompaction],
        ),
{
}

/// While something runs, no command but a cancellation, a steering message for a turn and a
/// shutdown does anything: the sender is told so.
pub proof fn lemma_busy_agents_refuse(
    s: RuntimeView,
    command: AgentCommandView,
    limits: ModelLimits,
)
    requires
        s.active is Some,
    ensures
        !(command is Cancel) && !(command is Shutdown) && !(command is Steer) ==> only_reports(
            s,
            commanded(s, command, limits),
            "a turn or compaction is already active"@,
        ),
        command is Steer && s.active == Some(ActiveTask::Compaction) ==> only_reports(
            s,
            commanded(s, command, limits),
            "a turn or compaction is already active"@,
        ),
        s.active == Some(ActiveTask::Turn) ==> (command matches AgentCommandView::Steer { text }
            ==> commanded(s, command, limits).0 == s && commanded(s, command, limits).1
            == if is_blank_text(text) {
            Seq::<RuntimeActionView>::empty()
        } else {
            seq![RuntimeActionView::Steer { text }]
        }),
        command is Cancel ==> commanded(s, command, limits) == (
            s,
            seq![RuntimeActionView::CancelTask],
        ),
        command is Shutdown ==> commanded(s, command, limits) == (
            RuntimeView { stopping: true, ..s },
            seq![RuntimeActionView::CancelTask, RuntimeActionView::AwaitTask],
        ),
{
}

/// An agent that has nothing to do has nothing to cancel, stops at once, and gives a steering
/// message back.
pub proof fn lemma_idle_agents_have_nothing_to_cancel(
    s: RuntimeView,
    text: Seq<char>,
    limits: ModelLimits,
)
    requires
        s.active is None,
    ensures
        only_reports(
            s,
            commanded(s, AgentCommandView::Cancel, limits),
            "no turn is active"@,
        ),
        commanded(s, AgentCommandView::Shutdown, limits) == (
            RuntimeView { stopping: true, ..s },
            seq![RuntimeActionView::Stop],
        ),
        commanded(s, AgentCommandView::Steer { text }, limits) == (
            s,
            seq![
                RuntimeActionView::Send(
                    AgentEventView::SteeringMessagesRecovered { messages: seq![text] },
                ),
            ],
        ),
{
}

/// A new session begins with an empty conversation, and a loaded one with the messages that were
/// stored of it; both are read and reported, and nothing else of the agent changes.
pub proof fn lemma_sessions_bring_their_conversation(
    s: RuntimeView,
    session: SessionHandleView,
    history: Seq<ModelMessageView>,
    limits: ModelLimits,
)
    requires
        s.active is None,
        begins_with_summary(history) ==> history[0]->Developer_content.len()
            >= COMPACTION_SUMMARY_START@.len() + COMPACTION_SUMMARY_END@.len(),
    ensures
        ({
            let (next, actions) = commanded(s, AgentCommandView::NewSession { session }, limits);
            &&& next == (RuntimeView {
                session: SessionModeView::Enabled(session),
                conversation: next.conversation,
                ..s
            })
            &&& provider_projection(next.conversation).len() == 0
            &&& actions.len() > 0 && actions[0] is ReadSession
            &&& next.conversation.summary is None
        }),
        ({
            let (next, actions) = commanded(
                s,
                AgentCommandView::LoadSession { session, history },
                limits,
            );
            &&& next == (RuntimeView {
                session: SessionModeView::Enabled(session),
                conversation: next.conversation,
                ..s
            })
            &&& provider_projection(next.conversation) == history
            &&& actions.len() > 0 && actions[0] is ReadSession
        }),
{
    lemma_history_projects_back(history);
}

/// A session is renamed where there is one.
pub proof fn lemma_sessions_are_renamed(
    s: RuntimeView,
    name: Seq<char>,
    session: SessionHandleView,
    limits: ModelLimits,
)
    requires
        s.active is None,
    ensures
        s.session is Disabled ==> only_reports(
            s,
            commanded(s, AgentCommandView::RenameSession { name }, limits),
            "sessions are disabled for this run"@,
        ),
        s.session == SessionModeView::Enabled(session) ==> commanded(
            s,
            AgentCommandView::RenameSession { name },
            limits,
        ) == (s, seq![RuntimeActionView::RenameSession { session, name }]),
{
}

/// The effort that was set is the effort from then on, and nothing else changes.
pub proof fn lemma_the_effort_is_set(
    s: RuntimeView,
    effort: Option<Seq<char>>,
    limits: ModelLimits,
)
    requires
        s.active is None,
    ensures
        ({
            let (next, actions) = commanded(
                s,
                AgentCommandView::SetReasoningEffort { effort },
                limits,
            );
            next == (RuntimeView { effort, ..s }) && actions.len() == 0
        }),
{
}

/// What is told of the context is the limits of the model and an estimate of all that a request
/// would hold now: what comes first in every conversation, the conversation and the tools. Where
/// nothing is known and nothing was said, nothing is told.
pub proof fn lemma_the_context_is_measured(s: RuntimeView, limits: ModelLimits)
    ensures
        context_snapshot(s, limits).len() == 0 <==> limits.context_window is None && s.base.len()
            == 0 && s.conversation.messages.len() == 0,
        context_snapshot(s, limits).len() > 0 ==> {
            let told = context_snapshot(s, limits);
            &&& told.len() == 2
            &&& told[0] == AgentEventView::ContextLimitsUpdated(limits)
            &&& told[1] matches AgentEventView::ContextUsageUpdated(usage)
            &&& usage.input_tokens is None
            &&& usage.source == UsageSource::Estimated
            &&& usage.context_window == limits.context_window
            &&& usage.max_output_tokens == limits.max_output_tokens
            &&& exists|request: ModelRequestView|
                request.messages == s.base + provider_projection(s.conversation) && request.tools
                    == s.tools && usage.estimated_input_tokens == #[trigger] request_tokens(
                    request,
                )
        },
{
    let request = crate::agent::compaction::request_of(s.base, s.conversation, s.tools, None);
    assert(request.messages == s.base + provider_projection(s.conversation));
    crate::context::accounting::lemma_messages_tokens(request.messages);
    crate::context::accounting::lemma_tools_tokens(request.tools);
    assert(0 <= request_tokens(request) <= u64::MAX);
}

/// A refreshed context is told, and nothing changes.
pub proof fn lemma_the_context_is_told_when_asked_for(s: RuntimeView, limits: ModelLimits)
    requires
        s.active is None,
    ensures
        ({
            let (next, actions) = commanded(s, AgentCommandView::RefreshContext, limits);
            let told = context_snapshot(s, limits);
            &&& next == s
            &&& actions.len() == told.len()
            &&& forall|i: int|
                0 <= i < told.len() ==> #[trigger] actions[i] == RuntimeActionView::Send(told[i])
        }),
{
}

/// A turn that is over leaves its conversation to the agent, and its end is reported with its
/// reason, behind what the context now is.
pub proof fn lemma_turns_leave_their_conversation(
    s: RuntimeView,
    recovered: Seq<Seq<char>>,
    history: ConversationHistoryView,
    reason: StopReason,
    limits: ModelLimits,
)
    ensures
        ({
            let (next, actions) = task_over(
                s,
                recovered,
                TaskOutcomeView::Turn { history, reason },
                limits,
            );
            let told = context_snapshot(next, limits);
            let back: int = if recovered.len() > 0 {
                1
            } else {
                0
            };
            &&& next == (RuntimeView { conversation: history, active: None, ..s })
            &&& actions.len() == back + told.len() + if s.stopping {
                2int
            } else {
                1
            }
            &&& recovered.len() > 0 ==> actions[0] == RuntimeActionView::Send(
                AgentEventView::SteeringMessagesRecovered { messages: recovered },
            )
            &&& forall|i: int|
                0 <= i < told.len() ==> actions[back + i] == RuntimeActionView::Send(
                    #[trigger] told[i],
                )
            &&& actions[back + told.len()] == RuntimeActionView::Send(
                AgentEventView::TurnFinished { reason },
            )
            &&& s.stopping ==> actions[actions.len() - 1] is Stop
        }),
{
}

/// A compaction that is over leaves its conversation to the agent; one that failed leaves the
/// conversation as it was.
pub proof fn lemma_compactions_leave_their_conversation(
    s: RuntimeView,
    history: ConversationHistoryView,
    message: Seq<char>,
    limits: ModelLimits,
)
    requires
        s.active == Some(ActiveTask::Compaction),
    ensures
        ({
            let (next, actions) = task_over(
                s,
                Seq::empty(),
                TaskOutcomeView::Compacted(history),
                limits,
            );
            &&& next == (RuntimeView { conversation: history, active: None, ..s })
            &&& s.stopping ==> actions == seq![RuntimeActionView::Stop]
            &&& !s.stopping ==> actions.len() == 0
        }),
        ({
            let (next, actions) = task_over(
                s,
                Seq::empty(),
                TaskOutcomeView::NotCompacted(message),
                limits,
            );
            &&& next == (RuntimeView { active: None, ..s })
            &&& s.stopping ==> actions == seq![RuntimeActionView::Stop]
            &&& !s.stopping ==> actions.len() == 0
        }),
{
}

/// What broke is reported as an error and as the end of what ran, and the conversation stays as it
/// was.
pub proof fn lemma_what_breaks_is_reported(
    s: RuntimeView,
    error: Seq<char>,
    limits: ModelLimits,
)
    requires
        s.active is Some,
    ensures
        ({
            let (next, actions) = task_over(s, Seq::empty(), TaskOutcomeView::Broken(error), limits);
            let message = "agent task failed: "@ + error;
            &&& next == (RuntimeView { active: None, ..s })
            &&& actions.len() == if s.stopping {
                3int
            } else {
                2
            }
            &&& actions[0] == RuntimeActionView::Send(
                AgentEventView::Error(AgentErrorView { message }),
            )
            &&& s.active == Some(ActiveTask::Compaction) ==> actions[1] == RuntimeActionView::Send(
                AgentEventView::CompactionFailed { message },
            )
            &&& s.active == Some(ActiveTask::Turn) ==> actions[1] == RuntimeActionView::Send(
                AgentEventView::TurnFinished { reason: StopReason::Error },
            )
            &&& s.stopping ==> actions[2] is Stop
        }),
{
}

/// An agent is what it was configured to be: it has the messages, the conversation, the session
/// and the effort of its configuration, it compacts where it was told to, and it has nothing to do.
pub proof fn lemma_agents_are_what_they_were_configured_to_be(
    config: AgentRuntimeConfigView,
    compaction_enabled: bool,
)
    requires
        begins_with_summary(config.initial_history) ==> config.initial_history[
            0
        ]->Developer_content.len() >= COMPACTION_SUMMARY_START@.len()
            + COMPACTION_SUMMARY_END@.len(),
    ensures
        ({
            let s = configured(config, compaction_enabled);
            &&& s.base == config.base_messages
            &&& provider_projection(s.conversation) == config.initial_history
            &&& s.session == config.session
            &&& s.effort == config.reasoning_effort
            &&& s.context == config.tool_context
            &&& s.compaction_enabled == compaction_enabled
            &&& s.reserve_tokens == 16_384
            &&& s.active is None
            &&& !s.stopping
            &&& s.tools.len() == 4
        }),
{
    lemma_history_projects_back(config.initial_history);
}

/// A session that was read is shown with the messages that were stored of it, or, where none were,
/// with the conversation there is; what could not be read is reported.
pub proof fn lemma_stored_messages_are_shown(
    info: SessionInfoView,
    stored: Seq<ModelMessageView>,
    conversation: Seq<ModelMessageView>,
    message: Seq<char>,
    transcript: Result<Option<Seq<ModelMessageView>>, Seq<char>>,
)
    ensures
        loaded_report(Ok(Some(info)), Ok(Some(stored)), conversation) == Some(
            AgentEventView::SessionLoaded { info, history: stored },
        ),
        loaded_report(Ok(Some(info)), Ok(None), conversation) == Some(
            AgentEventView::SessionLoaded { info, history: conversation },
        ),
        loaded_report(Ok(Some(info)), Err(message), conversation) == Some(
            AgentEventView::Error(AgentErrorView { message }),
        ),
        loaded_report(Err(message), transcript, conversation) == Some(
            AgentEventView::Error(AgentErrorView { message }),
        ),
        loaded_report(Ok(None), transcript, conversation) is None,
{
}

/// Steering messages are delivered in the order in which they came: the first that waits is set
/// aside, then delivered, and the others keep their order. Once sealed, none is taken.
pub proof fn lemma_steering_messages_keep_their_order(
    s: SteeringView,
    text: Seq<char>,
    seal_when_empty: bool,
)
    ensures
        s.sealed ==> accepted(s, text) == s,
        !s.sealed ==> undelivered(accepted(s, text)) == undelivered(s).push(text) && accepted(
            s,
            text,
        ).reserved == s.reserved,
        s.reserved is None && s.messages.len() > 0 ==> {
            let next = reserved_next(s, seal_when_empty);
            &&& next.reserved == Some(undelivered(s)[0])
            &&& undelivered(next) == undelivered(s)
            &&& undelivered(delivery_begun(next)) == undelivered(s).skip(1)
            &&& delivery_begun(next).delivering
            &&& delivery_begun(next).reserved is None
            &&& next.sealed == s.sealed
        },
        s.messages.len() == 0 ==> {
            let next = reserved_next(s, seal_when_empty);
            &&& next.reserved is None
            &&& next.sealed <==> s.sealed || seal_when_empty
        },
        s.reserved is None ==> delivery_begun(s) == s,
{
    if s.reserved is None && s.messages.len() > 0 {
        assert(seq![s.messages[0]] + s.messages.skip(1) =~= s.messages);
    }
    if let Some(reserved) = s.reserved {
        assert(seq![reserved] + s.messages.push(text) =~= (seq![reserved] + s.messages).push(text));
    }
}

/// A cancelled turn finds no message to deliver; otherwise it finds the first that waits, if any.
pub proof fn lemma_the_first_message_is_found(s: SteeringView, cancelled: bool)
    ensures
        cancelled ==> injection(s, cancelled) is Cancelled,
        !cancelled && s.messages.len() > 0 ==> injection(s, cancelled)
            == SteeringInjectionView::Pending(s.messages[0]),
        !cancelled && s.messages.len() == 0 ==> injection(s, cancelled) is Empty,
{
}

/// A cancellation puts a message that was set aside back in front of the others and takes effect
/// at once; during a delivery it waits for its end, and is then carried out once.
pub proof fn lemma_cancellations_wait_for_deliveries(s: SteeringView)
    ensures
        undelivered(cancel_asked(s)) == undelivered(s),
        cancel_asked(s).reserved is None,
        s.reserved is Some ==> cancels_now(s) && cancel_asked(s).cancel_pending == s.cancel_pending,
        s.reserved is None && s.delivering ==> !cancels_now(s) && cancel_asked(s).cancel_pending,
        s.reserved is None && !s.delivering ==> cancels_now(s) && cancel_asked(s) == s,
        delivery_finished(cancel_asked(s)).cancel_pending == false,
        delivery_finished(s).delivering == false,
        undelivered(delivery_finished(s)) == undelivered(s),
{
}

/// Once drained, nothing waits any more and nothing is taken.
pub proof fn lemma_drained_steering_takes_nothing(s: SteeringView, text: Seq<char>)
    ensures
        undelivered(drained(s)).len() == 0,
        accepted(drained(s), text) == drained(s),
{
}

/// What an agent's event tells of the model's answer.
pub open spec fn told_of_the_answer(event: AgentEventView) -> Option<ModelEventView> {
    match event {
        AgentEventView::AssistantTextDelta { index, text } => Some(
            ModelEventView::AssistantTextDelta { index, text },
        ),
        AgentEventView::AssistantTextItem { index, content } => Some(
            ModelEventView::AssistantTextItem { index, content },
        ),
        AgentEventView::AssistantRefusalDelta { index, text } => Some(
            ModelEventView::AssistantRefusalDelta { index, text },
        ),
        AgentEventView::AssistantRefusalItem { index, content } => Some(
            ModelEventView::AssistantRefusalItem { index, content },
        ),
        AgentEventView::AssistantThinkingDelta { item_id, text } => Some(
            ModelEventView::AssistantThinkingDelta { item_id, text },
        ),
        AgentEventView::AssistantThinkingContentDelta { item_id, text } => Some(
            ModelEventView::AssistantThinkingContentDelta { item_id, text },
        ),
        AgentEventView::AssistantThinkingItem {
            index,
            item_id,
            summary,
            content,
            encrypted_content,
        } => Some(
            ModelEventView::AssistantThinkingItem {
                index,
                item_id,
                summary,
                content,
                encrypted_content,
            },
        ),
        AgentEventView::ToolCallDelta {
            index,
            call_id,
            item_id,
            name,
            arguments,
            arguments_complete,
        } => Some(
            ModelEventView::ToolCallDelta {
                index,
                call_id,
                item_id,
                name,
                arguments,
                arguments_complete,
            },
        ),
        AgentEventView::UsageUpdated(usage) => Some(ModelEventView::UsageUpdated(usage)),
        _ => None,
    }
}

/// Nothing of a model's answer is lost when it is passed on: every event can be read back from
/// what was passed on, in order, and the usage of the response follows where no event told it.
pub proof fn lemma_answers_are_passed_on(
    events: Seq<ModelEventView>,
    response: ModelResponseView,
    i: int,
)
    requires
        0 <= i < events.len(),
    ensures
        told_of_the_answer(passed_on(events, response)[i]) == Some(events[i]),
        told_of_the_answer(forwarded(events[i])) == Some(events[i]),
        passed_on(events, response).len() == events.len() || (passed_on(events, response).len()
            == events.len() + 1 && response.usage is Some && passed_on(events, response)[
            events.len() as int
        ] == AgentEventView::UsageUpdated(response.usage->0)),
        events[i] is UsageUpdated ==> passed_on(events, response).len() == events.len(),
        response.usage is Some && (forall|k: int|
            0 <= k < events.len() ==> !((#[trigger] events[k]) is UsageUpdated)) ==> passed_on(
            events,
            response,
        ).len() == events.len() + 1,
{
    let passed = events.map_values(|event: ModelEventView| forwarded(event));
    assert(passed[i] == forwarded(events[i]));
}

/// A tool that failed says so to the model, with what went wrong; one that was cancelled, or whose
/// turn was, is recorded as cancelled.
pub proof fn lemma_failed_tools_say_why(error: ToolErrorView, cancelled: bool)
    ensures
        error_result(error, cancelled).metadata.success == false,
        error_result(error, cancelled).metadata.truncated == false,
        error_result(error, cancelled).metadata.cancelled <==> error is Cancelled || cancelled,
        !cancelled ==> (error matches ToolErrorView::Failed { message } ==> error_result(
            error,
            cancelled,
        ).model_content == "Tool error: "@ + message),
{
}

/// The arguments of a call are the JSON that the model wrote; what is no JSON is answered with a
/// failure that says so.
pub proof fn lemma_arguments_are_what_the_model_wrote(text: Seq<char>)
    ensures
        json_parsed(text) matches Ok(json) ==> (arguments_of(text) matches Ok(arguments)
            && arguments == json),
        json_parsed(text) matches Err(message) ==> (arguments_of(text) matches Err(result)
            && result.model_content == "Tool error: invalid JSON arguments: "@ + message
            && !result.metadata.success && !result.metadata.cancelled),
{
}

} // verus!
