//! The agent between its turns: what it does with commands, and with what turns come to.

use crate::agent::compaction::{conversation_tokens, estimate_conversation};
use crate::agent::event::{AgentError, AgentEvent, AgentEventView};
use crate::agent::turn::error_event;
use crate::context::accounting::{estimated_usage, ContextUsage, DEFAULT_COMPACTION_RESERVE_TOKENS};
use crate::conversation::{history_of, ConversationHistory, ConversationHistoryView};
use crate::model::message::{
    ModelLimits, ModelMessage, ModelMessageView, StopReason, ToolDefinitionView,
};
use crate::session::{
    SessionHandle, SessionHandleView, SessionInfo, SessionInfoView, SessionMode, SessionModeView,
};
use crate::text::{concat, is_blank, is_blank_text};
use crate::tools::{
    builtin_tool_registry, builtin_tools, ToolContext, ToolContextView, ToolRegistry,
    DEFAULT_WORKSPACE_ROOT,
};
use vstd::prelude::*;

verus! {

/// What the agent is asked to do.
#[derive(Debug, PartialEq, Eq)]
pub enum AgentCommand {
    Submit { text: String },
    Steer { text: String },
    Compact,
    Cancel,
    NewSession { session: SessionHandle },
    LoadSession { session: SessionHandle, history: Vec<ModelMessage> },
    RenameSession { name: String },
    RefreshContext,
    SetReasoningEffort { effort: Option<String> },
    Shutdown,
}

/// What a [`AgentCommand`] holds.
#[verifier::ext_equal]
pub enum AgentCommandView {
    Submit { text: Seq<char> },
    Steer { text: Seq<char> },
    Compact,
    Cancel,
    NewSession { session: SessionHandleView },
    LoadSession { session: SessionHandleView, history: Seq<ModelMessageView> },
    RenameSession { name: Seq<char> },
    RefreshContext,
    SetReasoningEffort { effort: Option<Seq<char>> },
    Shutdown,
}

impl DeepView for AgentCommand {
    type V = AgentCommandView;

    open spec fn deep_view(&self) -> AgentCommandView {
        match self {
            AgentCommand::Submit { text } => AgentCommandView::Submit {
                text: text.deep_view(),
            },
            AgentCommand::Steer { text } => AgentCommandView::Steer {
                text: text.deep_view(),
            },
            AgentCommand::Compact => AgentCommandView::Compact,
            AgentCommand::Cancel => AgentCommandView::Cancel,
            AgentCommand::NewSession { session } => AgentCommandView::NewSession {
                session: session.deep_view(),
            },
            AgentCommand::LoadSession { session, history } => AgentCommandView::LoadSession {
                session: session.deep_view(),
                history: history.deep_view(),
            },
            AgentCommand::RenameSession { name } => AgentCommandView::RenameSession {
                name: name.deep_view(),
            },
            AgentCommand::RefreshContext => AgentCommandView::RefreshContext,
            AgentCommand::SetReasoningEffort { effort } => AgentCommandView::SetReasoningEffort {
                effort: effort.deep_view(),
            },
            AgentCommand::Shutdown => AgentCommandView::Shutdown,
        }
    }
}

impl Clone for AgentCommand {
    fn clone(&self) -> (res: Self)
        ensures
            res.deep_view() == self.deep_view(),
    {
        let res = match self {
            AgentCommand::Submit { text } => AgentCommand::Submit {
                text: text.clone(),
            },
            AgentCommand::Steer { text } => AgentCommand::Steer {
                text: text.clone(),
            },
            AgentCommand::Compact => AgentCommand::Compact,
            AgentCommand::Cancel => AgentCommand::Cancel,
            AgentCommand::NewSession { session } => AgentCommand::NewSession {
                session: session.clone(),
            },
            AgentCommand::LoadSession { session, history } => AgentCommand::LoadSession {
                session: session.clone(),
                history: history.clone(),
            },
            AgentCommand::RenameSession { name } => AgentCommand::RenameSession {
                name: name.clone(),
            },
            AgentCommand::RefreshContext => AgentCommand::RefreshContext,
            AgentCommand::SetReasoningEffort { effort } => AgentCommand::SetReasoningEffort {
                effort: effort.clone(),
            },
            AgentCommand::Shutdown => AgentCommand::Shutdown,
        };
        assert(res.deep_view() =~~= self.deep_view());
        res
    }
}

/// What an agent is begun with.
#[derive(Debug, PartialEq, Eq)]
pub struct AgentRuntimeConfig {
    pub tool_context: ToolContext,
    pub base_messages: Vec<ModelMessage>,
    pub initial_history: Vec<ModelMessage>,
    pub session: SessionMode,
    pub reasoning_effort: Option<String>,
}

/// What a [`AgentRuntimeConfig`] holds.
#[verifier::ext_equal]
pub struct AgentRuntimeConfigView {
    pub tool_context: ToolContextView,
    pub base_messages: Seq<ModelMessageView>,
    pub initial_history: Seq<ModelMessageView>,
    pub session: SessionModeView,
    pub reasoning_effort: Option<Seq<char>>,
}

impl DeepView for AgentRuntimeConfig {
    type V = AgentRuntimeConfigView;

    open spec fn deep_view(&self) -> AgentRuntimeConfigView {
        AgentRuntimeConfigView {
            tool_context: self.tool_context.deep_view(),
            base_messages: self.base_messages.deep_view(),
            initial_history: self.initial_history.deep_view(),
            session: self.session.deep_view(),
            reasoning_effort: self.reasoning_effort.deep_view(),
        }
    }
}

impl Clone for AgentRuntimeConfig {
    fn clone(&self) -> (res: Self)
        ensures
            res.deep_view() == self.deep_view(),
    {
        let res = AgentRuntimeConfig {
            tool_context: self.tool_context.clone(),
            base_messages: self.base_messages.clone(),
            initial_history: self.initial_history.clone(),
            session: self.session.clone(),
            reasoning_effort: self.reasoning_effort.clone(),
        };
        assert(res.deep_view() =~~= self.deep_view());
        res
    }
}

/// What a turn or a compaction came to.
#[derive(Debug, PartialEq, Eq)]
pub enum TaskOutcome {
    /// A turn is over.
    Turn { history: ConversationHistory, reason: StopReason },
    /// The conversation is compacted.
    Compacted(ConversationHistory),
    /// It is not, for this reason.
    NotCompacted(String),
    /// The task itself failed.
    Broken(String),
}

/// What a [`TaskOutcome`] holds.
#[verifier::ext_equal]
pub enum TaskOutcomeView {
    Turn { history: ConversationHistoryView, reason: StopReason },
    Compacted(ConversationHistoryView),
    NotCompacted(Seq<char>),
    Broken(Seq<char>),
}

impl DeepView for TaskOutcome {
    type V = TaskOutcomeView;

    open spec fn deep_view(&self) -> TaskOutcomeView {
        match self {
            TaskOutcome::Turn { history, reason } => TaskOutcomeView::Turn {
                history: history.deep_view(),
                reason: *reason,
            },
            TaskOutcome::Compacted(value) => TaskOutcomeView::Compacted(value.deep_view()),
            TaskOutcome::NotCompacted(value) => TaskOutcomeView::NotCompacted(value.deep_view()),
            TaskOutcome::Broken(value) => TaskOutcomeView::Broken(value.deep_view()),
        }
    }
}

/// What is to be done for the agent.
#[derive(Debug, PartialEq, Eq)]
pub enum RuntimeAction {
    /// Send an event.
    Send(AgentEvent),
    /// Begin a turn with the conversation there is.
    StartTurn { text: String },
    /// Begin a compaction of the conversation there is.
    StartCompaction,
    /// Cancel what runs.
    CancelTask,
    /// Wait for what runs, and take no more commands.
    AwaitTask,
    /// Hand a steering message to the turn, and report it where it is given back.
    Steer { text: String },
    /// Read what is stored of the session, and report it.
    ReadSession,
    /// Rename the session, and report it.
    RenameSession { session: SessionHandle, name: String },
    /// Nothing more: the agent is done.
    Stop,
}

/// What a [`RuntimeAction`] holds.
#[verifier::ext_equal]
pub enum RuntimeActionView {
    Send(AgentEventView),
    StartTurn { text: Seq<char> },
    StartCompaction,
    CancelTask,
    AwaitTask,
    Steer { text: Seq<char> },
    ReadSession,
    RenameSession { session: SessionHandleView, name: Seq<char> },
    Stop,
}

impl DeepView for RuntimeAction {
    type V = RuntimeActionView;

    open spec fn deep_view(&self) -> RuntimeActionView {
        match self {
            RuntimeAction::Send(value) => RuntimeActionView::Send(value.deep_view()),
            RuntimeAction::StartTurn { text } => RuntimeActionView::StartTurn {
                text: text.deep_view(),
            },
            RuntimeAction::StartCompaction => RuntimeActionView::StartCompaction,
            RuntimeAction::CancelTask => RuntimeActionView::CancelTask,
            RuntimeAction::AwaitTask => RuntimeActionView::AwaitTask,
            RuntimeAction::Steer { text } => RuntimeActionView::Steer {
                text: text.deep_view(),
            },
            RuntimeAction::ReadSession => RuntimeActionView::ReadSession,
            RuntimeAction::RenameSession { session, name } => RuntimeActionView::RenameSession {
                session: session.deep_view(),
                name: name.deep_view(),
            },
            RuntimeAction::Stop => RuntimeActionView::Stop,
        }
    }
}

impl AgentRuntimeConfig {
    /// An agent whose tools work in this context, with nothing said yet and nothing stored.
    pub fn new(tool_context: ToolContext) -> (res: Self)
        ensures
            res.deep_view() == (AgentRuntimeConfigView {
                tool_context: tool_context.deep_view(),
                base_messages: Seq::empty(),
                initial_history: Seq::empty(),
                session: SessionModeView::Disabled,
                reasoning_effort: None,
            }),
    {
        let res = AgentRuntimeConfig {
            tool_context,
            base_messages: Vec::new(),
            initial_history: Vec::new(),
            session: SessionMode::Disabled,
            reasoning_effort: None,
        };
        assert(res.base_messages.deep_view() =~= Seq::<ModelMessageView>::empty());
        assert(res.initial_history.deep_view() =~= Seq::<ModelMessageView>::empty());
        res
    }
}

/// What runs: a turn or a compaction.
#[derive(Clone, Copy, Debug, PartialEq, Eq, Structural)]
pub enum ActiveTask {
    Turn,
    Compaction,
}

/// The agent, with the provider that it speaks to and the tokens of its context that it keeps free.
pub struct AgentRuntime<P> {
    pub provider: P,
    pub registry: ToolRegistry,
    pub context: ToolContext,
    pub base_messages: Vec<ModelMessage>,
    pub conversation: ConversationHistory,
    pub session: SessionMode,
    pub reasoning_effort: Option<String>,
    pub compaction_enabled: bool,
    pub reserve_tokens: u64,
    pub active: Option<ActiveTask>,
    pub stopping: bool,
}

/// What an [`AgentRuntime`] holds beside its provider.
#[verifier::ext_equal]
pub struct RuntimeView {
    pub tools: Seq<ToolDefinitionView>,
    pub context: ToolContextView,
    pub base: Seq<ModelMessageView>,
    pub conversation: ConversationHistoryView,
    pub session: SessionModeView,
    pub effort: Option<Seq<char>>,
    pub compaction_enabled: bool,
    pub reserve_tokens: u64,
    pub active: Option<ActiveTask>,
    pub stopping: bool,
}

impl<P> DeepView for AgentRuntime<P> {
    type V = RuntimeView;

    open spec fn deep_view(&self) -> RuntimeView {
        RuntimeView {
            tools: self.registry.deep_view(),
            context: self.context.deep_view(),
            base: self.base_messages.deep_view(),
            conversation: self.conversation.deep_view(),
            session: self.session.deep_view(),
            effort: self.reasoning_effort.deep_view(),
            compaction_enabled: self.compaction_enabled,
            reserve_tokens: self.reserve_tokens,
            active: self.active,
            stopping: self.stopping,
        }
    }
}

/// The agent that a configuration describes, with the built-in tools.
pub open spec fn configured(config: AgentRuntimeConfigView, compaction_enabled: bool) ->
    RuntimeView {
    RuntimeView {
        tools: builtin_tools(),
        context: config.tool_context,
        base: config.base_messages,
        conversation: history_of(config.initial_history),
        session: config.session,
        effort: config.reasoning_effort,
        compaction_enabled,
        reserve_tokens: DEFAULT_COMPACTION_RESERVE_TOKENS,
        active: None,
        stopping: false,
    }
}

/// The configuration with nothing but a workspace.
pub open spec fn plain_config(workspace_root: Seq<char>) -> AgentRuntimeConfigView {
    AgentRuntimeConfigView {
        tool_context: ToolContextView { workspace_root },
        base_messages: Seq::empty(),
        initial_history: Seq::empty(),
        session: SessionModeView::Disabled,
        reasoning_effort: None,
    }
}

/// What is reported of the size of a conversation, where there is anything to tell.
pub open spec fn context_snapshot(s: RuntimeView, limits: ModelLimits) -> Seq<AgentEventView> {
    if limits.context_window is None && s.base.len() == 0 && s.conversation.messages.len() == 0 {
        Seq::empty()
    } else {
        let tokens = conversation_tokens(s.base, s.conversation, s.tools) as u64;
        seq![
            AgentEventView::ContextLimitsUpdated(limits),
            AgentEventView::ContextUsageUpdated(estimated_usage(tokens, limits)),
        ]
    }
}

/// Events, to be sent.
pub open spec fn sending(events: Seq<AgentEventView>) -> Seq<RuntimeActionView> {
    events.map_values(|event: AgentEventView| RuntimeActionView::Send(event))
}

/// An error, to be sent.
pub open spec fn sending_error(message: Seq<char>) -> Seq<RuntimeActionView> {
    seq![RuntimeActionView::Send(error_event(message))]
}

/// Steering messages that come back, to be sent.
pub open spec fn sending_back(messages: Seq<Seq<char>>) -> Seq<RuntimeActionView> {
    if messages.len() == 0 {
        Seq::empty()
    } else {
        seq![
            RuntimeActionView::Send(AgentEventView::SteeringMessagesRecovered { messages }),
        ]
    }
}

/// What a command does while a turn or a compaction runs.
pub open spec fn commanded_busy(s: RuntimeView, task: ActiveTask, command: AgentCommandView) -> (
    RuntimeView,
    Seq<RuntimeActionView>,
) {
    match command {
        AgentCommandView::Cancel => (s, seq![RuntimeActionView::CancelTask]),
        AgentCommandView::Shutdown => (
            RuntimeView { stopping: true, ..s },
            seq![RuntimeActionView::CancelTask, RuntimeActionView::AwaitTask],
        ),
        AgentCommandView::Steer { text } => if task == ActiveTask::Compaction {
            (s, sending_error("a turn or compaction is already active"@))
        } else if is_blank_text(text) {
            (s, Seq::empty())
        } else {
            (s, seq![RuntimeActionView::Steer { text }])
        },
        _ => (s, sending_error("a turn or compaction is already active"@)),
    }
}

/// What a command does while nothing runs.
pub open spec fn commanded_idle(
    s: RuntimeView,
    command: AgentCommandView,
    limits: ModelLimits,
) -> (RuntimeView, Seq<RuntimeActionView>) {
    match command {
        AgentCommandView::Submit { text } => (
            RuntimeView { active: Some(ActiveTask::Turn), ..s },
            seq![RuntimeActionView::StartTurn { text }],
        ),
        AgentCommandView::Steer { text } => (s, sending_back(seq![text])),
        AgentCommandView::Compact => (
            RuntimeView { active: Some(ActiveTask::Compaction), ..s },
            seq![RuntimeActionView::StartCompaction],
        ),
        AgentCommandView::NewSession { session } => {
            let next = RuntimeView {
                session: SessionModeView::Enabled(session),
                conversation: ConversationHistoryView { summary: None, messages: Seq::empty() },
                ..s
            };
            (next, seq![RuntimeActionView::ReadSession] + sending(context_snapshot(next, limits)))
        },
        AgentCommandView::LoadSession { session, history } => {
            let next = RuntimeView {
                session: SessionModeView::Enabled(session),
                conversation: history_of(history),
                ..s
            };
            (next, seq![RuntimeActionView::ReadSession] + sending(context_snapshot(next, limits)))
        },
        AgentCommandView::RenameSession { name } => match s.session {
            SessionModeView::Disabled => (s, sending_error("sessions are disabled for this run"@)),
            SessionModeView::Enabled(session) => (
                s,
                seq![RuntimeActionView::RenameSession { session, name }],
            ),
        },
        AgentCommandView::RefreshContext => (s, sending(context_snapshot(s, limits))),
        AgentCommandView::SetReasoningEffort { effort } => (
            RuntimeView { effort, ..s },
            Seq::empty(),
        ),
        AgentCommandView::Cancel => (s, sending_error("no turn is active"@)),
        AgentCommandView::Shutdown => (
            RuntimeView { stopping: true, ..s },
            seq![RuntimeActionView::Stop],
        ),
    }
}

/// What a command does.
pub open spec fn commanded(s: RuntimeView, command: AgentCommandView, limits: ModelLimits) -> (
    RuntimeView,
    Seq<RuntimeActionView>,
) {
    match s.active {
        Some(task) => commanded_busy(s, task, command),
        None => commanded_idle(s, command, limits),
    }
}

/// What is made of what a turn or a compaction came to.
pub open spec fn outcome_applied(
    s: RuntimeView,
    compaction: bool,
    outcome: TaskOutcomeView,
    limits: ModelLimits,
) -> (RuntimeView, Seq<RuntimeActionView>) {
    match outcome {
        TaskOutcomeView::Turn { history, reason } => {
            let next = RuntimeView { conversation: history, ..s };
            (
                next,
                sending(context_snapshot(next, limits)).push(
                    RuntimeActionView::Send(AgentEventView::TurnFinished { reason }),
                ),
            )
        },
        TaskOutcomeView::Compacted(history) => (
            RuntimeView { conversation: history, ..s },
            Seq::empty(),
        ),
        TaskOutcomeView::NotCompacted(message) => (
            s,
            if compaction {
                Seq::empty()
            } else {
                seq![RuntimeActionView::Send(AgentEventView::CompactionFailed { message })]
            },
        ),
        TaskOutcomeView::Broken(error) => {
            let message = "agent task failed: "@ + error;
            (
                s,
                sending_error(message).push(
                    RuntimeActionView::Send(
                        if compaction {
                            AgentEventView::CompactionFailed { message }
                        } else {
                            AgentEventView::TurnFinished { reason: StopReason::Error }
                        },
                    ),
                ),
            )
        },
    }
}

/// What follows once what ran is over: the steering messages that it did not take come back, what
/// it came to is applied, and where the agent was told to stop it does.
pub open spec fn task_over(
    s: RuntimeView,
    recovered: Seq<Seq<char>>,
    outcome: TaskOutcomeView,
    limits: ModelLimits,
) -> (RuntimeView, Seq<RuntimeActionView>) {
    let (next, actions) = outcome_applied(
        RuntimeView { active: None, ..s },
        s.active == Some(ActiveTask::Compaction),
        outcome,
        limits,
    );
    let all = sending_back(recovered) + actions;
    (
        next,
        if s.stopping {
            all.push(RuntimeActionView::Stop)
        } else {
            all
        },
    )
}

/// What is reported of a session that is loaded: its messages are those that it keeps as a
/// transcript, else those of the conversation.
pub open spec fn loaded_report(
    info: Result<Option<SessionInfoView>, Seq<char>>,
    transcript: Result<Option<Seq<ModelMessageView>>, Seq<char>>,
    conversation: Seq<ModelMessageView>,
) -> Option<AgentEventView> {
    match info {
        Err(message) => Some(error_event(message)),
        Ok(None) => None,
        Ok(Some(info)) => match transcript {
            Err(message) => Some(error_event(message)),
            Ok(Some(history)) => Some(AgentEventView::SessionLoaded { info, history }),
            Ok(None) => Some(AgentEventView::SessionLoaded { info, history: conversation }),
        },
    }
}

/// While a turn or a compaction runs, no command changes the agent but for the wish to stop, and
/// none starts another.
pub proof fn lemma_commands_wait_for_what_runs(
    s: RuntimeView,
    command: AgentCommandView,
    limits: ModelLimits,
)
    requires
        s.active is Some,
    ensures
        commanded(s, command, limits).0 == (RuntimeView {
            stopping: s.stopping || command is Shutdown,
            ..s
        }),
        forall|i: int|
            0 <= i < commanded(s, command, limits).1.len() ==> !((#[trigger] commanded(
                s,
                command,
                limits,
            ).1[i]) is StartTurn) && !(commanded(s, command, limits).1[i] is StartCompaction),
{
}

/// Whatever becomes of a turn, its end is reported once, and last but for the agent's own.
pub proof fn lemma_turns_are_finished(
    s: RuntimeView,
    recovered: Seq<Seq<char>>,
    outcome: TaskOutcomeView,
    limits: ModelLimits,
)
    requires
        s.active == Some(ActiveTask::Turn),
        outcome is Turn || outcome is Broken,
    ensures
        ({
            let (next, actions) = task_over(s, recovered, outcome, limits);
            let last = if s.stopping {
                actions.len() - 2
            } else {
                actions.len() - 1
            };
            &&& next.active is None
            &&& 0 <= last
            &&& actions[last] matches RuntimeActionView::Send(event)
            &&& event is TurnFinished
            &&& forall|i: int| 0 <= i < last ==> !is_turn_end(#[trigger] actions[i])
        }),
{
    let (next, actions) = task_over(s, recovered, outcome, limits);
    if let TaskOutcomeView::Turn { history, reason } = outcome {
        let after = RuntimeView { active: None, conversation: history, ..s };
        let events = context_snapshot(after, limits);
        assert(sending(events).len() == events.len());
        assert forall|i: int| 0 <= i < events.len() implies !is_turn_end(
            #[trigger] sending(events)[i],
        ) by {
            assert(sending(events)[i] == RuntimeActionView::Send(events[i]));
        }
    }
}

/// The end of a turn is sent.
pub open spec fn is_turn_end(action: RuntimeActionView) -> bool {
    match action {
        RuntimeActionView::Send(event) => event is TurnFinished,
        _ => false,
    }
}

/// Steering messages are never dropped without a word: those that a turn did not take are sent
/// back, and one that comes while nothing runs is sent back at once.
pub proof fn lemma_steering_comes_back(
    s: RuntimeView,
    recovered: Seq<Seq<char>>,
    outcome: TaskOutcomeView,
    text: Seq<char>,
    limits: ModelLimits,
)
    ensures
        recovered.len() > 0 ==> task_over(s, recovered, outcome, limits).1.contains(
            RuntimeActionView::Send(
                AgentEventView::SteeringMessagesRecovered { messages: recovered },
            ),
        ),
        s.active is None ==> commanded(s, AgentCommandView::Steer { text }, limits).1 == seq![
            RuntimeActionView::Send(
                AgentEventView::SteeringMessagesRecovered { messages: seq![text] },
            ),
        ],
{
    if recovered.len() > 0 {
        let actions = task_over(s, recovered, outcome, limits).1;
        assert(actions[0] == RuntimeActionView::Send(
            AgentEventView::SteeringMessagesRecovered { messages: recovered },
        ));
    }
}

// ---- the agent ----

fn push_action(actions: &mut Vec<RuntimeAction>, action: RuntimeAction)
    ensures
        final(actions).deep_view() == old(actions).deep_view().push(action.deep_view()),
{
    let ghost before = actions.deep_view();
    actions.push(action);
    assert(actions.deep_view() =~= before.push(action.deep_view()));
}

fn no_actions() -> (res: Vec<RuntimeAction>)
    ensures
        res.deep_view() == Seq::<RuntimeActionView>::empty(),
{
    let res: Vec<RuntimeAction> = Vec::new();
    assert(res.deep_view() =~= Seq::<RuntimeActionView>::empty());
    res
}

fn one_action(action: RuntimeAction) -> (res: Vec<RuntimeAction>)
    ensures
        res.deep_view() == seq![action.deep_view()],
{
    let mut res = no_actions();
    push_action(&mut res, action);
    assert(res.deep_view() =~= seq![action.deep_view()]);
    res
}

fn send_error(message: &str) -> (res: Vec<RuntimeAction>)
    ensures
        res.deep_view() == sending_error(message@),
{
    one_action(RuntimeAction::Send(AgentEvent::Error(AgentError::new(message))))
}

/// The report of steering messages that come back.
pub fn recovered_report(messages: Vec<String>) -> (res: Option<AgentEvent>)
    ensures
        res.deep_view() == (if messages.deep_view().len() == 0 {
            None
        } else {
            Some(AgentEventView::SteeringMessagesRecovered { messages: messages.deep_view() })
        }),
{
    if messages.len() == 0 {
        None
    } else {
        Some(AgentEvent::SteeringMessagesRecovered { messages })
    }
}

fn send_back(messages: Vec<String>) -> (res: Vec<RuntimeAction>)
    ensures
        res.deep_view() == sending_back(messages.deep_view()),
{
    match recovered_report(messages) {
        Some(event) => one_action(RuntimeAction::Send(event)),
        None => no_actions(),
    }
}

/// The report of a session that was renamed, or could not be.
pub fn renamed_report(renamed: Result<SessionInfo, String>) -> (res: AgentEvent)
    ensures
        res.deep_view() == (match renamed {
            Ok(info) => AgentEventView::SessionChanged { info: info.deep_view() },
            Err(message) => error_event(message@),
        }),
{
    match renamed {
        Ok(info) => AgentEvent::SessionChanged { info },
        Err(message) => AgentEvent::Error(AgentError::new(&message)),
    }
}

impl<P> AgentRuntime<P> {
    /// An agent that works in the current directory, or where there is none in `.`.
    pub fn new(provider: P, current_dir: Option<String>) -> (res: Self)
        ensures
            res.provider == provider,
            res.deep_view() == configured(
                plain_config(
                    match current_dir.deep_view() {
                        Some(root) => root,
                        None => DEFAULT_WORKSPACE_ROOT@,
                    },
                ),
                true,
            ),
    {
        let context = match current_dir {
            Some(root) => ToolContext { workspace_root: root },
            None => ToolContext::new(DEFAULT_WORKSPACE_ROOT),
        };
        AgentRuntime::with_context(provider, context)
    }

    /// An agent whose tools work in this context.
    pub fn with_context(provider: P, context: ToolContext) -> (res: Self)
        ensures
            res.provider == provider,
            res.deep_view() == configured(
                plain_config(context.deep_view().workspace_root),
                true,
            ),
    {
        AgentRuntime::with_config(provider, AgentRuntimeConfig::new(context))
    }

    /// The agent that a configuration describes.
    pub fn with_config(provider: P, config: AgentRuntimeConfig) -> (res: Self)
        ensures
            res.provider == provider,
            res.deep_view() == configured(config.deep_view(), true),
    {
        AgentRuntime::with_config_and_compaction(provider, config, true)
    }

    /// The agent that a configuration describes, which may do without compactions of its own.
    pub fn with_config_and_compaction(
        provider: P,
        config: AgentRuntimeConfig,
        compaction_enabled: bool,
    ) -> (res: Self)
        ensures
            res.provider == provider,
            res.deep_view() == configured(config.deep_view(), compaction_enabled),
    {
        AgentRuntime {
            provider,
            registry: builtin_tool_registry(),
            context: config.tool_context,
            base_messages: config.base_messages,
            conversation: ConversationHistory::from_provider_messages(config.initial_history),
            session: config.session,
            reasoning_effort: config.reasoning_effort,
            compaction_enabled,
            reserve_tokens: DEFAULT_COMPACTION_RESERVE_TOKENS,
            active: None,
            stopping: false,
        }
    }

    /// An agent that works in this directory.
    pub fn with_workspace_root(provider: P, workspace_root: &str) -> (res: Self)
        ensures
            res.provider == provider,
            res.deep_view() == configured(plain_config(workspace_root@), true),
    {
        AgentRuntime::with_context(provider, ToolContext::new(workspace_root))
    }

    /// What is reported of the size of the conversation.
    pub fn snapshot(&self, limits: ModelLimits) -> (res: Vec<AgentEvent>)
        ensures
            res.deep_view() == context_snapshot(self.deep_view(), limits),
    {
        let mut events: Vec<AgentEvent> = Vec::new();
        if limits.context_window.is_none() && self.base_messages.len() == 0
            && self.conversation.messages().len() == 0 {
            assert(events.deep_view() =~= Seq::<AgentEventView>::empty());
            return events;
        }
        let tools = self.registry.definitions();
        let base = self.base_messages.as_slice();
        assert(base.deep_view() =~= self.base_messages.deep_view());
        let offered = tools.as_slice();
        assert(offered.deep_view() =~= tools.deep_view());
        let tokens = estimate_conversation(base, &self.conversation, offered);
        events.push(AgentEvent::ContextLimitsUpdated(limits));
        events.push(AgentEvent::ContextUsageUpdated(ContextUsage::estimated(tokens, limits)));
        assert(events.deep_view() =~= context_snapshot(self.deep_view(), limits));
        events
    }

    fn push_snapshot(&self, actions: &mut Vec<RuntimeAction>, limits: ModelLimits)
        ensures
            final(actions).deep_view() == old(actions).deep_view() + sending(
                context_snapshot(self.deep_view(), limits),
            ),
    {
        let ghost before = actions.deep_view();
        let events = self.snapshot(limits);
        let ghost all = sending(events.deep_view());
        let mut i: usize = 0;
        assert(before + all.take(0) =~= before);
        while i < events.len()
            invariant
                i <= events.len(),
                all == sending(events.deep_view()),
                actions.deep_view() == before + all.take(i as int),
            decreases events.len() - i,
        {
            push_action(actions, RuntimeAction::Send(events[i].clone()));
            proof {
                assert(all[i as int] == RuntimeActionView::Send(events@[i as int].deep_view()));
                assert(actions.deep_view() =~= before + all.take(i + 1));
            }
            i += 1;
        }
        assert(all.take(i as int) =~= all);
    }

    fn command_busy(&mut self, task: ActiveTask, command: AgentCommand) -> (res: Vec<
        RuntimeAction,
    >)
        ensures
            final(self).provider == old(self).provider,
            (final(self).deep_view(), res.deep_view()) == commanded_busy(
                old(self).deep_view(),
                task,
                command.deep_view(),
            ),
    {
        match command {
            AgentCommand::Cancel => one_action(RuntimeAction::CancelTask),
            AgentCommand::Shutdown => {
                self.stopping = true;
                let mut actions = one_action(RuntimeAction::CancelTask);
                push_action(&mut actions, RuntimeAction::AwaitTask);
                assert(actions.deep_view() =~= seq![
                    RuntimeActionView::CancelTask,
                    RuntimeActionView::AwaitTask,
                ]);
                actions
            },
            AgentCommand::Steer { text } => if task == ActiveTask::Compaction {
                send_error("a turn or compaction is already active")
            } else if is_blank(&text) {
                no_actions()
            } else {
                one_action(RuntimeAction::Steer { text })
            },
            _ => send_error("a turn or compaction is already active"),
        }
    }

    fn command_idle(&mut self, command: AgentCommand, limits: ModelLimits) -> (res: Vec<
        RuntimeAction,
    >)
        ensures
            final(self).provider == old(self).provider,
            (final(self).deep_view(), res.deep_view()) == commanded_idle(
                old(self).deep_view(),
                command.deep_view(),
                limits,
            ),
    {
        match command {
            AgentCommand::Submit { text } => {
                self.active = Some(ActiveTask::Turn);
                one_action(RuntimeAction::StartTurn { text })
            },
            AgentCommand::Steer { text } => {
                let mut messages: Vec<String> = Vec::new();
                messages.push(text);
                assert(messages.deep_view() =~= seq![text@]);
                send_back(messages)
            },
            AgentCommand::Compact => {
                self.active = Some(ActiveTask::Compaction);
                one_action(RuntimeAction::StartCompaction)
            },
            AgentCommand::NewSession { session } => {
                self.session = SessionMode::Enabled(session);
                self.conversation.clear();
                let mut actions = one_action(RuntimeAction::ReadSession);
                self.push_snapshot(&mut actions, limits);
                actions
            },
            AgentCommand::LoadSession { session, history } => {
                self.session = SessionMode::Enabled(session);
                self.conversation = ConversationHistory::from_provider_messages(history);
                let mut actions = one_action(RuntimeAction::ReadSession);
                self.push_snapshot(&mut actions, limits);
                actions
            },
            AgentCommand::RenameSession { name } => match &self.session {
                SessionMode::Disabled => send_error("sessions are disabled for this run"),
                SessionMode::Enabled(session) => one_action(
                    RuntimeAction::RenameSession { session: session.clone(), name },
                ),
            },
            AgentCommand::RefreshContext => {
                let mut actions = no_actions();
                self.push_snapshot(&mut actions, limits);
                assert(actions.deep_view() =~= sending(
                    context_snapshot(self.deep_view(), limits),
                ));
                actions
            },
            AgentCommand::SetReasoningEffort { effort } => {
                self.reasoning_effort = effort;
                no_actions()
            },
            AgentCommand::Cancel => send_error("no turn is active"),
            AgentCommand::Shutdown => {
                self.stopping = true;
                one_action(RuntimeAction::Stop)
            },
        }
    }

    /// What is to be done for a command.
    pub fn command(&mut self, command: AgentCommand, limits: ModelLimits) -> (res: Vec<
        RuntimeAction,
    >)
        ensures
            final(self).provider == old(self).provider,
            (final(self).deep_view(), res.deep_view()) == commanded(
                old(self).deep_view(),
                command.deep_view(),
                limits,
            ),
    {
        match self.active {
            Some(task) => self.command_busy(task, command),
            None => self.command_idle(command, limits),
        }
    }

    fn apply_outcome(
        &mut self,
        actions: &mut Vec<RuntimeAction>,
        compaction: bool,
        outcome: TaskOutcome,
        limits: ModelLimits,
    )
        ensures
            final(self).provider == old(self).provider,
            ({
                let (next, more) = outcome_applied(
                    old(self).deep_view(),
                    compaction,
                    outcome.deep_view(),
                    limits,
                );
                &&& final(self).deep_view() == next
                &&& final(actions).deep_view() == old(actions).deep_view() + more
            }),
    {
        let ghost before = actions.deep_view();
        match outcome {
            TaskOutcome::Turn { history, reason } => {
                self.conversation = history;
                self.push_snapshot(actions, limits);
                push_action(actions, RuntimeAction::Send(AgentEvent::TurnFinished { reason }));
            },
            TaskOutcome::Compacted(history) => {
                self.conversation = history;
            },
            TaskOutcome::NotCompacted(message) => {
                if !compaction {
                    push_action(
                        actions,
                        RuntimeAction::Send(AgentEvent::CompactionFailed { message }),
                    );
                }
            },
            TaskOutcome::Broken(error) => {
                let message = concat("agent task failed: ", &error);
                push_action(
                    actions,
                    RuntimeAction::Send(AgentEvent::Error(AgentError::new(&message))),
                );
                if compaction {
                    push_action(
                        actions,
                        RuntimeAction::Send(AgentEvent::CompactionFailed { message }),
                    );
                } else {
                    push_action(
                        actions,
                        RuntimeAction::Send(AgentEvent::TurnFinished { reason: StopReason::Error }),
                    );
                }
            },
        }
        assert(actions.deep_view() =~= before + outcome_applied(
            old(self).deep_view(),
            compaction,
            outcome.deep_view(),
            limits,
        ).1);
    }

    /// What is to be done once what ran is over.
    pub fn task_finished(
        &mut self,
        recovered: Vec<String>,
        outcome: TaskOutcome,
        limits: ModelLimits,
    ) -> (res: Vec<RuntimeAction>)
        ensures
            final(self).provider == old(self).provider,
            (final(self).deep_view(), res.deep_view()) == task_over(
                old(self).deep_view(),
                recovered.deep_view(),
                outcome.deep_view(),
                limits,
            ),
    {
        let compaction = match self.active {
            Some(ActiveTask::Compaction) => true,
            _ => false,
        };
        self.active = None;
        let mut actions = send_back(recovered);
        self.apply_outcome(&mut actions, compaction, outcome, limits);
        if self.stopping {
            push_action(&mut actions, RuntimeAction::Stop);
        }
        actions
    }

    /// The report of the session that was read.
    pub fn session_report(
        &self,
        info: Result<Option<SessionInfo>, String>,
        transcript: Result<Option<Vec<ModelMessage>>, String>,
    ) -> (res: Option<AgentEvent>)
        ensures
            res.deep_view() == loaded_report(
                match info {
                    Ok(info) => Ok(info.deep_view()),
                    Err(message) => Err(message@),
                },
                match transcript {
                    Ok(history) => Ok(history.deep_view()),
                    Err(message) => Err(message@),
                },
                self.deep_view().conversation.messages,
            ),
    {
        match info {
            Err(message) => Some(AgentEvent::Error(AgentError::new(&message))),
            Ok(None) => None,
            Ok(Some(info)) => match transcript {
                Err(message) => Some(AgentEvent::Error(AgentError::new(&message))),
                Ok(Some(history)) => Some(AgentEvent::SessionLoaded { info, history }),
                Ok(None) => {
                    let history = self.conversation.clone().into_messages();
                    Some(AgentEvent::SessionLoaded { info, history })
                },
            },
        }
    }
}

} // verus!
