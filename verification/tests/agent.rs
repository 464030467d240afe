use std::collections::VecDeque;

use ri_core::agent::compaction::{
    compaction_error_message, estimate_conversation, extract_summary, plan_compaction,
    select_compaction_prefix, CompactionError,
};
use ri_core::agent::forward::{
    forward_tool_event, provider_task_failed, tool_arguments, tool_error_result, tool_task_failed,
    ResponseForwarder,
};
use ri_core::agent::runtime::{recovered_report, renamed_report, RuntimeAction, TaskOutcome};
use ri_core::agent::steering::{reserve_next_steering, take_steering, SteeringState};
use ri_core::agent::turn::{
    validated_tool_calls, Turn, TurnAction, TurnInput, EVENTS_CLOSED_TEXT, TOOL_CANCELLED_TEXT,
};
use ri_core::context::{
    ConservativeTokenEstimator, TokenEstimator, DEFAULT_COMPACTION_RESERVE_TOKENS,
};
use ri_core::{
    builtin_tool_registry, AgentCommand, AgentError, AgentEvent, AgentRuntime, AgentRuntimeConfig, CompactionSummary,
    ConversationHistory, JsonValue, ModelAssistantItem, ModelEvent, ModelLimits, ModelMessage,
    ModelRequest, ModelResponse, ModelToolCall, ProviderError, SessionHandle, SessionInfo,
    SessionMode, StopReason, ToolContext, ToolDefinition, ToolError, ToolEvent,
    ToolExecutionMetadata, ToolExecutionResult, ToolOutputStream, Usage,
};

fn tool_call(id: &str, name: &str, arguments: &str) -> ModelToolCall {
    ModelToolCall {
        index: 0,
        call_id: Some(id.to_owned()),
        item_id: None,
        name: Some(name.to_owned()),
        arguments: arguments.to_owned(),
    }
}

fn text_item(content: &str) -> ModelAssistantItem {
    ModelAssistantItem::Text {
        content: content.to_owned(),
    }
}

fn reply(items: Vec<ModelAssistantItem>, stop_reason: StopReason) -> ModelResponse {
    ModelResponse {
        items,
        stop_reason,
        usage: None,
    }
}

fn said(content: &str) -> ModelResponse {
    reply(vec![text_item(content)], StopReason::Stop)
}

fn calls(ids: &[&str]) -> ModelResponse {
    reply(
        ids.iter()
            .map(|id| ModelAssistantItem::ToolCall(tool_call(id, "read", "{}")))
            .collect(),
        StopReason::ToolCalls,
    )
}

fn assistant(content: &str) -> ModelMessage {
    ModelMessage::Assistant {
        items: vec![text_item(content)],
    }
}

fn result_of(id: &str, content: &str) -> ModelMessage {
    ModelMessage::ToolResult {
        tool_call_id: id.to_owned(),
        tool_name: "read".to_owned(),
        content: content.to_owned(),
    }
}

/// Does what a turn asks for, from a script.
struct Stage {
    responses: VecDeque<Result<ModelResponse, ProviderError>>,
    summaries: VecDeque<Result<ModelResponse, ProviderError>>,
    requests: Vec<ModelRequest>,
    events: Vec<AgentEvent>,
    stored: Vec<ModelMessage>,
    steering: SteeringState,
    limits: ModelLimits,
    reserve_tokens: u64,
    cancelled: bool,
    cancel_after_tools: usize,
    tools_run: Vec<String>,
    steer_during: Vec<(usize, String)>,
    store_limit: usize,
    compactions: Vec<bool>,
}

impl Stage {
    fn new(responses: Vec<Result<ModelResponse, ProviderError>>) -> Self {
        Stage {
            responses: responses.into(),
            summaries: VecDeque::new(),
            requests: Vec::new(),
            events: Vec::new(),
            stored: Vec::new(),
            steering: SteeringState::default(),
            limits: ModelLimits::default(),
            reserve_tokens: DEFAULT_COMPACTION_RESERVE_TOKENS,
            cancelled: false,
            cancel_after_tools: usize::MAX,
            tools_run: Vec::new(),
            steer_during: Vec::new(),
            store_limit: usize::MAX,
            compactions: Vec::new(),
        }
    }

    fn compact(&mut self, turn: &Turn, force: bool) -> TurnInput {
        self.compactions.push(force);
        let plan = match plan_compaction(
            turn.base_messages(),
            turn.history(),
            turn.tools(),
            self.limits,
            self.reserve_tokens,
            true,
            force,
        ) {
            Ok(plan) => plan,
            Err(stop) => {
                self.events.extend(stop.report);
                return TurnInput::NotCompacted(stop.error);
            }
        };
        match plan.begin(self.cancelled) {
            Ok(event) => self.events.push(event),
            Err(stop) => {
                self.events.extend(stop.report);
                return TurnInput::NotCompacted(stop.error);
            }
        }
        let answer = self.summaries.pop_front().expect("a scripted summary");
        match plan.conclude(turn.base_messages(), turn.tools(), answer, self.cancelled) {
            Ok(compacted) => {
                let after = compacted.after_tokens;
                self.events.extend(plan.reports(after, None));
                let history = compacted.into_history();
                assert_eq!(
                    after,
                    estimate_conversation(turn.base_messages(), &history, turn.tools())
                );
                TurnInput::Compacted(history)
            }
            Err(stop) => {
                self.events.extend(stop.report);
                TurnInput::NotCompacted(stop.error)
            }
        }
    }

    fn run(&mut self, turn: &mut Turn, text: &str) -> StopReason {
        let mut input = TurnInput::Begin(text.to_owned());
        loop {
            let step = turn.step(input);
            if step.abort_delivery {
                self.steering.abort_delivery();
                self.cancelled = true;
            }
            self.events.extend(step.reports);
            input = match step.action {
                TurnAction::Store(message) => {
                    if self.stored.len() < self.store_limit {
                        self.stored.push(message);
                        TurnInput::Stored(None)
                    } else {
                        TurnInput::NotStored("disk full".to_owned())
                    }
                }
                TurnAction::Send(event) => {
                    self.events.push(event);
                    TurnInput::Sent(true)
                }
                TurnAction::Check => TurnInput::Checked {
                    cancelled: self.cancelled,
                    limits: self.limits,
                },
                TurnAction::Compact { force } => self.compact(turn, force),
                TurnAction::TakeSteering => {
                    TurnInput::Steering(take_steering(&mut self.steering, self.cancelled))
                }
                TurnAction::Stream { request, delivery } => {
                    for (at, text) in &self.steer_during {
                        if *at == self.requests.len() {
                            self.steering.accept(text.clone());
                        }
                    }
                    self.requests.push(request);
                    if delivery && self.steering.finish_delivery() {
                        self.cancelled = true;
                    }
                    match self.responses.pop_front().expect("a scripted response") {
                        Ok(response) => TurnInput::Streamed(response),
                        Err(error) => TurnInput::NotStreamed(error),
                    }
                }
                TurnAction::Reserve { seal } => TurnInput::Reserved(reserve_next_steering(
                    &mut self.steering,
                    self.cancelled,
                    seal,
                )),
                TurnAction::RunTool(call) => {
                    self.tools_run.push(call.call_id.clone().unwrap());
                    if self.tools_run.len() >= self.cancel_after_tools {
                        self.cancelled = true;
                    }
                    TurnInput::ToolFinished(ToolExecutionResult {
                        model_content: format!("result {}", self.tools_run.len()),
                        metadata: ToolExecutionMetadata::success(),
                    })
                }
                TurnAction::Finish(reason) => return reason,
            };
        }
    }
}

fn plain_turn(history: Vec<ModelMessage>) -> Turn {
    Turn::new(
        Vec::new(),
        ConversationHistory::new(None, history),
        Vec::new(),
        None,
        true,
        DEFAULT_COMPACTION_RESERVE_TOKENS,
    )
}

fn errors(events: &[AgentEvent]) -> Vec<String> {
    events
        .iter()
        .filter_map(|event| match event {
            AgentEvent::Error(error) => Some(error.message.clone()),
            _ => None,
        })
        .collect()
}

#[test]
fn compaction_never_summarizes_work_after_a_retained_user_request() {
    let history = ConversationHistory::new(
        None,
        vec![
            ModelMessage::user("old"),
            assistant("old answer"),
            ModelMessage::user("recent"),
            assistant("recent answer"),
            ModelMessage::user("current request"),
            ModelMessage::Assistant {
                items: vec![ModelAssistantItem::ToolCall(tool_call("a", "read", "{}"))],
            },
            result_of("a", "first result"),
            ModelMessage::Assistant {
                items: vec![ModelAssistantItem::ToolCall(tool_call("b", "read", "{}"))],
            },
            result_of("b", "latest result"),
        ],
    );
    let current_turn = history.messages()[4..].to_vec();
    let (prefix, retained) = select_compaction_prefix(&history, &[], &[], 1, true)
        .expect("a completed prior turn should be compactable");

    assert!(prefix.iter().all(|message| !current_turn.contains(message)));
    assert!(retained.ends_with(&current_turn));
}

#[test]
fn compaction_rejects_length_limited_summary() {
    let response = reply(vec![text_item("partial summary")], StopReason::Length);

    assert!(extract_summary(&response).is_err());
}

#[test]
fn compaction_rejects_incomplete_summary() {
    let response = reply(vec![text_item("partial summary")], StopReason::Incomplete);

    assert!(extract_summary(&response).is_err());
}

#[test]
fn a_summary_is_the_text_of_a_finished_response() {
    let response = reply(
        vec![
            text_item("first "),
            ModelAssistantItem::Refusal {
                content: "no".to_owned(),
            },
            text_item("second"),
        ],
        StopReason::Stop,
    );
    assert_eq!(extract_summary(&response), Ok("first second".to_owned()));
    assert_eq!(
        extract_summary(&said("  ")),
        Err("compaction response was empty".to_owned())
    );
    assert_eq!(
        extract_summary(&calls(&["a"])),
        Err("compaction response contained a tool call".to_owned())
    );
    assert_eq!(
        extract_summary(&reply(vec![text_item("x")], StopReason::Length)),
        Err("compaction response did not finish successfully: Length".to_owned())
    );
}

#[test]
fn a_turn_without_tools_is_stored_and_finished() {
    let mut stage = Stage::new(vec![Ok(said("hello"))]);
    let mut turn = plain_turn(Vec::new());
    assert_eq!(stage.run(&mut turn, "hi"), StopReason::Stop);
    assert_eq!(
        turn.history().messages(),
        [ModelMessage::user("hi"), assistant("hello")]
    );
    assert_eq!(stage.stored, turn.history().messages());
    assert!(stage.events.contains(&AgentEvent::TurnStarted));
    assert!(stage.events.contains(&AgentEvent::AssistantMessageStarted));
    assert!(stage.events.contains(&AgentEvent::AssistantMessageFinished {
        items: vec![text_item("hello")]
    }));
    assert_eq!(turn.into_history().messages().len(), 2);
}

#[test]
fn tools_run_in_order_and_are_offered_every_time() {
    let mut stage = Stage::new(vec![Ok(calls(&["a", "b"])), Ok(calls(&["c"])), Ok(said("x"))]);
    let tools = vec![ToolDefinition {
        name: "read".to_owned(),
        description: None,
        parameters: JsonValue::parse("{}").unwrap(),
    }];
    let mut turn = Turn::new(
        vec![ModelMessage::System {
            content: "base".to_owned(),
        }],
        ConversationHistory::new(None, Vec::new()),
        tools.clone(),
        Some("high".to_owned()),
        true,
        DEFAULT_COMPACTION_RESERVE_TOKENS,
    );
    assert_eq!(stage.run(&mut turn, "go"), StopReason::Stop);
    assert_eq!(stage.tools_run, ["a", "b", "c"]);
    assert_eq!(stage.requests.len(), 3);
    for request in &stage.requests {
        assert_eq!(request.tools, tools);
        assert_eq!(request.reasoning_effort.as_deref(), Some("high"));
        assert!(matches!(&request.messages[0], ModelMessage::System { content } if content == "base"));
        assert_eq!(
            request
                .messages
                .iter()
                .filter(|message| matches!(message, ModelMessage::System { .. }))
                .count(),
            1
        );
    }
    assert_eq!(
        turn.history().messages()[2..4],
        [result_of("a", "result 1"), result_of("b", "result 2")]
    );
    assert!(!turn
        .history()
        .messages()
        .iter()
        .any(|message| matches!(message, ModelMessage::System { .. })));
}

#[test]
fn forty_rounds_of_tools_are_no_limit() {
    let mut responses: Vec<Result<ModelResponse, ProviderError>> =
        (0..40).map(|_| Ok(calls(&["a"]))).collect();
    responses.push(Ok(said("done")));
    let mut stage = Stage::new(responses);
    let mut turn = plain_turn(Vec::new());
    assert_eq!(stage.run(&mut turn, "go"), StopReason::Stop);
    assert_eq!(stage.tools_run.len(), 40);
}

#[test]
fn a_cancelled_turn_answers_every_call() {
    let mut stage = Stage::new(vec![Ok(calls(&["a", "b", "c"]))]);
    stage.cancel_after_tools = 1;
    let mut turn = plain_turn(Vec::new());
    assert_eq!(stage.run(&mut turn, "go"), StopReason::Cancelled);
    assert_eq!(stage.tools_run, ["a"]);
    assert_eq!(
        turn.history().messages()[2..],
        [
            result_of("a", "result 1"),
            result_of("b", TOOL_CANCELLED_TEXT),
            result_of("c", TOOL_CANCELLED_TEXT),
        ]
    );
    assert!(stage.responses.is_empty());
}

#[test]
fn calls_without_names_end_a_turn() {
    let nameless = ModelToolCall {
        name: None,
        ..tool_call("a", "read", "{}")
    };
    let response = reply(
        vec![ModelAssistantItem::ToolCall(nameless)],
        StopReason::ToolCalls,
    );
    assert_eq!(
        validated_tool_calls(&response),
        Err("provider returned a tool call without a name".to_owned())
    );
    let mut stage = Stage::new(vec![Ok(response)]);
    let mut turn = plain_turn(Vec::new());
    assert_eq!(stage.run(&mut turn, "go"), StopReason::Error);
    assert_eq!(turn.history().messages(), [ModelMessage::user("go")]);

    let mut stage = Stage::new(vec![Ok(reply(Vec::new(), StopReason::ToolCalls))]);
    let mut turn = plain_turn(Vec::new());
    assert_eq!(stage.run(&mut turn, "go"), StopReason::Error);
    assert_eq!(
        errors(&stage.events),
        ["provider requested tool execution but returned no tool calls"]
    );
}

#[test]
fn failures_of_the_provider_end_a_turn() {
    let mut stage = Stage::new(vec![Err(ProviderError::Failed {
        message: "boom".to_owned(),
    })]);
    let mut turn = plain_turn(Vec::new());
    assert_eq!(stage.run(&mut turn, "go"), StopReason::Error);
    assert!(errors(&stage.events)[0].contains("boom"));

    let mut stage = Stage::new(vec![Err(ProviderError::Cancelled)]);
    assert_eq!(
        stage.run(&mut plain_turn(Vec::new()), "go"),
        StopReason::Cancelled
    );

    let mut stage = Stage::new(vec![Ok(reply(vec![text_item("x")], StopReason::Error))]);
    assert_eq!(
        stage.run(&mut plain_turn(Vec::new()), "go"),
        StopReason::Error
    );
}

#[test]
fn what_cannot_be_stored_is_not_added() {
    let mut stage = Stage::new(vec![Ok(said("hello"))]);
    stage.store_limit = 1;
    let mut turn = plain_turn(Vec::new());
    assert_eq!(stage.run(&mut turn, "hi"), StopReason::Error);
    assert_eq!(turn.history().messages(), [ModelMessage::user("hi")]);
    assert_eq!(
        errors(&stage.events),
        ["session persistence failed: disk full"]
    );
}

#[test]
fn steering_is_delivered_one_message_per_request() {
    let mut stage = Stage::new(vec![Ok(said("one")), Ok(said("two")), Ok(said("three"))]);
    stage.steer_during = vec![(0, "first".to_owned()), (0, "second".to_owned())];
    let mut turn = plain_turn(Vec::new());
    assert_eq!(stage.run(&mut turn, "go"), StopReason::Stop);
    assert_eq!(
        turn.history().messages(),
        [
            ModelMessage::user("go"),
            assistant("one"),
            ModelMessage::user("first"),
            assistant("two"),
            ModelMessage::user("second"),
            assistant("three"),
        ]
    );
    let delivered: Vec<&AgentEvent> = stage
        .events
        .iter()
        .filter(|event| matches!(event, AgentEvent::SteeringMessageDelivered { .. }))
        .collect();
    assert_eq!(delivered.len(), 2);
    assert_eq!(
        stage.requests[1].messages.last(),
        Some(&ModelMessage::user("first"))
    );
    assert_eq!(stage.steering.accept("late".to_owned()).as_deref(), Some("late"));
}

#[test]
fn steering_waits_for_all_tools_of_a_response() {
    let mut stage = Stage::new(vec![Ok(calls(&["a", "b"])), Ok(said("done"))]);
    stage.steer_during = vec![(0, "also this".to_owned())];
    let mut turn = plain_turn(Vec::new());
    assert_eq!(stage.run(&mut turn, "go"), StopReason::Stop);
    assert_eq!(
        turn.history().messages()[4],
        ModelMessage::user("also this")
    );
}

#[test]
fn an_overflow_is_met_with_one_compaction() {
    let old = vec![
        ModelMessage::user(&"old request ".repeat(50)),
        assistant(&"old answer ".repeat(50)),
    ];
    let overflow = || {
        Err(ProviderError::ContextOverflow {
            message: "too long".to_owned(),
        })
    };
    let mut stage = Stage::new(vec![overflow(), Ok(said("fits"))]);
    stage.summaries.push_back(Ok(said("summary")));
    let mut turn = plain_turn(old.clone());
    assert_eq!(stage.run(&mut turn, "current"), StopReason::Stop);
    assert_eq!(stage.compactions, [true]);
    assert_eq!(
        turn.history().summary(),
        Some(&CompactionSummary::new("summary"))
    );
    assert_eq!(
        turn.history().messages(),
        [ModelMessage::user("current"), assistant("fits")]
    );

    let mut stage = Stage::new(vec![overflow(), overflow()]);
    stage.summaries.push_back(Ok(said("summary")));
    let mut turn = plain_turn(old);
    assert_eq!(stage.run(&mut turn, "current"), StopReason::Error);
    assert_eq!(stage.compactions, [true]);

    let mut stage = Stage::new(vec![overflow()]);
    assert_eq!(
        stage.run(&mut plain_turn(Vec::new()), "current"),
        StopReason::Error
    );
    assert!(errors(&stage.events)[0].contains("too long"));
}

#[test]
fn a_long_conversation_is_compacted_before_it_is_sent() {
    let mut history = Vec::new();
    for index in 0..6 {
        history.push(ModelMessage::user(&format!(
            "request {index} {}",
            "x".repeat(300)
        )));
        history.push(assistant(&"y".repeat(300)));
    }
    let mut stage = Stage::new(vec![Ok(said("done"))]);
    stage.limits = ModelLimits {
        context_window: Some(17_000),
        max_output_tokens: None,
    };
    stage.summaries.push_back(Ok(said("short")));
    let mut turn = plain_turn(history);
    assert_eq!(stage.run(&mut turn, "now"), StopReason::Stop);
    assert_eq!(stage.compactions, [false]);
    assert!(stage.events.iter().any(|event| matches!(
        event,
        AgentEvent::CompactionFinished { automatic: true, before_tokens, after_tokens }
            if after_tokens < before_tokens
    )));
    assert!(turn
        .history()
        .messages()
        .contains(&ModelMessage::user("now")));
}

fn turn_with_tools(history: Vec<ModelMessage>, reserve_tokens: u64) -> Turn {
    Turn::new(
        Vec::new(),
        ConversationHistory::new(None, history),
        builtin_tool_registry().definitions(),
        None,
        true,
        reserve_tokens,
    )
}

#[test]
fn automatic_compaction_accounts_for_reserved_steering_before_delivery() {
    let initial = vec![
        ModelMessage::user(&"old request ".repeat(120)),
        assistant(&"old answer ".repeat(120)),
        ModelMessage::user(&"recent request ".repeat(40)),
        assistant(&"recent answer ".repeat(40)),
    ];
    let steering = "steering guidance ".repeat(20);
    let mut messages = initial.clone();
    messages.push(ModelMessage::user("initial"));
    messages.push(assistant("initial answer"));
    let mut request = ModelRequest::single_user("");
    request.messages = messages;
    request.tools = builtin_tool_registry().definitions();
    let without_steering = ConservativeTokenEstimator.estimate_request(&request);
    request.messages.push(ModelMessage::user(&steering));
    let with_steering = ConservativeTokenEstimator.estimate_request(&request);
    assert!(without_steering < with_steering);

    let mut stage = Stage::new(vec![Ok(said("initial answer")), Ok(said("continued"))]);
    stage.limits = ModelLimits {
        context_window: Some(without_steering + 100),
        max_output_tokens: Some(100),
    };
    stage.reserve_tokens = 100;
    stage.summaries.push_back(Ok(said("compaction summary")));
    assert_eq!(stage.steering.accept(steering.clone()), None);
    let mut turn = turn_with_tools(initial, stage.reserve_tokens);
    assert_eq!(stage.run(&mut turn, "initial"), StopReason::Stop);

    assert!(stage.events.iter().any(|event| matches!(
        event,
        AgentEvent::ContextUsageUpdated(usage) if usage.estimated_input_tokens == with_steering
    )));
    let position = |wanted: fn(&AgentEvent) -> bool| stage.events.iter().position(wanted).unwrap();
    let compacted =
        position(|event| matches!(event, AgentEvent::CompactionStarted { automatic: true }));
    let delivered =
        position(|event| matches!(event, AgentEvent::SteeringMessageDelivered { .. }));
    assert!(compacted < delivered);
    assert_eq!(stage.compactions, [false]);
    assert_eq!(stage.requests.len(), 2);
    assert_eq!(
        stage.requests[1]
            .messages
            .iter()
            .filter(|message| **message == ModelMessage::user(&steering))
            .count(),
        1
    );
}

#[test]
fn context_overflow_is_retried_once_after_emergency_compaction() {
    let initial = vec![
        ModelMessage::user(&"old one ".repeat(20)),
        assistant(&"answer one ".repeat(20)),
        ModelMessage::user("old two"),
        assistant("answer two"),
        ModelMessage::user("recent"),
        assistant("answer recent"),
    ];
    let overflow = ProviderError::ContextOverflow {
        message: "scripted context overflow".to_owned(),
    };
    let mut stage = Stage::new(vec![Err(overflow), Ok(said("done"))]);
    stage.limits = ModelLimits {
        context_window: Some(1_000),
        max_output_tokens: Some(100),
    };
    stage.reserve_tokens = 100;
    stage.summaries.push_back(Ok(said("emergency summary")));
    let mut turn = turn_with_tools(initial, stage.reserve_tokens);
    assert_eq!(stage.run(&mut turn, "continue"), StopReason::Stop);
    assert_eq!(stage.compactions, [true]);
    assert_eq!(stage.requests.len(), 2);
    assert!(matches!(
        stage.requests[1].messages.first(),
        Some(ModelMessage::Developer { content }) if content.contains("emergency summary")
    ));
    assert_eq!(
        stage.requests[1].messages.last(),
        Some(&ModelMessage::user("continue"))
    );
}

#[test]
fn a_runtime_offers_the_built_in_tools() {
    let runtime = AgentRuntime::with_workspace_root((), "/work");
    assert_eq!(
        runtime.registry.names(),
        ["read", "write", "edit", "bash"]
    );
    assert_eq!(runtime.reserve_tokens, DEFAULT_COMPACTION_RESERVE_TOKENS);
}

#[test]
fn a_summary_that_does_not_shorten_is_refused() {
    let history = ConversationHistory::new(
        None,
        vec![
            ModelMessage::user("a"),
            assistant("b"),
            ModelMessage::user("c"),
        ],
    );
    let plan = plan_compaction(&[], &history, &[], ModelLimits::default(), 0, false, true)
        .unwrap_or_else(|_| panic!("there is something to compact"));
    let stop = plan
        .conclude(&[], &[], Ok(said(&"long ".repeat(500))), false)
        .err()
        .expect("nothing is gained");
    assert!(matches!(stop.error, CompactionError::Failed(_)));
    assert!(matches!(
        stop.report,
        Some(AgentEvent::CompactionFailed { .. })
    ));
    let empty = ConversationHistory::new(None, Vec::new());
    let stop = plan_compaction(&[], &empty, &[], ModelLimits::default(), 0, false, true)
        .err()
        .expect("there is nothing to compact");
    assert_eq!(
        compaction_error_message(&stop.error),
        "nothing to compact"
    );
    let stop = plan.begin(true).err().expect("it was cancelled");
    assert_eq!(
        compaction_error_message(&stop.error),
        "compaction cancelled"
    );
    assert!(
        matches!(plan.not_stored("disk full").error, CompactionError::Failed(message) if message.ends_with("disk full"))
    );
}

#[test]
fn steering_messages_come_back_when_a_turn_is_cancelled() {
    let mut state = SteeringState::default();
    assert!(state.accept("a".to_owned()).is_none());
    assert!(state.accept("b".to_owned()).is_none());
    assert!(state.reserve(false));
    assert!(state.cancel());
    assert_eq!(state.seal_and_drain(), ["a", "b"]);
    assert_eq!(state.accept("c".to_owned()).as_deref(), Some("c"));

    let mut state = SteeringState::default();
    state.accept("a".to_owned());
    state.reserve(false);
    assert_eq!(state.begin_delivery().as_deref(), Some("a"));
    assert!(!state.cancel());
    assert!(state.finish_delivery());
    assert!(state.seal_and_drain().is_empty());
}

#[test]
fn a_runtime_takes_commands_one_task_at_a_time() {
    let limits = ModelLimits::default();
    let mut runtime = AgentRuntime::with_workspace_root((), "/work");
    assert_eq!(runtime.context, ToolContext::new("/work"));
    let started = runtime.command(
        AgentCommand::Submit {
            text: "go".to_owned(),
        },
        limits,
    );
    assert_eq!(
        started,
        [RuntimeAction::StartTurn {
            text: "go".to_owned()
        }]
    );
    let refused = runtime.command(AgentCommand::Compact, limits);
    assert!(matches!(
        &refused[..],
        [RuntimeAction::Send(AgentEvent::Error(error))]
            if error.message == "a turn or compaction is already active"
    ));
    assert_eq!(
        runtime.command(
            AgentCommand::Steer {
                text: "more".to_owned()
            },
            limits
        ),
        [RuntimeAction::Steer {
            text: "more".to_owned()
        }]
    );
    assert_eq!(
        runtime.command(AgentCommand::Cancel, limits),
        [RuntimeAction::CancelTask]
    );
    let history = ConversationHistory::new(None, vec![ModelMessage::user("go")]);
    let finished = runtime.task_finished(
        vec!["more".to_owned()],
        TaskOutcome::Turn {
            history: history.clone(),
            reason: StopReason::Cancelled,
        },
        limits,
    );
    assert_eq!(
        finished.first(),
        Some(&RuntimeAction::Send(
            AgentEvent::SteeringMessagesRecovered {
                messages: vec!["more".to_owned()]
            }
        ))
    );
    assert_eq!(
        finished.last(),
        Some(&RuntimeAction::Send(AgentEvent::TurnFinished {
            reason: StopReason::Cancelled
        }))
    );
    assert_eq!(runtime.conversation, history);
    let idle = runtime.command(AgentCommand::Cancel, limits);
    assert!(matches!(
        &idle[..],
        [RuntimeAction::Send(AgentEvent::Error(error))] if error.message == "no turn is active"
    ));
    assert_eq!(
        runtime.command(AgentCommand::Shutdown, limits),
        [RuntimeAction::Stop]
    );
}

#[test]
fn a_runtime_switches_sessions() {
    let limits = ModelLimits::default();
    let mut config = AgentRuntimeConfig::new(ToolContext::new("."));
    config.initial_history = vec![ModelMessage::user("before")];
    let mut runtime = AgentRuntime::with_config((), config);
    let refused = runtime.command(
        AgentCommand::RenameSession {
            name: "x".to_owned(),
        },
        limits,
    );
    assert!(matches!(
        &refused[..],
        [RuntimeAction::Send(AgentEvent::Error(error))]
            if error.message == "sessions are disabled for this run"
    ));
    let session = SessionHandle {
        id: "s".to_owned(),
    };
    let actions = runtime.command(
        AgentCommand::NewSession {
            session: session.clone(),
        },
        limits,
    );
    assert_eq!(actions.first(), Some(&RuntimeAction::ReadSession));
    assert!(runtime.conversation.messages().is_empty());
    assert_eq!(runtime.session, SessionMode::Enabled(session));
    runtime.command(
        AgentCommand::SetReasoningEffort {
            effort: Some("low".to_owned()),
        },
        limits,
    );
    assert_eq!(runtime.reasoning_effort.as_deref(), Some("low"));
    assert_eq!(recovered_report(Vec::new()), None);
    assert!(matches!(
        renamed_report(Err("no".to_owned())),
        AgentEvent::Error(AgentError { message }) if message == "no"
    ));
}

#[test]
fn a_task_that_breaks_is_reported() {
    let limits = ModelLimits::default();
    let mut runtime = AgentRuntime::new((), None);
    assert_eq!(runtime.context.workspace_root, ".");
    runtime.command(AgentCommand::Compact, limits);
    let actions = runtime.task_finished(
        Vec::new(),
        TaskOutcome::Broken("task 7 panicked".to_owned()),
        limits,
    );
    assert!(matches!(
        &actions[..],
        [
            RuntimeAction::Send(AgentEvent::Error(error)),
            RuntimeAction::Send(AgentEvent::CompactionFailed { message })
        ] if error.message == "agent task failed: task 7 panicked" && *message == error.message
    ));
}

#[test]
fn usage_is_forwarded_once() {
    let usage = Usage {
        input_tokens: Some(3),
        ..Usage::default()
    };
    let mut response = said("x");
    response.usage = Some(usage);
    let mut forwarder = ResponseForwarder::new();
    forwarder.forward(ModelEvent::AssistantTextDelta {
        index: None,
        text: "x".to_owned(),
    });
    assert_eq!(
        forwarder.finish(&response),
        Some(AgentEvent::UsageUpdated(usage))
    );
    forwarder.forward(ModelEvent::UsageUpdated(usage));
    assert_eq!(forwarder.finish(&response), None);
    assert_eq!(
        provider_task_failed("panicked"),
        ProviderError::Failed {
            message: "provider task failed: panicked".to_owned()
        }
    );
}

#[test]
fn tools_that_fail_say_so() {
    let failed = tool_arguments(&tool_call("a", "read", "{ not json")).unwrap_err();
    assert!(failed
        .model_content
        .starts_with("Tool error: invalid JSON arguments: "));
    assert!(!failed.metadata.success);
    assert_eq!(
        tool_arguments(&tool_call("a", "read", "{\"path\":\"x\"}"))
            .unwrap()
            .get_str("path"),
        Some("x")
    );
    let cancelled = tool_error_result(&ToolError::Cancelled, false);
    assert_eq!(cancelled.model_content, TOOL_CANCELLED_TEXT);
    assert!(cancelled.metadata.cancelled);
    assert_eq!(
        tool_task_failed("x").model_content,
        "Tool error: internal tool task failed: x"
    );
    assert_eq!(
        forward_tool_event(
            "a",
            ToolEvent::Output {
                stream: ToolOutputStream::Stderr,
                chunk: "c".to_owned()
            }
        ),
        AgentEvent::ToolExecutionOutput {
            call_id: "a".to_owned(),
            stream: ToolOutputStream::Stderr,
            chunk: "c".to_owned()
        }
    );
}

#[test]
fn a_turn_ends_when_nobody_listens() {
    let mut turn = plain_turn(Vec::new());
    turn.step(TurnInput::Begin("go".to_owned()));
    turn.step(TurnInput::Stored(None));
    let step = turn.step(TurnInput::Sent(false));
    assert_eq!(step.action, TurnAction::Finish(StopReason::Error));
    assert_eq!(EVENTS_CLOSED_TEXT, "agent event stream closed");
}

#[test]
fn a_change_of_the_session_is_announced() {
    let mut turn = plain_turn(Vec::new());
    turn.step(TurnInput::Begin("go".to_owned()));
    let info = SessionInfo {
        id: "s".to_owned(),
        name: Some("named".to_owned()),
    };
    let step = turn.step(TurnInput::Stored(Some(info.clone())));
    assert_eq!(
        step.action,
        TurnAction::Send(AgentEvent::SessionChanged { info })
    );
}
