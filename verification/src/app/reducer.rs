//! How events change the state of a session.

use crate::agent::event::{AgentError, AgentEvent};
use crate::app::state::{new_call, reduced, AppState};
use crate::app::transcript::{TranscriptEntry, UserMessageStatus};
use vstd::prelude::*;

verus! {

impl AppState {
    /// What an event makes of the state.
    #[verifier::rlimit(40)]
    pub fn reduce(&mut self, event: AgentEvent)
        requires
            old(self).wf(),
        ensures
            final(self).wf(),
            final(self).deep_view() == reduced(old(self).deep_view(), event.deep_view()),
    {
        match event {
            AgentEvent::TurnStarted => self.begin_turn(),
            AgentEvent::SteeringMessageDelivered { text } => self.update_oldest_queued_message(
                text,
                UserMessageStatus::Delivered,
            ),
            AgentEvent::SteeringMessagesRecovered { messages } => self.recover_messages(messages),
            AgentEvent::AssistantMessageStarted => self.start_message(),
            AgentEvent::AssistantTextDelta { text, .. } => self.append_streaming_content(&text),
            AgentEvent::AssistantThinkingDelta { text, .. } => self.append_streaming_thinking(
                &text,
            ),
            AgentEvent::AssistantRefusalDelta { text, .. } => self.append_streaming_content(&text),
            AgentEvent::AssistantRefusalItem { content, .. } => {
                if let Some(content) = content {
                    self.take_refusal(content);
                }
            },
            AgentEvent::AssistantMessageFinished { items } => self.finish_message(items),
            AgentEvent::ToolExecutionStarted { call_id, name, arguments } => {
                let entry = new_call(call_id, name, &arguments);
                self.push_entry(TranscriptEntry::Tool(entry));
            },
            AgentEvent::ToolExecutionOutput { call_id, stream, chunk } => self.take_output(
                &call_id,
                stream,
                &chunk,
            ),
            AgentEvent::ToolExecutionFinished { call_id, name, result } => self.finish_call(
                &call_id,
                result,
            ),
            AgentEvent::TurnFinished { reason } => self.finish_turn(reason),
            AgentEvent::CompactionStarted { .. } => self.begin_compaction(),
            AgentEvent::CompactionFinished { automatic, before_tokens, after_tokens } =>
                self.finish_compaction(before_tokens, after_tokens),
            AgentEvent::CompactionFailed { message } => self.fail_compaction(message),
            AgentEvent::AssistantTextItem { .. } => {},
            AgentEvent::AssistantThinkingContentDelta { .. } => {},
            AgentEvent::AssistantThinkingItem { .. } => {},
            AgentEvent::ToolCallDelta { .. } => {},
            AgentEvent::UsageUpdated(usage) => self.note_usage(usage),
            AgentEvent::ContextUsageUpdated(usage) => self.note_context_usage(usage),
            AgentEvent::ContextLimitsUpdated(limits) => self.set_context_limits(limits),
            AgentEvent::ModelChanged(model) => self.change_model(model),
            AgentEvent::SessionChanged { info } => self.set_session_info(Some(info)),
            AgentEvent::SessionLoaded { info, history } => self.load_session(info, history),
            AgentEvent::Error(AgentError { message }) => self.report_error(message),
        }
    }
}

} // verus!
