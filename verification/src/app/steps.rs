//! The calls that change the state of a session, alone and in a row.

use crate::agent::event::AgentEventView;
use crate::app::graphemes::{is_plain, lemma_right_and_left_return};
use crate::app::state::{
    acknowledged, backspaced, compaction_set, cursor_set, deleted, history_replaced, input_set,
    is_valid, limits_set, moved_end, moved_home, moved_left, moved_right, newline_inserted, queued,
    reduced, submitted, system_added, taken, text_inserted, AppStateView,
};
use crate::config::thinking::ThinkingLevel;
use crate::model::message::{ModelLimits, ModelMessageView};
use crate::session::SessionInfoView;
use crate::text::utf8_len;
use vstd::prelude::*;

verus! {

/// A call of a method of [`crate::app::AppState`] that takes the state to change it.
pub enum AppStep {
    Reduce { event: AgentEventView },
    ReplaceHistory { messages: Seq<ModelMessageView> },
    SetContextLimits { limits: ModelLimits },
    InsertText { text: Seq<char> },
    InsertNewline,
    SetInput { text: Seq<char> },
    Backspace,
    Delete,
    SetCursor { cursor: usize },
    MoveLeft,
    MoveRight,
    MoveHome,
    MoveEnd,
    TakeInput,
    SubmitInput,
    QueueInput,
    AddSystemMessage { content: Seq<char> },
    AcknowledgeTranscriptChanges,
    SetCompactionActive { active: bool },
    SetThinkingLevel { level: Option<ThinkingLevel> },
    SetGitBranch { branch: Option<Seq<char>> },
    SetSessionInfo { info: Option<SessionInfoView> },
}

/// What a call makes of the state that works on the editor or notes something.
pub open spec fn noted(s: AppStateView, step: AppStep) -> AppStateView {
    match step {
        AppStep::SetContextLimits { limits } => limits_set(s, limits),
        AppStep::InsertText { text } => text_inserted(s, text),
        AppStep::InsertNewline => newline_inserted(s),
        AppStep::SetInput { text } => input_set(s, text),
        AppStep::Backspace => backspaced(s),
        AppStep::Delete => deleted(s),
        AppStep::SetCursor { cursor } => cursor_set(s, cursor as int),
        AppStep::MoveLeft => moved_left(s),
        AppStep::MoveRight => moved_right(s),
        AppStep::MoveHome => moved_home(s),
        AppStep::MoveEnd => moved_end(s),
        AppStep::TakeInput => taken(s).1,
        AppStep::AcknowledgeTranscriptChanges => acknowledged(s),
        AppStep::SetCompactionActive { active } => compaction_set(s, active),
        AppStep::SetThinkingLevel { level } => AppStateView { thinking_level: level, ..s },
        AppStep::SetGitBranch { branch } => AppStateView { git_branch: branch, ..s },
        AppStep::SetSessionInfo { info } => AppStateView { session_info: info, ..s },
        _ => s,
    }
}

/// What a call makes of the state.
pub open spec fn stepped(s: AppStateView, step: AppStep) -> AppStateView {
    match step {
        AppStep::Reduce { event } => reduced(s, event),
        AppStep::ReplaceHistory { messages } => history_replaced(s, messages),
        AppStep::SubmitInput => submitted(s).1,
        AppStep::QueueInput => queued(s).1,
        AppStep::AddSystemMessage { content } => system_added(s, content),
        _ => noted(s, step),
    }
}

/// What the calls make of the state, one after the other.
pub open spec fn run(s: AppStateView, steps: Seq<AppStep>) -> AppStateView
    decreases steps.len(),
{
    if steps.len() == 0 {
        s
    } else {
        stepped(run(s, steps.drop_last()), steps.last())
    }
}

/// The call puts the transcript of a history in the place of the one that was there.
pub open spec fn replaces_transcript(step: AppStep) -> bool {
    step is ReplaceHistory || (step matches AppStep::Reduce { event } && event is SessionLoaded)
}

/// The call leaves no change pending: it acknowledges the changes, or replaces the transcript.
pub open spec fn forgets_changes(step: AppStep) -> bool {
    step is AcknowledgeTranscriptChanges || replaces_transcript(step)
}

/// A call that works on the editor or notes something leaves the transcript alone.
pub(crate) proof fn lemma_noted(s: AppStateView, step: AppStep)
    ensures
        noted(s, step).entries == s.entries,
        noted(s, step).streaming == s.streaming,
        noted(s, step).last_id == s.last_id,
        noted(s, step).epoch == s.epoch,
        noted(s, step).revision == s.revision,
        !forgets_changes(step) ==> noted(s, step).pending == s.pending,
{
}

/// In an input of ASCII characters without carriage returns, a move to the right that is not at
/// the end, and a move to the left after it, leave everything as it was; a move to the left at the
/// beginning leaves everything as it is.
pub proof fn lemma_moves_return(s: AppStateView)
    requires
        is_valid(s),
        is_plain(s.input),
    ensures
        s.cursor < utf8_len(s.input) ==> moved_left(moved_right(s)) == s,
        s.cursor == 0 ==> moved_left(s) == s,
{
    lemma_right_and_left_return(s.input, s.cursor);
}

} // verus!
