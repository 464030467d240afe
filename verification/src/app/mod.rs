//! The state of an interactive session: its transcript, its editor, and what it reports.

pub mod counts;
pub mod event_laws;
pub mod graphemes;
pub mod identities;
pub mod laws;
pub mod output;
pub mod reducer;
pub mod state;
pub mod steps;
pub mod tracking;
pub mod transcript;

pub use output::{ToolOutputChunk, ToolStatus, ToolTranscriptEntry};
pub use state::AppState;
pub use transcript::{
    MessageRole, StreamingAssistantState, TranscriptEntry, TranscriptEntryId, TranscriptEntryState,
    TranscriptMessage, TranscriptMessages, UserMessageStatus,
};
