//! The agent: its turns, its tools and its conversation with a model.

pub mod compaction;
pub mod compaction_laws;
pub mod event;
pub mod forward;
pub mod runtime;
pub mod runtime_laws;
pub mod steering;
pub mod turn;
pub mod turn_laws;

pub use event::{AgentError, AgentEvent};
pub use runtime::{AgentCommand, AgentRuntime, AgentRuntimeConfig};
