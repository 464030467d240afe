//! Models: what is exchanged with them, and how providers are spoken to.

pub mod collecting_laws;
pub mod collector;
pub mod diagnostics;
pub mod diagnostics_laws;
pub mod message;
pub mod mock;
pub mod payload;
pub mod provider;
pub mod reply_laws;
pub mod request_laws;
pub mod requests;
pub mod sse;
pub mod sse_laws;
pub mod stream;

pub use message::{
    ModelAssistantItem, ModelEvent, ModelLimits, ModelMessage, ModelRequest, ModelResponse,
    ModelThinking, ModelToolCall, ProviderError, StopReason, ToolDefinition, Usage,
};
pub use mock::MockProvider;
pub use provider::{ConfiguredProvider, OpenAiProvider};
pub use sse::SseParser;
