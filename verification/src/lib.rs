//! The core of an interactive coding agent: conversation and transcript state,
//! provider protocols, context accounting, configuration and plugins.

pub mod agent;
pub mod app;
pub mod config;
pub mod context;
pub mod conversation;
pub mod conversation_laws;
pub mod json;
pub mod model;
pub mod plugin;
pub mod session;
pub mod text;
pub mod text_laws;
pub mod tools;
pub mod tools_laws;

pub use agent::{AgentCommand, AgentError, AgentEvent, AgentRuntime, AgentRuntimeConfig};
pub use app::{
    AppState, MessageRole, StreamingAssistantState, ToolOutputChunk, ToolStatus,
    ToolTranscriptEntry, TranscriptEntry, TranscriptEntryId, TranscriptEntryState,
    TranscriptMessage, TranscriptMessages, UserMessageStatus,
};
pub use config::{
    default_state_path, load_state, persist_recent_model, ApiKind, CompactionSettings,
    Compatibility, ConfigError, ConfigWarning, ContextSettings, CostMetadata, ModelCatalog,
    ModelRef, RecentModel, RecentModelState, ResolvedModel, ResolvedSettings, SettingsError,
    SettingsLoad, StateError, ThinkingLevel, ThinkingLevelError, WorkspaceRecentModel,
};
pub use context::{
    compaction_target, ConservativeTokenEstimator, ContextUsage, TokenEstimator, UsageSource,
    AUTO_COMPACTION_TARGET_PERCENT, COMPACTION_MAX_OUTPUT_TOKENS,
};
pub use conversation::{segment_history, CompactionSummary, ConversationHistory, HistorySegment};
pub use json::{JsonMember, JsonValue};
pub use model::{
    ConfiguredProvider, MockProvider, ModelAssistantItem, ModelEvent, ModelLimits, ModelMessage,
    ModelRequest, ModelResponse, ModelThinking, ModelToolCall, ProviderError, StopReason,
    ToolDefinition, Usage,
};
pub use plugin::{builtin_plugins, PluginHost, PluginRegistry};
pub use session::{SessionHandle, SessionInfo, SessionMode};
pub use tools::{
    builtin_tool_registry, ToolCallPresentation, ToolContext, ToolError, ToolEvent,
    ToolExecutionMetadata, ToolExecutionResult, ToolOutputStream, ToolPreviewKind, ToolPreviewLine,
    ToolRegistry, ToolRegistryError, MAX_TOOL_PREVIEW_BYTES,
};
