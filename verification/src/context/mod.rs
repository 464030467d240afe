//! What is put before a model besides the conversation, and how much of it there is.

pub mod accounting;
pub mod accounting_laws;
pub mod agents;
pub mod laws;
pub mod project;
pub mod prompt;

pub use accounting::{
    automatic_compaction_threshold, clamp_request_output_tokens, compaction_target,
    request_input_budget, ConservativeTokenEstimator, ContextUsage, TokenEstimator, UsageSource,
    AUTO_COMPACTION_TARGET_PERCENT, COMPACTION_MAX_OUTPUT_TOKENS, CONTEXT_SAFETY_TOKENS,
    DEFAULT_COMPACTION_RESERVE_TOKENS,
};
pub use agents::{
    load_context, ContextBundle, ContextError, ContextFileKind, LoadedContextFile,
    MAX_CONTEXT_FILE_BYTES, MAX_TOTAL_CONTEXT_BYTES,
};
pub use project::{discover_project, discover_project_root, ProjectError, ProjectLayout};
pub use prompt::{build_system_prompt, BUILT_IN_SYSTEM_PROMPT};
