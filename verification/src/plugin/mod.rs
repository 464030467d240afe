//! Plugins: what they offer, how they are started and how they are spoken to.

pub mod host;
pub mod installed;
pub mod laws;
pub mod manifest;
pub mod process;
pub mod protocol;
pub mod tools;

pub use host::{PluginActivationError, PluginHost, PluginShutdownFailure};
pub use installed::{
    default_plugins_dir, resolve_installed_plugins, InstalledPluginError, PLUGIN_MANIFEST_FILENAME,
};
pub use manifest::{
    load_plugin_manifest, LoadedPluginManifest, PluginEntrypoint, PluginManifest,
    PluginManifestError, PLUGIN_MANIFEST_VERSION,
};
pub use process::{
    PluginDiagnostics, PluginProcessError, MAX_PLUGIN_STDERR_BYTES, PLUGIN_SHUTDOWN_TIMEOUT,
    PLUGIN_STARTUP_TIMEOUT,
};
pub use protocol::{
    PluginCapabilities, PluginIdentity, PluginToolDefinition, ToolCallParams, ToolCallResult,
    ToolsListResult, MAX_PLUGIN_FRAME_BYTES, PLUGIN_PROTOCOL_VERSION,
};
pub use tools::{
    ExternalToolError, MAX_EXTERNAL_TOOLS_PER_PLUGIN, MAX_EXTERNAL_TOOL_DESCRIPTION_BYTES,
    MAX_EXTERNAL_TOOL_NAME_BYTES,
};

use crate::model::message::ToolDefinitionView;
use crate::tools::{builtin_tool_registry, builtin_tools, ToolRegistry};
use std::sync::Arc;
use vstd::prelude::*;

verus! {

/// What plugins and the program itself offer.
#[derive(Debug)]
pub struct PluginRegistry {
    tools: Arc<ToolRegistry>,
}

impl DeepView for PluginRegistry {
    type V = Seq<ToolDefinitionView>;

    closed spec fn deep_view(&self) -> Seq<ToolDefinitionView> {
        (*self.tools).deep_view()
    }
}

impl Clone for PluginRegistry {
    fn clone(&self) -> (res: Self)
        ensures
            res.deep_view() == self.deep_view(),
    {
        PluginRegistry { tools: self.tools.clone() }
    }
}

impl Default for PluginRegistry {
    fn default() -> (res: Self)
        ensures
            res.deep_view() == Seq::<ToolDefinitionView>::empty(),
    {
        PluginRegistry { tools: Arc::new(ToolRegistry::new()) }
    }
}

impl PluginRegistry {
    /// These tools.
    pub fn new(tools: Arc<ToolRegistry>) -> (res: Self)
        ensures
            res.deep_view() == (*tools).deep_view(),
    {
        PluginRegistry { tools }
    }

    /// The tools.
    pub fn tools(&self) -> (res: &Arc<ToolRegistry>)
        ensures
            (**res).deep_view() == self.deep_view(),
    {
        &self.tools
    }

    /// A copy of the tools, to which others can be added.
    pub(crate) fn copy_tools(&self) -> (res: ToolRegistry)
        ensures
            res.deep_view() == self.deep_view(),
    {
        self.tools.copy()
    }
}

/// What is offered without any plugin.
pub fn builtin_plugins() -> (res: PluginRegistry)
    ensures
        res.deep_view() == builtin_tools(),
{
    PluginRegistry::new(Arc::new(builtin_tool_registry()))
}

} // verus!
