//! The plugins that are active.

use crate::model::message::{ToolDefinition, ToolDefinitionView};
use crate::plugin::process::{process_error_text, PluginProcessError, PluginProcessErrorView};
use crate::plugin::tools::{
    external_error_text, first_taken, register_into, ExternalToolError, ExternalToolErrorView,
};
use crate::plugin::{builtin_plugins, PluginRegistry};
use crate::text::{concat, concat3, quoted, quoted_text};
use crate::tools::{builtin_tools, names_distinct};
use vstd::prelude::*;

verus! {

/// The seconds that a plugin has to name its tools.
pub const PLUGIN_TOOLS_TIMEOUT: u64 = 5;

/// A plugin that did not end as it should.
#[derive(Debug, PartialEq, Eq)]
pub struct PluginShutdownFailure {
    pub plugin_id: String,
    pub message: String,
}

/// What a [`PluginShutdownFailure`] holds.
#[verifier::ext_equal]
pub struct PluginShutdownFailureView {
    pub plugin_id: Seq<char>,
    pub message: Seq<char>,
}

impl DeepView for PluginShutdownFailure {
    type V = PluginShutdownFailureView;

    open spec fn deep_view(&self) -> PluginShutdownFailureView {
        PluginShutdownFailureView {
            plugin_id: self.plugin_id.deep_view(),
            message: self.message.deep_view(),
        }
    }
}

impl Clone for PluginShutdownFailure {
    fn clone(&self) -> (res: Self)
        ensures
            res.deep_view() == self.deep_view(),
    {
        let res = PluginShutdownFailure {
            plugin_id: self.plugin_id.clone(),
            message: self.message.clone(),
        };
        assert(res.deep_view() =~~= self.deep_view());
        res
    }
}

/// What a [`PluginActivationError`] holds.
#[verifier::ext_equal]
pub enum PluginActivationErrorView {
    Start { plugin_id: Seq<char>, source: PluginProcessErrorView },
    Tools { plugin_id: Seq<char>, source: ExternalToolErrorView },
    ToolsTimeout { plugin_id: Seq<char> },
    Cleanup { source: Box<PluginActivationErrorView>, cleanup: Seq<PluginShutdownFailureView> },
}

/// Why plugins were not activated.
#[derive(Debug, PartialEq, Eq)]
pub enum PluginActivationError {
    /// One could not be started.
    Start { plugin_id: String, source: PluginProcessError },
    /// The tools of one cannot be used.
    Tools { plugin_id: String, source: ExternalToolError },
    /// One did not name its tools in time.
    ToolsTimeout { plugin_id: String },
    /// Something went wrong, and then those that had been started could not all be ended.
    Cleanup { source: Box<PluginActivationError>, cleanup: Vec<PluginShutdownFailure> },
}

/// What an error holds.
pub open spec fn activation_error_of(error: PluginActivationError) -> PluginActivationErrorView
    decreases error,
{
    match error {
        PluginActivationError::Start { plugin_id, source } => PluginActivationErrorView::Start {
            plugin_id: plugin_id@,
            source: source.deep_view(),
        },
        PluginActivationError::Tools { plugin_id, source } => PluginActivationErrorView::Tools {
            plugin_id: plugin_id@,
            source: source.deep_view(),
        },
        PluginActivationError::ToolsTimeout {
            plugin_id,
        } => PluginActivationErrorView::ToolsTimeout { plugin_id: plugin_id@ },
        PluginActivationError::Cleanup { source, cleanup } => PluginActivationErrorView::Cleanup {
            source: Box::new(activation_error_of(*source)),
            cleanup: cleanup.deep_view(),
        },
    }
}

impl DeepView for PluginActivationError {
    type V = PluginActivationErrorView;

    open spec fn deep_view(&self) -> PluginActivationErrorView {
        activation_error_of(*self)
    }
}

/// The message of an error; what could not be ended is listed by plugin and message.
pub open spec fn activation_error_text(error: PluginActivationErrorView) -> Seq<char>
    decreases error,
{
    match error {
        PluginActivationErrorView::Start { plugin_id, source } => "could not start plugin "@
            + quoted_text(plugin_id) + (": "@ + process_error_text(source)),
        PluginActivationErrorView::Tools { plugin_id, source } =>
        "could not load tools from plugin "@ + quoted_text(plugin_id) + (": "@
            + external_error_text(source)),
        PluginActivationErrorView::ToolsTimeout { plugin_id } =>
        "could not load tools from plugin "@ + quoted_text(plugin_id)
            + ": tools/list timed out"@,
        PluginActivationErrorView::Cleanup { source, cleanup } => "plugin activation failed: "@
            + activation_error_text(*source) + ("; cleanup failures: "@ + ("["@ + failures_text(
            cleanup,
        ) + "]"@)),
    }
}

/// What could not be ended, one after the other.
pub open spec fn failures_text(failures: Seq<PluginShutdownFailureView>) -> Seq<char>
    decreases failures.len(),
{
    if failures.len() == 0 {
        Seq::empty()
    } else {
        let last = "PluginShutdownFailure { plugin_id: "@ + quoted_text(failures.last().plugin_id)
            + (", message: "@ + quoted_text(failures.last().message) + " }"@);
        if failures.len() == 1 {
            last
        } else {
            failures_text(failures.drop_last()) + ", "@ + last
        }
    }
}

fn describe_failures(failures: &Vec<PluginShutdownFailure>) -> (res: String)
    ensures
        res@ == failures_text(failures.deep_view()),
{
    let ghost all = failures.deep_view();
    let mut text = String::new();
    let mut i: usize = 0;
    assert(all.take(0) =~= Seq::<PluginShutdownFailureView>::empty());
    assert(text@ =~= Seq::<char>::empty());
    while i < failures.len()
        invariant
            i <= failures.len(),
            all == failures.deep_view(),
            text@ == failures_text(all.take(i as int)),
        decreases failures.len() - i,
    {
        proof {
            assert(all.take(i + 1).drop_last() =~= all.take(i as int));
            assert(all.take(i + 1).last() == failures@[i as int].deep_view());
        }
        let message = concat3(", message: ", &quoted(&failures[i].message), " }");
        let described = concat3(
            "PluginShutdownFailure { plugin_id: ",
            &quoted(&failures[i].plugin_id),
            &message,
        );
        if i == 0 {
            text = described;
        } else {
            text = concat3(&text, ", ", &described);
        }
        i += 1;
    }
    assert(all.take(i as int) =~= all);
    text
}

impl PluginActivationError {
    /// The message of the error.
    pub fn to_text(&self) -> (res: String)
        ensures
            res@ == activation_error_text(self.deep_view()),
        decreases self,
    {
        match self {
            PluginActivationError::Start { plugin_id, source } => concat3(
                "could not start plugin ",
                &quoted(plugin_id),
                &concat(": ", &source.to_text()),
            ),
            PluginActivationError::Tools { plugin_id, source } => concat3(
                "could not load tools from plugin ",
                &quoted(plugin_id),
                &concat(": ", &source.to_text()),
            ),
            PluginActivationError::ToolsTimeout { plugin_id } => concat3(
                "could not load tools from plugin ",
                &quoted(plugin_id),
                ": tools/list timed out",
            ),
            PluginActivationError::Cleanup { source, cleanup } => concat3(
                "plugin activation failed: ",
                &source.to_text(),
                &concat(
                    "; cleanup failures: ",
                    &concat3("[", &describe_failures(cleanup), "]"),
                ),
            ),
        }
    }
}

/// The plugins that are active, and what they offer together with what is built in.
#[derive(Debug)]
pub struct PluginHost {
    registry: PluginRegistry,
    active_ids: Vec<String>,
}

/// What a [`PluginHost`] holds.
#[verifier::ext_equal]
pub struct PluginHostView {
    pub tools: Seq<ToolDefinitionView>,
    pub active: Seq<Seq<char>>,
}

impl DeepView for PluginHost {
    type V = PluginHostView;

    closed spec fn deep_view(&self) -> PluginHostView {
        PluginHostView { tools: self.registry.deep_view(), active: self.active_ids.deep_view() }
    }
}

/// Only what is built in.
pub open spec fn builtin_host() -> PluginHostView {
    PluginHostView { tools: builtin_tools(), active: Seq::empty() }
}

/// What came of asking a plugin for its tools.
#[derive(Debug, PartialEq, Eq)]
pub enum ToolsOutcome {
    /// It took too long.
    TimedOut,
    /// It gave none that can be used.
    Failed(ExternalToolError),
    /// These.
    Loaded(Vec<ToolDefinition>),
}

/// What a [`ToolsOutcome`] holds.
#[verifier::ext_equal]
pub enum ToolsOutcomeView {
    TimedOut,
    Failed(ExternalToolErrorView),
    Loaded(Seq<ToolDefinitionView>),
}

impl DeepView for ToolsOutcome {
    type V = ToolsOutcomeView;

    open spec fn deep_view(&self) -> ToolsOutcomeView {
        match self {
            ToolsOutcome::TimedOut => ToolsOutcomeView::TimedOut,
            ToolsOutcome::Failed(error) => ToolsOutcomeView::Failed(error.deep_view()),
            ToolsOutcome::Loaded(tools) => ToolsOutcomeView::Loaded(tools.deep_view()),
        }
    }
}

/// A plugin that was started becomes active with its tools, unless something is wrong with them.
pub open spec fn activated(
    host: PluginHostView,
    plugin_id: Seq<char>,
    outcome: ToolsOutcomeView,
) -> Result<PluginHostView, PluginActivationErrorView> {
    match outcome {
        ToolsOutcomeView::TimedOut => Err(PluginActivationErrorView::ToolsTimeout { plugin_id }),
        ToolsOutcomeView::Failed(source) => Err(
            PluginActivationErrorView::Tools { plugin_id, source },
        ),
        ToolsOutcomeView::Loaded(tools) => match first_taken(host.tools, tools) {
            Some(name) => Err(
                PluginActivationErrorView::Tools {
                    plugin_id,
                    source: ExternalToolErrorView::Registry { name },
                },
            ),
            None => Ok(
                PluginHostView { tools: host.tools + tools, active: host.active.push(plugin_id) },
            ),
        },
    }
}

/// Plugins become active one after the other, up to the first with which something is wrong.
pub open spec fn all_activated(
    plugins: Seq<(Seq<char>, ToolsOutcomeView)>,
) -> Result<PluginHostView, PluginActivationErrorView>
    decreases plugins.len(),
{
    if plugins.len() == 0 {
        Ok(builtin_host())
    } else {
        match all_activated(plugins.drop_last()) {
            Ok(host) => activated(host, plugins.last().0, plugins.last().1),
            Err(error) => Err(error),
        }
    }
}

proof fn lemma_none_taken_is_distinct(
    registry: Seq<ToolDefinitionView>,
    tools: Seq<ToolDefinitionView>,
)
    requires
        names_distinct(registry),
        first_taken(registry, tools) is None,
    ensures
        names_distinct(registry + tools),
    decreases tools.len(),
{
    if tools.len() == 0 {
        assert(registry + tools =~= registry);
    } else {
        let more = registry.push(tools[0]);
        assert forall|i: int, j: int| 0 <= i < j < more.len() implies more[i].name
            != more[j].name by {
            if j == registry.len() {
                assert(registry[i].name != tools[0].name);
            }
        }
        lemma_none_taken_is_distinct(more, tools.drop_first());
        assert(more + tools.drop_first() =~= registry + tools);
    }
}

proof fn lemma_builtin_distinct()
    ensures
        names_distinct(builtin_tools()),
{
    reveal_strlit("read");
    reveal_strlit("write");
    reveal_strlit("edit");
    reveal_strlit("bash");
    assert("read"@.len() == 4 && "write"@.len() == 5 && "edit"@.len() == 4 && "bash"@.len() == 4);
    assert("read"@[0] == 'r' && "edit"@[0] == 'e' && "bash"@[0] == 'b');
}

/// The tools that are built in come first and stay as they are, no two tools have one name, and
/// the plugins are active in the order in which they were selected.
pub proof fn lemma_active_plugins_add_to_what_is_built_in(
    plugins: Seq<(Seq<char>, ToolsOutcomeView)>,
)
    ensures
        all_activated(plugins) matches Ok(host) ==> {
            &&& host.active =~= plugins.map_values(|p: (Seq<char>, ToolsOutcomeView)| p.0)
            &&& names_distinct(host.tools)
            &&& builtin_tools().len() <= host.tools.len()
            &&& host.tools.take(builtin_tools().len() as int) =~= builtin_tools()
        },
    decreases plugins.len(),
{
    lemma_builtin_distinct();
    if plugins.len() > 0 {
        lemma_active_plugins_add_to_what_is_built_in(plugins.drop_last());
        match all_activated(plugins.drop_last()) {
            Ok(host) => {
                if let ToolsOutcomeView::Loaded(tools) = plugins.last().1 {
                    if first_taken(host.tools, tools) is None {
                        lemma_none_taken_is_distinct(host.tools, tools);
                    }
                }
            },
            Err(_) => {},
        }
    }
}

/// The numbers below `count`, from the last to the first.
pub open spec fn reverse_order(count: nat) -> Seq<usize> {
    Seq::new(count, |i: int| (count - 1 - i) as usize)
}

/// The order in which that many plugins are ended: the last that was started first.
pub fn stop_order(count: usize) -> (res: Vec<usize>)
    ensures
        res@ == reverse_order(count as nat),
{
    let mut order: Vec<usize> = Vec::new();
    let mut left: usize = count;
    while left > 0
        invariant
            left <= count,
            order@ == reverse_order(count as nat).take(count - left),
        decreases left,
    {
        let ghost before = order@;
        left -= 1;
        order.push(left);
        proof {
            assert(order@ =~= reverse_order(count as nat).take(count - left));
        }
    }
    assert(reverse_order(count as nat).take(count as int) =~= reverse_order(count as nat));
    order
}

/// What is reported of how plugins ended.
pub open spec fn failures_of(
    ended: Seq<(Seq<char>, Result<(), PluginProcessErrorView>)>,
) -> Seq<PluginShutdownFailureView>
    decreases ended.len(),
{
    if ended.len() == 0 {
        Seq::empty()
    } else {
        let before = failures_of(ended.drop_last());
        match ended.last().1 {
            Ok(_) => before,
            Err(error) => before.push(
                PluginShutdownFailureView {
                    plugin_id: ended.last().0,
                    message: process_error_text(error),
                },
            ),
        }
    }
}

/// How a plugin ended.
#[derive(Debug, PartialEq, Eq)]
pub struct EndedPlugin {
    pub plugin_id: String,
    pub result: Result<(), PluginProcessError>,
}

impl DeepView for EndedPlugin {
    type V = (Seq<char>, Result<(), PluginProcessErrorView>);

    open spec fn deep_view(&self) -> (Seq<char>, Result<(), PluginProcessErrorView>) {
        (
            self.plugin_id@,
            match self.result {
                Ok(_) => Ok(()),
                Err(error) => Err(error.deep_view()),
            },
        )
    }
}

/// What is reported of how plugins ended: every failure, in order.
pub fn shutdown_failures(ended: &Vec<EndedPlugin>) -> (res: Vec<PluginShutdownFailure>)
    ensures
        res.deep_view() == failures_of(ended.deep_view()),
{
    let ghost all = ended.deep_view();
    let mut failures: Vec<PluginShutdownFailure> = Vec::new();
    let mut i: usize = 0;
    proof {
        assert(all.take(0) =~= Seq::<(Seq<char>, Result<(), PluginProcessErrorView>)>::empty());
        assert(failures.deep_view() =~= Seq::<PluginShutdownFailureView>::empty());
    }
    while i < ended.len()
        invariant
            i <= ended.len(),
            all == ended.deep_view(),
            failures.deep_view() == failures_of(all.take(i as int)),
        decreases ended.len() - i,
    {
        proof {
            assert(all.take(i + 1).drop_last() =~= all.take(i as int));
            assert(all.take(i + 1).last() == ended@[i as int].deep_view());
        }
        match &ended[i].result {
            Ok(_) => {},
            Err(error) => {
                let ghost before = failures.deep_view();
                let failure = PluginShutdownFailure {
                    plugin_id: ended[i].plugin_id.clone(),
                    message: error.to_text(),
                };
                failures.push(failure);
                assert(failures.deep_view() =~= before.push(failure.deep_view()));
            },
        }
        i += 1;
    }
    assert(all.take(i as int) =~= all);
    failures
}

/// The error of an activation that failed, once those that had been started were ended.
pub fn activation_failed(
    source: PluginActivationError,
    cleanup: Vec<PluginShutdownFailure>,
) -> (res: PluginActivationError)
    ensures
        res.deep_view() == (if cleanup.deep_view().len() == 0 {
            source.deep_view()
        } else {
            PluginActivationErrorView::Cleanup {
                source: Box::new(source.deep_view()),
                cleanup: cleanup.deep_view(),
            }
        }),
{
    if cleanup.len() == 0 {
        source
    } else {
        PluginActivationError::Cleanup { source: Box::new(source), cleanup }
    }
}

/// The error of a plugin that could not be started.
pub fn start_failed(plugin_id: &str, source: PluginProcessError) -> (res: PluginActivationError)
    ensures
        res.deep_view() == (PluginActivationErrorView::Start {
            plugin_id: plugin_id@,
            source: source.deep_view(),
        }),
{
    PluginActivationError::Start { plugin_id: plugin_id.to_owned(), source }
}

impl PluginHost {
    /// Only what is built in.
    pub fn builtin_only() -> (res: Self)
        ensures
            res.deep_view() == builtin_host(),
            names_distinct(res.deep_view().tools),
    {
        let res = PluginHost { registry: builtin_plugins(), active_ids: Vec::new() };
        proof {
            lemma_builtin_distinct();
        }
        assert(res.active_ids.deep_view() =~= Seq::<Seq<char>>::empty());
        res
    }

    /// A plugin that was started becomes active with its tools, unless something is wrong with
    /// them.
    pub fn activate(&mut self, plugin_id: &str, outcome: ToolsOutcome) -> (res: Result<
        (),
        PluginActivationError,
    >)
        requires
            names_distinct(old(self).deep_view().tools),
        ensures
            match (res, activated(old(self).deep_view(), plugin_id@, outcome.deep_view())) {
                (Ok(_), Ok(host)) => {
                    &&& final(self).deep_view() == host
                    &&& names_distinct(final(self).deep_view().tools)
                },
                (Err(error), Err(expected)) => {
                    &&& error.deep_view() == expected
                    &&& final(self).deep_view() == old(self).deep_view()
                },
                _ => false,
            },
    {
        let tools = match outcome {
            ToolsOutcome::TimedOut => {
                return Err(
                    PluginActivationError::ToolsTimeout { plugin_id: plugin_id.to_owned() },
                );
            },
            ToolsOutcome::Failed(source) => {
                return Err(
                    PluginActivationError::Tools { plugin_id: plugin_id.to_owned(), source },
                );
            },
            ToolsOutcome::Loaded(tools) => tools,
        };
        let mut registry = self.registry.copy_tools();
        match register_into(&mut registry, tools) {
            Ok(_) => {
                let ghost before = self.active_ids.deep_view();
                self.registry = PluginRegistry::new(std::sync::Arc::new(registry));
                self.active_ids.push(plugin_id.to_owned());
                assert(self.active_ids.deep_view() =~= before.push(plugin_id@));
                Ok(())
            },
            Err(source) => Err(
                PluginActivationError::Tools { plugin_id: plugin_id.to_owned(), source },
            ),
        }
    }

    /// What the host offers.
    pub fn registry(&self) -> (res: &PluginRegistry)
        ensures
            res.deep_view() == self.deep_view().tools,
    {
        &self.registry
    }

    /// The plugins that are active, in the order of their selection.
    pub fn active_ids(&self) -> (res: &[String])
        ensures
            res.deep_view() == self.deep_view().active,
    {
        let res = self.active_ids.as_slice();
        assert(res.deep_view() =~= self.active_ids.deep_view());
        res
    }
}

} // verus!
