//! The tools that plugins offer.

use crate::json::{Json, JsonValue};
use crate::model::message::{ToolDefinition, ToolDefinitionView};
use crate::plugin::process::{process_error_text, PluginProcessError, PluginProcessErrorView};
use crate::plugin::protocol::{
    tools_list_of, PluginToolDefinition, PluginToolDefinitionView, ToolsListResult,
};
use crate::text::{
    byte_len, chars_of, concat, concat3, decimal, decimal_text, is_blank, is_blank_text, quoted,
    quoted_text, same_text, utf8_len,
};
use crate::tools::{has_tool, names_distinct, ToolRegistry, ToolRegistryError};
use vstd::prelude::*;

verus! {

/// The most tools of a plugin.
pub const MAX_EXTERNAL_TOOLS_PER_PLUGIN: usize = 128;

/// The most bytes of the name of a tool.
pub const MAX_EXTERNAL_TOOL_NAME_BYTES: usize = 64;

/// The most bytes of the description of a tool.
pub const MAX_EXTERNAL_TOOL_DESCRIPTION_BYTES: usize = 16_384;

/// Why the tools of a plugin were not taken.
#[derive(Debug, PartialEq, Eq)]
pub enum ExternalToolError {
    InvalidDefinition { plugin_id: String, name: String, message: String },
    DuplicateDefinition { plugin_id: String, name: String },
    TooManyTools { plugin_id: String, count: usize, max: usize },
    Process { plugin_id: String, source: PluginProcessError },
    InvalidListResult { plugin_id: String, message: String },
    /// There is a tool of this name already.
    Registry { name: String },
}

/// What a [`ExternalToolError`] holds.
#[verifier::ext_equal]
pub enum ExternalToolErrorView {
    InvalidDefinition { plugin_id: Seq<char>, name: Seq<char>, message: Seq<char> },
    DuplicateDefinition { plugin_id: Seq<char>, name: Seq<char> },
    TooManyTools { plugin_id: Seq<char>, count: usize, max: usize },
    Process { plugin_id: Seq<char>, source: PluginProcessErrorView },
    InvalidListResult { plugin_id: Seq<char>, message: Seq<char> },
    Registry { name: Seq<char> },
}

impl DeepView for ExternalToolError {
    type V = ExternalToolErrorView;

    open spec fn deep_view(&self) -> ExternalToolErrorView {
        match self {
            ExternalToolError::InvalidDefinition { plugin_id, name, message } => ExternalToolErrorView::InvalidDefinition {
                plugin_id: plugin_id.deep_view(),
                name: name.deep_view(),
                message: message.deep_view(),
            },
            ExternalToolError::DuplicateDefinition { plugin_id, name } => ExternalToolErrorView::DuplicateDefinition {
                plugin_id: plugin_id.deep_view(),
                name: name.deep_view(),
            },
            ExternalToolError::TooManyTools { plugin_id, count, max } => ExternalToolErrorView::TooManyTools {
                plugin_id: plugin_id.deep_view(),
                count: *count,
                max: *max,
            },
            ExternalToolError::Process { plugin_id, source } => ExternalToolErrorView::Process {
                plugin_id: plugin_id.deep_view(),
                source: source.deep_view(),
            },
            ExternalToolError::InvalidListResult { plugin_id, message } => ExternalToolErrorView::InvalidListResult {
                plugin_id: plugin_id.deep_view(),
                message: message.deep_view(),
            },
            ExternalToolError::Registry { name } => ExternalToolErrorView::Registry {
                name: name.deep_view(),
            },
        }
    }
}

impl Clone for ExternalToolError {
    fn clone(&self) -> (res: Self)
        ensures
            res.deep_view() == self.deep_view(),
    {
        let res = match self {
            ExternalToolError::InvalidDefinition { plugin_id, name, message } => ExternalToolError::InvalidDefinition {
                plugin_id: plugin_id.clone(),
                name: name.clone(),
                message: message.clone(),
            },
            ExternalToolError::DuplicateDefinition { plugin_id, name } => ExternalToolError::DuplicateDefinition {
                plugin_id: plugin_id.clone(),
                name: name.clone(),
            },
            ExternalToolError::TooManyTools { plugin_id, count, max } => ExternalToolError::TooManyTools {
                plugin_id: plugin_id.clone(),
                count: *count,
                max: *max,
            },
            ExternalToolError::Process { plugin_id, source } => ExternalToolError::Process {
                plugin_id: plugin_id.clone(),
                source: source.clone(),
            },
            ExternalToolError::InvalidListResult { plugin_id, message } => ExternalToolError::InvalidListResult {
                plugin_id: plugin_id.clone(),
                message: message.clone(),
            },
            ExternalToolError::Registry { name } => ExternalToolError::Registry {
                name: name.clone(),
            },
        };
        assert(res.deep_view() =~~= self.deep_view());
        res
    }
}

/// The message of an error.
pub open spec fn external_error_text(error: ExternalToolErrorView) -> Seq<char> {
    match error {
        ExternalToolErrorView::InvalidDefinition { plugin_id, name, message } => "plugin "@
            + quoted_text(plugin_id) + (" returned invalid tool "@ + quoted_text(name) + (": "@
            + message)),
        ExternalToolErrorView::DuplicateDefinition { plugin_id, name } => "plugin "@ + quoted_text(
            plugin_id,
        ) + (" returned duplicate tool "@ + quoted_text(name)),
        ExternalToolErrorView::TooManyTools { plugin_id, count, max } => "plugin "@ + quoted_text(
            plugin_id,
        ) + (" exposes too many tools: "@ + decimal_text(count as nat) + (" > "@ + decimal_text(
            max as nat,
        ))),
        ExternalToolErrorView::Process { plugin_id, source } => "plugin "@ + quoted_text(plugin_id)
            + (" request failed: "@ + process_error_text(source)),
        ExternalToolErrorView::InvalidListResult { plugin_id, message } => "plugin "@ + quoted_text(
            plugin_id,
        ) + (" returned invalid tools/list result: "@ + message),
        ExternalToolErrorView::Registry { name } => "tool "@ + quoted_text(name)
            + " is already registered"@,
    }
}

impl ExternalToolError {
    /// The message of the error.
    pub fn to_text(&self) -> (res: String)
        ensures
            res@ == external_error_text(self.deep_view()),
    {
        match self {
            ExternalToolError::InvalidDefinition { plugin_id, name, message } => concat3(
                "plugin ",
                &quoted(plugin_id),
                &concat3(" returned invalid tool ", &quoted(name), &concat(": ", message)),
            ),
            ExternalToolError::DuplicateDefinition { plugin_id, name } => concat3(
                "plugin ",
                &quoted(plugin_id),
                &concat(" returned duplicate tool ", &quoted(name)),
            ),
            ExternalToolError::TooManyTools { plugin_id, count, max } => concat3(
                "plugin ",
                &quoted(plugin_id),
                &concat3(
                    " exposes too many tools: ",
                    &decimal(*count as u64),
                    &concat(" > ", &decimal(*max as u64)),
                ),
            ),
            ExternalToolError::Process { plugin_id, source } => concat3(
                "plugin ",
                &quoted(plugin_id),
                &concat(" request failed: ", &source.to_text()),
            ),
            ExternalToolError::InvalidListResult { plugin_id, message } => concat3(
                "plugin ",
                &quoted(plugin_id),
                &concat(" returned invalid tools/list result: ", message),
            ),
            ExternalToolError::Registry { name } => concat3(
                "tool ",
                &quoted(name),
                " is already registered",
            ),
        }
    }
}

/// A letter or a digit of ASCII.
pub open spec fn is_alphanumeric(c: char) -> bool {
    ('a' <= c <= 'z') || ('A' <= c <= 'Z') || ('0' <= c <= '9')
}

fn alphanumeric(c: char) -> (res: bool)
    ensures
        res == is_alphanumeric(c),
{
    ('a' <= c && c <= 'z') || ('A' <= c && c <= 'Z') || ('0' <= c && c <= '9')
}

/// A text can be the name of a tool.
pub open spec fn is_tool_name(s: Seq<char>) -> bool {
    &&& 0 < s.len() <= MAX_EXTERNAL_TOOL_NAME_BYTES
    &&& is_alphanumeric(s[0])
    &&& forall|i: int|
        0 <= i < s.len() ==> is_alphanumeric(#[trigger] s[i]) || s[i] == '_' || s[i] == '-'
}

fn is_valid_tool_name(name: &str) -> (res: bool)
    ensures
        res == is_tool_name(name@),
{
    let chars = chars_of(name);
    if chars.len() == 0 || chars.len() > MAX_EXTERNAL_TOOL_NAME_BYTES || !alphanumeric(chars[0]) {
        return false;
    }
    let mut i: usize = 0;
    while i < chars.len()
        invariant
            i <= chars.len(),
            chars@ == name@,
            forall|j: int|
                0 <= j < i ==> is_alphanumeric(#[trigger] name@[j]) || name@[j] == '_' || name@[j]
                    == '-',
        decreases chars.len() - i,
    {
        let c = chars[i];
        if !(alphanumeric(c) || c == '_' || c == '-') {
            assert(!is_alphanumeric(name@[i as int]));
            return false;
        }
        i += 1;
    }
    true
}

/// What is said of a name that no tool may have.
pub const INVALID_TOOL_NAME_TEXT: &'static str = "name must be 1..=64 ASCII letters, digits, underscores or hyphens, starting with a letter or digit";

/// What is said of a description that no tool may have.
pub const INVALID_TOOL_DESCRIPTION_TEXT: &'static str = "description must be nonblank and at most 16 KiB";

/// What is said of a schema that is no object.
pub const INVALID_TOOL_SCHEMA_TEXT: &'static str = "inputSchema must be a JSON object";

/// What is wrong with a tool by itself, if anything.
pub open spec fn definition_error(tool: PluginToolDefinitionView) -> Option<Seq<char>> {
    if !is_tool_name(tool.name) {
        Some(INVALID_TOOL_NAME_TEXT@)
    } else if tool.description is Some && (is_blank_text(tool.description->0) || utf8_len(
        tool.description->0,
    ) > MAX_EXTERNAL_TOOL_DESCRIPTION_BYTES) {
        Some(INVALID_TOOL_DESCRIPTION_TEXT@)
    } else if !(tool.input_schema is Object) {
        Some(INVALID_TOOL_SCHEMA_TEXT@)
    } else {
        None
    }
}

/// A tool of a plugin as it is offered to a model.
pub open spec fn offered(tool: PluginToolDefinitionView) -> ToolDefinitionView {
    ToolDefinitionView {
        name: tool.name,
        description: tool.description,
        parameters: tool.input_schema,
    }
}

/// The first thing that is wrong with the tools of a plugin, if anything.
pub open spec fn tools_error(plugin_id: Seq<char>, tools: Seq<PluginToolDefinitionView>) -> Option<
    ExternalToolErrorView,
>
    decreases tools.len(),
{
    if tools.len() == 0 {
        None
    } else {
        match tools_error(plugin_id, tools.drop_last()) {
            Some(error) => Some(error),
            None => {
                let tool = tools.last();
                match definition_error(tool) {
                    Some(message) => Some(
                        ExternalToolErrorView::InvalidDefinition {
                            plugin_id,
                            name: tool.name,
                            message,
                        },
                    ),
                    None => if has_definition(tools.drop_last(), tool.name) {
                        Some(
                            ExternalToolErrorView::DuplicateDefinition {
                                plugin_id,
                                name: tool.name,
                            },
                        )
                    } else {
                        None
                    },
                }
            },
        }
    }
}

/// Some tool has this name.
pub open spec fn has_definition(tools: Seq<PluginToolDefinitionView>, name: Seq<char>) -> bool {
    exists|i: int| 0 <= i < tools.len() && (#[trigger] tools[i]).name == name
}

/// The tools of a plugin as they are offered, or what is wrong with them.
pub open spec fn definitions_of(plugin_id: Seq<char>, tools: Seq<PluginToolDefinitionView>) ->
    Result<Seq<ToolDefinitionView>, ExternalToolErrorView> {
    if tools.len() > MAX_EXTERNAL_TOOLS_PER_PLUGIN {
        Err(
            ExternalToolErrorView::TooManyTools {
                plugin_id,
                count: tools.len() as usize,
                max: MAX_EXTERNAL_TOOLS_PER_PLUGIN,
            },
        )
    } else {
        match tools_error(plugin_id, tools) {
            Some(error) => Err(error),
            None => Ok(tools.map_values(|tool: PluginToolDefinitionView| offered(tool))),
        }
    }
}

proof fn lemma_tools_error_stays(
    plugin_id: Seq<char>,
    tools: Seq<PluginToolDefinitionView>,
    n: int,
)
    requires
        0 <= n <= tools.len(),
        tools_error(plugin_id, tools.take(n)) is Some,
    ensures
        tools_error(plugin_id, tools) == tools_error(plugin_id, tools.take(n)),
    decreases tools.len(),
{
    if n == tools.len() {
        assert(tools.take(n) =~= tools);
    } else {
        assert(tools.drop_last().take(n) =~= tools.take(n));
        lemma_tools_error_stays(plugin_id, tools.drop_last(), n);
    }
}

/// Tools that are taken have names of their own, and are offered as the plugin described them.
pub proof fn lemma_taken_tools_are_distinct(
    plugin_id: Seq<char>,
    tools: Seq<PluginToolDefinitionView>,
)
    ensures
        definitions_of(plugin_id, tools) matches Ok(definitions) ==> {
            &&& names_distinct(definitions)
            &&& definitions.len() == tools.len()
            &&& forall|i: int|
                0 <= i < tools.len() ==> #[trigger] definitions[i] == offered(tools[i])
        },
{
    if definitions_of(plugin_id, tools) is Ok {
        lemma_no_error_is_distinct(plugin_id, tools);
    }
}

proof fn lemma_no_error_is_distinct(plugin_id: Seq<char>, tools: Seq<PluginToolDefinitionView>)
    requires
        tools_error(plugin_id, tools) is None,
    ensures
        forall|i: int, j: int| 0 <= i < j < tools.len() ==> tools[i].name != tools[j].name,
    decreases tools.len(),
{
    if tools.len() > 0 {
        let before = tools.drop_last();
        lemma_no_error_is_distinct(plugin_id, before);
        assert forall|i: int, j: int| 0 <= i < j < tools.len() implies tools[i].name
            != tools[j].name by {
            assert(before[i].name == tools[i].name);
            if j < before.len() {
                assert(before[j].name == tools[j].name);
            }
        }
    }
}

fn error_in(tool: &PluginToolDefinition) -> (res: Option<String>)
    ensures
        res.deep_view() == definition_error(tool.deep_view()),
{
    if !is_valid_tool_name(&tool.name) {
        return Some(INVALID_TOOL_NAME_TEXT.to_owned());
    }
    if let Some(description) = &tool.description {
        if is_blank(description) || byte_len(description) > MAX_EXTERNAL_TOOL_DESCRIPTION_BYTES {
            return Some(INVALID_TOOL_DESCRIPTION_TEXT.to_owned());
        }
    }
    if !tool.input_schema.is_object() {
        return Some(INVALID_TOOL_SCHEMA_TEXT.to_owned());
    }
    None
}

/// The tools of a plugin as they are offered, or what is wrong with them.
pub fn validate_definitions(plugin_id: &str, tools: Vec<PluginToolDefinition>) -> (res: Result<
    Vec<ToolDefinition>,
    ExternalToolError,
>)
    ensures
        match (res, definitions_of(plugin_id@, tools.deep_view())) {
            (Ok(definitions), Ok(expected)) => definitions.deep_view() == expected,
            (Err(error), Err(expected)) => error.deep_view() == expected,
            _ => false,
        },
{
    let ghost all = tools.deep_view();
    if tools.len() > MAX_EXTERNAL_TOOLS_PER_PLUGIN {
        return Err(
            ExternalToolError::TooManyTools {
                plugin_id: plugin_id.to_owned(),
                count: tools.len(),
                max: MAX_EXTERNAL_TOOLS_PER_PLUGIN,
            },
        );
    }
    let ghost wanted = all.map_values(|tool: PluginToolDefinitionView| offered(tool));
    let mut definitions: Vec<ToolDefinition> = Vec::new();
    let mut i: usize = 0;
    assert(all.take(0) =~= Seq::<PluginToolDefinitionView>::empty());
    while i < tools.len()
        invariant
            i <= tools.len() <= MAX_EXTERNAL_TOOLS_PER_PLUGIN,
            all == tools.deep_view(),
            wanted == all.map_values(|tool: PluginToolDefinitionView| offered(tool)),
            tools_error(plugin_id@, all.take(i as int)) is None,
            definitions.deep_view() == wanted.take(i as int),
        decreases tools.len() - i,
    {
        let tool = &tools[i];
        proof {
            assert(all.take(i + 1).drop_last() =~= all.take(i as int));
            assert(all.take(i + 1).last() == tool.deep_view());
        }
        if let Some(message) = error_in(tool) {
            proof {
                lemma_tools_error_stays(plugin_id@, all, i + 1);
            }
            return Err(
                ExternalToolError::InvalidDefinition {
                    plugin_id: plugin_id.to_owned(),
                    name: tool.name.clone(),
                    message,
                },
            );
        }
        let mut k: usize = 0;
        while k < i
            invariant
                k <= i < tools.len() <= MAX_EXTERNAL_TOOLS_PER_PLUGIN,
                all == tools.deep_view(),
                tool == tools@[i as int],
                tools_error(plugin_id@, all.take(i as int)) is None,
                definition_error(tool.deep_view()) is None,
                all.take(i + 1).drop_last() == all.take(i as int),
                all.take(i + 1).last() == tool.deep_view(),
                forall|j: int|
                    0 <= j < k ==> (#[trigger] all.take(i as int)[j]).name != tool.deep_view().name,
            decreases i - k,
        {
            assert(all.take(i as int)[k as int] == tools@[k as int].deep_view());
            if same_text(&tools[k].name, &tool.name) {
                proof {
                    assert(has_definition(all.take(i as int), tool.deep_view().name));
                    lemma_tools_error_stays(plugin_id@, all, i + 1);
                }
                return Err(
                    ExternalToolError::DuplicateDefinition {
                        plugin_id: plugin_id.to_owned(),
                        name: tool.name.clone(),
                    },
                );
            }
            k += 1;
        }
        assert(!has_definition(all.take(i as int), tool.deep_view().name));
        let ghost before = definitions.deep_view();
        let definition = ToolDefinition {
            name: tool.name.clone(),
            description: tool.description.clone(),
            parameters: tool.input_schema.clone(),
        };
        definitions.push(definition);
        proof {
            assert(wanted[i as int] == definition.deep_view());
            assert(definitions.deep_view() =~= before.push(definition.deep_view()));
            assert(definitions.deep_view() =~= wanted.take(i + 1));
        }
        i += 1;
    }
    proof {
        assert(all.take(i as int) =~= all);
        assert(wanted.take(i as int) =~= wanted);
    }
    Ok(definitions)
}

/// The first of the tools whose name the registry has.
pub open spec fn first_taken(registry: Seq<ToolDefinitionView>, tools: Seq<ToolDefinitionView>) ->
    Option<Seq<char>>
    decreases tools.len(),
{
    if tools.len() == 0 {
        None
    } else if has_tool(registry, tools[0].name) {
        Some(tools[0].name)
    } else {
        first_taken(registry.push(tools[0]), tools.drop_first())
    }
}

/// Adds tools to a registry in order; where the name of one is taken, none of them.
pub fn register_into(registry: &mut ToolRegistry, tools: Vec<ToolDefinition>) -> (res: Result<
    (),
    ExternalToolError,
>)
    requires
        names_distinct(old(registry).deep_view()),
    ensures
        names_distinct(final(registry).deep_view()),
        match (res, first_taken(old(registry).deep_view(), tools.deep_view())) {
            (Ok(_), None) => final(registry).deep_view() == old(registry).deep_view()
                + tools.deep_view(),
            (Err(error), Some(name)) => {
                &&& error.deep_view() == (ExternalToolErrorView::Registry { name })
                &&& final(registry).deep_view() == old(registry).deep_view()
            },
            _ => false,
        },
{
    let ghost all = tools.deep_view();
    let ghost start = registry.deep_view();
    let mut next = registry.copy();
    let mut i: usize = 0;
    proof {
        assert(all.skip(0) =~= all);
        assert(start + all.take(0) =~= start);
    }
    while i < tools.len()
        invariant
            i <= tools.len(),
            all == tools.deep_view(),
            start == old(registry).deep_view(),
            *registry == *old(registry),
            names_distinct(start),
            names_distinct(next.deep_view()),
            next.deep_view() == start + all.take(i as int),
            first_taken(start, all) == first_taken(next.deep_view(), all.skip(i as int)),
        decreases tools.len() - i,
    {
        proof {
            assert(all.skip(i as int)[0] == tools@[i as int].deep_view());
            assert(all.skip(i as int).drop_first() =~= all.skip(i + 1));
        }
        match next.register(tools[i].clone()) {
            Ok(_) => {},
            Err(error) => match error {
                ToolRegistryError::DuplicateTool { name } => {
                    return Err(ExternalToolError::Registry { name });
                },
            },
        }
        assert(next.deep_view() =~= start + all.take(i + 1));
        i += 1;
    }
    assert(all.take(i as int) =~= all);
    *registry = next;
    Ok(())
}

/// The tools of a plugin, from its answer to the question for them.
pub open spec fn listed_tools(plugin_id: Seq<char>, answer: Result<Json, PluginProcessErrorView>) ->
    Result<Seq<ToolDefinitionView>, ExternalToolErrorView> {
    match answer {
        Err(source) => Err(ExternalToolErrorView::Process { plugin_id, source }),
        Ok(json) => match tools_list_of(json) {
            None => Err(
                ExternalToolErrorView::InvalidListResult {
                    plugin_id,
                    message: "expected a list of tools"@,
                },
            ),
            Some(list) => definitions_of(plugin_id, list.tools),
        },
    }
}

/// The tools of a plugin, from its answer to the question for them.
pub fn tools_of_answer(plugin_id: &str, answer: Result<JsonValue, PluginProcessError>) -> (res:
    Result<Vec<ToolDefinition>, ExternalToolError>)
    ensures
        match (
            res,
            listed_tools(
                plugin_id@,
                match answer {
                    Ok(value) => Ok(value.deep_view()),
                    Err(error) => Err(error.deep_view()),
                },
            ),
        ) {
            (Ok(definitions), Ok(expected)) => definitions.deep_view() == expected,
            (Err(error), Err(expected)) => error.deep_view() == expected,
            _ => false,
        },
{
    match answer {
        Err(source) => Err(
            ExternalToolError::Process { plugin_id: plugin_id.to_owned(), source },
        ),
        Ok(value) => match ToolsListResult::from_json(&value) {
            None => Err(
                ExternalToolError::InvalidListResult {
                    plugin_id: plugin_id.to_owned(),
                    message: "expected a list of tools".to_owned(),
                },
            ),
            Some(list) => validate_definitions(plugin_id, list.tools),
        },
    }
}

} // verus!
