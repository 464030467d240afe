//! Tools: what they give back, how their calls are shown, and which there are.

use crate::json::{
    json_text, no_members, object, put, string_member, Json, JsonValue,
};
use crate::model::message::{ToolDefinition, ToolDefinitionView};
use crate::text::{
    concat, concat3, lines_of, same_text, starts_with, text_lines, truncate_text, truncated_text,
};
use vstd::prelude::*;

verus! {

/// Most bytes of text that a preview is made of.
pub const MAX_TOOL_PREVIEW_BYTES: usize = 4 * 1024;

/// Where a piece of output came from.
#[derive(Clone, Copy, Debug, PartialEq, Eq, Structural)]
pub enum ToolOutputStream {
    Stdout,
    Stderr,
}

/// How a line of a preview is meant.
#[derive(Clone, Copy, Debug, PartialEq, Eq, Structural)]
pub enum ToolPreviewKind {
    Normal,
    Dim,
    Added,
    Removed,
}

/// How the execution of a tool went.
#[derive(Clone, Copy, Debug, PartialEq, Eq, Structural)]
pub struct ToolExecutionMetadata {
    pub success: bool,
    pub cancelled: bool,
    pub truncated: bool,
}

impl ToolExecutionMetadata {
    /// What is known of a tool that did its work.
    pub fn success() -> (res: Self)
        ensures
            res == (ToolExecutionMetadata { success: true, cancelled: false, truncated: false }),
    {
        ToolExecutionMetadata { success: true, cancelled: false, truncated: false }
    }

    /// What is known of a tool that failed.
    pub fn failure() -> (res: Self)
        ensures
            res == (ToolExecutionMetadata { success: false, cancelled: false, truncated: false }),
    {
        ToolExecutionMetadata { success: false, cancelled: false, truncated: false }
    }
}

/// What a tool gave back.
#[derive(Debug, PartialEq, Eq)]
pub struct ToolExecutionResult {
    pub model_content: String,
    pub metadata: ToolExecutionMetadata,
}

/// What a [`ToolExecutionResult`] holds.
#[verifier::ext_equal]
pub struct ToolExecutionResultView {
    pub model_content: Seq<char>,
    pub metadata: ToolExecutionMetadata,
}

impl DeepView for ToolExecutionResult {
    type V = ToolExecutionResultView;

    open spec fn deep_view(&self) -> ToolExecutionResultView {
        ToolExecutionResultView {
            model_content: self.model_content.deep_view(),
            metadata: self.metadata,
        }
    }
}

impl Clone for ToolExecutionResult {
    fn clone(&self) -> (res: Self)
        ensures
            res.deep_view() == self.deep_view(),
    {
        let res = ToolExecutionResult {
            model_content: self.model_content.clone(),
            metadata: self.metadata,
        };
        assert(res.deep_view() =~~= self.deep_view());
        res
    }
}

/// Why a tool gave nothing back.
#[derive(Debug, PartialEq, Eq)]
pub enum ToolError {
    Cancelled,
    Failed { message: String },
}

/// What a [`ToolError`] holds.
#[verifier::ext_equal]
pub enum ToolErrorView {
    Cancelled,
    Failed { message: Seq<char> },
}

impl DeepView for ToolError {
    type V = ToolErrorView;

    open spec fn deep_view(&self) -> ToolErrorView {
        match self {
            ToolError::Cancelled => ToolErrorView::Cancelled,
            ToolError::Failed { message } => ToolErrorView::Failed {
                message: message.deep_view(),
            },
        }
    }
}

impl Clone for ToolError {
    fn clone(&self) -> (res: Self)
        ensures
            res.deep_view() == self.deep_view(),
    {
        let res = match self {
            ToolError::Cancelled => ToolError::Cancelled,
            ToolError::Failed { message } => ToolError::Failed {
                message: message.clone(),
            },
        };
        assert(res.deep_view() =~~= self.deep_view());
        res
    }
}

/// One line of a preview.
#[derive(Debug, PartialEq, Eq)]
pub struct ToolPreviewLine {
    pub kind: ToolPreviewKind,
    pub text: String,
}

/// What a [`ToolPreviewLine`] holds.
#[verifier::ext_equal]
pub struct ToolPreviewLineView {
    pub kind: ToolPreviewKind,
    pub text: Seq<char>,
}

impl DeepView for ToolPreviewLine {
    type V = ToolPreviewLineView;

    open spec fn deep_view(&self) -> ToolPreviewLineView {
        ToolPreviewLineView {
            kind: self.kind,
            text: self.text.deep_view(),
        }
    }
}

impl Clone for ToolPreviewLine {
    fn clone(&self) -> (res: Self)
        ensures
            res.deep_view() == self.deep_view(),
    {
        let res = ToolPreviewLine {
            kind: self.kind,
            text: self.text.clone(),
        };
        assert(res.deep_view() =~~= self.deep_view());
        res
    }
}

/// How a call is shown to the user.
#[derive(Debug, PartialEq, Eq)]
pub struct ToolCallPresentation {
    pub summary: String,
    pub preview: Vec<ToolPreviewLine>,
}

/// What a [`ToolCallPresentation`] holds.
#[verifier::ext_equal]
pub struct ToolCallPresentationView {
    pub summary: Seq<char>,
    pub preview: Seq<ToolPreviewLineView>,
}

impl DeepView for ToolCallPresentation {
    type V = ToolCallPresentationView;

    open spec fn deep_view(&self) -> ToolCallPresentationView {
        ToolCallPresentationView {
            summary: self.summary.deep_view(),
            preview: self.preview.deep_view(),
        }
    }
}

impl Clone for ToolCallPresentation {
    fn clone(&self) -> (res: Self)
        ensures
            res.deep_view() == self.deep_view(),
    {
        let res = ToolCallPresentation {
            summary: self.summary.clone(),
            preview: self.preview.clone(),
        };
        assert(res.deep_view() =~~= self.deep_view());
        res
    }
}

impl ToolExecutionResult {
    /// A failure that the model reads as `message`.
    pub fn failure(message: &str) -> (res: Self)
        ensures
            res.deep_view() == failed_result(message@),
    {
        ToolExecutionResult {
            model_content: message.to_owned(),
            metadata: ToolExecutionMetadata::failure(),
        }
    }
}

/// A failure that the model reads as `message`.
pub open spec fn failed_result(message: Seq<char>) -> ToolExecutionResultView {
    ToolExecutionResultView {
        model_content: message,
        metadata: ToolExecutionMetadata { success: false, cancelled: false, truncated: false },
    }
}

/// The message of an error.
pub open spec fn tool_error_text(error: ToolErrorView) -> Seq<char> {
    match error {
        ToolErrorView::Cancelled => "tool execution cancelled"@,
        ToolErrorView::Failed { message } => message,
    }
}

impl ToolError {
    /// The message of the error.
    pub fn to_text(&self) -> (res: String)
        ensures
            res@ == tool_error_text(self.deep_view()),
    {
        match self {
            ToolError::Cancelled => "tool execution cancelled".to_owned(),
            ToolError::Failed { message } => message.clone(),
        }
    }
}

/// The lines of `text`, all of one kind, each behind `mark`.
pub open spec fn marked_lines(
    text: Seq<char>,
    mark: Seq<char>,
    kind: ToolPreviewKind,
) -> Seq<ToolPreviewLineView> {
    text_lines(text).map_values(
        |line: Seq<char>| ToolPreviewLineView { kind, text: mark + line },
    )
}

/// A line that stands for what was left out.
pub open spec fn is_elision(line: Seq<char>) -> bool {
    "…"@.is_prefix_of(line) || "[…"@.is_prefix_of(line)
}

/// The lines of a text that is shown as it is, as far as the bound lets it.
pub open spec fn plain_preview(text: Seq<char>) -> Seq<ToolPreviewLineView> {
    text_lines(truncated_text(text, MAX_TOOL_PREVIEW_BYTES as int)).map_values(
        |line: Seq<char>|
            ToolPreviewLineView {
                kind: if is_elision(line) {
                    ToolPreviewKind::Dim
                } else {
                    ToolPreviewKind::Normal
                },
                text: line,
            },
    )
}

/// The lines of an argument, where it is a string, each behind `mark`.
pub open spec fn argument_lines(
    arguments: Json,
    name: Seq<char>,
    mark: Seq<char>,
    kind: ToolPreviewKind,
) -> Seq<ToolPreviewLineView> {
    match string_member(arguments, name) {
        Some(text) => marked_lines(
            truncated_text(text, MAX_TOOL_PREVIEW_BYTES as int),
            mark,
            kind,
        ),
        None => Seq::empty(),
    }
}

/// `name` is a tool on one file.
pub open spec fn is_file_tool(name: Seq<char>) -> bool {
    name == "read"@ || name == "write"@ || name == "edit"@
}

/// How a call is shown: a tool on a file by its path, with what it writes or changes; any other
/// by its name and its arguments.
pub open spec fn presentation_of(name: Seq<char>, arguments: Json) -> ToolCallPresentationView {
    ToolCallPresentationView {
        summary: match string_member(arguments, "path"@) {
            Some(path) => if is_file_tool(name) {
                name + " "@ + path
            } else {
                name
            },
            None => name,
        },
        preview: if name == "read"@ {
            Seq::empty()
        } else if name == "write"@ {
            argument_lines(arguments, "content"@, ""@, ToolPreviewKind::Normal)
        } else if name == "edit"@ {
            argument_lines(arguments, "old_text"@, "-"@, ToolPreviewKind::Removed)
                + argument_lines(arguments, "new_text"@, "+"@, ToolPreviewKind::Added)
        } else {
            plain_preview(json_text(arguments))
        },
    }
}

fn lines_marked(text: &str, mark: &str, kind: ToolPreviewKind) -> (res: Vec<ToolPreviewLine>)
    ensures
        res.deep_view() == marked_lines(text@, mark@, kind),
{
    let lines = lines_of(text);
    let ghost all = lines.deep_view();
    let mut res: Vec<ToolPreviewLine> = Vec::new();
    let mut i: usize = 0;
    while i < lines.len()
        invariant
            i <= lines.len(),
            all == lines.deep_view(),
            all == text_lines(text@),
            res@.len() == i,
            forall|k: int|
                0 <= k < i ==> (#[trigger] res@[k]).deep_view() == (ToolPreviewLineView {
                    kind,
                    text: mark@ + all[k],
                }),
        decreases lines.len() - i,
    {
        assert(all[i as int] == lines@[i as int]@);
        res.push(ToolPreviewLine { kind, text: concat(mark, &lines[i]) });
        i += 1;
    }
    assert(res.deep_view() =~= marked_lines(text@, mark@, kind));
    res
}

/// The lines of a text that is shown as it is, as far as the bound lets it.
pub fn preview_of(text: &str) -> (res: Vec<ToolPreviewLine>)
    ensures
        res.deep_view() == plain_preview(text@),
{
    let shown = truncate_text(text, MAX_TOOL_PREVIEW_BYTES);
    let lines = lines_of(&shown);
    let ghost all = lines.deep_view();
    let mut res: Vec<ToolPreviewLine> = Vec::new();
    let mut i: usize = 0;
    while i < lines.len()
        invariant
            i <= lines.len(),
            all == lines.deep_view(),
            all == text_lines(truncated_text(text@, MAX_TOOL_PREVIEW_BYTES as int)),
            res@.len() == i,
            forall|k: int|
                0 <= k < i ==> (#[trigger] res@[k]).deep_view() == (ToolPreviewLineView {
                    kind: if is_elision(all[k]) {
                        ToolPreviewKind::Dim
                    } else {
                        ToolPreviewKind::Normal
                    },
                    text: all[k],
                }),
        decreases lines.len() - i,
    {
        assert(all[i as int] == lines@[i as int]@);
        let kind = if starts_with(&lines[i], "…") || starts_with(&lines[i], "[…") {
            ToolPreviewKind::Dim
        } else {
            ToolPreviewKind::Normal
        };
        res.push(ToolPreviewLine { kind, text: lines[i].clone() });
        i += 1;
    }
    assert(res.deep_view() =~= plain_preview(text@));
    res
}

fn lines_of_argument(
    arguments: &JsonValue,
    name: &str,
    mark: &str,
    kind: ToolPreviewKind,
) -> (res: Vec<ToolPreviewLine>)
    ensures
        res.deep_view() == argument_lines(arguments.deep_view(), name@, mark@, kind),
{
    match arguments.get_str(name) {
        Some(text) => lines_marked(&truncate_text(text, MAX_TOOL_PREVIEW_BYTES), mark, kind),
        None => {
            let res: Vec<ToolPreviewLine> = Vec::new();
            assert(res.deep_view() =~= Seq::<ToolPreviewLineView>::empty());
            res
        },
    }
}

/// How the call of a tool with these arguments is shown.
pub fn presentation(name: &str, arguments: &JsonValue) -> (res: ToolCallPresentation)
    ensures
        res.deep_view() == presentation_of(name@, arguments.deep_view()),
{
    let is_read = same_text(name, "read");
    let is_write = same_text(name, "write");
    let is_edit = same_text(name, "edit");
    let summary = match arguments.get_str("path") {
        Some(path) => if is_read || is_write || is_edit {
            concat3(name, " ", path)
        } else {
            name.to_owned()
        },
        None => name.to_owned(),
    };
    let preview = if is_read {
        Vec::new()
    } else if is_write {
        lines_of_argument(arguments, "content", "", ToolPreviewKind::Normal)
    } else if is_edit {
        let mut lines = lines_of_argument(arguments, "old_text", "-", ToolPreviewKind::Removed);
        let mut added = lines_of_argument(arguments, "new_text", "+", ToolPreviewKind::Added);
        let ghost removed_view = lines.deep_view();
        let ghost added_view = added.deep_view();
        lines.append(&mut added);
        assert(lines.deep_view() =~= removed_view + added_view);
        lines
    } else {
        preview_of(&arguments.to_text())
    };
    let res = ToolCallPresentation { summary, preview };
    assert(res.deep_view() =~~= presentation_of(name@, arguments.deep_view()));
    res
}

/// Why a tool was not registered.
#[derive(Debug, PartialEq, Eq)]
pub enum ToolRegistryError {
    DuplicateTool { name: String },
}

/// The tools that a model may call, in the order in which they were registered.
#[derive(Debug, PartialEq, Eq)]
pub struct ToolRegistry {
    definitions: Vec<ToolDefinition>,
}

impl DeepView for ToolRegistry {
    type V = Seq<ToolDefinitionView>;

    closed spec fn deep_view(&self) -> Seq<ToolDefinitionView> {
        self.definitions.deep_view()
    }
}

/// No two tools have the same name.
pub open spec fn names_distinct(tools: Seq<ToolDefinitionView>) -> bool {
    forall|i: int, j: int| 0 <= i < j < tools.len() ==> tools[i].name != tools[j].name
}

/// Some tool has this name.
pub open spec fn has_tool(tools: Seq<ToolDefinitionView>, name: Seq<char>) -> bool {
    exists|i: int| 0 <= i < tools.len() && (#[trigger] tools[i]).name == name
}

/// The names of tools, in order.
pub open spec fn tool_names(tools: Seq<ToolDefinitionView>) -> Seq<Seq<char>> {
    tools.map_values(|tool: ToolDefinitionView| tool.name)
}

impl Default for ToolRegistry {
    fn default() -> (res: Self)
        ensures
            res.deep_view() == Seq::<ToolDefinitionView>::empty(),
            names_distinct(res.deep_view()),
    {
        ToolRegistry::new()
    }
}

impl ToolRegistry {
    /// A registry without tools.
    pub fn new() -> (res: Self)
        ensures
            res.deep_view() == Seq::<ToolDefinitionView>::empty(),
            names_distinct(res.deep_view()),
    {
        let res = ToolRegistry { definitions: Vec::new() };
        assert(res.definitions.deep_view() =~= Seq::<ToolDefinitionView>::empty());
        res
    }

    /// A copy of the registry.
    pub(crate) fn copy(&self) -> (res: Self)
        ensures
            res.deep_view() == self.deep_view(),
    {
        ToolRegistry { definitions: self.definitions() }
    }

    /// The definitions of the tools, in the order of their registration.
    pub fn definitions(&self) -> (res: Vec<ToolDefinition>)
        ensures
            res.deep_view() == self.deep_view(),
    {
        let res = self.definitions.clone();
        assert(res.deep_view() =~= self.deep_view());
        res
    }

    /// The names of the tools, in the order of their registration.
    pub fn names(&self) -> (res: Vec<String>)
        ensures
            res.deep_view() == tool_names(self.deep_view()),
    {
        let mut names: Vec<String> = Vec::new();
        let mut i: usize = 0;
        while i < self.definitions.len()
            invariant
                i <= self.definitions.len(),
                names@.len() == i,
                forall|k: int|
                    0 <= k < i ==> (#[trigger] names@[k])@ == self.definitions@[k].name@,
            decreases self.definitions.len() - i,
        {
            names.push(self.definitions[i].name.clone());
            i += 1;
        }
        assert(names.deep_view() =~= tool_names(self.deep_view()));
        names
    }

    /// Whether there is a tool of this name.
    pub fn contains(&self, name: &str) -> (res: bool)
        ensures
            res == has_tool(self.deep_view(), name@),
    {
        let mut i: usize = 0;
        while i < self.definitions.len()
            invariant
                i <= self.definitions.len(),
                forall|k: int| 0 <= k < i ==> (#[trigger] self.deep_view()[k]).name != name@,
            decreases self.definitions.len() - i,
        {
            assert(self.deep_view()[i as int].name == self.definitions@[i as int].name@);
            if same_text(&self.definitions[i].name, name) {
                return true;
            }
            i += 1;
        }
        false
    }

    /// Adds a tool at the end, unless there is one of its name; that one then stays.
    pub fn register(&mut self, definition: ToolDefinition) -> (res: Result<(), ToolRegistryError>)
        requires
            names_distinct(old(self).deep_view()),
        ensures
            names_distinct(final(self).deep_view()),
            match res {
                Ok(()) => !has_tool(old(self).deep_view(), definition.name@)
                    && final(self).deep_view() == old(self).deep_view().push(
                    definition.deep_view(),
                ),
                Err(ToolRegistryError::DuplicateTool { name }) => has_tool(
                    old(self).deep_view(),
                    definition.name@,
                ) && name@ == definition.name@ && final(self).deep_view() == old(self).deep_view(),
            },
    {
        if self.contains(&definition.name) {
            return Err(ToolRegistryError::DuplicateTool { name: definition.name });
        }
        let ghost before = self.deep_view();
        self.definitions.push(definition);
        proof {
            assert(self.deep_view() =~= before.push(definition.deep_view()));
            assert forall|i: int, j: int|
                0 <= i < j < self.deep_view().len() implies self.deep_view()[i].name
                != self.deep_view()[j].name by {
                if j == before.len() {
                    assert(before[i].name != definition.name@);
                }
            }
        }
        Ok(())
    }
}

/// The tool `name` as it is built in, with an open schema.
fn builtin_definition(name: &str) -> (res: ToolDefinition)
    ensures
        res.deep_view() == builtin_tool(name@),
{
    let mut members = no_members();
    put(&mut members, "type", JsonValue::string("object"));
    ToolDefinition { name: name.to_owned(), description: None, parameters: object(members) }
}

/// The tool `name` as it is built in, with an open schema.
pub open spec fn builtin_tool(name: Seq<char>) -> ToolDefinitionView {
    ToolDefinitionView {
        name,
        description: None,
        parameters: Json::Object(Map::empty().insert("type"@, Json::Text("object"@))),
    }
}

/// The built-in tools, in order.
pub open spec fn builtin_tools() -> Seq<ToolDefinitionView> {
    seq![
        builtin_tool("read"@),
        builtin_tool("write"@),
        builtin_tool("edit"@),
        builtin_tool("bash"@),
    ]
}

/// The registry of the built-in tools: `read`, `write`, `edit` and `bash`.
pub fn builtin_tool_registry() -> (res: ToolRegistry)
    ensures
        res.deep_view() == builtin_tools(),
        names_distinct(res.deep_view()),
{
    let mut definitions: Vec<ToolDefinition> = Vec::new();
    definitions.push(builtin_definition("read"));
    definitions.push(builtin_definition("write"));
    definitions.push(builtin_definition("edit"));
    definitions.push(builtin_definition("bash"));
    let res = ToolRegistry { definitions };
    proof {
        reveal_strlit("read");
        reveal_strlit("write");
        reveal_strlit("edit");
        reveal_strlit("bash");
        assert(res.deep_view() =~= builtin_tools());
        assert("read"@[0] != "edit"@[0] && "read"@[0] != "bash"@[0] && "edit"@[0] != "bash"@[0]);
        assert("write"@.len() == 5 && "read"@.len() == 4 && "edit"@.len() == 4 && "bash"@.len()
            == 4);
    }
    res
}

/// Where tools work.
#[derive(Debug, PartialEq, Eq)]
pub struct ToolContext {
    pub workspace_root: String,
}

/// What a [`ToolContext`] holds.
#[verifier::ext_equal]
pub struct ToolContextView {
    pub workspace_root: Seq<char>,
}

impl DeepView for ToolContext {
    type V = ToolContextView;

    open spec fn deep_view(&self) -> ToolContextView {
        ToolContextView {
            workspace_root: self.workspace_root.deep_view(),
        }
    }
}

impl Clone for ToolContext {
    fn clone(&self) -> (res: Self)
        ensures
            res.deep_view() == self.deep_view(),
    {
        let res = ToolContext {
            workspace_root: self.workspace_root.clone(),
        };
        assert(res.deep_view() =~~= self.deep_view());
        res
    }
}

/// What a tool says while it runs.
#[derive(Debug, PartialEq, Eq)]
pub enum ToolEvent {
    Output { stream: ToolOutputStream, chunk: String },
}

/// What a [`ToolEvent`] holds.
#[verifier::ext_equal]
pub enum ToolEventView {
    Output { stream: ToolOutputStream, chunk: Seq<char> },
}

impl DeepView for ToolEvent {
    type V = ToolEventView;

    open spec fn deep_view(&self) -> ToolEventView {
        match self {
            ToolEvent::Output { stream, chunk } => ToolEventView::Output {
                stream: *stream,
                chunk: chunk.deep_view(),
            },
        }
    }
}

/// The workspace of an agent that was given none.
pub const DEFAULT_WORKSPACE_ROOT: &'static str = ".";

impl ToolContext {
    /// Tools that work in this directory.
    pub fn new(workspace_root: &str) -> (res: Self)
        ensures
            res.deep_view() == (ToolContextView { workspace_root: workspace_root@ }),
    {
        ToolContext { workspace_root: workspace_root.to_owned() }
    }
}

} // verus!
