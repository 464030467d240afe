//! How calls of tools are shown.

use crate::json::{json_text, string_member, Json};
use crate::text::{text_lines, truncated_text, utf8_len};
use crate::tools::{
    builtin_tools, plain_preview, presentation_of, ToolPreviewKind, ToolPreviewLineView,
};
use vstd::prelude::*;

verus! {

/// A call of a tool for files is shown with the path that it is for; any other with its name.
pub proof fn lemma_calls_are_shown_with_their_path(name: Seq<char>, arguments: Json)
    ensures
        name == "read"@ || name == "write"@ || name == "edit"@ ==> (string_member(
            arguments,
            "path"@,
        ) matches Some(path) ==> presentation_of(name, arguments).summary == name + " "@ + path),
        string_member(arguments, "path"@) is None ==> presentation_of(name, arguments).summary
            == name,
        name != "read"@ && name != "write"@ && name != "edit"@ ==> presentation_of(
            name,
            arguments,
        ).summary == name,
{
}

proof fn lemma_names_differ()
    ensures
        "read"@ != "write"@,
        "read"@ != "edit"@,
        "write"@ != "edit"@,
{
    reveal_strlit("read");
    reveal_strlit("write");
    reveal_strlit("edit");
    assert("read"@[0] == 'r');
    assert("write"@[0] == 'w');
    assert("edit"@[0] == 'e');
}

/// What is written is shown line by line, as it will stand in the file.
pub proof fn lemma_written_lines_are_shown(arguments: Json, content: Seq<char>, i: int)
    requires
        string_member(arguments, "content"@) == Some(content),
        utf8_len(content) <= 4_096,
    ensures
        ({
            let shown = presentation_of("write"@, arguments).preview;
            let lines = text_lines(content);
            &&& shown.len() == lines.len()
            &&& 0 <= i < lines.len() ==> shown[i] == (ToolPreviewLineView {
                kind: ToolPreviewKind::Normal,
                text: lines[i],
            })
        }),
{
    lemma_names_differ();
    reveal_strlit("");
    let lines = text_lines(content);
    if 0 <= i < lines.len() {
        assert(""@ + lines[i] =~= lines[i]);
    }
}

/// Of an edit, the lines that go are shown first, each behind a minus sign, and then those that
/// come, each behind a plus sign.
pub proof fn lemma_edited_lines_are_shown(
    arguments: Json,
    gone: Seq<char>,
    come: Seq<char>,
    i: int,
)
    requires
        string_member(arguments, "old_text"@) == Some(gone),
        string_member(arguments, "new_text"@) == Some(come),
        utf8_len(gone) <= 4_096,
        utf8_len(come) <= 4_096,
    ensures
        ({
            let shown = presentation_of("edit"@, arguments).preview;
            let (old_lines, new_lines) = (text_lines(gone), text_lines(come));
            &&& shown.len() == old_lines.len() + new_lines.len()
            &&& 0 <= i < old_lines.len() ==> shown[i] == (ToolPreviewLineView {
                kind: ToolPreviewKind::Removed,
                text: seq!['-'] + old_lines[i],
            })
            &&& 0 <= i < new_lines.len() ==> shown[old_lines.len() + i] == (ToolPreviewLineView {
                kind: ToolPreviewKind::Added,
                text: seq!['+'] + new_lines[i],
            })
        }),
{
    lemma_names_differ();
    reveal_strlit("-");
    reveal_strlit("+");
    assert("-"@ =~= seq!['-']);
    assert("+"@ =~= seq!['+']);
}

/// Nothing is shown of what a call to read a file would read; of a call of any other tool, its
/// arguments are shown.
pub proof fn lemma_arguments_are_shown(name: Seq<char>, arguments: Json)
    ensures
        presentation_of("read"@, arguments).preview.len() == 0,
        name != "read"@ && name != "write"@ && name != "edit"@ ==> presentation_of(
            name,
            arguments,
        ).preview == plain_preview(json_text(arguments)),
{
}

/// A text is shown line by line; a line that stands for something left out is dimmed.
pub proof fn lemma_previews_are_lines(text: Seq<char>, i: int)
    ensures
        ({
            let shown = plain_preview(text);
            let lines = text_lines(truncated_text(text, 4_096));
            &&& shown.len() == lines.len()
            &&& 0 <= i < lines.len() ==> shown[i].text == lines[i] && shown[i].kind == if (
            "…"@.is_prefix_of(lines[i]) || "[…"@.is_prefix_of(lines[i])) {
                ToolPreviewKind::Dim
            } else {
                ToolPreviewKind::Normal
            }
        }),
        utf8_len(text) <= 4_096 ==> truncated_text(text, 4_096) == text,
{
}

/// The tools that are built in go by the names `read`, `write`, `edit` and `bash`, in this order,
/// and take an object each.
pub proof fn lemma_built_in_tools_have_their_names(i: int)
    requires
        0 <= i < builtin_tools().len(),
    ensures
        builtin_tools().len() == 4,
        builtin_tools()[i].name == seq!["read"@, "write"@, "edit"@, "bash"@][i],
        string_member(builtin_tools()[i].parameters, "type"@) == Some("object"@),
{
}

} // verus!
