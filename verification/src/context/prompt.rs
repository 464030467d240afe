//! The system prompt.

use crate::context::agents::{ContextBundle, ContextBundleView, LoadedContextFileView};
use crate::text::{byte_len, chars_of, concat, concat3, decimal, decimal_text, utf8_len};
use vstd::prelude::*;

verus! {

/// What every agent is told.
pub const BUILT_IN_SYSTEM_PROMPT: &'static str = "You are ri, a coding agent.\n\nYou can inspect and modify files and run commands using the provided tools.\nUse tools when necessary to complete the user's task.\nKeep changes focused and verify relevant work when practical.\n";

/// A character in the value of an XML attribute.
pub open spec fn xml_char(c: char) -> Seq<char> {
    if c == '&' {
        "&amp;"@
    } else if c == '<' {
        "&lt;"@
    } else if c == '>' {
        "&gt;"@
    } else if c == '"' {
        "&quot;"@
    } else if c == '\'' {
        "&apos;"@
    } else {
        seq![c]
    }
}

/// A text as the value of an XML attribute.
pub open spec fn xml_attribute(s: Seq<char>) -> Seq<char>
    decreases s.len(),
{
    if s.len() == 0 {
        Seq::empty()
    } else {
        xml_attribute(s.drop_last()) + xml_char(s.last())
    }
}

/// A text as the value of an XML attribute.
pub fn escape_xml_attribute(value: &str) -> (res: String)
    ensures
        res@ == xml_attribute(value@),
{
    let chars = chars_of(value);
    let mut escaped = String::new();
    let mut i: usize = 0;
    while i < chars.len()
        invariant
            i <= chars.len(),
            chars@ == value@,
            escaped@ == xml_attribute(value@.take(i as int)),
        decreases chars.len() - i,
    {
        let ghost before = escaped@;
        let c = chars[i];
        if c == '&' {
            escaped = concat(&escaped, "&amp;");
        } else if c == '<' {
            escaped = concat(&escaped, "&lt;");
        } else if c == '>' {
            escaped = concat(&escaped, "&gt;");
        } else if c == '"' {
            escaped = concat(&escaped, "&quot;");
        } else if c == '\'' {
            escaped = concat(&escaped, "&apos;");
        } else {
            escaped.push(c);
        }
        proof {
            assert(value@.take(i + 1).drop_last() =~= value@.take(i as int));
            assert(escaped@ =~= before + xml_char(c));
        }
        i += 1;
    }
    assert(value@.take(i as int) =~= value@);
    escaped
}

/// An escaped text ends no attribute, and begins no element.
pub proof fn lemma_escaped_text_stays_inside(s: Seq<char>)
    ensures
        forall|i: int|
            0 <= i < xml_attribute(s).len() ==> (#[trigger] xml_attribute(s)[i]) != '"'
                && xml_attribute(s)[i] != '<' && xml_attribute(s)[i] != '>',
    decreases s.len(),
{
    if s.len() > 0 {
        lemma_escaped_text_stays_inside(s.drop_last());
        reveal_strlit("&amp;");
        reveal_strlit("&lt;");
        reveal_strlit("&gt;");
        reveal_strlit("&quot;");
        reveal_strlit("&apos;");
        let before = xml_attribute(s.drop_last());
        let last = xml_char(s.last());
        assert(forall|j: int|
            0 <= j < last.len() ==> (#[trigger] last[j]) != '"' && last[j] != '<' && last[j]
                != '>');
        assert forall|i: int| 0 <= i < xml_attribute(s).len() implies (#[trigger] xml_attribute(
            s,
        )[i]) != '"' && xml_attribute(s)[i] != '<' && xml_attribute(s)[i] != '>' by {
            if i < before.len() {
                assert(xml_attribute(s)[i] == before[i]);
            } else {
                assert(xml_attribute(s)[i] == last[i - before.len()]);
            }
        }
    }
}

/// What ends the content of a file: a newline, unless it ends with one.
pub open spec fn content_end(content: Seq<char>) -> Seq<char> {
    if content.len() > 0 && content.last() == '\n' {
        Seq::empty()
    } else {
        "\n"@
    }
}

/// A file in the prompt: its content as it is, in an element that tells its path and size.
pub open spec fn file_section(file: LoadedContextFileView) -> Seq<char> {
    "\n<agents-context path=\""@ + xml_attribute(file.path) + ("\" bytes=\""@ + decimal_text(
        utf8_len(file.content) as nat,
    ) + ("\">\n"@ + file.content + (content_end(file.content) + "</agents-context>\n"@)))
}

/// The files in the prompt, in order.
pub open spec fn file_sections(files: Seq<LoadedContextFileView>) -> Seq<char>
    decreases files.len(),
{
    if files.len() == 0 {
        Seq::empty()
    } else {
        file_sections(files.drop_last()) + file_section(files.last())
    }
}

/// Where the agent works.
pub open spec fn workspace_section(context: ContextBundleView) -> Seq<char> {
    "\nTool workspace: "@ + context.launch_cwd + ("\nProject root: "@ + context.project_root
        + "\n"@)
}

/// The system prompt.
pub open spec fn system_prompt(context: ContextBundleView) -> Seq<char> {
    let front = BUILT_IN_SYSTEM_PROMPT@ + workspace_section(context);
    if context.files.len() == 0 {
        front
    } else {
        front + ("\nProject instructions follow.\n"@ + file_sections(context.files))
    }
}

fn ends_with_newline(text: &str) -> (res: bool)
    ensures
        res == (text@.len() > 0 && text@.last() == '\n'),
{
    let chars = chars_of(text);
    chars.len() > 0 && chars[chars.len() - 1] == '\n'
}

/// The system prompt for a project.
pub fn build_system_prompt(context: &ContextBundle) -> (res: String)
    ensures
        res@ == system_prompt(context.deep_view()),
{
    let workspace = concat3(
        "\nTool workspace: ",
        context.launch_cwd(),
        &concat3("\nProject root: ", context.project_root(), "\n"),
    );
    let front = concat(BUILT_IN_SYSTEM_PROMPT, &workspace);
    let files = context.files();
    if files.len() == 0 {
        return front;
    }
    let ghost all = files.deep_view();
    let mut sections = String::new();
    let mut i: usize = 0;
    assert(all.take(0) =~= Seq::<LoadedContextFileView>::empty());
    assert(sections@ =~= Seq::<char>::empty());
    while i < files.len()
        invariant
            i <= files.len(),
            all == files.deep_view(),
            sections@ == file_sections(all.take(i as int)),
        decreases files.len() - i,
    {
        proof {
            assert(all.take(i + 1).drop_last() =~= all.take(i as int));
            assert(all.take(i + 1).last() == files@[i as int].deep_view());
        }
        let content = &files[i].content;
        let end = if ends_with_newline(content) {
            "</agents-context>\n".to_owned()
        } else {
            concat("\n", "</agents-context>\n")
        };
        proof {
            let close = "</agents-context>\n"@;
            assert(Seq::<char>::empty() + close =~= close);
        }
        let section = concat3(
            "\n<agents-context path=\"",
            &escape_xml_attribute(&files[i].path),
            &concat3(
                "\" bytes=\"",
                &decimal(byte_len(content) as u64),
                &concat3("\">\n", content, &end),
            ),
        );
        assert(section@ == file_section(files@[i as int].deep_view()));
        sections = concat(&sections, &section);
        i += 1;
    }
    assert(all.take(i as int) =~= all);
    concat3(&front, "\nProject instructions follow.\n", &sections)
}

} // verus!
