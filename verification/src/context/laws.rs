//! What the system prompt and the context files hold, whatever the project.

use crate::context::agents::{
    bundle_diagnostic, candidate_loaded, context_loaded, directories_loaded, directory_loaded,
    no_context, CandidateReadView, CandidateStatView, ContentReadView, ContextBundleView,
    ContextErrorView, ContextFileKind, DirectoryReadView, LoadedContextFileView, LoaderView,
    PathReadView,
};
use crate::context::project::{
    marked, project_of, project_root_of, AncestorView, MarkerReadView, ProjectErrorView,
};
use crate::context::prompt::{
    content_end, file_section, file_sections, system_prompt, xml_attribute, BUILT_IN_SYSTEM_PROMPT,
};
use crate::model::sse::utf8_error_text;
use crate::text::{decimal_text, utf8_len};
use vstd::prelude::*;
use vstd::utf8::{decode_utf8, valid_utf8};

verus! {

/// Whether the text holds the part, from the place on.
pub open spec fn stands_at(text: Seq<char>, part: Seq<char>, at: int) -> bool {
    0 <= at <= at + part.len() <= text.len() && text.subrange(at, at + part.len()) == part
}

/// The prompt says in a line of its own which directory the session was launched in, after the
/// words "Tool workspace: ".
pub proof fn lemma_the_prompt_names_the_launch_directory(context: ContextBundleView)
    ensures
        exists|at: int|
            stands_at(
                system_prompt(context),
                "\nTool workspace: "@ + context.launch_cwd + "\n"@,
                at,
            ),
{
    let part = "\nTool workspace: "@ + context.launch_cwd + "\n"@;
    let before = BUILT_IN_SYSTEM_PROMPT@;
    let prompt = system_prompt(context);
    reveal_strlit("\n");
    reveal_strlit("\nProject root: ");
    let at: int = before.len() as int;
    assert("\nProject root: "@[0] == "\n"@[0]);
    assert(prompt.len() >= at + part.len());
    assert(prompt.subrange(at, at + part.len()) =~= part);
    assert(stands_at(prompt, part, at));
}

/// The prompt says in a line of its own which directory is the root of the project, after the
/// words "Project root: ".
pub proof fn lemma_the_prompt_names_the_project_root(context: ContextBundleView)
    ensures
        exists|at: int|
            stands_at(
                system_prompt(context),
                "\nProject root: "@ + context.project_root + "\n"@,
                at,
            ),
{
    let part = "\nProject root: "@ + context.project_root + "\n"@;
    let before = BUILT_IN_SYSTEM_PROMPT@ + ("\nTool workspace: "@ + context.launch_cwd);
    let prompt = system_prompt(context);
    let at: int = before.len() as int;
    assert(prompt.len() >= at + part.len());
    assert(prompt.subrange(at, at + part.len()) =~= part);
    assert(stands_at(prompt, part, at));
}

/// Prompts for sessions that were launched in different directories of one project differ, and so
/// do prompts for different projects: the two directories have two places in the prompt, which
/// follow one upon the other behind what every agent is told.
pub proof fn lemma_the_prompt_begins_with_what_every_agent_is_told(context: ContextBundleView)
    ensures
        BUILT_IN_SYSTEM_PROMPT@.is_prefix_of(system_prompt(context)),
        ({
            let told: int = BUILT_IN_SYSTEM_PROMPT@.len() as int;
            let launch = "\nTool workspace: "@ + context.launch_cwd;
            &&& stands_at(system_prompt(context), launch, told)
            &&& stands_at(
                system_prompt(context),
                "\nProject root: "@ + context.project_root + "\n"@,
                told + launch.len(),
            )
        }),
{
    let prompt = system_prompt(context);
    let told: int = BUILT_IN_SYSTEM_PROMPT@.len() as int;
    let launch = "\nTool workspace: "@ + context.launch_cwd;
    let root = "\nProject root: "@ + context.project_root + "\n"@;
    assert(prompt.subrange(0, told) =~= BUILT_IN_SYSTEM_PROMPT@);
    assert(prompt.subrange(told, told + launch.len()) =~= launch);
    assert(prompt.subrange(told + launch.len(), told + launch.len() + root.len()) =~= root);
}

/// Without context files the prompt ends with the root of the project.
pub proof fn lemma_nothing_follows_where_no_file_was_loaded(context: ContextBundleView)
    requires
        context.files.len() == 0,
    ensures
        ("\nProject root: "@ + context.project_root + "\n"@).is_suffix_of(system_prompt(context)),
        system_prompt(context).len() == BUILT_IN_SYSTEM_PROMPT@.len() + "\nTool workspace: "@.len()
            + context.launch_cwd.len() + "\nProject root: "@.len() + context.project_root.len()
            + "\n"@.len(),
{
    let part = "\nProject root: "@ + context.project_root + "\n"@;
    let prompt = system_prompt(context);
    assert(prompt.subrange(prompt.len() - part.len(), prompt.len() as int) =~= part);
}

/// What tells a model that a file begins: where it is, in which `&`, `<`, `>` and the quotation
/// marks are escaped, and how many bytes it has.
pub open spec fn opening(file: LoadedContextFileView) -> Seq<char> {
    "\n<agents-context path=\""@ + xml_attribute(file.path) + "\" bytes=\""@ + decimal_text(
        utf8_len(file.content) as nat,
    ) + "\">\n"@
}

proof fn lemma_section(file: LoadedContextFileView)
    ensures
        file_section(file) == opening(file) + (if file.content.len() > 0 && file.content.last()
            == '\n' {
            file.content
        } else {
            file.content.push('\n')
        }) + "</agents-context>\n"@,
{
    reveal_strlit("\n");
    assert(file.content + "\n"@ =~= file.content.push('\n'));
    let ended = if file.content.len() > 0 && file.content.last() == '\n' {
        file.content
    } else {
        file.content.push('\n')
    };
    assert(file.content + (content_end(file.content) + "</agents-context>\n"@) =~= ended
        + "</agents-context>\n"@);
    assert(file_section(file) =~= opening(file) + (ended + "</agents-context>\n"@));
    assert(opening(file) + (ended + "</agents-context>\n"@) =~= opening(file) + ended
        + "</agents-context>\n"@);
}

/// A file that was loaded after the others goes behind all that the prompt says without it: its
/// opening, then all it holds, on lines of its own, then its closing tag.
pub proof fn lemma_files_are_handed_over_in_order(
    context: ContextBundleView,
    file: LoadedContextFileView,
)
    ensures
        ({
            let before = system_prompt(context);
            let after = system_prompt(
                ContextBundleView { files: context.files.push(file), ..context },
            );
            let introduction = if context.files.len() == 0 {
                "\nProject instructions follow.\n"@
            } else {
                Seq::<char>::empty()
            };
            let ended = if file.content.len() > 0 && file.content.last() == '\n' {
                file.content
            } else {
                file.content.push('\n')
            };
            after == before + introduction + opening(file) + ended + "</agents-context>\n"@
        }),
{
    let files = context.files.push(file);
    let more = ContextBundleView { files, ..context };
    assert(files.drop_last() =~= context.files);
    assert(files.last() == file);
    lemma_section(file);
    let section = file_section(file);
    let introduction = if context.files.len() == 0 {
        "\nProject instructions follow.\n"@
    } else {
        Seq::<char>::empty()
    };
    let ended = if file.content.len() > 0 && file.content.last() == '\n' {
        file.content
    } else {
        file.content.push('\n')
    };
    assert(system_prompt(more) =~= system_prompt(context) + introduction + section) by {
        if context.files.len() == 0 {
            assert(file_sections(context.files) =~= Seq::<char>::empty());
            assert(file_sections(files) =~= section);
        } else {
            assert(file_sections(files) == file_sections(context.files) + section);
        }
    }
    let front = system_prompt(context) + introduction;
    lemma_joined(front, opening(file), ended, "</agents-context>\n"@);
}

proof fn lemma_joined(a: Seq<char>, b: Seq<char>, c: Seq<char>, d: Seq<char>)
    ensures
        a + (b + c + d) == a + b + c + d,
{
    assert(a + (b + c + d) =~= a + b + c + d);
}

/// Every file that was loaded stands in the prompt, under its own path.
pub proof fn lemma_every_file_is_handed_over(context: ContextBundleView, i: int)
    requires
        0 <= i < context.files.len(),
    ensures
        exists|at: int|
            stands_at(
                system_prompt(context),
                opening(context.files[i]) + context.files[i].content,
                at,
            ),
    decreases context.files.len(),
{
    let file = context.files.last();
    let fewer = ContextBundleView { files: context.files.drop_last(), ..context };
    lemma_files_are_handed_over_in_order(fewer, file);
    assert(fewer.files.push(file) =~= context.files);
    let prompt = system_prompt(context);
    let part = opening(context.files[i]) + context.files[i].content;
    if i < context.files.len() - 1 {
        lemma_every_file_is_handed_over(fewer, i);
        let at: int = choose|at: int| stands_at(system_prompt(fewer), part, at);
        assert(prompt.subrange(at, at + part.len()) =~= system_prompt(fewer).subrange(
            at,
            at + part.len(),
        ));
        assert(stands_at(prompt, part, at));
    } else {
        let introduction = if fewer.files.len() == 0 {
            "\nProject instructions follow.\n"@
        } else {
            Seq::<char>::empty()
        };
        let at: int = (system_prompt(fewer).len() + introduction.len()) as int;
        assert(prompt.subrange(at, at + part.len()) =~= part);
        assert(stands_at(prompt, part, at));
    }
}

/// Escaping replaces the five characters that mean something to XML, each by its entity, and keeps
/// all others.
pub proof fn lemma_escaping_goes_by_character(s: Seq<char>, c: char)
    ensures
        xml_attribute(Seq::<char>::empty()) == Seq::<char>::empty(),
        c == '&' ==> xml_attribute(s.push(c)) == xml_attribute(s) + "&amp;"@,
        c == '<' ==> xml_attribute(s.push(c)) == xml_attribute(s) + "&lt;"@,
        c == '>' ==> xml_attribute(s.push(c)) == xml_attribute(s) + "&gt;"@,
        c == '"' ==> xml_attribute(s.push(c)) == xml_attribute(s) + "&quot;"@,
        c == '\'' ==> xml_attribute(s.push(c)) == xml_attribute(s) + "&apos;"@,
        c != '&' && c != '<' && c != '>' && c != '"' && c != '\'' ==> xml_attribute(s.push(c))
            == xml_attribute(s).push(c),
{
    assert(s.push(c).drop_last() =~= s);
    assert(xml_attribute(s) + seq![c] =~= xml_attribute(s).push(c));
}

/// A candidate that can be read is a file that was not met before: a file, or a link to one, of a
/// text that is not too long.
pub open spec fn is_new_text(
    l: LoaderView,
    candidate: CandidateReadView,
    path: Seq<char>,
    bytes: Seq<u8>,
) -> bool {
    &&& candidate.canonical == PathReadView::Found(path)
    &&& !l.seen.contains(path)
    &&& candidate.content == ContentReadView::Bytes(bytes)
    &&& valid_utf8(bytes)
    &&& bytes.len() <= 131_072
    &&& l.total_bytes + bytes.len() <= 262_144
    &&& match candidate.stat {
        CandidateStatView::File(size) => size == bytes.len(),
        CandidateStatView::LinkToFile(size) => size <= bytes.len(),
        _ => false,
    }
}

/// Of the two files of a directory, the override is loaded where there is one, as an override,
/// with the path that it was found under and the text of its bytes.
pub proof fn lemma_overrides_are_loaded(
    l: LoaderView,
    directory: DirectoryReadView,
    path: Seq<char>,
    bytes: Seq<u8>,
)
    requires
        is_new_text(l, directory.override_file, path, bytes),
    ensures
        directory_loaded(l, directory) matches Ok(next) && next.files == l.files.push(
            LoadedContextFileView {
                path,
                kind: ContextFileKind::AgentsOverride,
                content: decode_utf8(bytes),
            },
        ) && next.seen == l.seen.push(path) && next.total_bytes == l.total_bytes + bytes.len(),
{
}

/// Where there is no override, the other file is loaded, as what the directory holds.
pub proof fn lemma_agents_files_are_loaded(
    l: LoaderView,
    directory: DirectoryReadView,
    path: Seq<char>,
    bytes: Seq<u8>,
)
    requires
        directory.override_file.stat is Missing,
        is_new_text(l, directory.agents_file, path, bytes),
    ensures
        directory_loaded(l, directory) matches Ok(next) && next.files == l.files.push(
            LoadedContextFileView { path, kind: directory.kind, content: decode_utf8(bytes) },
        ) && next.seen == l.seen.push(path) && next.total_bytes == l.total_bytes + bytes.len(),
{
}

/// A directory without either file adds nothing, nor does a file that was met before.
pub proof fn lemma_nothing_is_loaded_twice(l: LoaderView, directory: DirectoryReadView)
    ensures
        directory.override_file.stat is Missing && directory.agents_file.stat is Missing
            ==> directory_loaded(l, directory) == Ok::<LoaderView, ContextErrorView>(l),
        (directory.override_file.stat is File || directory.override_file.stat is LinkToFile) && (
        directory.override_file.canonical matches PathReadView::Found(path) && l.seen.contains(
            path,
        )) ==> directory_loaded(l, directory) == Ok::<LoaderView, ContextErrorView>(l),
{
}

/// Files that are too long, that are no text or that cannot be read stop the loading, each with
/// an error that says why.
pub proof fn lemma_files_that_cannot_be_loaded_are_reported(
    l: LoaderView,
    candidate: CandidateReadView,
    kind: ContextFileKind,
    path: Seq<char>,
    bytes: Seq<u8>,
    message: Seq<char>,
)
    requires
        candidate.stat matches CandidateStatView::File(size) && size == bytes.len(),
        candidate.canonical == PathReadView::Found(path),
        !l.seen.contains(path),
        0 <= l.total_bytes <= 262_144,
    ensures
        candidate.content == ContentReadView::Bytes(bytes) && bytes.len() > 131_072
            ==> candidate_loaded(l, candidate, kind) == Err::<(LoaderView, bool), ContextErrorView>(
            ContextErrorView::FileTooLarge { path, bytes: bytes.len() as u64, limit: 131_072 },
        ),
        candidate.content == ContentReadView::Bytes(bytes) && bytes.len() <= 131_072
            && l.total_bytes + bytes.len() > 262_144 ==> candidate_loaded(l, candidate, kind)
            == Err::<(LoaderView, bool), ContextErrorView>(
            ContextErrorView::TotalTooLarge {
                bytes: (l.total_bytes + bytes.len()) as usize,
                limit: 262_144,
            },
        ),
        candidate.content == ContentReadView::Bytes(bytes) && bytes.len() <= 131_072
            && l.total_bytes + bytes.len() <= 262_144 && !valid_utf8(bytes) ==> candidate_loaded(
            l,
            candidate,
            kind,
        ) == Err::<(LoaderView, bool), ContextErrorView>(
            ContextErrorView::InvalidUtf8 { path, message: utf8_error_text(bytes) },
        ),
        bytes.len() <= 131_072 && l.total_bytes + bytes.len() <= 262_144 && candidate.content
            == ContentReadView::OpenFailed(message) ==> candidate_loaded(l, candidate, kind) == Err::<
            (LoaderView, bool),
            ContextErrorView,
        >(ContextErrorView::Io { operation: "open"@, path, message }),
        bytes.len() <= 131_072 && l.total_bytes + bytes.len() <= 262_144 && candidate.content
            == ContentReadView::ReadFailed(message) ==> candidate_loaded(l, candidate, kind) == Err::<
            (LoaderView, bool),
            ContextErrorView,
        >(ContextErrorView::Io { operation: "read"@, path, message }),
{
}

/// What stands in the place of a file but is none stops the loading too.
pub proof fn lemma_what_is_no_file_is_reported(
    l: LoaderView,
    directory: DirectoryReadView,
    message: Seq<char>,
)
    ensures
        directory.override_file.stat is Other || directory.override_file.stat is LinkToOther
            ==> directory_loaded(l, directory) == Err::<LoaderView, ContextErrorView>(
            ContextErrorView::NotAFile { path: directory.override_file.path },
        ),
        directory.override_file.stat is Missing && (directory.agents_file.stat is Other
            || directory.agents_file.stat is LinkToOther) ==> directory_loaded(l, directory)
            == Err::<LoaderView, ContextErrorView>(
            ContextErrorView::NotAFile { path: directory.agents_file.path },
        ),
        directory.override_file.stat is Missing && directory.agents_file.stat
            == CandidateStatView::Unreadable(message) ==> directory_loaded(l, directory) == Err::<
            LoaderView,
            ContextErrorView,
        >(
            ContextErrorView::Io {
                operation: "inspect"@,
                path: directory.agents_file.path,
                message,
            },
        ),
        directory.override_file.stat is Missing && directory.agents_file.stat
            == CandidateStatView::BrokenLink(message) ==> directory_loaded(l, directory) == Err::<
            LoaderView,
            ContextErrorView,
        >(
            ContextErrorView::Io {
                operation: "resolve"@,
                path: directory.agents_file.path,
                message,
            },
        ),
        directory.override_file.stat is Missing && (directory.agents_file.stat is File
            || directory.agents_file.stat is LinkToFile) && directory.agents_file.canonical
            == PathReadView::Failed(message) ==> directory_loaded(l, directory) == Err::<
            LoaderView,
            ContextErrorView,
        >(
            ContextErrorView::Io {
                operation: "canonicalize"@,
                path: directory.agents_file.path,
                message,
            },
        ),
{
}

/// Directories are gone through from the first to the last: what the last one adds comes behind
/// what those before it have given, and the first starts from nothing.
pub proof fn lemma_directories_are_gone_through_in_order(
    directories: Seq<DirectoryReadView>,
    directory: DirectoryReadView,
)
    ensures
        directories_loaded(Seq::<DirectoryReadView>::empty()) matches Ok(l) && l.files.len() == 0
            && l.seen.len() == 0 && l.total_bytes == 0,
        directories_loaded(directories) matches Ok(l) ==> directories_loaded(
            directories.push(directory),
        ) == directory_loaded(l, directory),
{
    assert(directories.push(directory).drop_last() =~= directories);
}

/// The root of a project is the nearest of the directories above the launch directory that holds
/// the marker, and the launch directory itself where none does.
pub proof fn lemma_the_root_is_the_nearest_marked_directory(
    launch_cwd: Seq<char>,
    ancestors: Seq<AncestorView>,
    at: int,
)
    requires
        0 <= at <= ancestors.len(),
        forall|i: int| 0 <= i < at ==> (#[trigger] ancestors[i]).marker is Absent,
    ensures
        at == ancestors.len() ==> project_root_of(launch_cwd, ancestors) == Ok::<
            Seq<char>,
            ProjectErrorView,
        >(launch_cwd),
        at < ancestors.len() && ancestors[at].marker is Present ==> project_root_of(
            launch_cwd,
            ancestors,
        ) == Ok::<Seq<char>, ProjectErrorView>(ancestors[at].path),
        at < ancestors.len() ==> (ancestors[at].marker matches MarkerReadView::Failed(message)
            ==> project_root_of(launch_cwd, ancestors) == Err::<Seq<char>, ProjectErrorView>(
            ProjectErrorView::MarkerIo { path: ancestors[at].marker_path, message },
        )),
{
    lemma_passes_unmarked(ancestors, 0, at);
}

proof fn lemma_passes_unmarked(ancestors: Seq<AncestorView>, from: int, at: int)
    requires
        0 <= from <= at <= ancestors.len(),
        forall|i: int| from <= i < at ==> (#[trigger] ancestors[i]).marker is Absent,
    ensures
        marked(ancestors, from) == marked(ancestors, at),
    decreases at - from,
{
    if from < at {
        lemma_passes_unmarked(ancestors, from + 1, at);
    }
}

/// What is said of the context names every file that was loaded, one to a line, the newest last.
pub proof fn lemma_every_loaded_file_is_named(bundle: ContextBundleView, file: LoadedContextFileView)
    ensures
        !bundle.enabled ==> bundle_diagnostic(bundle) == "context: disabled"@,
        bundle.enabled && bundle.files.len() == 0 ==> bundle_diagnostic(bundle)
            == "context: no AGENTS files loaded"@,
        bundle.enabled ==> ("\n  "@ + file.path).is_suffix_of(
            bundle_diagnostic(ContextBundleView { files: bundle.files.push(file), ..bundle }),
        ),
        bundle.enabled && bundle.files.len() > 0 ==> bundle_diagnostic(
            ContextBundleView { files: bundle.files.push(file), ..bundle },
        ) == bundle_diagnostic(bundle) + "\n  "@ + file.path,
{
    let more = ContextBundleView { files: bundle.files.push(file), ..bundle };
    assert(more.files.drop_last() =~= bundle.files);
    let part = "\n  "@ + file.path;
    let text = bundle_diagnostic(more);
    if bundle.enabled {
        assert(text.subrange(text.len() - part.len(), text.len() as int) =~= part);
        if bundle.files.len() > 0 {
            assert(text =~= bundle_diagnostic(bundle) + "\n  "@ + file.path);
        }
    }
}

/// Instructions are for the directory that the session was launched in and the root of its project,
/// whether they are wanted or not.
pub proof fn lemma_contexts_are_for_their_directories(
    launch_cwd: Seq<char>,
    project_root: Seq<char>,
    directories: Seq<DirectoryReadView>,
)
    ensures
        no_context(launch_cwd, project_root).launch_cwd == launch_cwd,
        no_context(launch_cwd, project_root).project_root == project_root,
        no_context(launch_cwd, project_root).files.len() == 0,
        !no_context(launch_cwd, project_root).enabled,
        context_loaded(launch_cwd, project_root, directories) matches Ok(bundle) ==> {
            &&& bundle.launch_cwd == launch_cwd
            &&& bundle.project_root == project_root
            &&& bundle.enabled
            &&& directories_loaded(directories) matches Ok(loaded) && bundle.files == loaded.files
        },
        context_loaded(launch_cwd, project_root, directories) is Ok <==> directories_loaded(
            directories,
        ) is Ok,
{
}

/// A prompt names the directories that its context was loaded for.
pub proof fn lemma_prompts_are_for_their_directories(
    launch_cwd: Seq<char>,
    project_root: Seq<char>,
    directories: Seq<DirectoryReadView>,
)
    ensures
        context_loaded(launch_cwd, project_root, directories) matches Ok(bundle) ==> (exists|
            at: int,
        |
            stands_at(
                system_prompt(bundle),
                "\nTool workspace: "@ + launch_cwd + "\n"@,
                at,
            )) && (exists|at: int|
            stands_at(
                system_prompt(bundle),
                "\nProject root: "@ + project_root + "\n"@,
                at,
            )),
{
    if let Ok(bundle) = context_loaded(launch_cwd, project_root, directories) {
        lemma_the_prompt_names_the_launch_directory(bundle);
        lemma_the_prompt_names_the_project_root(bundle);
    }
}

/// A project is where the session was launched, and its root is the nearest directory with the
/// mark, or that directory itself.
pub proof fn lemma_projects_know_where_they_were_launched(
    launch_cwd: Seq<char>,
    ancestors: Seq<AncestorView>,
)
    ensures
        project_of(launch_cwd, ancestors) matches Ok(layout) ==> layout.launch_cwd == launch_cwd
            && project_root_of(launch_cwd, ancestors) == Ok::<Seq<char>, ProjectErrorView>(
            layout.project_root,
        ),
        project_of(launch_cwd, ancestors) matches Ok(layout) ==> (forall|i: int|
            0 <= i < ancestors.len() ==> (#[trigger] ancestors[i]).marker is Absent)
            ==> layout.project_root == launch_cwd,
        project_of(launch_cwd, ancestors) matches Err(error) ==> project_root_of(
            launch_cwd,
            ancestors,
        ) == Err::<Seq<char>, ProjectErrorView>(error),
{
    if forall|i: int| 0 <= i < ancestors.len() ==> (#[trigger] ancestors[i]).marker is Absent {
        lemma_the_root_is_the_nearest_marked_directory(
            launch_cwd,
            ancestors,
            ancestors.len() as int,
        );
    }
}

} // verus!
