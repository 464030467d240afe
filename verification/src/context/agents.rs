//! Files of instructions: those of the user, and those of a project from its root down to where the
//! agent was launched.

use crate::model::sse::{read_utf8, utf8_error_text};
use crate::text::{concat, concat3, decimal, decimal_text, lemma_encode_injective, same_text};
use vstd::prelude::*;
use vstd::utf8::{decode_utf8, decode_utf8_encode_utf8, encode_utf8, valid_utf8};

verus! {

/// The most bytes of a file.
pub const MAX_CONTEXT_FILE_BYTES: usize = 131_072;

/// The most bytes of all files together.
pub const MAX_TOTAL_CONTEXT_BYTES: usize = 262_144;

/// The file that overrides the other one of its directory.
pub const OVERRIDE_FILE_NAME: &'static str = "AGENTS.override.md";

/// The file of a directory.
pub const AGENTS_FILE_NAME: &'static str = "AGENTS.md";

/// Where the files of the user stand under their home directory.
pub const GLOBAL_AGENTS_DIRECTORY: &'static str = ".ri/agent";

/// What a file of instructions is.
#[derive(Clone, Copy, Debug, PartialEq, Eq, Structural)]
pub enum ContextFileKind {
    GlobalAgents,
    Agents,
    AgentsOverride,
}

/// A file of instructions.
#[derive(Debug, PartialEq, Eq)]
pub struct LoadedContextFile {
    pub path: String,
    pub kind: ContextFileKind,
    pub content: String,
}

/// What a [`LoadedContextFile`] holds.
#[verifier::ext_equal]
pub struct LoadedContextFileView {
    pub path: Seq<char>,
    pub kind: ContextFileKind,
    pub content: Seq<char>,
}

impl DeepView for LoadedContextFile {
    type V = LoadedContextFileView;

    open spec fn deep_view(&self) -> LoadedContextFileView {
        LoadedContextFileView {
            path: self.path.deep_view(),
            kind: self.kind,
            content: self.content.deep_view(),
        }
    }
}

impl Clone for LoadedContextFile {
    fn clone(&self) -> (res: Self)
        ensures
            res.deep_view() == self.deep_view(),
    {
        let res = LoadedContextFile {
            path: self.path.clone(),
            kind: self.kind,
            content: self.content.clone(),
        };
        assert(res.deep_view() =~~= self.deep_view());
        res
    }
}

/// The instructions for a project.
#[derive(Debug, PartialEq, Eq)]
pub struct ContextBundle {
    pub launch_cwd: String,
    pub project_root: String,
    pub files: Vec<LoadedContextFile>,
    enabled: bool,
}

/// What a [`ContextBundle`] holds.
#[verifier::ext_equal]
pub struct ContextBundleView {
    pub launch_cwd: Seq<char>,
    pub project_root: Seq<char>,
    pub files: Seq<LoadedContextFileView>,
    pub enabled: bool,
}

impl DeepView for ContextBundle {
    type V = ContextBundleView;

    closed spec fn deep_view(&self) -> ContextBundleView {
        ContextBundleView {
            launch_cwd: self.launch_cwd@,
            project_root: self.project_root@,
            files: self.files.deep_view(),
            enabled: self.enabled,
        }
    }
}

impl Clone for ContextBundle {
    fn clone(&self) -> (res: Self)
        ensures
            res.deep_view() == self.deep_view(),
    {
        let res = ContextBundle {
            launch_cwd: self.launch_cwd.clone(),
            project_root: self.project_root.clone(),
            files: self.files.clone(),
            enabled: self.enabled,
        };
        assert(res.deep_view() =~~= self.deep_view());
        res
    }
}

/// Why the instructions were not taken.
#[derive(Debug, PartialEq, Eq)]
pub enum ContextError {
    /// A directory could not be found.
    Canonicalize { label: String, path: String, message: String },
    /// It is no directory.
    NotDirectory { label: String, path: String },
    /// One directory is not inside the other.
    InvalidHierarchy { launch_cwd: String, project_root: String },
    /// A file could not be read.
    Io { operation: String, path: String, message: String },
    /// It is no file.
    NotAFile { path: String },
    /// A file is too large.
    FileTooLarge { path: String, bytes: u64, limit: usize },
    /// All files together are too large.
    TotalTooLarge { bytes: usize, limit: usize },
    /// A file is no text.
    InvalidUtf8 { path: String, message: String },
}

/// What a [`ContextError`] holds.
#[verifier::ext_equal]
pub enum ContextErrorView {
    Canonicalize { label: Seq<char>, path: Seq<char>, message: Seq<char> },
    NotDirectory { label: Seq<char>, path: Seq<char> },
    InvalidHierarchy { launch_cwd: Seq<char>, project_root: Seq<char> },
    Io { operation: Seq<char>, path: Seq<char>, message: Seq<char> },
    NotAFile { path: Seq<char> },
    FileTooLarge { path: Seq<char>, bytes: u64, limit: usize },
    TotalTooLarge { bytes: usize, limit: usize },
    InvalidUtf8 { path: Seq<char>, message: Seq<char> },
}

impl DeepView for ContextError {
    type V = ContextErrorView;

    open spec fn deep_view(&self) -> ContextErrorView {
        match self {
            ContextError::Canonicalize { label, path, message } => ContextErrorView::Canonicalize {
                label: label.deep_view(),
                path: path.deep_view(),
                message: message.deep_view(),
            },
            ContextError::NotDirectory { label, path } => ContextErrorView::NotDirectory {
                label: label.deep_view(),
                path: path.deep_view(),
            },
            ContextError::InvalidHierarchy { launch_cwd, project_root } => ContextErrorView::InvalidHierarchy {
                launch_cwd: launch_cwd.deep_view(),
                project_root: project_root.deep_view(),
            },
            ContextError::Io { operation, path, message } => ContextErrorView::Io {
                operation: operation.deep_view(),
                path: path.deep_view(),
                message: message.deep_view(),
            },
            ContextError::NotAFile { path } => ContextErrorView::NotAFile {
                path: path.deep_view(),
            },
            ContextError::FileTooLarge { path, bytes, limit } => ContextErrorView::FileTooLarge {
                path: path.deep_view(),
                bytes: *bytes,
                limit: *limit,
            },
            ContextError::TotalTooLarge { bytes, limit } => ContextErrorView::TotalTooLarge {
                bytes: *bytes,
                limit: *limit,
            },
            ContextError::InvalidUtf8 { path, message } => ContextErrorView::InvalidUtf8 {
                path: path.deep_view(),
                message: message.deep_view(),
            },
        }
    }
}

impl Clone for ContextError {
    fn clone(&self) -> (res: Self)
        ensures
            res.deep_view() == self.deep_view(),
    {
        let res = match self {
            ContextError::Canonicalize { label, path, message } => ContextError::Canonicalize {
                label: label.clone(),
                path: path.clone(),
                message: message.clone(),
            },
            ContextError::NotDirectory { label, path } => ContextError::NotDirectory {
                label: label.clone(),
                path: path.clone(),
            },
            ContextError::InvalidHierarchy { launch_cwd, project_root } => ContextError::InvalidHierarchy {
                launch_cwd: launch_cwd.clone(),
                project_root: project_root.clone(),
            },
            ContextError::Io { operation, path, message } => ContextError::Io {
                operation: operation.clone(),
                path: path.clone(),
                message: message.clone(),
            },
            ContextError::NotAFile { path } => ContextError::NotAFile {
                path: path.clone(),
            },
            ContextError::FileTooLarge { path, bytes, limit } => ContextError::FileTooLarge {
                path: path.clone(),
                bytes: *bytes,
                limit: *limit,
            },
            ContextError::TotalTooLarge { bytes, limit } => ContextError::TotalTooLarge {
                bytes: *bytes,
                limit: *limit,
            },
            ContextError::InvalidUtf8 { path, message } => ContextError::InvalidUtf8 {
                path: path.clone(),
                message: message.clone(),
            },
        };
        assert(res.deep_view() =~~= self.deep_view());
        res
    }
}

/// What stands at a path.
#[derive(Debug, PartialEq, Eq)]
pub enum CandidateStat {
    /// Nothing.
    Missing,
    /// Something that could not be looked at.
    Unreadable(String),
    /// A file of this many bytes.
    File(u64),
    /// Something else.
    Other,
    /// A link to a file; the link itself has this many bytes.
    LinkToFile(u64),
    /// A link to something else.
    LinkToOther,
    /// A link that leads nowhere.
    BrokenLink(String),
}

/// What a [`CandidateStat`] holds.
#[verifier::ext_equal]
pub enum CandidateStatView {
    Missing,
    Unreadable(Seq<char>),
    File(u64),
    Other,
    LinkToFile(u64),
    LinkToOther,
    BrokenLink(Seq<char>),
}

impl DeepView for CandidateStat {
    type V = CandidateStatView;

    open spec fn deep_view(&self) -> CandidateStatView {
        match self {
            CandidateStat::Missing => CandidateStatView::Missing,
            CandidateStat::Unreadable(value) => CandidateStatView::Unreadable(value.deep_view()),
            CandidateStat::File(value) => CandidateStatView::File(*value),
            CandidateStat::Other => CandidateStatView::Other,
            CandidateStat::LinkToFile(value) => CandidateStatView::LinkToFile(*value),
            CandidateStat::LinkToOther => CandidateStatView::LinkToOther,
            CandidateStat::BrokenLink(value) => CandidateStatView::BrokenLink(value.deep_view()),
        }
    }
}

/// The canonical path of a file, or why there is none.
#[derive(Debug, PartialEq, Eq)]
pub enum PathRead {
    Found(String),
    Failed(String),
}

/// What a [`PathRead`] holds.
#[verifier::ext_equal]
pub enum PathReadView {
    Found(Seq<char>),
    Failed(Seq<char>),
}

impl DeepView for PathRead {
    type V = PathReadView;

    open spec fn deep_view(&self) -> PathReadView {
        match self {
            PathRead::Found(value) => PathReadView::Found(value.deep_view()),
            PathRead::Failed(value) => PathReadView::Failed(value.deep_view()),
        }
    }
}

/// What was read of a file, one byte beyond the limit at most.
#[derive(Debug, PartialEq, Eq)]
pub enum ContentRead {
    Bytes(Vec<u8>),
    OpenFailed(String),
    ReadFailed(String),
}

/// What a [`ContentRead`] holds.
#[verifier::ext_equal]
pub enum ContentReadView {
    Bytes(Seq<u8>),
    OpenFailed(Seq<char>),
    ReadFailed(Seq<char>),
}

impl DeepView for ContentRead {
    type V = ContentReadView;

    open spec fn deep_view(&self) -> ContentReadView {
        match self {
            ContentRead::Bytes(bytes) => ContentReadView::Bytes(bytes@),
            ContentRead::OpenFailed(message) => ContentReadView::OpenFailed(message@),
            ContentRead::ReadFailed(message) => ContentReadView::ReadFailed(message@),
        }
    }
}

/// What was found where a file of instructions may stand.
#[derive(Debug, PartialEq, Eq)]
pub struct CandidateRead {
    pub path: String,
    pub stat: CandidateStat,
    pub canonical: PathRead,
    pub content: ContentRead,
}

/// What a [`CandidateRead`] holds.
#[verifier::ext_equal]
pub struct CandidateReadView {
    pub path: Seq<char>,
    pub stat: CandidateStatView,
    pub canonical: PathReadView,
    pub content: ContentReadView,
}

impl DeepView for CandidateRead {
    type V = CandidateReadView;

    open spec fn deep_view(&self) -> CandidateReadView {
        CandidateReadView {
            path: self.path.deep_view(),
            stat: self.stat.deep_view(),
            canonical: self.canonical.deep_view(),
            content: self.content.deep_view(),
        }
    }
}

/// What was found in a directory: the file that overrides the other, and the other.
#[derive(Debug, PartialEq, Eq)]
pub struct DirectoryRead {
    pub kind: ContextFileKind,
    pub override_file: CandidateRead,
    pub agents_file: CandidateRead,
}

/// What a [`DirectoryRead`] holds.
#[verifier::ext_equal]
pub struct DirectoryReadView {
    pub kind: ContextFileKind,
    pub override_file: CandidateReadView,
    pub agents_file: CandidateReadView,
}

impl DeepView for DirectoryRead {
    type V = DirectoryReadView;

    open spec fn deep_view(&self) -> DirectoryReadView {
        DirectoryReadView {
            kind: self.kind,
            override_file: self.override_file.deep_view(),
            agents_file: self.agents_file.deep_view(),
        }
    }
}

/// The message of an error.
pub open spec fn context_error_text(error: ContextErrorView) -> Seq<char> {
    match error {
        ContextErrorView::Canonicalize { label, path, message } => "could not canonicalize "@
            + label + (" "@ + path + (": "@ + message)),
        ContextErrorView::NotDirectory { label, path } => label + " is not a directory: "@ + path,
        ContextErrorView::InvalidHierarchy { launch_cwd, project_root } => "project root "@
            + project_root + (" is not an ancestor of launch cwd "@ + launch_cwd),
        ContextErrorView::Io { operation, path, message } => "could not "@ + operation + (
        " context file "@ + path + (": "@ + message)),
        ContextErrorView::NotAFile { path } => "context file "@ + path
            + " is not a regular file"@,
        ContextErrorView::FileTooLarge { path, bytes, limit } => "context file "@ + path + (" is "@
            + decimal_text(bytes as nat) + (" bytes; maximum is "@ + decimal_text(limit as nat)
            + " bytes; reduce the file or run with --no-context"@)),
        ContextErrorView::TotalTooLarge { bytes, limit } => "AGENTS context exceeds "@
            + decimal_text(limit as nat) + (" bytes total ("@ + decimal_text(bytes as nat)
            + " bytes); reduce the instruction files or run with --no-context"@),
        ContextErrorView::InvalidUtf8 { path, message } => "context file "@ + path + (
        " is not valid UTF-8: "@ + message),
    }
}

impl ContextError {
    /// The message of the error.
    pub fn to_text(&self) -> (res: String)
        ensures
            res@ == context_error_text(self.deep_view()),
    {
        match self {
            ContextError::Canonicalize { label, path, message } => concat3(
                "could not canonicalize ",
                label,
                &concat3(" ", path, &concat(": ", message)),
            ),
            ContextError::NotDirectory { label, path } => concat3(
                label,
                " is not a directory: ",
                path,
            ),
            ContextError::InvalidHierarchy { launch_cwd, project_root } => concat3(
                "project root ",
                project_root,
                &concat(" is not an ancestor of launch cwd ", launch_cwd),
            ),
            ContextError::Io { operation, path, message } => concat3(
                "could not ",
                operation,
                &concat3(" context file ", path, &concat(": ", message)),
            ),
            ContextError::NotAFile { path } => concat3(
                "context file ",
                path,
                " is not a regular file",
            ),
            ContextError::FileTooLarge { path, bytes, limit } => concat3(
                "context file ",
                path,
                &concat3(
                    " is ",
                    &decimal(*bytes),
                    &concat3(
                        " bytes; maximum is ",
                        &decimal(*limit as u64),
                        " bytes; reduce the file or run with --no-context",
                    ),
                ),
            ),
            ContextError::TotalTooLarge { bytes, limit } => concat3(
                "AGENTS context exceeds ",
                &decimal(*limit as u64),
                &concat3(
                    " bytes total (",
                    &decimal(*bytes as u64),
                    " bytes); reduce the instruction files or run with --no-context",
                ),
            ),
            ContextError::InvalidUtf8 { path, message } => concat3(
                "context file ",
                path,
                &concat(" is not valid UTF-8: ", message),
            ),
        }
    }
}

/// No instructions, because none are wanted.
pub open spec fn no_context(launch_cwd: Seq<char>, project_root: Seq<char>) -> ContextBundleView {
    ContextBundleView { launch_cwd, project_root, files: Seq::empty(), enabled: false }
}

impl ContextBundle {
    /// No instructions, because none are wanted.
    pub fn disabled(launch_cwd: String, project_root: String) -> (res: Self)
        ensures
            res.deep_view() == (ContextBundleView {
                launch_cwd: launch_cwd@,
                project_root: project_root@,
                files: Seq::empty(),
                enabled: false,
            }),
            res.deep_view() == no_context(launch_cwd@, project_root@),
    {
        let res = ContextBundle { launch_cwd, project_root, files: Vec::new(), enabled: false };
        assert(res.files.deep_view() =~= Seq::<LoadedContextFileView>::empty());
        res
    }

    /// Whether instructions are wanted.
    pub fn is_enabled(&self) -> (res: bool)
        ensures
            res == self.deep_view().enabled,
    {
        self.enabled
    }

    /// What was loaded, in a few lines.
    pub fn diagnostic(&self) -> (res: String)
        ensures
            res@ == bundle_diagnostic(self.deep_view()),
    {
        if !self.enabled {
            return "context: disabled".to_owned();
        }
        if self.files.len() == 0 {
            return "context: no AGENTS files loaded".to_owned();
        }
        let ghost all = self.files.deep_view();
        let mut text = "context:".to_owned();
        let mut i: usize = 0;
        assert(all.take(0) =~= Seq::<LoadedContextFileView>::empty());
        assert(text@ + path_lines(all.take(0)) =~= text@);
        while i < self.files.len()
            invariant
                i <= self.files.len(),
                all == self.files.deep_view(),
                text@ == "context:"@ + path_lines(all.take(i as int)),
            decreases self.files.len() - i,
        {
            proof {
                assert(all.take(i + 1).drop_last() =~= all.take(i as int));
                assert(all.take(i + 1).last() == self.files@[i as int].deep_view());
            }
            text = concat3(&text, "\n  ", &self.files[i].path);
            assert(text@ =~= "context:"@ + path_lines(all.take(i + 1)));
            i += 1;
        }
        assert(all.take(i as int) =~= all);
        text
    }

    /// The files and what they say, in order.
    pub fn files(&self) -> (res: &Vec<LoadedContextFile>)
        ensures
            res.deep_view() == self.deep_view().files,
    {
        &self.files
    }

    /// Where the agent was launched.
    pub fn launch_cwd(&self) -> (res: &String)
        ensures
            res@ == self.deep_view().launch_cwd,
    {
        &self.launch_cwd
    }

    /// The root of the project.
    pub fn project_root(&self) -> (res: &String)
        ensures
            res@ == self.deep_view().project_root,
    {
        &self.project_root
    }
}

/// The paths of files, each on a line of its own.
pub open spec fn path_lines(files: Seq<LoadedContextFileView>) -> Seq<char>
    decreases files.len(),
{
    if files.len() == 0 {
        Seq::empty()
    } else {
        path_lines(files.drop_last()) + ("\n  "@ + files.last().path)
    }
}

/// What was loaded, in a few lines.
pub open spec fn bundle_diagnostic(bundle: ContextBundleView) -> Seq<char> {
    if !bundle.enabled {
        "context: disabled"@
    } else if bundle.files.len() == 0 {
        "context: no AGENTS files loaded"@
    } else {
        "context:"@ + path_lines(bundle.files)
    }
}

// ---- loading ----

/// What was loaded so far: the files, the canonical paths that were met, and the bytes in all.
#[verifier::ext_equal]
pub struct LoaderView {
    pub files: Seq<LoadedContextFileView>,
    pub seen: Seq<Seq<char>>,
    pub total_bytes: int,
}

struct ContextLoader {
    files: Vec<LoadedContextFile>,
    seen_paths: Vec<String>,
    total_bytes: usize,
}

impl DeepView for ContextLoader {
    type V = LoaderView;

    closed spec fn deep_view(&self) -> LoaderView {
        LoaderView {
            files: self.files.deep_view(),
            seen: self.seen_paths.deep_view(),
            total_bytes: self.total_bytes as int,
        }
    }
}

/// The size of what stands at a path, where it is a file; nothing where nothing stands there.
pub open spec fn stat_bytes(candidate: CandidateReadView) -> Result<
    Option<u64>,
    ContextErrorView,
> {
    let path = candidate.path;
    match candidate.stat {
        CandidateStatView::Missing => Ok(None),
        CandidateStatView::File(bytes) => Ok(Some(bytes)),
        CandidateStatView::LinkToFile(bytes) => Ok(Some(bytes)),
        CandidateStatView::Other => Err(ContextErrorView::NotAFile { path }),
        CandidateStatView::LinkToOther => Err(ContextErrorView::NotAFile { path }),
        CandidateStatView::Unreadable(message) => Err(
            ContextErrorView::Io { operation: "inspect"@, path, message },
        ),
        CandidateStatView::BrokenLink(message) => Err(
            ContextErrorView::Io { operation: "resolve"@, path, message },
        ),
    }
}

/// A number of bytes is too many for a file, or for all together.
pub open spec fn size_error(path: Seq<char>, bytes: u64, total: int) -> Option<ContextErrorView> {
    if bytes > MAX_CONTEXT_FILE_BYTES {
        Some(ContextErrorView::FileTooLarge { path, bytes, limit: MAX_CONTEXT_FILE_BYTES })
    } else if total + bytes > MAX_TOTAL_CONTEXT_BYTES {
        Some(
            ContextErrorView::TotalTooLarge {
                bytes: (total + bytes) as usize,
                limit: MAX_TOTAL_CONTEXT_BYTES,
            },
        )
    } else {
        None
    }
}

/// The bytes of a file, or why there are none.
pub open spec fn content_bytes(path: Seq<char>, content: ContentReadView) -> Result<
    Seq<u8>,
    ContextErrorView,
> {
    match content {
        ContentReadView::Bytes(bytes) => Ok(bytes),
        ContentReadView::OpenFailed(message) => Err(
            ContextErrorView::Io { operation: "open"@, path, message },
        ),
        ContentReadView::ReadFailed(message) => Err(
            ContextErrorView::Io { operation: "read"@, path, message },
        ),
    }
}

/// What is loaded with a file that was met for the first time.
pub open spec fn file_added(
    l: LoaderView,
    path: Seq<char>,
    kind: ContextFileKind,
    bytes: Seq<u8>,
) -> Result<LoaderView, ContextErrorView> {
    match size_error(path, bytes.len() as u64, l.total_bytes) {
        Some(error) => Err(error),
        None => if valid_utf8(bytes) {
            Ok(
                LoaderView {
                    files: l.files.push(
                        LoadedContextFileView { path, kind, content: decode_utf8(bytes) },
                    ),
                    total_bytes: l.total_bytes + bytes.len(),
                    ..l
                },
            )
        } else {
            Err(ContextErrorView::InvalidUtf8 { path, message: utf8_error_text(bytes) })
        },
    }
}

/// A file is loaded, unless it is not there or was met before; and whether it is there.
pub open spec fn candidate_loaded(
    l: LoaderView,
    candidate: CandidateReadView,
    kind: ContextFileKind,
) -> Result<(LoaderView, bool), ContextErrorView> {
    match stat_bytes(candidate) {
        Err(error) => Err(error),
        Ok(None) => Ok((l, false)),
        Ok(Some(bytes)) => match candidate.canonical {
            PathReadView::Failed(message) => Err(
                ContextErrorView::Io { operation: "canonicalize"@, path: candidate.path, message },
            ),
            PathReadView::Found(path) => if l.seen.contains(path) {
                Ok((l, true))
            } else {
                match size_error(path, bytes, l.total_bytes) {
                    Some(error) => Err(error),
                    None => match content_bytes(path, candidate.content) {
                        Err(error) => Err(error),
                        Ok(content) => {
                            let met = LoaderView { seen: l.seen.push(path), ..l };
                            match file_added(met, path, kind, content) {
                                Err(error) => Err(error),
                                Ok(next) => Ok((next, true)),
                            }
                        },
                    },
                }
            },
        },
    }
}

/// The file of a directory is loaded: the one that overrides the other, else the other.
pub open spec fn directory_loaded(l: LoaderView, directory: DirectoryReadView) -> Result<
    LoaderView,
    ContextErrorView,
> {
    match candidate_loaded(l, directory.override_file, ContextFileKind::AgentsOverride) {
        Err(error) => Err(error),
        Ok((next, true)) => Ok(next),
        Ok((next, false)) => match candidate_loaded(next, directory.agents_file, directory.kind) {
            Err(error) => Err(error),
            Ok((last, _)) => Ok(last),
        },
    }
}

/// Nothing is loaded.
pub open spec fn nothing_loaded() -> LoaderView {
    LoaderView { files: Seq::empty(), seen: Seq::empty(), total_bytes: 0 }
}

/// The files of all directories are loaded, in order.
pub open spec fn directories_loaded(directories: Seq<DirectoryReadView>) -> Result<
    LoaderView,
    ContextErrorView,
>
    decreases directories.len(),
{
    if directories.len() == 0 {
        Ok(nothing_loaded())
    } else {
        match directories_loaded(directories.drop_last()) {
            Err(error) => Err(error),
            Ok(l) => directory_loaded(l, directories.last()),
        }
    }
}

/// How many bytes the files have in all.
pub open spec fn content_total(files: Seq<LoadedContextFileView>) -> int
    decreases files.len(),
{
    if files.len() == 0 {
        0
    } else {
        content_total(files.drop_last()) + encode_utf8(files.last().content).len()
    }
}

/// What was loaded is within the limits, and holds no file twice.
pub open spec fn loader_fits(l: LoaderView) -> bool {
    &&& l.total_bytes == content_total(l.files)
    &&& 0 <= l.total_bytes <= MAX_TOTAL_CONTEXT_BYTES
    &&& forall|i: int|
        0 <= i < l.files.len() ==> encode_utf8((#[trigger] l.files[i]).content).len()
            <= MAX_CONTEXT_FILE_BYTES
    &&& forall|i: int| 0 <= i < l.files.len() ==> l.seen.contains((#[trigger] l.files[i]).path)
    &&& forall|i: int, j: int|
        0 <= i < j < l.files.len() ==> (#[trigger] l.files[i]).path != (
        #[trigger] l.files[j]).path
}

proof fn lemma_candidate_fits(l: LoaderView, candidate: CandidateReadView, kind: ContextFileKind)
    requires
        loader_fits(l),
        candidate.content matches ContentReadView::Bytes(bytes) ==> bytes.len() <= usize::MAX,
    ensures
        candidate_loaded(l, candidate, kind) matches Ok((next, _)) ==> loader_fits(next),
{
    if let Ok((next, _)) = candidate_loaded(l, candidate, kind) {
        if next != l {
            let path = candidate.canonical->Found_0;
            let bytes = candidate.content->Bytes_0;
            let file = LoadedContextFileView { path, kind, content: decode_utf8(bytes) };
            decode_utf8_encode_utf8(bytes);
            assert(next.files == l.files.push(file));
            assert(next.files.drop_last() =~= l.files);
            assert(next.seen == l.seen.push(path));
            assert(next.seen[l.seen.len() as int] == path);
            assert forall|i: int| 0 <= i < next.files.len() implies next.seen.contains(
                (#[trigger] next.files[i]).path,
            ) by {
                if i < l.files.len() {
                    let known = l.files[i].path;
                    assert(l.seen.contains(known));
                    let k = choose|k: int| 0 <= k < l.seen.len() && l.seen[k] == known;
                    assert(next.seen[k] == known);
                }
            }
        }
    }
}

/// Whatever stands on disk, what is loaded stays within the limits, and no file is loaded twice.
pub proof fn lemma_context_stays_within_limits(directories: Seq<DirectoryReadView>)
    requires
        forall|i: int|
            0 <= i < directories.len() ==> reads_fit((#[trigger] directories[i]).override_file)
                && reads_fit(directories[i].agents_file),
    ensures
        directories_loaded(directories) matches Ok(l) ==> loader_fits(l),
    decreases directories.len(),
{
    if directories.len() > 0 {
        let before = directories.drop_last();
        assert forall|i: int| 0 <= i < before.len() implies reads_fit(
            (#[trigger] before[i]).override_file,
        ) && reads_fit(before[i].agents_file) by {
            assert(before[i] == directories[i]);
        }
        lemma_context_stays_within_limits(before);
        if let Ok(l) = directories_loaded(before) {
            let last = directories[directories.len() - 1];
            lemma_candidate_fits(l, last.override_file, ContextFileKind::AgentsOverride);
            lemma_candidate_fits(l, last.agents_file, last.kind);
            assert(directories_loaded(directories) == directory_loaded(l, last));
        }
    }
}

/// A file that overrides the other of its directory replaces it: once anything stands in its
/// place, what is loaded of the directory does not depend on the other file.
pub proof fn lemma_override_replaces_the_other_file(
    l: LoaderView,
    directory: DirectoryReadView,
    other: CandidateReadView,
)
    requires
        !(directory.override_file.stat is Missing),
    ensures
        directory_loaded(l, directory) == directory_loaded(
            l,
            DirectoryReadView { agents_file: other, ..directory },
        ),
{
}

/// The files stand in the order of their directories: a further directory adds at most one file,
/// behind those that there are.
pub proof fn lemma_files_stand_in_the_order_of_directories(
    directories: Seq<DirectoryReadView>,
    directory: DirectoryReadView,
)
    ensures
        match (directories_loaded(directories), directories_loaded(directories.push(directory))) {
            (Ok(before), Ok(after)) => after.files == before.files || (after.files.len()
                == before.files.len() + 1 && after.files.drop_last() == before.files),
            (Err(error), after) => after == Err::<LoaderView, ContextErrorView>(error),
            (Ok(_), Err(_)) => true,
        },
{
    assert(directories.push(directory).drop_last() =~= directories);
    if let Ok(before) = directories_loaded(directories) {
        if let Ok(after) = directory_loaded(before, directory) {
            if after.files != before.files {
                assert(after.files.drop_last() =~= before.files);
            }
        }
    }
}

/// What was read of a file fits in memory.
pub open spec fn reads_fit(candidate: CandidateReadView) -> bool {
    candidate.content matches ContentReadView::Bytes(bytes) ==> bytes.len() <= usize::MAX
}

fn file_size_error(path: &str, bytes: u64, total: usize) -> (res: Option<ContextError>)
    requires
        total <= MAX_TOTAL_CONTEXT_BYTES,
    ensures
        res.deep_view() == size_error(path@, bytes, total as int),
{
    if bytes > MAX_CONTEXT_FILE_BYTES as u64 {
        return Some(
            ContextError::FileTooLarge {
                path: path.to_owned(),
                bytes,
                limit: MAX_CONTEXT_FILE_BYTES,
            },
        );
    }
    let with_file: usize = total + bytes as usize;
    if with_file > MAX_TOTAL_CONTEXT_BYTES {
        return Some(
            ContextError::TotalTooLarge { bytes: with_file, limit: MAX_TOTAL_CONTEXT_BYTES },
        );
    }
    None
}

fn candidate_bytes(candidate: &CandidateRead) -> (res: Result<Option<u64>, ContextError>)
    ensures
        match (res, stat_bytes(candidate.deep_view())) {
            (Ok(bytes), Ok(expected)) => bytes == expected,
            (Err(error), Err(expected)) => error.deep_view() == expected,
            _ => false,
        },
{
    match &candidate.stat {
        CandidateStat::Missing => Ok(None),
        CandidateStat::File(bytes) => Ok(Some(*bytes)),
        CandidateStat::LinkToFile(bytes) => Ok(Some(*bytes)),
        CandidateStat::Other => Err(ContextError::NotAFile { path: candidate.path.clone() }),
        CandidateStat::LinkToOther => Err(ContextError::NotAFile { path: candidate.path.clone() }),
        CandidateStat::Unreadable(message) => Err(
            ContextError::Io {
                operation: "inspect".to_owned(),
                path: candidate.path.clone(),
                message: message.clone(),
            },
        ),
        CandidateStat::BrokenLink(message) => Err(
            ContextError::Io {
                operation: "resolve".to_owned(),
                path: candidate.path.clone(),
                message: message.clone(),
            },
        ),
    }
}

impl ContextLoader {
    fn has_seen(&self, path: &str) -> (res: bool)
        ensures
            res == self.deep_view().seen.contains(path@),
    {
        let ghost all = self.seen_paths.deep_view();
        let mut i: usize = 0;
        while i < self.seen_paths.len()
            invariant
                i <= self.seen_paths.len(),
                all == self.seen_paths.deep_view(),
                forall|j: int| 0 <= j < i ==> all[j] != path@,
            decreases self.seen_paths.len() - i,
        {
            assert(all[i as int] == self.seen_paths@[i as int]@);
            if same_text(&self.seen_paths[i], path) {
                return true;
            }
            i += 1;
        }
        false
    }

    fn add_file(&mut self, path: &str, kind: ContextFileKind, bytes: &Vec<u8>) -> (res: Result<
        (),
        ContextError,
    >)
        requires
            old(self).deep_view().total_bytes <= MAX_TOTAL_CONTEXT_BYTES,
        ensures
            match (res, file_added(old(self).deep_view(), path@, kind, bytes@)) {
                (Ok(_), Ok(expected)) => {
                    &&& final(self).deep_view() == expected
                    &&& final(self).deep_view().total_bytes <= MAX_TOTAL_CONTEXT_BYTES
                },
                (Err(error), Err(expected)) => error.deep_view() == expected,
                _ => false,
            },
    {
        if let Some(error) = file_size_error(path, bytes.len() as u64, self.total_bytes) {
            return Err(error);
        }
        match read_utf8(bytes.as_slice()) {
            Ok(text) => {
                proof {
                    decode_utf8_encode_utf8(bytes@);
                    lemma_encode_injective(text@, decode_utf8(bytes@));
                }
                let ghost before = self.files.deep_view();
                let file = LoadedContextFile {
                    path: path.to_owned(),
                    kind,
                    content: text.to_owned(),
                };
                self.total_bytes = self.total_bytes + bytes.len();
                self.files.push(file);
                assert(self.files.deep_view() =~= before.push(file.deep_view()));
                Ok(())
            },
            Err(message) => Err(ContextError::InvalidUtf8 { path: path.to_owned(), message }),
        }
    }

    fn load_candidate(&mut self, candidate: &CandidateRead, kind: ContextFileKind) -> (res: Result<
        bool,
        ContextError,
    >)
        requires
            old(self).deep_view().total_bytes <= MAX_TOTAL_CONTEXT_BYTES,
        ensures
            match (res, candidate_loaded(old(self).deep_view(), candidate.deep_view(), kind)) {
                (Ok(found), Ok((next, expected))) => {
                    &&& final(self).deep_view() == next
                    &&& found == expected
                    &&& final(self).deep_view().total_bytes <= MAX_TOTAL_CONTEXT_BYTES
                },
                (Err(error), Err(expected)) => error.deep_view() == expected,
                _ => false,
            },
    {
        let bytes = match candidate_bytes(candidate) {
            Ok(Some(bytes)) => bytes,
            Ok(None) => {
                return Ok(false);
            },
            Err(error) => {
                return Err(error);
            },
        };
        let path = match &candidate.canonical {
            PathRead::Found(path) => path,
            PathRead::Failed(message) => {
                return Err(
                    ContextError::Io {
                        operation: "canonicalize".to_owned(),
                        path: candidate.path.clone(),
                        message: message.clone(),
                    },
                );
            },
        };
        if self.has_seen(path) {
            return Ok(true);
        }
        if let Some(error) = file_size_error(path, bytes, self.total_bytes) {
            return Err(error);
        }
        let content = match &candidate.content {
            ContentRead::Bytes(content) => content,
            ContentRead::OpenFailed(message) => {
                return Err(
                    ContextError::Io {
                        operation: "open".to_owned(),
                        path: path.clone(),
                        message: message.clone(),
                    },
                );
            },
            ContentRead::ReadFailed(message) => {
                return Err(
                    ContextError::Io {
                        operation: "read".to_owned(),
                        path: path.clone(),
                        message: message.clone(),
                    },
                );
            },
        };
        let ghost before = self.seen_paths.deep_view();
        self.seen_paths.push(path.clone());
        assert(self.seen_paths.deep_view() =~= before.push(path@));
        match self.add_file(path, kind, content) {
            Ok(_) => Ok(true),
            Err(error) => Err(error),
        }
    }

    fn load_directory(&mut self, directory: &DirectoryRead) -> (res: Result<(), ContextError>)
        requires
            old(self).deep_view().total_bytes <= MAX_TOTAL_CONTEXT_BYTES,
        ensures
            match (res, directory_loaded(old(self).deep_view(), directory.deep_view())) {
                (Ok(_), Ok(next)) => {
                    &&& final(self).deep_view() == next
                    &&& final(self).deep_view().total_bytes <= MAX_TOTAL_CONTEXT_BYTES
                },
                (Err(error), Err(expected)) => error.deep_view() == expected,
                _ => false,
            },
    {
        match self.load_candidate(&directory.override_file, ContextFileKind::AgentsOverride) {
            Err(error) => Err(error),
            Ok(true) => Ok(()),
            Ok(false) => match self.load_candidate(&directory.agents_file, directory.kind) {
                Err(error) => Err(error),
                Ok(_) => Ok(()),
            },
        }
    }
}

proof fn lemma_loading_error_stays(directories: Seq<DirectoryReadView>, n: int)
    requires
        0 <= n <= directories.len(),
        directories_loaded(directories.take(n)) is Err,
    ensures
        directories_loaded(directories) == directories_loaded(directories.take(n)),
    decreases directories.len(),
{
    if n == directories.len() {
        assert(directories.take(n) =~= directories);
    } else {
        assert(directories.drop_last().take(n) =~= directories.take(n));
        lemma_loading_error_stays(directories.drop_last(), n);
    }
}

/// The instructions for a project, from what was found in its directories.
pub open spec fn context_loaded(
    launch_cwd: Seq<char>,
    project_root: Seq<char>,
    directories: Seq<DirectoryReadView>,
) -> Result<ContextBundleView, ContextErrorView> {
    match directories_loaded(directories) {
        Ok(loaded) => Ok(
            ContextBundleView { launch_cwd, project_root, files: loaded.files, enabled: true },
        ),
        Err(error) => Err(error),
    }
}

/// The instructions for a project, from what was found in its directories: that of the user, then
/// those from the root of the project down to where the agent was launched.
pub fn load_context(
    launch_cwd: &str,
    project_root: &str,
    directories: &Vec<DirectoryRead>,
) -> (res: Result<ContextBundle, ContextError>)
    ensures
        match (res, directories_loaded(directories.deep_view())) {
            (Ok(bundle), Ok(loaded)) => bundle.deep_view() == (ContextBundleView {
                launch_cwd: launch_cwd@,
                project_root: project_root@,
                files: loaded.files,
                enabled: true,
            }),
            (Err(error), Err(expected)) => error.deep_view() == expected,
            _ => false,
        },
        match (res, context_loaded(launch_cwd@, project_root@, directories.deep_view())) {
            (Ok(bundle), Ok(expected)) => bundle.deep_view() == expected,
            (Err(error), Err(expected)) => error.deep_view() == expected,
            _ => false,
        },
{
    let ghost all = directories.deep_view();
    let mut loader = ContextLoader { files: Vec::new(), seen_paths: Vec::new(), total_bytes: 0 };
    let mut i: usize = 0;
    proof {
        assert(all.take(0) =~= Seq::<DirectoryReadView>::empty());
        assert(loader.deep_view() =~~= nothing_loaded());
    }
    while i < directories.len()
        invariant
            i <= directories.len(),
            all == directories.deep_view(),
            directories_loaded(all.take(i as int)) == Ok::<LoaderView, ContextErrorView>(
                loader.deep_view(),
            ),
            loader.deep_view().total_bytes <= MAX_TOTAL_CONTEXT_BYTES,
        decreases directories.len() - i,
    {
        proof {
            assert(all.take(i + 1).drop_last() =~= all.take(i as int));
            assert(all.take(i + 1).last() == directories@[i as int].deep_view());
        }
        match loader.load_directory(&directories[i]) {
            Ok(_) => {},
            Err(error) => {
                proof {
                    lemma_loading_error_stays(all, i + 1);
                }
                return Err(error);
            },
        }
        i += 1;
    }
    assert(all.take(i as int) =~= all);
    Ok(
        ContextBundle {
            launch_cwd: launch_cwd.to_owned(),
            project_root: project_root.to_owned(),
            files: loader.files,
            enabled: true,
        },
    )
}

/// How many components of a path lead to each directory from the root of a project down to where
/// the agent was launched; nothing where it was launched elsewhere.
pub fn project_directories(launch_cwd: &Vec<String>, project_root: &Vec<String>) -> (res: Option<
    Vec<usize>,
>)
    ensures
        match res {
            Some(lengths) => {
                &&& project_root.deep_view().is_prefix_of(launch_cwd.deep_view())
                &&& lengths@.len() == launch_cwd.len() - project_root.len() + 1
                &&& forall|i: int|
                    0 <= i < lengths@.len() ==> (#[trigger] lengths@[i]) == project_root.len() + i
            },
            None => !project_root.deep_view().is_prefix_of(launch_cwd.deep_view()),
        },
{
    let ghost cwd = launch_cwd.deep_view();
    let ghost root = project_root.deep_view();
    if project_root.len() > launch_cwd.len() {
        return None;
    }
    let mut i: usize = 0;
    while i < project_root.len()
        invariant
            i <= project_root.len() <= launch_cwd.len(),
            cwd == launch_cwd.deep_view(),
            root == project_root.deep_view(),
            forall|j: int| 0 <= j < i ==> root[j] == cwd[j],
        decreases project_root.len() - i,
    {
        assert(root[i as int] == project_root@[i as int]@);
        assert(cwd[i as int] == launch_cwd@[i as int]@);
        if !same_text(&project_root[i], &launch_cwd[i]) {
            assert(cwd.subrange(0, root.len() as int)[i as int] == cwd[i as int]);
            return None;
        }
        i += 1;
    }
    assert(root =~= cwd.subrange(0, root.len() as int));
    let mut lengths: Vec<usize> = Vec::new();
    let mut length: usize = project_root.len();
    while length < launch_cwd.len()
        invariant
            project_root.len() <= length <= launch_cwd.len(),
            lengths@.len() == length - project_root.len(),
            forall|k: int|
                0 <= k < lengths@.len() ==> (#[trigger] lengths@[k]) == project_root.len() + k,
        decreases launch_cwd.len() - length,
    {
        lengths.push(length);
        length += 1;
    }
    lengths.push(length);
    Some(lengths)
}

} // verus!
