//! The plugins that are installed.

use crate::config::paths::{home_path, join_path, joined_path, under_home};
use crate::plugin::manifest::{
    is_plugin_id, manifest_error_text, validate_plugin_id_value, LoadedPluginManifest,
    LoadedPluginManifestView, PluginManifestError, PluginManifestErrorView, INVALID_PLUGIN_ID_TEXT,
};
use crate::text::{concat, concat3, quoted, quoted_text, same_text};
use vstd::prelude::*;

verus! {

/// The name of a manifest in the directory of its plugin.
pub const PLUGIN_MANIFEST_FILENAME: &'static str = "plugin.json";

/// Why a selection of plugins cannot be used.
#[derive(Debug, PartialEq, Eq)]
pub enum InstalledPluginError {
    InvalidId { id: String, message: String },
    NotInstalled { id: String, path: String },
    InvalidManifest { id: String, path: String, source: PluginManifestError },
    IdentityMismatch { directory: String, expected: String, actual: String },
    DuplicateSelection { id: String },
}

/// What a [`InstalledPluginError`] holds.
#[verifier::ext_equal]
pub enum InstalledPluginErrorView {
    InvalidId { id: Seq<char>, message: Seq<char> },
    NotInstalled { id: Seq<char>, path: Seq<char> },
    InvalidManifest { id: Seq<char>, path: Seq<char>, source: PluginManifestErrorView },
    IdentityMismatch { directory: Seq<char>, expected: Seq<char>, actual: Seq<char> },
    DuplicateSelection { id: Seq<char> },
}

impl DeepView for InstalledPluginError {
    type V = InstalledPluginErrorView;

    open spec fn deep_view(&self) -> InstalledPluginErrorView {
        match self {
            InstalledPluginError::InvalidId { id, message } => InstalledPluginErrorView::InvalidId {
                id: id.deep_view(),
                message: message.deep_view(),
            },
            InstalledPluginError::NotInstalled { id, path } => InstalledPluginErrorView::NotInstalled {
                id: id.deep_view(),
                path: path.deep_view(),
            },
            InstalledPluginError::InvalidManifest { id, path, source } => InstalledPluginErrorView::InvalidManifest {
                id: id.deep_view(),
                path: path.deep_view(),
                source: source.deep_view(),
            },
            InstalledPluginError::IdentityMismatch { directory, expected, actual } => InstalledPluginErrorView::IdentityMismatch {
                directory: directory.deep_view(),
                expected: expected.deep_view(),
                actual: actual.deep_view(),
            },
            InstalledPluginError::DuplicateSelection { id } => InstalledPluginErrorView::DuplicateSelection {
                id: id.deep_view(),
            },
        }
    }
}

impl Clone for InstalledPluginError {
    fn clone(&self) -> (res: Self)
        ensures
            res.deep_view() == self.deep_view(),
    {
        let res = match self {
            InstalledPluginError::InvalidId { id, message } => InstalledPluginError::InvalidId {
                id: id.clone(),
                message: message.clone(),
            },
            InstalledPluginError::NotInstalled { id, path } => InstalledPluginError::NotInstalled {
                id: id.clone(),
                path: path.clone(),
            },
            InstalledPluginError::InvalidManifest { id, path, source } => InstalledPluginError::InvalidManifest {
                id: id.clone(),
                path: path.clone(),
                source: source.clone(),
            },
            InstalledPluginError::IdentityMismatch { directory, expected, actual } => InstalledPluginError::IdentityMismatch {
                directory: directory.clone(),
                expected: expected.clone(),
                actual: actual.clone(),
            },
            InstalledPluginError::DuplicateSelection { id } => InstalledPluginError::DuplicateSelection {
                id: id.clone(),
            },
        };
        assert(res.deep_view() =~~= self.deep_view());
        res
    }
}

/// The message of an error.
pub open spec fn installed_error_text(error: InstalledPluginErrorView) -> Seq<char> {
    match error {
        InstalledPluginErrorView::InvalidId { id, message } => "invalid plugin id "@ + quoted_text(
            id,
        ) + (": "@ + message),
        InstalledPluginErrorView::NotInstalled { id, path } => "plugin "@ + quoted_text(id) + (
        " is not installed; expected manifest at "@ + path),
        InstalledPluginErrorView::InvalidManifest { id, path, source } =>
        "could not load installed plugin "@ + quoted_text(id) + (" from "@ + path + (": "@
            + manifest_error_text(source))),
        InstalledPluginErrorView::IdentityMismatch { directory, expected, actual } =>
        "installed plugin directory "@ + directory + (" contains manifest id "@ + quoted_text(
            actual,
        ) + (", expected "@ + quoted_text(expected))),
        InstalledPluginErrorView::DuplicateSelection { id } => "plugin "@ + quoted_text(id)
            + " was selected more than once"@,
    }
}

impl InstalledPluginError {
    /// The message of the error.
    pub fn to_text(&self) -> (res: String)
        ensures
            res@ == installed_error_text(self.deep_view()),
    {
        match self {
            InstalledPluginError::InvalidId { id, message } => concat3(
                "invalid plugin id ",
                &quoted(id),
                &concat(": ", message),
            ),
            InstalledPluginError::NotInstalled { id, path } => concat3(
                "plugin ",
                &quoted(id),
                &concat(" is not installed; expected manifest at ", path),
            ),
            InstalledPluginError::InvalidManifest { id, path, source } => concat3(
                "could not load installed plugin ",
                &quoted(id),
                &concat3(" from ", path, &concat(": ", &source.to_text())),
            ),
            InstalledPluginError::IdentityMismatch { directory, expected, actual } => concat3(
                "installed plugin directory ",
                directory,
                &concat3(
                    " contains manifest id ",
                    &quoted(actual),
                    &concat(", expected ", &quoted(expected)),
                ),
            ),
            InstalledPluginError::DuplicateSelection { id } => concat3(
                "plugin ",
                &quoted(id),
                " was selected more than once",
            ),
        }
    }
}

/// Where the plugins of the user stand.
pub fn default_plugins_dir(home: Option<&str>, user_profile: Option<&str>) -> (res: Option<String>)
    ensures
        res.deep_view() == under_home(
            home.deep_view(),
            user_profile.deep_view(),
            ".ri/agent/plugins"@,
        ),
{
    home_path(home, user_profile, ".ri/agent/plugins")
}

/// Where the manifest of an installed plugin stands.
pub open spec fn manifest_path(root: Seq<char>, id: Seq<char>) -> Seq<char> {
    joined_path(joined_path(root, id), PLUGIN_MANIFEST_FILENAME@)
}

/// What came of reading a manifest.
#[derive(Debug, PartialEq, Eq)]
pub enum ManifestRead {
    Loaded(LoadedPluginManifest),
    Failed(PluginManifestError),
}

/// What a [`ManifestRead`] holds.
#[verifier::ext_equal]
pub enum ManifestReadView {
    Loaded(LoadedPluginManifestView),
    Failed(PluginManifestErrorView),
}

impl DeepView for ManifestRead {
    type V = ManifestReadView;

    open spec fn deep_view(&self) -> ManifestReadView {
        match self {
            ManifestRead::Loaded(loaded) => ManifestReadView::Loaded(loaded.deep_view()),
            ManifestRead::Failed(error) => ManifestReadView::Failed(error.deep_view()),
        }
    }
}

/// How far a selection of plugins is resolved.
#[derive(Debug, PartialEq, Eq)]
pub enum Resolution {
    /// The manifest at this path is needed next.
    Read(String),
    /// All are found.
    Resolved(Vec<LoadedPluginManifest>),
    /// Something is wrong with one.
    Refused(InstalledPluginError),
}

/// What a [`Resolution`] holds.
#[verifier::ext_equal]
pub enum ResolutionView {
    Read(Seq<char>),
    Resolved(Seq<LoadedPluginManifestView>),
    Refused(InstalledPluginErrorView),
}

impl DeepView for Resolution {
    type V = ResolutionView;

    open spec fn deep_view(&self) -> ResolutionView {
        match self {
            Resolution::Read(path) => ResolutionView::Read(path@),
            Resolution::Resolved(manifests) => ResolutionView::Resolved(manifests.deep_view()),
            Resolution::Refused(error) => ResolutionView::Refused(error.deep_view()),
        }
    }
}

/// The `n`th identifier was selected before.
pub open spec fn selected_before(ids: Seq<Seq<char>>, n: int) -> bool {
    exists|i: int| 0 <= i < n && #[trigger] ids[i] == ids[n]
}

/// A manifest that was read for an identifier, or what is wrong.
pub open spec fn installed(
    root: Seq<char>,
    id: Seq<char>,
    read: ManifestReadView,
) -> Result<LoadedPluginManifestView, InstalledPluginErrorView> {
    match read {
        ManifestReadView::Failed(PluginManifestErrorView::Io { not_found: true, .. }) => Err(
            InstalledPluginErrorView::NotInstalled { id, path: manifest_path(root, id) },
        ),
        ManifestReadView::Failed(source) => Err(
            InstalledPluginErrorView::InvalidManifest { id, path: manifest_path(root, id), source },
        ),
        ManifestReadView::Loaded(loaded) => if loaded.manifest.id != id {
            Err(
                InstalledPluginErrorView::IdentityMismatch {
                    directory: joined_path(root, id),
                    expected: id,
                    actual: loaded.manifest.id,
                },
            )
        } else {
            Ok(loaded)
        },
    }
}

/// How far a selection is resolved, the first `done.len()` of which are found, once these
/// manifests were read.
pub open spec fn resolved_from(
    root: Seq<char>,
    ids: Seq<Seq<char>>,
    reads: Seq<ManifestReadView>,
    done: Seq<LoadedPluginManifestView>,
) -> ResolutionView
    decreases ids.len() - done.len(),
{
    let n = done.len() as int;
    if n >= ids.len() {
        ResolutionView::Resolved(done)
    } else if !is_plugin_id(ids[n]) {
        ResolutionView::Refused(
            InstalledPluginErrorView::InvalidId { id: ids[n], message: INVALID_PLUGIN_ID_TEXT@ },
        )
    } else if selected_before(ids, n) {
        ResolutionView::Refused(InstalledPluginErrorView::DuplicateSelection { id: ids[n] })
    } else if n >= reads.len() {
        ResolutionView::Read(manifest_path(root, ids[n]))
    } else {
        match installed(root, ids[n], reads[n]) {
            Err(error) => ResolutionView::Refused(error),
            Ok(loaded) => resolved_from(root, ids, reads, done.push(loaded)),
        }
    }
}

/// The plugins of a selection that is resolved are those that were selected, in order, and none
/// twice.
pub proof fn lemma_selected_plugins_are_found(
    root: Seq<char>,
    ids: Seq<Seq<char>>,
    reads: Seq<ManifestReadView>,
)
    ensures
        resolved_from(root, ids, reads, Seq::empty()) matches ResolutionView::Resolved(found) ==> {
            &&& found.len() == ids.len()
            &&& forall|i: int|
                0 <= i < ids.len() ==> (#[trigger] found[i]).manifest.id == ids[i]
            &&& forall|i: int| 0 <= i < ids.len() ==> is_plugin_id(#[trigger] ids[i])
            &&& forall|i: int, j: int| 0 <= i < j < ids.len() ==> ids[i] != ids[j]
        },
{
    lemma_found_from(root, ids, reads, Seq::empty());
}

proof fn lemma_found_from(
    root: Seq<char>,
    ids: Seq<Seq<char>>,
    reads: Seq<ManifestReadView>,
    done: Seq<LoadedPluginManifestView>,
)
    requires
        done.len() <= ids.len(),
        forall|i: int| 0 <= i < done.len() ==> (#[trigger] done[i]).manifest.id == ids[i],
        forall|i: int| 0 <= i < done.len() ==> is_plugin_id(#[trigger] ids[i]),
        forall|i: int, j: int| 0 <= i < j < done.len() ==> ids[i] != ids[j],
    ensures
        resolved_from(root, ids, reads, done) matches ResolutionView::Resolved(found) ==> {
            &&& found.len() == ids.len()
            &&& forall|i: int|
                0 <= i < ids.len() ==> (#[trigger] found[i]).manifest.id == ids[i]
            &&& forall|i: int| 0 <= i < ids.len() ==> is_plugin_id(#[trigger] ids[i])
            &&& forall|i: int, j: int| 0 <= i < j < ids.len() ==> ids[i] != ids[j]
        },
    decreases ids.len() - done.len(),
{
    let n = done.len() as int;
    if n < ids.len() && is_plugin_id(ids[n]) && !selected_before(ids, n) && n < reads.len() {
        match installed(root, ids[n], reads[n]) {
            Err(_) => {},
            Ok(loaded) => {
                lemma_found_from(root, ids, reads, done.push(loaded));
            },
        }
    }
}

fn found_before(ids: &[String], n: usize) -> (res: bool)
    requires
        n < ids.len(),
    ensures
        res == selected_before(ids.deep_view(), n as int),
{
    let mut i: usize = 0;
    while i < n
        invariant
            i <= n < ids.len(),
            forall|j: int| 0 <= j < i ==> #[trigger] ids.deep_view()[j] != ids@[n as int]@,
        decreases n - i,
    {
        assert(ids.deep_view()[i as int] == ids@[i as int]@);
        assert(ids.deep_view()[n as int] == ids@[n as int]@);
        if same_text(&ids[i], &ids[n]) {
            return true;
        }
        i += 1;
    }
    assert(ids.deep_view()[n as int] == ids@[n as int]@);
    false
}

fn installed_manifest(root: &str, id: &str, read: &ManifestRead) -> (res: Result<
    LoadedPluginManifest,
    InstalledPluginError,
>)
    ensures
        match (res, installed(root@, id@, read.deep_view())) {
            (Ok(loaded), Ok(expected)) => loaded.deep_view() == expected,
            (Err(error), Err(expected)) => error.deep_view() == expected,
            _ => false,
        },
{
    let directory = join_path(root, id);
    let path = join_path(&directory, PLUGIN_MANIFEST_FILENAME);
    match read {
        ManifestRead::Failed(source) => {
            let not_found = match source {
                PluginManifestError::Io { not_found, .. } => *not_found,
                _ => false,
            };
            if not_found {
                Err(InstalledPluginError::NotInstalled { id: id.to_owned(), path })
            } else {
                Err(
                    InstalledPluginError::InvalidManifest {
                        id: id.to_owned(),
                        path,
                        source: source.clone(),
                    },
                )
            }
        },
        ManifestRead::Loaded(loaded) => if !same_text(&loaded.manifest.id, id) {
            Err(
                InstalledPluginError::IdentityMismatch {
                    directory,
                    expected: id.to_owned(),
                    actual: loaded.manifest.id.clone(),
                },
            )
        } else {
            Ok(loaded.clone())
        },
    }
}

/// How far a selection of plugins under `root` is resolved, once these manifests were read: which
/// manifest is needed next, or the plugins, or what is wrong.
pub fn resolve_installed_plugins(root: &str, ids: &[String], reads: &[ManifestRead]) -> (res:
    Resolution)
    ensures
        res.deep_view() == resolved_from(root@, ids.deep_view(), reads.deep_view(), Seq::empty()),
{
    let ghost names = ids.deep_view();
    let ghost given = reads.deep_view();
    let mut found: Vec<LoadedPluginManifest> = Vec::new();
    let mut n: usize = 0;
    assert(found.deep_view() =~= Seq::<LoadedPluginManifestView>::empty());
    while n < ids.len()
        invariant
            n <= ids.len(),
            n == found.len(),
            names == ids.deep_view(),
            given == reads.deep_view(),
            resolved_from(root@, names, given, Seq::empty()) == resolved_from(
                root@,
                names,
                given,
                found.deep_view(),
            ),
        decreases ids.len() - n,
    {
        assert(names[n as int] == ids@[n as int]@);
        if let Err(message) = validate_plugin_id_value(&ids[n]) {
            return Resolution::Refused(
                InstalledPluginError::InvalidId { id: ids[n].clone(), message },
            );
        }
        if found_before(ids, n) {
            return Resolution::Refused(
                InstalledPluginError::DuplicateSelection { id: ids[n].clone() },
            );
        }
        if n >= reads.len() {
            return Resolution::Read(
                join_path(&join_path(root, &ids[n]), PLUGIN_MANIFEST_FILENAME),
            );
        }
        assert(given[n as int] == reads@[n as int].deep_view());
        match installed_manifest(root, &ids[n], &reads[n]) {
            Err(error) => {
                return Resolution::Refused(error);
            },
            Ok(loaded) => {
                let ghost before = found.deep_view();
                found.push(loaded);
                assert(found.deep_view() =~= before.push(loaded.deep_view()));
            },
        }
        n += 1;
    }
    Resolution::Resolved(found)
}

} // verus!
