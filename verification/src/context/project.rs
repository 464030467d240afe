//! Projects: the nearest directory upwards that is under version control.

use crate::text::{concat, concat3};
use vstd::prelude::*;

verus! {

/// Where a project is.
#[derive(Debug, PartialEq, Eq)]
pub struct ProjectLayout {
    pub launch_cwd: String,
    pub project_root: String,
}

/// What a [`ProjectLayout`] holds.
#[verifier::ext_equal]
pub struct ProjectLayoutView {
    pub launch_cwd: Seq<char>,
    pub project_root: Seq<char>,
}

impl DeepView for ProjectLayout {
    type V = ProjectLayoutView;

    open spec fn deep_view(&self) -> ProjectLayoutView {
        ProjectLayoutView {
            launch_cwd: self.launch_cwd.deep_view(),
            project_root: self.project_root.deep_view(),
        }
    }
}

impl Clone for ProjectLayout {
    fn clone(&self) -> (res: Self)
        ensures
            res.deep_view() == self.deep_view(),
    {
        let res = ProjectLayout {
            launch_cwd: self.launch_cwd.clone(),
            project_root: self.project_root.clone(),
        };
        assert(res.deep_view() =~~= self.deep_view());
        res
    }
}

/// Why a project was not found.
#[derive(Debug, PartialEq, Eq)]
pub enum ProjectError {
    /// The directory could not be found.
    Canonicalize { path: String, message: String },
    /// It is no directory.
    NotDirectory { path: String },
    /// It could not be told whether it is a project.
    MarkerIo { path: String, message: String },
}

/// What a [`ProjectError`] holds.
#[verifier::ext_equal]
pub enum ProjectErrorView {
    Canonicalize { path: Seq<char>, message: Seq<char> },
    NotDirectory { path: Seq<char> },
    MarkerIo { path: Seq<char>, message: Seq<char> },
}

impl DeepView for ProjectError {
    type V = ProjectErrorView;

    open spec fn deep_view(&self) -> ProjectErrorView {
        match self {
            ProjectError::Canonicalize { path, message } => ProjectErrorView::Canonicalize {
                path: path.deep_view(),
                message: message.deep_view(),
            },
            ProjectError::NotDirectory { path } => ProjectErrorView::NotDirectory {
                path: path.deep_view(),
            },
            ProjectError::MarkerIo { path, message } => ProjectErrorView::MarkerIo {
                path: path.deep_view(),
                message: message.deep_view(),
            },
        }
    }
}

impl Clone for ProjectError {
    fn clone(&self) -> (res: Self)
        ensures
            res.deep_view() == self.deep_view(),
    {
        let res = match self {
            ProjectError::Canonicalize { path, message } => ProjectError::Canonicalize {
                path: path.clone(),
                message: message.clone(),
            },
            ProjectError::NotDirectory { path } => ProjectError::NotDirectory {
                path: path.clone(),
            },
            ProjectError::MarkerIo { path, message } => ProjectError::MarkerIo {
                path: path.clone(),
                message: message.clone(),
            },
        };
        assert(res.deep_view() =~~= self.deep_view());
        res
    }
}

/// Whether a directory has the mark of a project.
#[derive(Debug, PartialEq, Eq)]
pub enum MarkerRead {
    Present,
    Absent,
    /// It could not be told.
    Failed(String),
}

/// What a [`MarkerRead`] holds.
#[verifier::ext_equal]
pub enum MarkerReadView {
    Present,
    Absent,
    Failed(Seq<char>),
}

impl DeepView for MarkerRead {
    type V = MarkerReadView;

    open spec fn deep_view(&self) -> MarkerReadView {
        match self {
            MarkerRead::Present => MarkerReadView::Present,
            MarkerRead::Absent => MarkerReadView::Absent,
            MarkerRead::Failed(value) => MarkerReadView::Failed(value.deep_view()),
        }
    }
}

/// A directory, with where its mark would be and whether it is there.
#[derive(Debug, PartialEq, Eq)]
pub struct Ancestor {
    pub path: String,
    pub marker_path: String,
    pub marker: MarkerRead,
}

/// What a [`Ancestor`] holds.
#[verifier::ext_equal]
pub struct AncestorView {
    pub path: Seq<char>,
    pub marker_path: Seq<char>,
    pub marker: MarkerReadView,
}

impl DeepView for Ancestor {
    type V = AncestorView;

    open spec fn deep_view(&self) -> AncestorView {
        AncestorView {
            path: self.path.deep_view(),
            marker_path: self.marker_path.deep_view(),
            marker: self.marker.deep_view(),
        }
    }
}

/// The message of an error.
pub open spec fn project_error_text(error: ProjectErrorView) -> Seq<char> {
    match error {
        ProjectErrorView::Canonicalize { path, message } => "could not canonicalize launch cwd "@
            + path + (": "@ + message),
        ProjectErrorView::NotDirectory { path } => "launch cwd is not a directory: "@ + path,
        ProjectErrorView::MarkerIo { path, message } => "could not inspect project marker "@ + path
            + (": "@ + message),
    }
}

impl ProjectError {
    /// The message of the error.
    pub fn to_text(&self) -> (res: String)
        ensures
            res@ == project_error_text(self.deep_view()),
    {
        match self {
            ProjectError::Canonicalize { path, message } => concat3(
                "could not canonicalize launch cwd ",
                path,
                &concat(": ", message),
            ),
            ProjectError::NotDirectory { path } => concat("launch cwd is not a directory: ", path),
            ProjectError::MarkerIo { path, message } => concat3(
                "could not inspect project marker ",
                path,
                &concat(": ", message),
            ),
        }
    }
}

/// The first directory with the mark, looking from `from` on upwards; where none has it, nothing.
pub open spec fn marked(ancestors: Seq<AncestorView>, from: int) -> Result<
    Option<int>,
    ProjectErrorView,
>
    decreases ancestors.len() - from,
{
    if from >= ancestors.len() {
        Ok(None)
    } else {
        match ancestors[from].marker {
            MarkerReadView::Present => Ok(Some(from)),
            MarkerReadView::Absent => marked(ancestors, from + 1),
            MarkerReadView::Failed(message) => Err(
                ProjectErrorView::MarkerIo { path: ancestors[from].marker_path, message },
            ),
        }
    }
}

/// The root of the project: the nearest directory upwards with the mark, else the directory itself.
pub open spec fn project_root_of(launch_cwd: Seq<char>, ancestors: Seq<AncestorView>) -> Result<
    Seq<char>,
    ProjectErrorView,
> {
    match marked(ancestors, 0) {
        Err(error) => Err(error),
        Ok(Some(at)) => Ok(ancestors[at].path),
        Ok(None) => Ok(launch_cwd),
    }
}

/// The root of a project: `ancestors` are the directory itself and those above it, nearest first.
pub fn discover_project_root(launch_cwd: &str, ancestors: &Vec<Ancestor>) -> (res: Result<
    String,
    ProjectError,
>)
    ensures
        match (res, project_root_of(launch_cwd@, ancestors.deep_view())) {
            (Ok(root), Ok(expected)) => root@ == expected,
            (Err(error), Err(expected)) => error.deep_view() == expected,
            _ => false,
        },
{
    let ghost all = ancestors.deep_view();
    let mut i: usize = 0;
    while i < ancestors.len()
        invariant
            i <= ancestors.len(),
            all == ancestors.deep_view(),
            marked(all, 0) == marked(all, i as int),
        decreases ancestors.len() - i,
    {
        assert(all[i as int] == ancestors@[i as int].deep_view());
        match &ancestors[i].marker {
            MarkerRead::Present => {
                return Ok(ancestors[i].path.clone());
            },
            MarkerRead::Absent => {},
            MarkerRead::Failed(message) => {
                return Err(
                    ProjectError::MarkerIo {
                        path: ancestors[i].marker_path.clone(),
                        message: message.clone(),
                    },
                );
            },
        }
        i += 1;
    }
    Ok(launch_cwd.to_owned())
}

/// A directory and the root of its project.
pub open spec fn project_of(launch_cwd: Seq<char>, ancestors: Seq<AncestorView>) -> Result<
    ProjectLayoutView,
    ProjectErrorView,
> {
    match project_root_of(launch_cwd, ancestors) {
        Ok(project_root) => Ok(ProjectLayoutView { launch_cwd, project_root }),
        Err(error) => Err(error),
    }
}

/// A directory and the root of its project.
pub fn discover_project(launch_cwd: &str, ancestors: &Vec<Ancestor>) -> (res: Result<
    ProjectLayout,
    ProjectError,
>)
    ensures
        match (res, project_root_of(launch_cwd@, ancestors.deep_view())) {
            (Ok(layout), Ok(expected)) => layout.deep_view() == (ProjectLayoutView {
                launch_cwd: launch_cwd@,
                project_root: expected,
            }),
            (Err(error), Err(expected)) => error.deep_view() == expected,
            _ => false,
        },
        match (res, project_of(launch_cwd@, ancestors.deep_view())) {
            (Ok(layout), Ok(expected)) => layout.deep_view() == expected,
            (Err(error), Err(expected)) => error.deep_view() == expected,
            _ => false,
        },
{
    match discover_project_root(launch_cwd, ancestors) {
        Ok(project_root) => Ok(ProjectLayout { launch_cwd: launch_cwd.to_owned(), project_root }),
        Err(error) => Err(error),
    }
}

/// The root is the nearest directory with the mark: none between it and the directory has one.
pub proof fn lemma_nearest_project_is_found(ancestors: Seq<AncestorView>, from: int)
    requires
        0 <= from <= ancestors.len(),
    ensures
        marked(ancestors, from) matches Ok(Some(at)) ==> from <= at < ancestors.len()
            && ancestors[at].marker is Present && forall|i: int|
            from <= i < at ==> (#[trigger] ancestors[i]).marker is Absent,
    decreases ancestors.len() - from,
{
    if from < ancestors.len() && ancestors[from].marker is Absent {
        lemma_nearest_project_is_found(ancestors, from + 1);
    }
}

} // verus!
