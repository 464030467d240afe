//! What is remembered between runs: the models that were used.

use crate::config::paths::{home_path, under_home};
use crate::config::{ModelRef, ModelRefView};
use crate::text::{concat, concat3, decimal, decimal_text, same_text};
use vstd::prelude::*;

verus! {

/// The version of the state.
pub const STATE_VERSION: u32 = 1;

/// A model that was used.
#[derive(Debug, PartialEq, Eq)]
pub struct RecentModel {
    pub provider: String,
    pub model: String,
}

/// What a [`RecentModel`] holds.
#[verifier::ext_equal]
pub struct RecentModelView {
    pub provider: Seq<char>,
    pub model: Seq<char>,
}

impl DeepView for RecentModel {
    type V = RecentModelView;

    open spec fn deep_view(&self) -> RecentModelView {
        RecentModelView {
            provider: self.provider.deep_view(),
            model: self.model.deep_view(),
        }
    }
}

impl Clone for RecentModel {
    fn clone(&self) -> (res: Self)
        ensures
            res.deep_view() == self.deep_view(),
    {
        let res = RecentModel {
            provider: self.provider.clone(),
            model: self.model.clone(),
        };
        assert(res.deep_view() =~~= self.deep_view());
        res
    }
}

/// What is remembered of a workspace.
#[derive(Debug, PartialEq, Eq)]
pub struct WorkspaceRecentModel {
    pub last_model: Option<RecentModel>,
}

/// What a [`WorkspaceRecentModel`] holds.
#[verifier::ext_equal]
pub struct WorkspaceRecentModelView {
    pub last_model: Option<RecentModelView>,
}

impl DeepView for WorkspaceRecentModel {
    type V = WorkspaceRecentModelView;

    open spec fn deep_view(&self) -> WorkspaceRecentModelView {
        WorkspaceRecentModelView {
            last_model: self.last_model.deep_view(),
        }
    }
}

impl Default for WorkspaceRecentModel {
    fn default() -> (res: Self)
        ensures
            res.deep_view() == (WorkspaceRecentModelView { last_model: None }),
    {
        WorkspaceRecentModel { last_model: None }
    }
}

impl Clone for WorkspaceRecentModel {
    fn clone(&self) -> (res: Self)
        ensures
            res.deep_view() == self.deep_view(),
    {
        let res = WorkspaceRecentModel {
            last_model: self.last_model.clone(),
        };
        assert(res.deep_view() =~~= self.deep_view());
        res
    }
}

/// A workspace under its identifier.
#[derive(Debug, PartialEq, Eq)]
pub struct WorkspaceEntry {
    pub id: String,
    pub recent: WorkspaceRecentModel,
}

/// What a [`WorkspaceEntry`] holds.
#[verifier::ext_equal]
pub struct WorkspaceEntryView {
    pub id: Seq<char>,
    pub recent: WorkspaceRecentModelView,
}

impl DeepView for WorkspaceEntry {
    type V = WorkspaceEntryView;

    open spec fn deep_view(&self) -> WorkspaceEntryView {
        WorkspaceEntryView {
            id: self.id.deep_view(),
            recent: self.recent.deep_view(),
        }
    }
}

impl Clone for WorkspaceEntry {
    fn clone(&self) -> (res: Self)
        ensures
            res.deep_view() == self.deep_view(),
    {
        let res = WorkspaceEntry {
            id: self.id.clone(),
            recent: self.recent.clone(),
        };
        assert(res.deep_view() =~~= self.deep_view());
        res
    }
}

/// What is remembered between runs.
#[derive(Debug, PartialEq, Eq)]
pub struct RecentModelState {
    pub version: u32,
    pub last_model: Option<RecentModel>,
    pub workspaces: Vec<WorkspaceEntry>,
}

/// What a [`RecentModelState`] holds.
#[verifier::ext_equal]
pub struct RecentModelStateView {
    pub version: u32,
    pub last_model: Option<RecentModelView>,
    pub workspaces: Seq<WorkspaceEntryView>,
}

impl DeepView for RecentModelState {
    type V = RecentModelStateView;

    open spec fn deep_view(&self) -> RecentModelStateView {
        RecentModelStateView {
            version: self.version,
            last_model: self.last_model.deep_view(),
            workspaces: self.workspaces.deep_view(),
        }
    }
}

impl Clone for RecentModelState {
    fn clone(&self) -> (res: Self)
        ensures
            res.deep_view() == self.deep_view(),
    {
        let res = RecentModelState {
            version: self.version,
            last_model: self.last_model.clone(),
            workspaces: self.workspaces.clone(),
        };
        assert(res.deep_view() =~~= self.deep_view());
        res
    }
}

/// Why what was remembered was not taken.
#[derive(Debug, PartialEq, Eq)]
pub enum StateError {
    /// It could not be reached.
    Io { path: String, operation: String, message: String },
    /// It could not be parsed.
    Json { path: String, message: String },
    /// It was written by another version.
    UnsupportedVersion { version: u32 },
}

/// What a [`StateError`] holds.
#[verifier::ext_equal]
pub enum StateErrorView {
    Io { path: Seq<char>, operation: Seq<char>, message: Seq<char> },
    Json { path: Seq<char>, message: Seq<char> },
    UnsupportedVersion { version: u32 },
}

impl DeepView for StateError {
    type V = StateErrorView;

    open spec fn deep_view(&self) -> StateErrorView {
        match self {
            StateError::Io { path, operation, message } => StateErrorView::Io {
                path: path.deep_view(),
                operation: operation.deep_view(),
                message: message.deep_view(),
            },
            StateError::Json { path, message } => StateErrorView::Json {
                path: path.deep_view(),
                message: message.deep_view(),
            },
            StateError::UnsupportedVersion { version } => StateErrorView::UnsupportedVersion {
                version: *version,
            },
        }
    }
}

impl Clone for StateError {
    fn clone(&self) -> (res: Self)
        ensures
            res.deep_view() == self.deep_view(),
    {
        let res = match self {
            StateError::Io { path, operation, message } => StateError::Io {
                path: path.clone(),
                operation: operation.clone(),
                message: message.clone(),
            },
            StateError::Json { path, message } => StateError::Json {
                path: path.clone(),
                message: message.clone(),
            },
            StateError::UnsupportedVersion { version } => StateError::UnsupportedVersion {
                version: *version,
            },
        };
        assert(res.deep_view() =~~= self.deep_view());
        res
    }
}

/// What was found where the state is kept.
#[derive(Debug, PartialEq, Eq)]
pub enum StateRead {
    /// Nothing.
    Missing,
    /// A state.
    Parsed(RecentModelState),
    /// Something that could not be read or parsed.
    Failed(StateError),
}

/// What a [`StateRead`] holds.
#[verifier::ext_equal]
pub enum StateReadView {
    Missing,
    Parsed(RecentModelStateView),
    Failed(StateErrorView),
}

impl DeepView for StateRead {
    type V = StateReadView;

    open spec fn deep_view(&self) -> StateReadView {
        match self {
            StateRead::Missing => StateReadView::Missing,
            StateRead::Parsed(value) => StateReadView::Parsed(value.deep_view()),
            StateRead::Failed(value) => StateReadView::Failed(value.deep_view()),
        }
    }
}

/// What is to be written, and whether what stands there is to be kept under another name first.
#[derive(Debug, PartialEq, Eq)]
pub struct StateUpdate {
    pub preserve_corrupt: bool,
    pub state: RecentModelState,
}

/// What a [`StateUpdate`] holds.
#[verifier::ext_equal]
pub struct StateUpdateView {
    pub preserve_corrupt: bool,
    pub state: RecentModelStateView,
}

impl DeepView for StateUpdate {
    type V = StateUpdateView;

    open spec fn deep_view(&self) -> StateUpdateView {
        StateUpdateView {
            preserve_corrupt: self.preserve_corrupt,
            state: self.state.deep_view(),
        }
    }
}

/// The message of an error.
pub open spec fn state_error_text(error: StateErrorView) -> Seq<char> {
    match error {
        StateErrorView::Io { path, operation, message } => "could not access recent state "@ + path
            + (" while "@ + operation + (": "@ + message)),
        StateErrorView::Json { path, message } => "could not parse recent state "@ + path + (": "@
            + message),
        StateErrorView::UnsupportedVersion { version } => "unsupported ri state version "@
            + decimal_text(version as nat) + ("; expected "@ + decimal_text(
            STATE_VERSION as nat,
        )),
    }
}

impl StateError {
    /// The message of the error.
    pub fn to_text(&self) -> (res: String)
        ensures
            res@ == state_error_text(self.deep_view()),
    {
        match self {
            StateError::Io { path, operation, message } => concat3(
                "could not access recent state ",
                path,
                &concat3(" while ", operation, &concat(": ", message)),
            ),
            StateError::Json { path, message } => concat3(
                "could not parse recent state ",
                path,
                &concat(": ", message),
            ),
            StateError::UnsupportedVersion { version } => concat3(
                "unsupported ri state version ",
                &decimal(*version as u64),
                &concat("; expected ", &decimal(STATE_VERSION as u64)),
            ),
        }
    }
}

/// A model as it is remembered.
pub open spec fn remembered(model: ModelRefView) -> RecentModelView {
    RecentModelView { provider: model.provider, model: model.model }
}

impl RecentModel {
    /// The model as it is remembered.
    pub fn of(model: &ModelRef) -> (res: Self)
        ensures
            res.deep_view() == remembered(model.deep_view()),
    {
        RecentModel { provider: model.provider.clone(), model: model.model.clone() }
    }

    /// The model that is remembered.
    pub fn to_model_ref(&self) -> (res: ModelRef)
        ensures
            res.deep_view() == (ModelRefView {
                provider: self.deep_view().provider,
                model: self.deep_view().model,
            }),
    {
        ModelRef::new(&self.provider, &self.model)
    }
}

/// Nothing is remembered.
pub open spec fn no_state() -> RecentModelStateView {
    RecentModelStateView { version: STATE_VERSION, last_model: None, workspaces: Seq::empty() }
}

impl Default for RecentModelState {
    fn default() -> (res: Self)
        ensures
            res.deep_view() == no_state(),
    {
        let res = RecentModelState {
            version: STATE_VERSION,
            last_model: None,
            workspaces: Vec::new(),
        };
        assert(res.workspaces.deep_view() =~= Seq::<WorkspaceEntryView>::empty());
        res
    }
}

/// Where a workspace stands from `from` on, or the end.
pub open spec fn workspace_at(workspaces: Seq<WorkspaceEntryView>, id: Seq<char>, from: int) -> int
    decreases workspaces.len() - from,
{
    if from >= workspaces.len() || workspaces[from].id == id {
        from
    } else {
        workspace_at(workspaces, id, from + 1)
    }
}

/// The model that a workspace used last.
pub open spec fn workspace_recent(workspaces: Seq<WorkspaceEntryView>, id: Seq<char>) -> Option<
    RecentModelView,
> {
    let at = workspace_at(workspaces, id, 0);
    if at < workspaces.len() {
        workspaces[at].recent.last_model
    } else {
        None
    }
}

/// A workspace is given the model that it used last.
pub open spec fn workspace_set(
    workspaces: Seq<WorkspaceEntryView>,
    id: Seq<char>,
    model: RecentModelView,
) -> Seq<WorkspaceEntryView> {
    let at = workspace_at(workspaces, id, 0);
    let entry = WorkspaceEntryView {
        id,
        recent: WorkspaceRecentModelView { last_model: Some(model) },
    };
    if at < workspaces.len() {
        workspaces.update(at, entry)
    } else {
        workspaces.push(entry)
    }
}

/// A model is used in a workspace.
pub open spec fn used(state: RecentModelStateView, id: Seq<char>, model: ModelRefView) ->
    RecentModelStateView {
    RecentModelStateView {
        last_model: Some(remembered(model)),
        workspaces: workspace_set(state.workspaces, id, remembered(model)),
        ..state
    }
}

proof fn lemma_workspace_at(workspaces: Seq<WorkspaceEntryView>, id: Seq<char>, from: int)
    requires
        0 <= from <= workspaces.len(),
    ensures
        from <= workspace_at(workspaces, id, from) <= workspaces.len(),
        forall|i: int|
            from <= i < workspace_at(workspaces, id, from) ==> (#[trigger] workspaces[i]).id != id,
        workspace_at(workspaces, id, from) < workspaces.len() ==> workspaces[workspace_at(
            workspaces,
            id,
            from,
        )].id == id,
    decreases workspaces.len() - from,
{
    if from < workspaces.len() && workspaces[from].id != id {
        lemma_workspace_at(workspaces, id, from + 1);
    }
}

proof fn lemma_workspace_at_is(workspaces: Seq<WorkspaceEntryView>, id: Seq<char>, n: int)
    requires
        0 <= n <= workspaces.len(),
        forall|i: int| 0 <= i < n ==> (#[trigger] workspaces[i]).id != id,
        n < workspaces.len() ==> workspaces[n].id == id,
    ensures
        workspace_at(workspaces, id, 0) == n,
{
    lemma_workspace_at(workspaces, id, 0);
    let at = workspace_at(workspaces, id, 0);
    if at < n {
        assert(workspaces[at].id != id);
    } else if n < at {
        assert(workspaces[n].id != id);
    }
}

/// What is remembered is found again: the last model is the one that was used last, a workspace has
/// the one that was used last in it, and the other workspaces keep theirs.
pub proof fn lemma_used_models_are_remembered(
    state: RecentModelStateView,
    id: Seq<char>,
    model: ModelRefView,
    other: Seq<char>,
)
    ensures
        used(state, id, model).last_model == Some(remembered(model)),
        workspace_recent(used(state, id, model).workspaces, id) == Some(remembered(model)),
        other != id ==> workspace_recent(used(state, id, model).workspaces, other)
            == workspace_recent(state.workspaces, other),
{
    let before = state.workspaces;
    let after = used(state, id, model).workspaces;
    lemma_workspace_at(before, id, 0);
    let at = workspace_at(before, id, 0);
    assert forall|i: int| 0 <= i < at implies (#[trigger] after[i]).id != id by {
        assert(after[i] == before[i]);
    }
    lemma_workspace_at_is(after, id, at);
    if other != id {
        lemma_workspace_at(before, other, 0);
        let there = workspace_at(before, other, 0);
        assert forall|i: int| 0 <= i < there implies (#[trigger] after[i]).id != other by {
            assert(before[i].id != other);
        }
        if there < before.len() {
            assert(before[there].id == other);
            assert(after[there] == before[there]);
            lemma_workspace_at_is(after, other, there);
        } else {
            assert forall|i: int| 0 <= i < after.len() implies (#[trigger] after[i]).id
                != other by {
                if i < before.len() {
                    assert(before[i].id != other);
                }
            }
            lemma_workspace_at_is(after, other, after.len() as int);
        }
    }
}

impl RecentModelState {
    fn find_workspace(&self, id: &str) -> (res: usize)
        ensures
            res == workspace_at(self.deep_view().workspaces, id@, 0),
            res <= self.workspaces@.len(),
    {
        let ghost all = self.workspaces.deep_view();
        let mut at: usize = 0;
        while at < self.workspaces.len()
            invariant
                at <= self.workspaces.len(),
                all == self.workspaces.deep_view(),
                workspace_at(all, id@, 0) == workspace_at(all, id@, at as int),
            decreases self.workspaces.len() - at,
        {
            assert(all[at as int] == self.workspaces@[at as int].deep_view());
            if same_text(&self.workspaces[at].id, id) {
                return at;
            }
            at += 1;
        }
        at
    }

    /// The model that a workspace used last.
    pub fn workspace_model(&self, workspace_id: &str) -> (res: Option<&RecentModel>)
        ensures
            res.deep_view() == workspace_recent(self.deep_view().workspaces, workspace_id@),
    {
        let at = self.find_workspace(workspace_id);
        if at < self.workspaces.len() {
            assert(self.deep_view().workspaces[at as int]
                == self.workspaces@[at as int].deep_view());
            self.workspaces[at].recent.last_model.as_ref()
        } else {
            None
        }
    }

    /// Remembers that a model is used in a workspace.
    pub fn use_model(&mut self, workspace_id: &str, model: &ModelRef)
        ensures
            final(self).deep_view() == used(
                old(self).deep_view(),
                workspace_id@,
                model.deep_view(),
            ),
    {
        let ghost before = self.workspaces.deep_view();
        let at = self.find_workspace(workspace_id);
        let entry = WorkspaceEntry {
            id: workspace_id.to_owned(),
            recent: WorkspaceRecentModel { last_model: Some(RecentModel::of(model)) },
        };
        self.last_model = Some(RecentModel::of(model));
        if at < self.workspaces.len() {
            self.workspaces[at] = entry;
        } else {
            self.workspaces.push(entry);
        }
        assert(self.workspaces.deep_view() =~= workspace_set(
            before,
            workspace_id@,
            remembered(model.deep_view()),
        ));
    }
}

/// A state of this version.
pub open spec fn checked_state(read: StateReadView) -> Result<
    Option<RecentModelStateView>,
    StateErrorView,
> {
    match read {
        StateReadView::Missing => Ok(None),
        StateReadView::Failed(error) => Err(error),
        StateReadView::Parsed(state) => if state.version == STATE_VERSION {
            Ok(Some(state))
        } else {
            Err(StateErrorView::UnsupportedVersion { version: state.version })
        },
    }
}

/// What is remembered, where anything is.
pub fn load_state(read: StateRead) -> (res: Result<Option<RecentModelState>, StateError>)
    ensures
        match (res, checked_state(read.deep_view())) {
            (Ok(state), Ok(expected)) => state.deep_view() == expected,
            (Err(error), Err(expected)) => error.deep_view() == expected,
            _ => false,
        },
{
    match read {
        StateRead::Missing => Ok(None),
        StateRead::Failed(error) => Err(error),
        StateRead::Parsed(state) => if state.version == STATE_VERSION {
            Ok(Some(state))
        } else {
            Err(StateError::UnsupportedVersion { version: state.version })
        },
    }
}

/// What is written once a model is used: what could not be parsed is kept aside and given up, what
/// another version wrote is left alone.
pub open spec fn state_update(read: StateReadView, id: Seq<char>, model: ModelRefView) -> Result<
    StateUpdateView,
    StateErrorView,
> {
    match checked_state(read) {
        Ok(Some(state)) => Ok(
            StateUpdateView { preserve_corrupt: false, state: used(state, id, model) },
        ),
        Ok(None) => Ok(
            StateUpdateView { preserve_corrupt: false, state: used(no_state(), id, model) },
        ),
        Err(error) => if error is Json {
            Ok(StateUpdateView { preserve_corrupt: true, state: used(no_state(), id, model) })
        } else {
            Err(error)
        },
    }
}

/// What is to be written once a model is used in a workspace.
pub fn persist_recent_model(read: StateRead, workspace_id: &str, model: &ModelRef) -> (res: Result<
    StateUpdate,
    StateError,
>)
    ensures
        match (res, state_update(read.deep_view(), workspace_id@, model.deep_view())) {
            (Ok(update), Ok(expected)) => update.deep_view() == expected,
            (Err(error), Err(expected)) => error.deep_view() == expected,
            _ => false,
        },
{
    let mut preserve_corrupt = false;
    let mut state = match load_state(read) {
        Ok(Some(state)) => state,
        Ok(None) => RecentModelState::default(),
        Err(error) => match error {
            StateError::Json { .. } => {
                preserve_corrupt = true;
                RecentModelState::default()
            },
            other => {
                return Err(other);
            },
        },
    };
    state.use_model(workspace_id, model);
    Ok(StateUpdate { preserve_corrupt, state })
}

/// The file of the state of the user.
pub fn default_state_path(home: Option<&str>, user_profile: Option<&str>) -> (res: Option<String>)
    ensures
        res.deep_view() == under_home(
            home.deep_view(),
            user_profile.deep_view(),
            ".ri/agent/state.json"@,
        ),
{
    home_path(home, user_profile, ".ri/agent/state.json")
}

/// The file that is locked while the state is read or written.
pub fn lock_path(path: &str) -> (res: String)
    ensures
        res@ == path@ + ".lock"@,
{
    concat(path, ".lock")
}

/// The name under which a state is kept that could not be parsed: the first, or after `attempt`
/// others that were taken.
pub open spec fn corrupt_name(file_name: Seq<char>, attempt: u64) -> Seq<char> {
    if attempt == 0 {
        file_name + ".corrupt"@
    } else {
        file_name + ".corrupt."@ + decimal_text(attempt as nat)
    }
}

/// The name under which a state is kept that could not be parsed.
pub fn corrupt_state_name(file_name: &str, attempt: u64) -> (res: String)
    ensures
        res@ == corrupt_name(file_name@, attempt),
{
    if attempt == 0 {
        concat(file_name, ".corrupt")
    } else {
        concat3(file_name, ".corrupt.", &decimal(attempt))
    }
}

} // verus!
