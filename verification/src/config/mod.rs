//! Configuration: models and their providers, settings, and remembered choices.

pub mod catalog;
pub mod environment;
pub mod laws;
pub mod model;
pub mod paths;
pub mod settings;
pub mod state;
pub mod thinking;

pub use catalog::{ConfigError, ModelCatalog};
pub use model::{ApiKind, Compatibility, ConfigWarning, CostMetadata, ResolvedModel};
pub use paths::default_models_path;
pub use settings::{
    default_settings_path, load_settings_from_paths, project_settings_path, CompactionSettings,
    ContextSettings, ResolvedSettings, SettingsError, SettingsLoad,
};
pub use state::{
    default_state_path, load_state, persist_recent_model, RecentModel, RecentModelState, StateError,
    WorkspaceRecentModel,
};
pub use thinking::{ThinkingLevel, ThinkingLevelError};

use crate::text::concat3;
use vstd::prelude::*;

verus! {

/// A model of a provider.
#[derive(Debug, PartialEq, Eq, PartialOrd, Ord, Hash)]
pub struct ModelRef {
    pub provider: String,
    pub model: String,
}

/// What a [`ModelRef`] holds.
#[verifier::ext_equal]
pub struct ModelRefView {
    pub provider: Seq<char>,
    pub model: Seq<char>,
}

impl DeepView for ModelRef {
    type V = ModelRefView;

    open spec fn deep_view(&self) -> ModelRefView {
        ModelRefView {
            provider: self.provider.deep_view(),
            model: self.model.deep_view(),
        }
    }
}

impl Clone for ModelRef {
    fn clone(&self) -> (res: Self)
        ensures
            res.deep_view() == self.deep_view(),
    {
        let res = ModelRef {
            provider: self.provider.clone(),
            model: self.model.clone(),
        };
        assert(res.deep_view() =~~= self.deep_view());
        res
    }
}

/// A model's name as a user writes it.
pub open spec fn display_name_of(model: ModelRefView) -> Seq<char> {
    model.provider + "/"@ + model.model
}

impl ModelRef {
    /// The model of this name at this provider.
    pub fn new(provider: &str, model: &str) -> (res: Self)
        ensures
            res.deep_view() == (ModelRefView { provider: provider@, model: model@ }),
    {
        ModelRef { provider: provider.to_owned(), model: model.to_owned() }
    }

    /// `provider/model`.
    pub fn display_name(&self) -> (res: String)
        ensures
            res@ == display_name_of(self.deep_view()),
    {
        concat3(&self.provider, "/", &self.model)
    }
}

} // verus!
