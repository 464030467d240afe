//! The providers that can be configured, and the model that is selected.

use crate::config::model::{limits_of, ResolvedModel, ResolvedModelView};
use crate::config::{ModelRef, ModelRefView};
use crate::model::message::{ModelLimits, ProviderError, ProviderErrorView};
use crate::model::mock::{duration_of_millis, MockProvider, MockProviderView};
use vstd::prelude::*;

verus! {

/// A provider that is reached over HTTP, with the model that is selected.
#[derive(Debug, PartialEq, Eq)]
pub struct OpenAiProvider {
    selected: ResolvedModel,
}

impl DeepView for OpenAiProvider {
    type V = ResolvedModelView;

    closed spec fn deep_view(&self) -> ResolvedModelView {
        self.selected.deep_view()
    }
}

impl OpenAiProvider {
    /// The provider, with this model selected.
    pub fn new(model: ResolvedModel) -> (res: Self)
        ensures
            res.deep_view() == model.deep_view(),
    {
        OpenAiProvider { selected: model }
    }

    /// The model that is selected.
    pub fn current_model(&self) -> (res: ResolvedModel)
        ensures
            res.deep_view() == self.deep_view(),
    {
        self.selected.clone()
    }

    /// Selects a model.
    pub fn set_model(&mut self, model: ResolvedModel)
        ensures
            final(self).deep_view() == model.deep_view(),
    {
        self.selected = model;
    }

    /// The token limits of the model that is selected.
    pub fn limits(&self) -> (res: ModelLimits)
        ensures
            res == (ModelLimits {
                context_window: self.deep_view().context_window,
                max_output_tokens: self.deep_view().max_tokens,
            }),
            res == limits_of(self.deep_view()),
    {
        self.selected.limits()
    }
}

/// The provider that is configured.
#[derive(Debug, PartialEq, Eq)]
pub enum ConfiguredProvider {
    Mock(MockProvider),
    OpenAi(OpenAiProvider),
}

/// The model that is selected, where one can be.
pub open spec fn selected_model(provider: ConfiguredProvider) -> Option<ResolvedModelView> {
    match provider {
        ConfiguredProvider::Mock(_) => None,
        ConfiguredProvider::OpenAi(provider) => Some(provider.deep_view()),
    }
}

impl ConfiguredProvider {
    /// The provider that answers by itself: it repeats what the user said, in pieces of eight
    /// characters, 20 ms apart.
    pub fn mock() -> (res: Self)
        ensures
            res is Mock,
            res->Mock_0.wf(),
            res->Mock_0.deep_view() == (MockProviderView {
                response: None,
                chunk_size: 8,
                delay: duration_of_millis(20),
            }),
            selected_model(res) is None,
    {
        ConfiguredProvider::Mock(MockProvider::new())
    }

    /// A provider that is reached over HTTP, with this model selected.
    pub fn openai(model: ResolvedModel) -> (res: Self)
        ensures
            selected_model(res) == Some(model.deep_view()),
    {
        ConfiguredProvider::OpenAi(OpenAiProvider::new(model))
    }

    /// Selects a model, where one can be selected.
    pub fn set_model(&mut self, model: ResolvedModel) -> (res: Result<(), ProviderError>)
        ensures
            match selected_model(*old(self)) {
                Some(_) => res is Ok && selected_model(*final(self)) == Some(model.deep_view()),
                None => {
                    &&& res is Err
                    &&& res->Err_0.deep_view() == (ProviderErrorView::Failed {
                        message:
                            "model switching requires a configured models.json provider"@,
                    })
                    &&& *final(self) == *old(self)
                },
            },
    {
        match self {
            ConfiguredProvider::Mock(_) => Err(
                ProviderError::Failed {
                    message:
                        "model switching requires a configured models.json provider".to_owned(),
                },
            ),
            ConfiguredProvider::OpenAi(provider) => {
                provider.set_model(model);
                Ok(())
            },
        }
    }

    /// The name of the model that answers.
    pub fn model_ref(&self) -> (res: ModelRef)
        ensures
            res.deep_view() == (match selected_model(*self) {
                Some(model) => model.model_ref,
                None => ModelRefView { provider: "mock"@, model: "mock"@ },
            }),
    {
        match self {
            ConfiguredProvider::Mock(_) => ModelRef::new("mock", "mock"),
            ConfiguredProvider::OpenAi(provider) => provider.current_model().model_ref,
        }
    }
}

} // verus!
