//! Models as a configuration describes them.

use crate::config::thinking::{level_name, ThinkingLevel};
use crate::config::{ModelRef, ModelRefView};
use crate::json::{clone_members, object_of, Json, JsonMember};
use crate::model::message::ModelLimits;
use crate::text::same_text;
use vstd::prelude::*;

verus! {

/// The protocol that a provider speaks.
#[derive(Clone, Copy, Debug, PartialEq, Eq, Structural)]
pub enum ApiKind {
    OpenAiResponses,
    OpenAiCompletions,
}

/// The name of a protocol.
pub open spec fn api_name(api: ApiKind) -> Seq<char> {
    match api {
        ApiKind::OpenAiResponses => "openai-responses"@,
        ApiKind::OpenAiCompletions => "openai-completions"@,
    }
}

impl ApiKind {
    /// The name of the protocol.
    pub fn as_str(self) -> (res: &'static str)
        ensures
            res@ == api_name(self),
    {
        match self {
            ApiKind::OpenAiResponses => "openai-responses",
            ApiKind::OpenAiCompletions => "openai-completions",
        }
    }
}

/// What a provider understands of the protocol.
#[derive(Clone, Copy, Debug, PartialEq, Eq, Structural)]
pub struct Compatibility {
    pub supports_developer_role: bool,
    pub supports_reasoning_effort: bool,
}

impl Default for Compatibility {
    fn default() -> (res: Self)
        ensures
            res == (Compatibility {
                supports_developer_role: true,
                supports_reasoning_effort: true,
            }),
    {
        Compatibility { supports_developer_role: true, supports_reasoning_effort: true }
    }
}

/// What tokens cost, as the configuration writes it; nothing is a cost of 0.
#[derive(Debug, PartialEq, Eq)]
pub struct CostMetadata {
    pub input: Option<serde_json::Number>,
    pub output: Option<serde_json::Number>,
    pub cache_read: Option<serde_json::Number>,
    pub cache_write: Option<serde_json::Number>,
}

impl Clone for CostMetadata {
    fn clone(&self) -> (res: Self)
        ensures
            res == *self,
    {
        CostMetadata {
            input: self.input.clone(),
            output: self.output.clone(),
            cache_read: self.cache_read.clone(),
            cache_write: self.cache_write.clone(),
        }
    }
}

impl Default for CostMetadata {
    fn default() -> (res: Self)
        ensures
            res == (CostMetadata { input: None, output: None, cache_read: None, cache_write: None }),
    {
        CostMetadata { input: None, output: None, cache_read: None, cache_write: None }
    }
}

/// An HTTP header.
#[derive(Debug, PartialEq, Eq)]
pub struct Header {
    pub name: String,
    pub value: String,
}

/// What a [`Header`] holds.
#[verifier::ext_equal]
pub struct HeaderView {
    pub name: Seq<char>,
    pub value: Seq<char>,
}

impl DeepView for Header {
    type V = HeaderView;

    open spec fn deep_view(&self) -> HeaderView {
        HeaderView {
            name: self.name.deep_view(),
            value: self.value.deep_view(),
        }
    }
}

impl Clone for Header {
    fn clone(&self) -> (res: Self)
        ensures
            res.deep_view() == self.deep_view(),
    {
        let res = Header {
            name: self.name.clone(),
            value: self.value.clone(),
        };
        assert(res.deep_view() =~~= self.deep_view());
        res
    }
}

/// Something in a configuration that was passed over.
#[derive(Debug, PartialEq, Eq)]
pub struct ConfigWarning {
    pub path: String,
    pub message: String,
}

/// What a [`ConfigWarning`] holds.
#[verifier::ext_equal]
pub struct ConfigWarningView {
    pub path: Seq<char>,
    pub message: Seq<char>,
}

impl DeepView for ConfigWarning {
    type V = ConfigWarningView;

    open spec fn deep_view(&self) -> ConfigWarningView {
        ConfigWarningView {
            path: self.path.deep_view(),
            message: self.message.deep_view(),
        }
    }
}

impl Clone for ConfigWarning {
    fn clone(&self) -> (res: Self)
        ensures
            res.deep_view() == self.deep_view(),
    {
        let res = ConfigWarning {
            path: self.path.clone(),
            message: self.message.clone(),
        };
        assert(res.deep_view() =~~= self.deep_view());
        res
    }
}

/// What a provider calls the effort of a thinking level.
#[derive(Debug, PartialEq, Eq)]
pub struct LevelEffort {
    pub level: String,
    pub effort: String,
}

/// What a [`LevelEffort`] holds.
#[verifier::ext_equal]
pub struct LevelEffortView {
    pub level: Seq<char>,
    pub effort: Seq<char>,
}

impl DeepView for LevelEffort {
    type V = LevelEffortView;

    open spec fn deep_view(&self) -> LevelEffortView {
        LevelEffortView { level: self.level@, effort: self.effort@ }
    }
}

impl Clone for LevelEffort {
    fn clone(&self) -> (res: Self)
        ensures
            res.deep_view() == self.deep_view(),
    {
        LevelEffort { level: self.level.clone(), effort: self.effort.clone() }
    }
}

/// What a provider calls the effort of a level: the last entry of its name counts.
pub open spec fn named_effort(efforts: Seq<LevelEffortView>, level: Seq<char>) -> Option<Seq<char>>
    decreases efforts.len(),
{
    if efforts.len() == 0 {
        None
    } else if efforts.last().level == level {
        Some(efforts.last().effort)
    } else {
        named_effort(efforts.drop_last(), level)
    }
}

/// A model that can be selected, with all that is needed to reach it.
#[derive(Debug, PartialEq, Eq)]
pub struct ResolvedModel {
    pub model_ref: ModelRef,
    pub name: String,
    pub base_url: String,
    pub api: ApiKind,
    pub api_key: Option<String>,
    pub headers: Vec<Header>,
    pub auth_header: bool,
    pub compatibility: Compatibility,
    pub reasoning: bool,
    pub input: Vec<String>,
    pub context_window: Option<u64>,
    pub max_tokens: Option<u64>,
    pub cost: CostMetadata,
    pub sampling_params: Vec<JsonMember>,
    pub thinking_level_map: Vec<LevelEffort>,
}

/// What a [`ResolvedModel`] holds.
#[verifier::ext_equal]
pub struct ResolvedModelView {
    pub model_ref: ModelRefView,
    pub name: Seq<char>,
    pub base_url: Seq<char>,
    pub api: ApiKind,
    pub api_key: Option<Seq<char>>,
    pub headers: Seq<HeaderView>,
    pub auth_header: bool,
    pub compatibility: Compatibility,
    pub reasoning: bool,
    pub input: Seq<Seq<char>>,
    pub context_window: Option<u64>,
    pub max_tokens: Option<u64>,
    pub cost: CostMetadata,
    pub sampling_params: Map<Seq<char>, Json>,
    pub thinking_level_map: Seq<LevelEffortView>,
}

impl DeepView for ResolvedModel {
    type V = ResolvedModelView;

    open spec fn deep_view(&self) -> ResolvedModelView {
        ResolvedModelView {
            model_ref: self.model_ref.deep_view(),
            name: self.name@,
            base_url: self.base_url@,
            api: self.api,
            api_key: self.api_key.deep_view(),
            headers: self.headers.deep_view(),
            auth_header: self.auth_header,
            compatibility: self.compatibility,
            reasoning: self.reasoning,
            input: self.input.deep_view(),
            context_window: self.context_window,
            max_tokens: self.max_tokens,
            cost: self.cost,
            sampling_params: object_of(self.sampling_params@),
            thinking_level_map: self.thinking_level_map.deep_view(),
        }
    }
}

impl Clone for ResolvedModel {
    fn clone(&self) -> (res: Self)
        ensures
            res.deep_view() == self.deep_view(),
    {
        let res = ResolvedModel {
            model_ref: self.model_ref.clone(),
            name: self.name.clone(),
            base_url: self.base_url.clone(),
            api: self.api,
            api_key: self.api_key.clone(),
            headers: self.headers.clone(),
            auth_header: self.auth_header,
            compatibility: self.compatibility,
            reasoning: self.reasoning,
            input: self.input.clone(),
            context_window: self.context_window,
            max_tokens: self.max_tokens,
            cost: self.cost.clone(),
            sampling_params: clone_members(&self.sampling_params),
            thinking_level_map: self.thinking_level_map.clone(),
        };
        assert(res.thinking_level_map.deep_view() =~= self.thinking_level_map.deep_view());
        assert(res.headers.deep_view() =~= self.headers.deep_view());
        assert(res.input.deep_view() =~= self.input.deep_view());
        res
    }
}

/// The token limits of a model.
pub open spec fn limits_of(model: ResolvedModelView) -> ModelLimits {
    ModelLimits { context_window: model.context_window, max_output_tokens: model.max_tokens }
}

/// The effort to ask a model for at a thinking level.
pub open spec fn effort_at(model: ResolvedModelView, level: ThinkingLevel) -> Option<Seq<char>> {
    if level == ThinkingLevel::Off {
        None
    } else {
        named_effort(model.thinking_level_map, level_name(level))
    }
}

impl ResolvedModel {
    /// The token limits of the model.
    pub fn limits(&self) -> (res: ModelLimits)
        ensures
            res == (ModelLimits {
                context_window: self.deep_view().context_window,
                max_output_tokens: self.deep_view().max_tokens,
            }),
            res == limits_of(self.deep_view()),
    {
        ModelLimits { context_window: self.context_window, max_output_tokens: self.max_tokens }
    }

    /// The effort to ask for at a thinking level: what the provider calls it, and none where
    /// thinking is off or the provider has no name for the level.
    pub fn thinking_effort(&self, level: ThinkingLevel) -> (res: Option<String>)
        ensures
            res.deep_view() == (if level == ThinkingLevel::Off {
                None
            } else {
                named_effort(self.deep_view().thinking_level_map, level_name(level))
            }),
            res.deep_view() == effort_at(self.deep_view(), level),
    {
        if matches!(level, ThinkingLevel::Off) {
            return None;
        }
        let name = level.as_str();
        let ghost all = self.thinking_level_map.deep_view();
        let mut i: usize = self.thinking_level_map.len();
        assert(all.take(i as int) =~= all);
        while i > 0
            invariant
                i <= self.thinking_level_map.len(),
                level != ThinkingLevel::Off,
                name@ == level_name(level),
                all == self.thinking_level_map.deep_view(),
                named_effort(all, name@) == named_effort(all.take(i as int), name@),
            decreases i,
        {
            i -= 1;
            assert(all.take(i + 1).drop_last() =~= all.take(i as int));
            assert(all.take(i + 1).last() == self.thinking_level_map@[i as int].deep_view());
            if same_text(&self.thinking_level_map[i].level, name) {
                return Some(self.thinking_level_map[i].effort.clone());
            }
        }
        None
    }
}

} // verus!
