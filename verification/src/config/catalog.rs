//! The catalog of models: read from a configuration, and searched by name.

use crate::config::environment::{
    interpolate, interpolated, EnvVariableView, Environment, InterpolationError, ReferenceError,
};
use crate::config::model::{
    ApiKind, Compatibility, ConfigWarning, ConfigWarningView, CostMetadata, Header, HeaderView,
    LevelEffort, LevelEffortView, ResolvedModel, ResolvedModelView,
};
use crate::config::{ModelRef, ModelRefView};
use crate::json::{clone_members, object_of, Json, JsonMember};
use crate::text::{
    concat, concat3, is_blank, is_blank_text, quoted, quoted_text, same_text, split_once,
    split_once_at,
};
use vstd::prelude::*;

verus! {

/// Why a configuration of models was not taken.
#[derive(Debug, PartialEq, Eq)]
pub enum ConfigError {
    /// It could not be read.
    Io { path: String, message: String },
    /// It could not be parsed.
    Json { path: String, message: String },
    /// It says something that cannot be.
    Invalid(String),
    /// It refers to an environment variable that is not set.
    MissingEnv { variable: String, path: String },
}

/// What a [`ConfigError`] holds.
#[verifier::ext_equal]
pub enum ConfigErrorView {
    Io { path: Seq<char>, message: Seq<char> },
    Json { path: Seq<char>, message: Seq<char> },
    Invalid(Seq<char>),
    MissingEnv { variable: Seq<char>, path: Seq<char> },
}

impl DeepView for ConfigError {
    type V = ConfigErrorView;

    open spec fn deep_view(&self) -> ConfigErrorView {
        match self {
            ConfigError::Io { path, message } => ConfigErrorView::Io {
                path: path.deep_view(),
                message: message.deep_view(),
            },
            ConfigError::Json { path, message } => ConfigErrorView::Json {
                path: path.deep_view(),
                message: message.deep_view(),
            },
            ConfigError::Invalid(value) => ConfigErrorView::Invalid(value.deep_view()),
            ConfigError::MissingEnv { variable, path } => ConfigErrorView::MissingEnv {
                variable: variable.deep_view(),
                path: path.deep_view(),
            },
        }
    }
}

impl Clone for ConfigError {
    fn clone(&self) -> (res: Self)
        ensures
            res.deep_view() == self.deep_view(),
    {
        let res = match self {
            ConfigError::Io { path, message } => ConfigError::Io {
                path: path.clone(),
                message: message.clone(),
            },
            ConfigError::Json { path, message } => ConfigError::Json {
                path: path.clone(),
                message: message.clone(),
            },
            ConfigError::Invalid(value) => ConfigError::Invalid(value.clone()),
            ConfigError::MissingEnv { variable, path } => ConfigError::MissingEnv {
                variable: variable.clone(),
                path: path.clone(),
            },
        };
        assert(res.deep_view() =~~= self.deep_view());
        res
    }
}

/// What a configuration says of what a provider understands, as far as it does.
#[derive(Clone, Copy, Debug, PartialEq, Eq, Structural)]
pub struct RawCompatibility {
    pub supports_developer_role: Option<bool>,
    pub supports_reasoning_effort: Option<bool>,
}

/// A model as a configuration describes it; `extra` names the members that mean nothing.
#[derive(Debug, PartialEq, Eq)]
pub struct RawModel {
    pub id: String,
    pub name: Option<String>,
    pub api: Option<String>,
    pub reasoning: bool,
    pub input: Vec<String>,
    pub context_window: Option<u64>,
    pub max_tokens: Option<u64>,
    pub cost: Option<CostMetadata>,
    pub compat: RawCompatibility,
    pub sampling_params: Vec<JsonMember>,
    pub thinking_level_map: Vec<LevelEffort>,
    pub extra: Vec<String>,
}

/// What a [`RawModel`] holds.
#[verifier::ext_equal]
pub struct RawModelView {
    pub id: Seq<char>,
    pub name: Option<Seq<char>>,
    pub api: Option<Seq<char>>,
    pub reasoning: bool,
    pub input: Seq<Seq<char>>,
    pub context_window: Option<u64>,
    pub max_tokens: Option<u64>,
    pub cost: Option<CostMetadata>,
    pub compat: RawCompatibility,
    pub sampling_params: Map<Seq<char>, Json>,
    pub thinking_level_map: Seq<LevelEffortView>,
    pub extra: Seq<Seq<char>>,
}

impl DeepView for RawModel {
    type V = RawModelView;

    open spec fn deep_view(&self) -> RawModelView {
        RawModelView {
            id: self.id@,
            name: self.name.deep_view(),
            api: self.api.deep_view(),
            reasoning: self.reasoning,
            input: self.input.deep_view(),
            context_window: self.context_window,
            max_tokens: self.max_tokens,
            cost: self.cost,
            compat: self.compat,
            sampling_params: object_of(self.sampling_params@),
            thinking_level_map: self.thinking_level_map.deep_view(),
            extra: self.extra.deep_view(),
        }
    }
}

/// A provider as a configuration describes it, with its headers in the order of their names;
/// `extra` names the members that mean nothing.
#[derive(Debug, PartialEq, Eq)]
pub struct RawProvider {
    pub base_url: String,
    pub api: Option<String>,
    pub api_key: Option<String>,
    pub headers: Vec<Header>,
    pub auth_header: Option<bool>,
    pub compat: RawCompatibility,
    pub models: Vec<RawModel>,
    pub extra: Vec<String>,
}

/// What a [`RawProvider`] holds.
#[verifier::ext_equal]
pub struct RawProviderView {
    pub base_url: Seq<char>,
    pub api: Option<Seq<char>>,
    pub api_key: Option<Seq<char>>,
    pub headers: Seq<HeaderView>,
    pub auth_header: Option<bool>,
    pub compat: RawCompatibility,
    pub models: Seq<RawModelView>,
    pub extra: Seq<Seq<char>>,
}

impl DeepView for RawProvider {
    type V = RawProviderView;

    open spec fn deep_view(&self) -> RawProviderView {
        RawProviderView {
            base_url: self.base_url.deep_view(),
            api: self.api.deep_view(),
            api_key: self.api_key.deep_view(),
            headers: self.headers.deep_view(),
            auth_header: self.auth_header,
            compat: self.compat,
            models: self.models.deep_view(),
            extra: self.extra.deep_view(),
        }
    }
}

/// A provider under its identifier.
#[derive(Debug, PartialEq, Eq)]
pub struct RawProviderEntry {
    pub id: String,
    pub provider: RawProvider,
}

/// What a [`RawProviderEntry`] holds.
#[verifier::ext_equal]
pub struct RawProviderEntryView {
    pub id: Seq<char>,
    pub provider: RawProviderView,
}

impl DeepView for RawProviderEntry {
    type V = RawProviderEntryView;

    open spec fn deep_view(&self) -> RawProviderEntryView {
        RawProviderEntryView {
            id: self.id.deep_view(),
            provider: self.provider.deep_view(),
        }
    }
}

/// A configuration of models, with its providers in the order of their identifiers; `extra` names the
/// members that mean nothing.
#[derive(Debug, PartialEq, Eq)]
pub struct RawModelsFile {
    pub providers: Vec<RawProviderEntry>,
    pub extra: Vec<String>,
}

/// What a [`RawModelsFile`] holds.
#[verifier::ext_equal]
pub struct RawModelsFileView {
    pub providers: Seq<RawProviderEntryView>,
    pub extra: Seq<Seq<char>>,
}

impl DeepView for RawModelsFile {
    type V = RawModelsFileView;

    open spec fn deep_view(&self) -> RawModelsFileView {
        RawModelsFileView {
            providers: self.providers.deep_view(),
            extra: self.extra.deep_view(),
        }
    }
}

/// The message of an error.
pub open spec fn config_error_text(error: ConfigErrorView) -> Seq<char> {
    match error {
        ConfigErrorView::Io { path, message } => "could not read models config "@ + path + (": "@
            + message),
        ConfigErrorView::Json { path, message } => "could not parse models config "@ + path + (": "@
            + message),
        ConfigErrorView::Invalid(message) => "invalid model configuration: "@ + message,
        ConfigErrorView::MissingEnv { variable, path } => "environment variable "@ + variable + (
        " referenced by "@ + path + " is not set"@),
    }
}

impl ConfigError {
    /// The message of the error.
    pub fn to_text(&self) -> (res: String)
        ensures
            res@ == config_error_text(self.deep_view()),
    {
        match self {
            ConfigError::Io { path, message } => concat3(
                "could not read models config ",
                path,
                &concat(": ", message),
            ),
            ConfigError::Json { path, message } => concat3(
                "could not parse models config ",
                path,
                &concat(": ", message),
            ),
            ConfigError::Invalid(message) => concat("invalid model configuration: ", message),
            ConfigError::MissingEnv { variable, path } => concat3(
                "environment variable ",
                variable,
                &concat3(" referenced by ", path, " is not set"),
            ),
        }
    }
}

// ---- values of a configuration ----

/// The protocol of a name.
pub open spec fn api_named(name: Seq<char>) -> Result<ApiKind, ConfigErrorView> {
    if name == "openai-responses"@ {
        Ok(ApiKind::OpenAiResponses)
    } else if name == "openai-completions"@ {
        Ok(ApiKind::OpenAiCompletions)
    } else {
        Err(
            ConfigErrorView::Invalid(
                "unsupported model API "@ + quoted_text(name)
                    + "; expected openai-responses or openai-completions"@,
            ),
        )
    }
}

/// Two outcomes agree.
pub open spec fn same_result<T: DeepView>(
    result: Result<T, ConfigError>,
    expected: Result<T::V, ConfigErrorView>,
) -> bool {
    match (result, expected) {
        (Ok(value), Ok(expected)) => value.deep_view() == expected,
        (Err(error), Err(expected)) => error.deep_view() == expected,
        _ => false,
    }
}

impl ApiKind {
    /// The protocol of a name.
    pub fn parse(value: &str) -> (res: Result<ApiKind, ConfigError>)
        ensures
            match (res, api_named(value@)) {
                (Ok(api), Ok(expected)) => api == expected,
                (Err(error), Err(expected)) => error.deep_view() == expected,
                _ => false,
            },
    {
        if same_text(value, "openai-responses") {
            Ok(ApiKind::OpenAiResponses)
        } else if same_text(value, "openai-completions") {
            Ok(ApiKind::OpenAiCompletions)
        } else {
            Err(
                ConfigError::Invalid(
                    concat3(
                        "unsupported model API ",
                        &quoted(value),
                        "; expected openai-responses or openai-completions",
                    ),
                ),
            )
        }
    }
}

impl std::str::FromStr for ApiKind {
    type Err = ConfigError;

    fn from_str(value: &str) -> Result<Self, ConfigError> {
        ApiKind::parse(value)
    }
}

/// What a provider understands, where nothing is said: everything.
pub open spec fn compatibility_of(raw: RawCompatibility) -> Compatibility {
    Compatibility {
        supports_developer_role: raw.supports_developer_role != Some(false),
        supports_reasoning_effort: raw.supports_reasoning_effort != Some(false),
    }
}

/// What is said of a model, else of its provider.
pub open spec fn refined(raw: RawCompatibility, provider: Compatibility) -> Compatibility {
    Compatibility {
        supports_developer_role: match raw.supports_developer_role {
            Some(supported) => supported,
            None => provider.supports_developer_role,
        },
        supports_reasoning_effort: match raw.supports_reasoning_effort {
            Some(supported) => supported,
            None => provider.supports_reasoning_effort,
        },
    }
}

impl RawCompatibility {
    /// What a provider understands.
    pub fn resolve(self) -> (res: Compatibility)
        ensures
            res == compatibility_of(self),
    {
        self.refine(Compatibility::default())
    }

    fn refine(self, provider: Compatibility) -> (res: Compatibility)
        ensures
            res == refined(self, provider),
    {
        Compatibility {
            supports_developer_role: match self.supports_developer_role {
                Some(supported) => supported,
                None => provider.supports_developer_role,
            },
            supports_reasoning_effort: match self.supports_reasoning_effort {
                Some(supported) => supported,
                None => provider.supports_reasoning_effort,
            },
        }
    }
}

/// A value of a configuration with its variables replaced; `path` is where it stands.
pub open spec fn interpolated_at(
    value: Seq<char>,
    path: Seq<char>,
    env: Seq<EnvVariableView>,
) -> Result<Seq<char>, ConfigErrorView> {
    match interpolated(value, env) {
        Ok(text) => Ok(text),
        Err(ReferenceError::Empty) => Err(
            ConfigErrorView::Invalid("empty environment variable reference at "@ + path),
        ),
        Err(ReferenceError::Missing(variable)) => Err(
            ConfigErrorView::MissingEnv { variable, path },
        ),
    }
}

/// A value of a configuration with its variables replaced.
pub fn interpolate_env(value: &str, path: &str, env: &Environment) -> (res: Result<
    String,
    ConfigError,
>)
    ensures
        same_result(res, interpolated_at(value@, path@, env.deep_view())),
{
    match interpolate(value, env) {
        Ok(text) => Ok(text),
        Err(InterpolationError::Empty) => Err(
            ConfigError::Invalid(concat("empty environment variable reference at ", path)),
        ),
        Err(InterpolationError::Missing(variable)) => Err(
            ConfigError::MissingEnv { variable, path: path.to_owned() },
        ),
    }
}

/// What the library needs of a URL.
#[derive(Debug, PartialEq, Eq)]
pub struct UrlParts {
    pub scheme: String,
    pub has_host: bool,
}

/// What a [`UrlParts`] holds.
#[verifier::ext_equal]
pub struct UrlPartsView {
    pub scheme: Seq<char>,
    pub has_host: bool,
}

impl DeepView for UrlParts {
    type V = UrlPartsView;

    open spec fn deep_view(&self) -> UrlPartsView {
        UrlPartsView { scheme: self.scheme@, has_host: self.has_host }
    }
}

/// Names what `reqwest::Url::parse` makes of a text: the scheme and whether there is a host, or the
/// message of the error.
pub uninterp spec fn url_parsed(text: Seq<char>) -> Result<UrlPartsView, Seq<char>>;

/// `reqwest::Url::parse`, under its name; of the URL only the scheme and whether it has a host are
/// told.
#[verifier::external_body]
fn parse_url(text: &str) -> (res: Result<UrlParts, String>)
    ensures
        match res {
            Ok(parts) => url_parsed(text@) == Ok::<UrlPartsView, Seq<char>>(parts.deep_view()),
            Err(message) => url_parsed(text@) == Err::<UrlPartsView, Seq<char>>(message@),
        },
{
    reqwest::Url::parse(text).map(
        |url| UrlParts { scheme: url.scheme().to_owned(), has_host: url.host().is_some() },
    ).map_err(|error| error.to_string())
}

/// What is wrong with the address of a provider, if anything: it must be an HTTP URL.
pub open spec fn url_error(provider: Seq<char>, parsed: Result<UrlPartsView, Seq<char>>) -> Option<
    Seq<char>,
> {
    match parsed {
        Err(message) => Some(
            "provider "@ + quoted_text(provider) + (" baseUrl must be a valid URL: "@ + message),
        ),
        Ok(parts) => if (parts.scheme == "http"@ || parts.scheme == "https"@) && parts.has_host {
            None
        } else {
            Some(
                "provider "@ + quoted_text(provider) + " baseUrl must be an HTTP or HTTPS URL"@,
            )
        },
    }
}

/// What is wrong with the address of a provider, with what came of parsing it.
pub fn check_url(provider: &str, parsed: Result<UrlParts, String>) -> (res: Option<String>)
    ensures
        res.deep_view() == url_error(
            provider@,
            match parsed {
                Ok(parts) => Ok(parts.deep_view()),
                Err(message) => Err(message@),
            },
        ),
{
    match parsed {
        Err(message) => Some(
            concat3(
                "provider ",
                &quoted(provider),
                &concat(" baseUrl must be a valid URL: ", &message),
            ),
        ),
        Ok(parts) => {
            let http = same_text(&parts.scheme, "http") || same_text(&parts.scheme, "https");
            if http && parts.has_host {
                None
            } else {
                Some(
                    concat3(
                        "provider ",
                        &quoted(provider),
                        " baseUrl must be an HTTP or HTTPS URL",
                    ),
                )
            }
        },
    }
}

// ---- providers ----

/// Where a member of a provider stands.
pub open spec fn provider_path(provider: Seq<char>, member: Seq<char>) -> Seq<char> {
    "providers."@ + provider + ("."@ + member)
}

fn path_in_provider(provider: &str, member: &str) -> (res: String)
    ensures
        res@ == provider_path(provider@, member@),
{
    concat3("providers.", provider, &concat(".", member))
}

/// What the models of a provider share.
#[verifier::ext_equal]
pub struct ProviderBaseView {
    pub base_url: Seq<char>,
    pub api: ApiKind,
    pub api_key: Option<Seq<char>>,
    pub headers: Seq<HeaderView>,
    pub auth_header: bool,
    pub compatibility: Compatibility,
}

struct ProviderBase {
    base_url: String,
    api: ApiKind,
    api_key: Option<String>,
    headers: Vec<Header>,
    auth_header: bool,
    compatibility: Compatibility,
}

impl DeepView for ProviderBase {
    type V = ProviderBaseView;

    closed spec fn deep_view(&self) -> ProviderBaseView {
        ProviderBaseView {
            base_url: self.base_url@,
            api: self.api,
            api_key: self.api_key.deep_view(),
            headers: self.headers.deep_view(),
            auth_header: self.auth_header,
            compatibility: self.compatibility,
        }
    }
}

/// The address of a provider.
pub open spec fn base_url_of(
    id: Seq<char>,
    provider: RawProviderView,
    env: Seq<EnvVariableView>,
) -> Result<Seq<char>, ConfigErrorView> {
    match interpolated_at(provider.base_url, provider_path(id, "baseUrl"@), env) {
        Err(error) => Err(error),
        Ok(url) => if is_blank_text(url) {
            Err(
                ConfigErrorView::Invalid(
                    "provider "@ + quoted_text(id) + " baseUrl must not be empty"@,
                ),
            )
        } else {
            match url_error(id, url_parsed(url)) {
                Some(message) => Err(ConfigErrorView::Invalid(message)),
                None => Ok(url),
            }
        },
    }
}

/// The protocol of a provider.
pub open spec fn provider_api(id: Seq<char>, provider: RawProviderView) -> Result<
    ApiKind,
    ConfigErrorView,
> {
    match provider.api {
        Some(name) => api_named(name),
        None => Err(
            ConfigErrorView::Invalid(
                "provider "@ + quoted_text(id) + " is missing its api field"@,
            ),
        ),
    }
}

/// The key of a provider.
pub open spec fn provider_key(
    id: Seq<char>,
    provider: RawProviderView,
    env: Seq<EnvVariableView>,
) -> Result<Option<Seq<char>>, ConfigErrorView> {
    match provider.api_key {
        Some(key) => match interpolated_at(key, provider_path(id, "apiKey"@), env) {
            Ok(key) => Ok(Some(key)),
            Err(error) => Err(error),
        },
        None => Ok(None),
    }
}

/// The headers of a provider, up to the first that cannot be.
pub open spec fn provider_headers(
    id: Seq<char>,
    headers: Seq<HeaderView>,
    env: Seq<EnvVariableView>,
) -> Result<Seq<HeaderView>, ConfigErrorView>
    decreases headers.len(),
{
    if headers.len() == 0 {
        Ok(Seq::empty())
    } else {
        match provider_headers(id, headers.drop_last(), env) {
            Err(error) => Err(error),
            Ok(before) => {
                let header = headers.last();
                match interpolated_at(
                    header.value,
                    provider_path(id, "headers."@ + header.name),
                    env,
                ) {
                    Err(error) => Err(error),
                    Ok(value) => Ok(before.push(HeaderView { name: header.name, value })),
                }
            },
        }
    }
}

/// What the models of a provider share.
pub open spec fn provider_base(
    id: Seq<char>,
    provider: RawProviderView,
    env: Seq<EnvVariableView>,
) -> Result<ProviderBaseView, ConfigErrorView> {
    if is_blank_text(id) {
        Err(ConfigErrorView::Invalid("provider ID must not be empty"@))
    } else {
        match base_url_of(id, provider, env) {
            Err(error) => Err(error),
            Ok(base_url) => match provider_api(id, provider) {
                Err(error) => Err(error),
                Ok(api) => match provider_key(id, provider, env) {
                    Err(error) => Err(error),
                    Ok(api_key) => match provider_headers(id, provider.headers, env) {
                        Err(error) => Err(error),
                        Ok(headers) => Ok(
                            ProviderBaseView {
                                base_url,
                                api,
                                api_key,
                                headers,
                                auth_header: provider.auth_header != Some(false),
                                compatibility: compatibility_of(provider.compat),
                            },
                        ),
                    },
                },
            },
        }
    }
}

proof fn lemma_headers_error_stays(
    id: Seq<char>,
    headers: Seq<HeaderView>,
    env: Seq<EnvVariableView>,
    n: int,
)
    requires
        0 <= n <= headers.len(),
        provider_headers(id, headers.take(n), env) is Err,
    ensures
        provider_headers(id, headers, env) == provider_headers(id, headers.take(n), env),
    decreases headers.len(),
{
    if n == headers.len() {
        assert(headers.take(n) =~= headers);
    } else {
        assert(headers.drop_last().take(n) =~= headers.take(n));
        lemma_headers_error_stays(id, headers.drop_last(), env, n);
    }
}

fn resolve_headers(id: &str, headers: &Vec<Header>, env: &Environment) -> (res: Result<
    Vec<Header>,
    ConfigError,
>)
    ensures
        same_result(res, provider_headers(id@, headers.deep_view(), env.deep_view())),
{
    let ghost all = headers.deep_view();
    let ghost variables = env.deep_view();
    let mut resolved: Vec<Header> = Vec::new();
    let mut i: usize = 0;
    assert(all.take(0) =~= Seq::<HeaderView>::empty());
    assert(resolved.deep_view() =~= Seq::<HeaderView>::empty());
    while i < headers.len()
        invariant
            i <= headers.len(),
            all == headers.deep_view(),
            variables == env.deep_view(),
            provider_headers(id@, all.take(i as int), variables) == Ok::<
                Seq<HeaderView>,
                ConfigErrorView,
            >(resolved.deep_view()),
        decreases headers.len() - i,
    {
        let ghost before = resolved.deep_view();
        proof {
            assert(all.take(i + 1).drop_last() =~= all.take(i as int));
            assert(all.take(i + 1).last() == headers@[i as int].deep_view());
        }
        let path = path_in_provider(id, &concat("headers.", &headers[i].name));
        match interpolate_env(&headers[i].value, &path, env) {
            Ok(value) => {
                let header = Header { name: headers[i].name.clone(), value };
                resolved.push(header);
                assert(resolved.deep_view() =~= before.push(header.deep_view()));
            },
            Err(error) => {
                proof {
                    lemma_headers_error_stays(id@, all, variables, i + 1);
                }
                return Err(error);
            },
        }
        i += 1;
    }
    assert(all.take(i as int) =~= all);
    Ok(resolved)
}

fn resolve_base_url(id: &str, provider: &RawProvider, env: &Environment) -> (res: Result<
    String,
    ConfigError,
>)
    ensures
        same_result(res, base_url_of(id@, provider.deep_view(), env.deep_view())),
{
    let url = match interpolate_env(&provider.base_url, &path_in_provider(id, "baseUrl"), env) {
        Ok(url) => url,
        Err(error) => {
            return Err(error);
        },
    };
    if is_blank(&url) {
        return Err(
            ConfigError::Invalid(concat3("provider ", &quoted(id), " baseUrl must not be empty")),
        );
    }
    match check_url(id, parse_url(&url)) {
        Some(message) => Err(ConfigError::Invalid(message)),
        None => Ok(url),
    }
}

fn resolve_base(id: &str, provider: &RawProvider, env: &Environment) -> (res: Result<
    ProviderBase,
    ConfigError,
>)
    ensures
        same_result(res, provider_base(id@, provider.deep_view(), env.deep_view())),
{
    if is_blank(id) {
        return Err(ConfigError::Invalid("provider ID must not be empty".to_owned()));
    }
    let base_url = match resolve_base_url(id, provider, env) {
        Ok(url) => url,
        Err(error) => {
            return Err(error);
        },
    };
    let api = match &provider.api {
        Some(name) => match ApiKind::parse(name) {
            Ok(api) => api,
            Err(error) => {
                return Err(error);
            },
        },
        None => {
            return Err(
                ConfigError::Invalid(
                    concat3("provider ", &quoted(id), " is missing its api field"),
                ),
            );
        },
    };
    let api_key = match &provider.api_key {
        Some(key) => match interpolate_env(key, &path_in_provider(id, "apiKey"), env) {
            Ok(key) => Some(key),
            Err(error) => {
                return Err(error);
            },
        },
        None => None,
    };
    let headers = match resolve_headers(id, &provider.headers, env) {
        Ok(headers) => headers,
        Err(error) => {
            return Err(error);
        },
    };
    let auth_header = match provider.auth_header {
        Some(wanted) => wanted,
        None => true,
    };
    Ok(
        ProviderBase {
            base_url,
            api,
            api_key,
            headers,
            auth_header,
            compatibility: provider.compat.resolve(),
        },
    )
}

// ---- models ----

/// What is said of a number of a model that must not be 0.
pub open spec fn zero_error(provider: Seq<char>, model: Seq<char>, member: Seq<char>) ->
    ConfigErrorView {
    ConfigErrorView::Invalid(
        "model "@ + provider + ("/"@ + quoted_text(model) + (" "@ + member
            + " must be greater than zero"@)),
    )
}

/// The model that a configuration describes.
pub open spec fn model_of(
    id: Seq<char>,
    base: ProviderBaseView,
    raw: RawModelView,
    env: Seq<EnvVariableView>,
) -> Result<ResolvedModelView, ConfigErrorView> {
    match interpolated_at(raw.id, provider_path(id, "models.id"@), env) {
        Err(error) => Err(error),
        Ok(model_id) => if is_blank_text(model_id) {
            Err(
                ConfigErrorView::Invalid(
                    "provider "@ + quoted_text(id) + " model ID must not be empty"@,
                ),
            )
        } else if raw.context_window == Some(0u64) {
            Err(zero_error(id, model_id, "contextWindow"@))
        } else if raw.max_tokens == Some(0u64) {
            Err(zero_error(id, model_id, "maxTokens"@))
        } else {
            let api = match raw.api {
                Some(name) => api_named(name),
                None => Ok(base.api),
            };
            match api {
                Err(error) => Err(error),
                Ok(api) => Ok(
                    ResolvedModelView {
                        model_ref: ModelRefView { provider: id, model: model_id },
                        name: match raw.name {
                            Some(name) => name,
                            None => model_id,
                        },
                        base_url: base.base_url,
                        api,
                        api_key: base.api_key,
                        headers: base.headers,
                        auth_header: base.auth_header,
                        compatibility: refined(raw.compat, base.compatibility),
                        reasoning: raw.reasoning,
                        input: raw.input,
                        context_window: raw.context_window,
                        max_tokens: raw.max_tokens,
                        cost: match raw.cost {
                            Some(cost) => cost,
                            None => CostMetadata {
                                input: None,
                                output: None,
                                cache_read: None,
                                cache_write: None,
                            },
                        },
                        sampling_params: raw.sampling_params,
                        thinking_level_map: raw.thinking_level_map,
                    },
                ),
            }
        },
    }
}

/// The models of a provider, up to the first that cannot be.
pub open spec fn models_of(
    id: Seq<char>,
    base: ProviderBaseView,
    models: Seq<RawModelView>,
    env: Seq<EnvVariableView>,
) -> Result<Seq<ResolvedModelView>, ConfigErrorView>
    decreases models.len(),
{
    if models.len() == 0 {
        Ok(Seq::empty())
    } else {
        match models_of(id, base, models.drop_last(), env) {
            Err(error) => Err(error),
            Ok(before) => match model_of(id, base, models.last(), env) {
                Err(error) => Err(error),
                Ok(model) => Ok(before.push(model)),
            },
        }
    }
}

/// The models of a provider.
pub open spec fn provider_models(entry: RawProviderEntryView, env: Seq<EnvVariableView>) -> Result<
    Seq<ResolvedModelView>,
    ConfigErrorView,
> {
    match provider_base(entry.id, entry.provider, env) {
        Err(error) => Err(error),
        Ok(base) => models_of(entry.id, base, entry.provider.models, env),
    }
}

/// The models of all providers, up to the first that cannot be.
pub open spec fn all_models(providers: Seq<RawProviderEntryView>, env: Seq<EnvVariableView>) ->
    Result<Seq<ResolvedModelView>, ConfigErrorView>
    decreases providers.len(),
{
    if providers.len() == 0 {
        Ok(Seq::empty())
    } else {
        match all_models(providers.drop_last(), env) {
            Err(error) => Err(error),
            Ok(before) => match provider_models(providers.last(), env) {
                Err(error) => Err(error),
                Ok(models) => Ok(before + models),
            },
        }
    }
}

proof fn lemma_models_error_stays(
    id: Seq<char>,
    base: ProviderBaseView,
    models: Seq<RawModelView>,
    env: Seq<EnvVariableView>,
    n: int,
)
    requires
        0 <= n <= models.len(),
        models_of(id, base, models.take(n), env) is Err,
    ensures
        models_of(id, base, models, env) == models_of(id, base, models.take(n), env),
    decreases models.len(),
{
    if n == models.len() {
        assert(models.take(n) =~= models);
    } else {
        assert(models.drop_last().take(n) =~= models.take(n));
        lemma_models_error_stays(id, base, models.drop_last(), env, n);
    }
}

proof fn lemma_all_models_error_stays(
    providers: Seq<RawProviderEntryView>,
    env: Seq<EnvVariableView>,
    n: int,
)
    requires
        0 <= n <= providers.len(),
        all_models(providers.take(n), env) is Err,
    ensures
        all_models(providers, env) == all_models(providers.take(n), env),
    decreases providers.len(),
{
    if n == providers.len() {
        assert(providers.take(n) =~= providers);
    } else {
        assert(providers.drop_last().take(n) =~= providers.take(n));
        lemma_all_models_error_stays(providers.drop_last(), env, n);
    }
}

fn must_not_be_zero(provider: &str, model: &str, member: &str) -> (res: ConfigError)
    ensures
        res.deep_view() == zero_error(provider@, model@, member@),
{
    ConfigError::Invalid(
        concat3(
            "model ",
            provider,
            &concat3("/", &quoted(model), &concat3(" ", member, " must be greater than zero")),
        ),
    )
}

fn resolve_model(id: &str, base: &ProviderBase, raw: &RawModel, env: &Environment) -> (res: Result<
    ResolvedModel,
    ConfigError,
>)
    ensures
        same_result(res, model_of(id@, base.deep_view(), raw.deep_view(), env.deep_view())),
{
    let model_id = match interpolate_env(&raw.id, &path_in_provider(id, "models.id"), env) {
        Ok(model_id) => model_id,
        Err(error) => {
            return Err(error);
        },
    };
    if is_blank(&model_id) {
        return Err(
            ConfigError::Invalid(concat3("provider ", &quoted(id), " model ID must not be empty")),
        );
    }
    if let Some(0) = raw.context_window {
        return Err(must_not_be_zero(id, &model_id, "contextWindow"));
    }
    if let Some(0) = raw.max_tokens {
        return Err(must_not_be_zero(id, &model_id, "maxTokens"));
    }
    let api = match &raw.api {
        Some(name) => match ApiKind::parse(name) {
            Ok(api) => api,
            Err(error) => {
                return Err(error);
            },
        },
        None => base.api,
    };
    let name = match &raw.name {
        Some(name) => name.clone(),
        None => model_id.clone(),
    };
    let cost = match &raw.cost {
        Some(cost) => cost.clone(),
        None => CostMetadata::default(),
    };
    let model = ResolvedModel {
        model_ref: ModelRef::new(id, &model_id),
        name,
        base_url: base.base_url.clone(),
        api,
        api_key: base.api_key.clone(),
        headers: base.headers.clone(),
        auth_header: base.auth_header,
        compatibility: raw.compat.refine(base.compatibility),
        reasoning: raw.reasoning,
        input: raw.input.clone(),
        context_window: raw.context_window,
        max_tokens: raw.max_tokens,
        cost,
        sampling_params: clone_members(&raw.sampling_params),
        thinking_level_map: raw.thinking_level_map.clone(),
    };
    proof {
        assert(model.headers.deep_view() =~= base.headers.deep_view());
        assert(model.input.deep_view() =~= raw.input.deep_view());
    }
    Ok(model)
}

fn resolve_provider(
    models: &mut Vec<ResolvedModel>,
    entry: &RawProviderEntry,
    env: &Environment,
) -> (res: Result<(), ConfigError>)
    ensures
        match (res, provider_models(entry.deep_view(), env.deep_view())) {
            (Ok(_), Ok(more)) => final(models).deep_view() == old(models).deep_view() + more,
            (Err(error), Err(expected)) => error.deep_view() == expected,
            _ => false,
        },
{
    let ghost id = entry.id@;
    let ghost variables = env.deep_view();
    let base = match resolve_base(&entry.id, &entry.provider, env) {
        Ok(base) => base,
        Err(error) => {
            return Err(error);
        },
    };
    let ghost all = entry.provider.models.deep_view();
    let ghost start = models.deep_view();
    let ghost mut made: Seq<ResolvedModelView> = Seq::empty();
    let mut i: usize = 0;
    assert(all.take(0) =~= Seq::<RawModelView>::empty());
    assert(start + made =~= start);
    while i < entry.provider.models.len()
        invariant
            i <= entry.provider.models.len(),
            id == entry.id@,
            all == entry.provider.models.deep_view(),
            variables == env.deep_view(),
            provider_base(id, entry.provider.deep_view(), variables) == Ok::<
                ProviderBaseView,
                ConfigErrorView,
            >(base.deep_view()),
            models_of(id, base.deep_view(), all.take(i as int), variables) == Ok::<
                Seq<ResolvedModelView>,
                ConfigErrorView,
            >(made),
            models.deep_view() == start + made,
            start == old(models).deep_view(),
        decreases entry.provider.models.len() - i,
    {
        proof {
            assert(all.take(i + 1).drop_last() =~= all.take(i as int));
            assert(all.take(i + 1).last() == entry.provider.models@[i as int].deep_view());
        }
        match resolve_model(&entry.id, &base, &entry.provider.models[i], env) {
            Ok(model) => {
                let ghost so_far = models.deep_view();
                models.push(model);
                proof {
                    assert(models.deep_view() =~= so_far.push(model.deep_view()));
                    assert(models.deep_view() =~= start + made.push(model.deep_view()));
                    made = made.push(model.deep_view());
                }
            },
            Err(error) => {
                proof {
                    lemma_models_error_stays(id, base.deep_view(), all, variables, i + 1);
                }
                return Err(error);
            },
        }
        i += 1;
    }
    assert(all.take(i as int) =~= all);
    Ok(())
}

// ---- what is passed over ----

/// The members at `path` that mean nothing.
pub open spec fn unknown_members(
    prefix: Seq<char>,
    names: Seq<Seq<char>>,
    message: Seq<char>,
) -> Seq<ConfigWarningView> {
    names.map_values(|name: Seq<char>| ConfigWarningView { path: prefix + name, message })
}

/// Where the members of a model stand.
pub open spec fn model_prefix(id: Seq<char>, model: Seq<char>) -> Seq<char> {
    "providers."@ + id + (".models."@ + model + "."@)
}

/// What is passed over in the models of a provider.
pub open spec fn model_warnings(id: Seq<char>, models: Seq<RawModelView>) -> Seq<ConfigWarningView>
    decreases models.len(),
{
    if models.len() == 0 {
        Seq::empty()
    } else {
        model_warnings(id, models.drop_last()) + unknown_members(
            model_prefix(id, models.last().id),
            models.last().extra,
            "unknown model field"@,
        )
    }
}

/// What is passed over in a provider.
pub open spec fn provider_warnings(entry: RawProviderEntryView) -> Seq<ConfigWarningView> {
    unknown_members(
        "providers."@ + entry.id + "."@,
        entry.provider.extra,
        "unknown provider field"@,
    ) + model_warnings(entry.id, entry.provider.models)
}

/// What is passed over in the providers.
pub open spec fn providers_warnings(providers: Seq<RawProviderEntryView>) -> Seq<ConfigWarningView>
    decreases providers.len(),
{
    if providers.len() == 0 {
        Seq::empty()
    } else {
        providers_warnings(providers.drop_last()) + provider_warnings(providers.last())
    }
}

/// What is passed over in a configuration, and that it has no models where it has none.
pub open spec fn catalog_warnings(path: Seq<char>, raw: RawModelsFileView, models: int) -> Seq<
    ConfigWarningView,
> {
    let warnings = unknown_members(Seq::empty(), raw.extra, "unknown top-level field"@)
        + providers_warnings(raw.providers);
    if models == 0 {
        warnings.push(
            ConfigWarningView {
                path,
                message: "models config contains no selectable models"@,
            },
        )
    } else {
        warnings
    }
}

pub(crate) fn push_unknown(
    warnings: &mut Vec<ConfigWarning>,
    prefix: &str,
    names: &Vec<String>,
    message: &str,
)
    ensures
        final(warnings).deep_view() == old(warnings).deep_view() + unknown_members(
            prefix@,
            names.deep_view(),
            message@,
        ),
{
    let ghost before = warnings.deep_view();
    let ghost all = unknown_members(prefix@, names.deep_view(), message@);
    let mut i: usize = 0;
    assert(before + all.take(0) =~= before);
    while i < names.len()
        invariant
            i <= names.len(),
            all == unknown_members(prefix@, names.deep_view(), message@),
            warnings.deep_view() == before + all.take(i as int),
        decreases names.len() - i,
    {
        let warning = ConfigWarning {
            path: concat(prefix, &names[i]),
            message: message.to_owned(),
        };
        let ghost so_far = warnings.deep_view();
        warnings.push(warning);
        proof {
            assert(warnings.deep_view() =~= so_far.push(warning.deep_view()));
            assert(all[i as int] == warning.deep_view());
            assert(warnings.deep_view() =~= before + all.take(i + 1));
        }
        i += 1;
    }
    assert(all.take(i as int) =~= all);
}

fn push_provider_warnings(warnings: &mut Vec<ConfigWarning>, entry: &RawProviderEntry)
    ensures
        final(warnings).deep_view() == old(warnings).deep_view() + provider_warnings(
            entry.deep_view(),
        ),
{
    let ghost start = warnings.deep_view();
    push_unknown(
        warnings,
        &concat3("providers.", &entry.id, "."),
        &entry.provider.extra,
        "unknown provider field",
    );
    let ghost before = warnings.deep_view();
    let ghost all = entry.provider.models.deep_view();
    let mut i: usize = 0;
    assert(all.take(0) =~= Seq::<RawModelView>::empty());
    assert(before + model_warnings(entry.id@, all.take(0)) =~= before);
    while i < entry.provider.models.len()
        invariant
            i <= entry.provider.models.len(),
            all == entry.provider.models.deep_view(),
            warnings.deep_view() == before + model_warnings(entry.id@, all.take(i as int)),
        decreases entry.provider.models.len() - i,
    {
        let model = &entry.provider.models[i];
        proof {
            assert(all.take(i + 1).drop_last() =~= all.take(i as int));
            assert(all.take(i + 1).last() == model.deep_view());
        }
        push_unknown(
            warnings,
            &concat3("providers.", &entry.id, &concat3(".models.", &model.id, ".")),
            &model.extra,
            "unknown model field",
        );
        assert(warnings.deep_view() =~= before + model_warnings(entry.id@, all.take(i + 1)));
        i += 1;
    }
    assert(all.take(i as int) =~= all);
    assert(warnings.deep_view() =~= start + provider_warnings(entry.deep_view()));
}

// ---- the catalog ----

/// The models that can be selected.
#[derive(Debug, PartialEq, Eq)]
pub struct ModelCatalog {
    models: Vec<ResolvedModel>,
    warnings: Vec<ConfigWarning>,
}

/// What a [`ModelCatalog`] holds.
#[verifier::ext_equal]
pub struct ModelCatalogView {
    pub models: Seq<ResolvedModelView>,
    pub warnings: Seq<ConfigWarningView>,
}

impl DeepView for ModelCatalog {
    type V = ModelCatalogView;

    closed spec fn deep_view(&self) -> ModelCatalogView {
        ModelCatalogView {
            models: self.models.deep_view(),
            warnings: self.warnings.deep_view(),
        }
    }
}

impl Clone for ModelCatalog {
    fn clone(&self) -> (res: Self)
        ensures
            res.deep_view() == self.deep_view(),
    {
        let res = ModelCatalog { models: self.models.clone(), warnings: self.warnings.clone() };
        assert(res.deep_view() =~~= self.deep_view());
        res
    }
}

impl Default for ModelCatalog {
    fn default() -> (res: Self)
        ensures
            res.deep_view() == (ModelCatalogView { models: Seq::empty(), warnings: Seq::empty() }),
    {
        let res = ModelCatalog { models: Vec::new(), warnings: Vec::new() };
        assert(res.deep_view() =~~= (ModelCatalogView {
            models: Seq::empty(),
            warnings: Seq::empty(),
        }));
        res
    }
}

/// The catalog that a configuration describes.
pub open spec fn catalog_of(
    path: Seq<char>,
    raw: RawModelsFileView,
    env: Seq<EnvVariableView>,
) -> Result<ModelCatalogView, ConfigErrorView> {
    match all_models(raw.providers, env) {
        Err(error) => Err(error),
        Ok(models) => Ok(
            ModelCatalogView {
                models,
                warnings: catalog_warnings(path, raw, models.len() as int),
            },
        ),
    }
}

/// A provider and a model, taken apart where a model is given with its provider.
pub open spec fn selection_of(provider: Option<Seq<char>>, model: Option<Seq<char>>) -> (
    Option<Seq<char>>,
    Option<Seq<char>>,
) {
    match (provider, model) {
        (None, Some(text)) => match split_once_at(text, "/"@) {
            Some((provider, model)) => (Some(provider), Some(model)),
            None => (provider, model),
        },
        _ => (provider, model),
    }
}

/// A model is the one that is meant.
pub open spec fn is_selected(
    candidate: ResolvedModelView,
    provider: Option<Seq<char>>,
    model: Seq<char>,
) -> bool {
    (provider is None || candidate.model_ref.provider == provider->0) && (
    candidate.model_ref.model == model || candidate.name == model)
}

/// The models that are meant, in order.
pub open spec fn selected(
    models: Seq<ResolvedModelView>,
    provider: Option<Seq<char>>,
    model: Seq<char>,
) -> Seq<ResolvedModelView>
    decreases models.len(),
{
    if models.len() == 0 {
        Seq::empty()
    } else {
        let before = selected(models.drop_last(), provider, model);
        if is_selected(models.last(), provider, model) {
            before.push(models.last())
        } else {
            before
        }
    }
}

/// The first model of a provider.
pub open spec fn first_of(models: Seq<ResolvedModelView>, provider: Seq<char>) -> Option<
    ResolvedModelView,
>
    decreases models.len(),
{
    if models.len() == 0 {
        None
    } else if models[0].model_ref.provider == provider {
        Some(models[0])
    } else {
        first_of(models.drop_first(), provider)
    }
}

/// What is said where nothing is found.
pub open spec fn not_found_text(provider: Option<Seq<char>>, model: Option<Seq<char>>) -> Seq<
    char,
> {
    match (provider, model) {
        (Some(provider), Some(model)) => "model "@ + provider + ("/"@ + quoted_text(model)
            + " was not found in models.json"@),
        (Some(provider), None) => "provider "@ + quoted_text(provider)
            + " has no selectable model in models.json"@,
        (None, Some(model)) => "model "@ + quoted_text(model) + " was not found in models.json"@,
        (None, None) => "models.json contains no selectable model"@,
    }
}

/// The model that is meant: without a name the first, of the provider where one is given; with a
/// name the only one of that name.
pub open spec fn resolution(
    models: Seq<ResolvedModelView>,
    provider: Option<Seq<char>>,
    model: Option<Seq<char>>,
) -> Result<ResolvedModelView, ConfigErrorView> {
    let (provider, model) = selection_of(provider, model);
    let not_found = Err(ConfigErrorView::Invalid(not_found_text(provider, model)));
    match model {
        None => match provider {
            Some(wanted) => match first_of(models, wanted) {
                Some(found) => Ok(found),
                None => not_found,
            },
            None => if models.len() > 0 {
                Ok(models[0])
            } else {
                not_found
            },
        },
        Some(wanted) => {
            let found = selected(models, provider, wanted);
            if found.len() == 1 {
                Ok(found[0])
            } else if found.len() == 0 {
                not_found
            } else {
                Err(
                    ConfigErrorView::Invalid(
                        "model Some("@ + quoted_text(wanted)
                            + ") is ambiguous; specify a provider"@,
                    ),
                )
            }
        },
    }
}

fn split_selection(provider: Option<&str>, model: Option<&str>) -> (res: (
    Option<String>,
    Option<String>,
))
    ensures
        (res.0.deep_view(), res.1.deep_view()) == selection_of(
            provider.deep_view(),
            model.deep_view(),
        ),
{
    if let (None, Some(text)) = (provider, model) {
        if let Some((provider, model)) = split_once(text, "/") {
            return (Some(provider), Some(model));
        }
    }
    let provider = match provider {
        Some(text) => Some(text.to_owned()),
        None => None,
    };
    let model = match model {
        Some(text) => Some(text.to_owned()),
        None => None,
    };
    (provider, model)
}

fn selection_error(provider: &Option<String>, model: &Option<String>) -> (res: ConfigError)
    ensures
        res.deep_view() == ConfigErrorView::Invalid(
            not_found_text(provider.deep_view(), model.deep_view()),
        ),
{
    ConfigError::Invalid(
        match (provider, model) {
            (Some(provider), Some(model)) => concat3(
                "model ",
                provider,
                &concat3("/", &quoted(model), " was not found in models.json"),
            ),
            (Some(provider), None) => concat3(
                "provider ",
                &quoted(provider),
                " has no selectable model in models.json",
            ),
            (None, Some(model)) => concat3(
                "model ",
                &quoted(model),
                " was not found in models.json",
            ),
            (None, None) => "models.json contains no selectable model".to_owned(),
        },
    )
}

fn is_meant(candidate: &ResolvedModel, provider: &Option<String>, model: &str) -> (res: bool)
    ensures
        res == is_selected(candidate.deep_view(), provider.deep_view(), model@),
{
    let in_provider = match provider {
        Some(provider) => same_text(&candidate.model_ref.provider, provider),
        None => true,
    };
    in_provider && (same_text(&candidate.model_ref.model, model) || same_text(
        &candidate.name,
        model,
    ))
}

impl ModelCatalog {
    /// The catalog that a configuration describes; `path` is where it was read.
    pub fn from_raw(path: &str, raw: &RawModelsFile, env: &Environment) -> (res: Result<
        Self,
        ConfigError,
    >)
        ensures
            same_result(res, catalog_of(path@, raw.deep_view(), env.deep_view())),
    {
        let ghost all = raw.providers.deep_view();
        let ghost variables = env.deep_view();
        let mut warnings: Vec<ConfigWarning> = Vec::new();
        assert(warnings.deep_view() =~= Seq::<ConfigWarningView>::empty());
        push_unknown(&mut warnings, "", &raw.extra, "unknown top-level field");
        let ghost top = warnings.deep_view();
        proof {
            reveal_strlit("");
            assert(""@ =~= Seq::<char>::empty());
            assert(top =~= unknown_members(
                Seq::empty(),
                raw.deep_view().extra,
                "unknown top-level field"@,
            ));
        }
        let mut models: Vec<ResolvedModel> = Vec::new();
        let mut i: usize = 0;
        assert(all.take(0) =~= Seq::<RawProviderEntryView>::empty());
        assert(models.deep_view() =~= Seq::<ResolvedModelView>::empty());
        assert(top + providers_warnings(all.take(0)) =~= top);
        while i < raw.providers.len()
            invariant
                i <= raw.providers.len(),
                all == raw.providers.deep_view(),
                variables == env.deep_view(),
                all_models(all.take(i as int), variables) == Ok::<
                    Seq<ResolvedModelView>,
                    ConfigErrorView,
                >(models.deep_view()),
                warnings.deep_view() == top + providers_warnings(all.take(i as int)),
            decreases raw.providers.len() - i,
        {
            proof {
                assert(all.take(i + 1).drop_last() =~= all.take(i as int));
                assert(all.take(i + 1).last() == raw.providers@[i as int].deep_view());
            }
            push_provider_warnings(&mut warnings, &raw.providers[i]);
            assert(warnings.deep_view() =~= top + providers_warnings(all.take(i + 1)));
            match resolve_provider(&mut models, &raw.providers[i], env) {
                Ok(_) => {},
                Err(error) => {
                    proof {
                        lemma_all_models_error_stays(all, variables, i + 1);
                    }
                    return Err(error);
                },
            }
            i += 1;
        }
        assert(all.take(i as int) =~= all);
        if models.len() == 0 {
            let ghost before = warnings.deep_view();
            let warning = ConfigWarning {
                path: path.to_owned(),
                message: "models config contains no selectable models".to_owned(),
            };
            warnings.push(warning);
            assert(warnings.deep_view() =~= before.push(warning.deep_view()));
        }
        Ok(ModelCatalog { models, warnings })
    }

    /// What was passed over in the configuration.
    pub fn warnings(&self) -> (res: &Vec<ConfigWarning>)
        ensures
            res.deep_view() == self.deep_view().warnings,
    {
        &self.warnings
    }

    /// The models, in the order of the configuration.
    pub fn models(&self) -> (res: &Vec<ResolvedModel>)
        ensures
            res.deep_view() == self.deep_view().models,
    {
        &self.models
    }

    /// How the models are called, in the order of the configuration.
    pub fn model_refs(&self) -> (res: Vec<ModelRef>)
        ensures
            res.deep_view() == self.deep_view().models.map_values(
                |model: ResolvedModelView| model.model_ref,
            ),
    {
        let ghost all = self.deep_view().models.map_values(
            |model: ResolvedModelView| model.model_ref,
        );
        let mut refs: Vec<ModelRef> = Vec::new();
        let mut i: usize = 0;
        while i < self.models.len()
            invariant
                i <= self.models.len(),
                all == self.deep_view().models.map_values(
                    |model: ResolvedModelView| model.model_ref,
                ),
                refs.deep_view() == all.take(i as int),
            decreases self.models.len() - i,
        {
            let ghost before = refs.deep_view();
            refs.push(self.models[i].model_ref.clone());
            proof {
                assert(all[i as int] == self.models@[i as int].deep_view().model_ref);
                assert(refs.deep_view() =~= before.push(all[i as int]));
                assert(refs.deep_view() =~= all.take(i + 1));
            }
            i += 1;
        }
        assert(all.take(i as int) =~= all);
        refs
    }

    fn first_of_provider(&self, provider: &str) -> (res: Option<ResolvedModel>)
        ensures
            res.deep_view() == first_of(self.deep_view().models, provider@),
    {
        let ghost all = self.models.deep_view();
        let mut i: usize = 0;
        assert(all.skip(0) =~= all);
        while i < self.models.len()
            invariant
                i <= self.models.len(),
                all == self.models.deep_view(),
                first_of(all, provider@) == first_of(all.skip(i as int), provider@),
            decreases self.models.len() - i,
        {
            proof {
                assert(all.skip(i as int)[0] == self.models@[i as int].deep_view());
                assert(all.skip(i as int).drop_first() =~= all.skip(i + 1));
            }
            if same_text(&self.models[i].model_ref.provider, provider) {
                return Some(self.models[i].clone());
            }
            i += 1;
        }
        None
    }

    /// The model that is meant.
    pub fn resolve(&self, provider: Option<&str>, model: Option<&str>) -> (res: Result<
        ResolvedModel,
        ConfigError,
    >)
        ensures
            same_result(
                res,
                resolution(self.deep_view().models, provider.deep_view(), model.deep_view()),
            ),
    {
        let ghost all = self.models.deep_view();
        let (provider, model) = split_selection(provider, model);
        let wanted = match &model {
            Some(wanted) => wanted,
            None => {
                match &provider {
                    Some(name) => {
                        if let Some(found) = self.first_of_provider(name) {
                            return Ok(found);
                        }
                    },
                    None => {
                        if self.models.len() > 0 {
                            assert(all[0] == self.models@[0].deep_view());
                            return Ok(self.models[0].clone());
                        }
                    },
                }
                return Err(selection_error(&provider, &model));
            },
        };
        let ghost name = wanted@;
        let ghost of = provider.deep_view();
        let mut found: Vec<ResolvedModel> = Vec::new();
        let mut i: usize = 0;
        assert(all.take(0) =~= Seq::<ResolvedModelView>::empty());
        assert(found.deep_view() =~= Seq::<ResolvedModelView>::empty());
        while i < self.models.len()
            invariant
                i <= self.models.len(),
                all == self.models.deep_view(),
                name == wanted@,
                of == provider.deep_view(),
                found.deep_view() == selected(all.take(i as int), of, name),
            decreases self.models.len() - i,
        {
            let ghost before = found.deep_view();
            proof {
                assert(all.take(i + 1).drop_last() =~= all.take(i as int));
                assert(all.take(i + 1).last() == self.models@[i as int].deep_view());
            }
            if is_meant(&self.models[i], &provider, wanted) {
                found.push(self.models[i].clone());
                assert(found.deep_view() =~= before.push(self.models@[i as int].deep_view()));
            }
            i += 1;
        }
        assert(all.take(i as int) =~= all);
        if found.len() == 1 {
            assert(found.deep_view()[0] == found@[0].deep_view());
            let only = found.remove(0);
            return Ok(only);
        }
        if found.len() == 0 {
            return Err(selection_error(&provider, &model));
        }
        Err(
            ConfigError::Invalid(
                concat3("model Some(", &quoted(wanted), ") is ambiguous; specify a provider"),
            ),
        )
    }
}

/// A configuration that was taken has a model for each that it describes, in the same order, and
/// each is named by its provider.
pub proof fn lemma_models_keep_their_order(
    providers: Seq<RawProviderEntryView>,
    env: Seq<EnvVariableView>,
)
    ensures
        all_models(providers, env) matches Ok(models) ==> {
            &&& models.len() == described(providers)
            &&& forall|i: int|
                0 <= i < models.len() ==> exists|k: int|
                    0 <= k < providers.len() && (#[trigger] models[i]).model_ref.provider == (
                    #[trigger] providers[k]).id
        },
    decreases providers.len(),
{
    if providers.len() > 0 {
        lemma_models_keep_their_order(providers.drop_last(), env);
        if let Ok(models) = all_models(providers, env) {
            let before = all_models(providers.drop_last(), env)->Ok_0;
            let entry = providers.last();
            let base = provider_base(entry.id, entry.provider, env)->Ok_0;
            let more = provider_models(entry, env)->Ok_0;
            lemma_models_of(entry.id, base, entry.provider.models, env);
            assert forall|i: int| 0 <= i < models.len() implies exists|k: int|
                0 <= k < providers.len() && (#[trigger] models[i]).model_ref.provider == (
                #[trigger] providers[k]).id by {
                if i < before.len() {
                    assert(models[i] == before[i]);
                    let k = choose|k: int|
                        0 <= k < providers.drop_last().len() && before[i].model_ref.provider == (
                        #[trigger] providers.drop_last()[k]).id;
                    assert(providers[k] == providers.drop_last()[k]);
                } else {
                    assert(models[i] == more[i - before.len()]);
                    assert(providers[providers.len() - 1].id == entry.id);
                }
            }
        }
    }
}

/// How many models the providers describe.
pub open spec fn described(providers: Seq<RawProviderEntryView>) -> int
    decreases providers.len(),
{
    if providers.len() == 0 {
        0
    } else {
        described(providers.drop_last()) + providers.last().provider.models.len()
    }
}

proof fn lemma_models_of(
    id: Seq<char>,
    base: ProviderBaseView,
    models: Seq<RawModelView>,
    env: Seq<EnvVariableView>,
)
    ensures
        models_of(id, base, models, env) matches Ok(made) ==> {
            &&& made.len() == models.len()
            &&& forall|i: int|
                0 <= i < made.len() ==> (#[trigger] made[i]).model_ref.provider == id
        },
    decreases models.len(),
{
    if models.len() > 0 {
        lemma_models_of(id, base, models.drop_last(), env);
    }
}

proof fn lemma_selected(
    models: Seq<ResolvedModelView>,
    provider: Option<Seq<char>>,
    model: Seq<char>,
    k: int,
)
    requires
        0 <= k < models.len(),
        is_selected(models[k], provider, model),
        forall|i: int|
            0 <= i < models.len() && i != k ==> !is_selected(
                #[trigger] models[i],
                provider,
                model,
            ),
    ensures
        selected(models, provider, model) == seq![models[k]],
    decreases models.len(),
{
    let before = models.drop_last();
    if k == models.len() - 1 {
        lemma_none_selected(before, provider, model);
        assert(selected(models, provider, model) =~= seq![models[k]]);
    } else {
        assert forall|i: int| 0 <= i < before.len() && i != k implies !is_selected(
            #[trigger] before[i],
            provider,
            model,
        ) by {
            assert(before[i] == models[i]);
        }
        lemma_selected(before, provider, model, k);
        assert(!is_selected(models[models.len() - 1], provider, model));
    }
}

proof fn lemma_none_selected(
    models: Seq<ResolvedModelView>,
    provider: Option<Seq<char>>,
    model: Seq<char>,
)
    requires
        forall|i: int|
            0 <= i < models.len() ==> !is_selected(#[trigger] models[i], provider, model),
    ensures
        selected(models, provider, model) == Seq::<ResolvedModelView>::empty(),
    decreases models.len(),
{
    if models.len() > 0 {
        lemma_none_selected(models.drop_last(), provider, model);
        assert(!is_selected(models[models.len() - 1], provider, model));
    }
}

/// A model whose name no other model of its provider has is found under it.
pub proof fn lemma_models_are_found_by_name(models: Seq<ResolvedModelView>, k: int)
    requires
        0 <= k < models.len(),
        forall|i: int|
            0 <= i < models.len() && i != k ==> !is_selected(
                #[trigger] models[i],
                Some(models[k].model_ref.provider),
                models[k].model_ref.model,
            ),
    ensures
        resolution(
            models,
            Some(models[k].model_ref.provider),
            Some(models[k].model_ref.model),
        ) == Ok::<ResolvedModelView, ConfigErrorView>(models[k]),
{
    lemma_selected(
        models,
        Some(models[k].model_ref.provider),
        models[k].model_ref.model,
        k,
    );
}

} // verus!
