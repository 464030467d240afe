//! Settings: of the user and of a project, merged.

use crate::config::catalog::{push_unknown, unknown_members};
use crate::config::model::{ConfigWarning, ConfigWarningView};
use crate::config::paths::{home_path, join_path, joined_path, under_home};
use crate::config::thinking::{level_error_text, level_named, ThinkingLevel};
use crate::text::{concat, concat3, is_blank, is_blank_text};
use vstd::prelude::*;

verus! {

/// Whether project context is used.
#[derive(Clone, Copy, Debug, PartialEq, Eq, Structural)]
pub struct ContextSettings {
    pub enabled: bool,
}

impl Default for ContextSettings {
    fn default() -> (res: Self)
        ensures
            res == (ContextSettings { enabled: true }),
    {
        ContextSettings { enabled: true }
    }
}

/// Whether conversations are compacted by themselves.
#[derive(Clone, Copy, Debug, PartialEq, Eq, Structural)]
pub struct CompactionSettings {
    pub enabled: bool,
}

impl Default for CompactionSettings {
    fn default() -> (res: Self)
        ensures
            res == (CompactionSettings { enabled: true }),
    {
        CompactionSettings { enabled: true }
    }
}

/// The settings in force.
#[derive(Debug, PartialEq, Eq)]
pub struct ResolvedSettings {
    pub default_provider: Option<String>,
    pub default_model: Option<String>,
    pub default_thinking_level: Option<ThinkingLevel>,
    pub context: ContextSettings,
    pub compaction: CompactionSettings,
}

/// What a [`ResolvedSettings`] holds.
#[verifier::ext_equal]
pub struct ResolvedSettingsView {
    pub default_provider: Option<Seq<char>>,
    pub default_model: Option<Seq<char>>,
    pub default_thinking_level: Option<ThinkingLevel>,
    pub context: ContextSettings,
    pub compaction: CompactionSettings,
}

impl DeepView for ResolvedSettings {
    type V = ResolvedSettingsView;

    open spec fn deep_view(&self) -> ResolvedSettingsView {
        ResolvedSettingsView {
            default_provider: self.default_provider.deep_view(),
            default_model: self.default_model.deep_view(),
            default_thinking_level: self.default_thinking_level,
            context: self.context,
            compaction: self.compaction,
        }
    }
}

impl Clone for ResolvedSettings {
    fn clone(&self) -> (res: Self)
        ensures
            res.deep_view() == self.deep_view(),
    {
        let res = ResolvedSettings {
            default_provider: self.default_provider.clone(),
            default_model: self.default_model.clone(),
            default_thinking_level: self.default_thinking_level,
            context: self.context,
            compaction: self.compaction,
        };
        assert(res.deep_view() =~~= self.deep_view());
        res
    }
}

/// The settings as they are in force.
pub type Settings = ResolvedSettings;

/// The settings in force, and what was passed over in their files.
#[derive(Debug, PartialEq, Eq)]
pub struct SettingsLoad {
    pub settings: ResolvedSettings,
    pub warnings: Vec<ConfigWarning>,
}

/// What a [`SettingsLoad`] holds.
#[verifier::ext_equal]
pub struct SettingsLoadView {
    pub settings: ResolvedSettingsView,
    pub warnings: Seq<ConfigWarningView>,
}

impl DeepView for SettingsLoad {
    type V = SettingsLoadView;

    open spec fn deep_view(&self) -> SettingsLoadView {
        SettingsLoadView {
            settings: self.settings.deep_view(),
            warnings: self.warnings.deep_view(),
        }
    }
}

impl Clone for SettingsLoad {
    fn clone(&self) -> (res: Self)
        ensures
            res.deep_view() == self.deep_view(),
    {
        let res = SettingsLoad {
            settings: self.settings.clone(),
            warnings: self.warnings.clone(),
        };
        assert(res.deep_view() =~~= self.deep_view());
        res
    }
}

/// Why settings were not taken.
#[derive(Debug, PartialEq, Eq)]
pub enum SettingsError {
    /// They could not be read.
    Io { path: String, message: String },
    /// They could not be parsed.
    Json { path: String, message: String },
    /// They say something that cannot be.
    Invalid { path: String, message: String },
}

/// What a [`SettingsError`] holds.
#[verifier::ext_equal]
pub enum SettingsErrorView {
    Io { path: Seq<char>, message: Seq<char> },
    Json { path: Seq<char>, message: Seq<char> },
    Invalid { path: Seq<char>, message: Seq<char> },
}

impl DeepView for SettingsError {
    type V = SettingsErrorView;

    open spec fn deep_view(&self) -> SettingsErrorView {
        match self {
            SettingsError::Io { path, message } => SettingsErrorView::Io {
                path: path.deep_view(),
                message: message.deep_view(),
            },
            SettingsError::Json { path, message } => SettingsErrorView::Json {
                path: path.deep_view(),
                message: message.deep_view(),
            },
            SettingsError::Invalid { path, message } => SettingsErrorView::Invalid {
                path: path.deep_view(),
                message: message.deep_view(),
            },
        }
    }
}

impl Clone for SettingsError {
    fn clone(&self) -> (res: Self)
        ensures
            res.deep_view() == self.deep_view(),
    {
        let res = match self {
            SettingsError::Io { path, message } => SettingsError::Io {
                path: path.clone(),
                message: message.clone(),
            },
            SettingsError::Json { path, message } => SettingsError::Json {
                path: path.clone(),
                message: message.clone(),
            },
            SettingsError::Invalid { path, message } => SettingsError::Invalid {
                path: path.clone(),
                message: message.clone(),
            },
        };
        assert(res.deep_view() =~~= self.deep_view());
        res
    }
}

/// A member of a file: not there, null, or a value.
#[derive(Debug, PartialEq, Eq)]
pub enum RawField<T> {
    Missing,
    Null,
    Value(T),
}

impl<T: DeepView> DeepView for RawField<T> {
    type V = RawField<T::V>;

    open spec fn deep_view(&self) -> RawField<T::V> {
        match self {
            RawField::Missing => RawField::Missing,
            RawField::Null => RawField::Null,
            RawField::Value(value) => RawField::Value(value.deep_view()),
        }
    }
}

/// The settings of a file; `extra` and its kind name the members that mean nothing.
#[derive(Debug, PartialEq, Eq)]
pub struct RawSettings {
    pub default_provider: RawField<String>,
    pub default_model: RawField<String>,
    pub default_thinking_level: RawField<String>,
    pub context_enabled: RawField<bool>,
    pub compaction_enabled: RawField<bool>,
    pub extra: Vec<String>,
    pub context_extra: Vec<String>,
    pub compaction_extra: Vec<String>,
}

/// What a [`RawSettings`] holds.
#[verifier::ext_equal]
pub struct RawSettingsView {
    pub default_provider: RawField<Seq<char>>,
    pub default_model: RawField<Seq<char>>,
    pub default_thinking_level: RawField<Seq<char>>,
    pub context_enabled: RawField<bool>,
    pub compaction_enabled: RawField<bool>,
    pub extra: Seq<Seq<char>>,
    pub context_extra: Seq<Seq<char>>,
    pub compaction_extra: Seq<Seq<char>>,
}

impl DeepView for RawSettings {
    type V = RawSettingsView;

    open spec fn deep_view(&self) -> RawSettingsView {
        RawSettingsView {
            default_provider: self.default_provider.deep_view(),
            default_model: self.default_model.deep_view(),
            default_thinking_level: self.default_thinking_level.deep_view(),
            context_enabled: self.context_enabled,
            compaction_enabled: self.compaction_enabled,
            extra: self.extra.deep_view(),
            context_extra: self.context_extra.deep_view(),
            compaction_extra: self.compaction_extra.deep_view(),
        }
    }
}

/// What was read of a file of settings.
#[derive(Debug, PartialEq, Eq)]
pub struct SettingsFile {
    pub path: String,
    pub raw: RawSettings,
}

/// What a [`SettingsFile`] holds.
#[verifier::ext_equal]
pub struct SettingsFileView {
    pub path: Seq<char>,
    pub raw: RawSettingsView,
}

impl DeepView for SettingsFile {
    type V = SettingsFileView;

    open spec fn deep_view(&self) -> SettingsFileView {
        SettingsFileView {
            path: self.path.deep_view(),
            raw: self.raw.deep_view(),
        }
    }
}

/// The message of an error.
pub open spec fn settings_error_text(error: SettingsErrorView) -> Seq<char> {
    match error {
        SettingsErrorView::Io { path, message } => "could not read settings "@ + path + (": "@
            + message),
        SettingsErrorView::Json { path, message } => "could not parse settings "@ + path + (": "@
            + message),
        SettingsErrorView::Invalid { path, message } => "invalid settings "@ + path + (": "@
            + message),
    }
}

impl SettingsError {
    /// The message of the error.
    pub fn to_text(&self) -> (res: String)
        ensures
            res@ == settings_error_text(self.deep_view()),
    {
        match self {
            SettingsError::Io { path, message } => concat3(
                "could not read settings ",
                path,
                &concat(": ", message),
            ),
            SettingsError::Json { path, message } => concat3(
                "could not parse settings ",
                path,
                &concat(": ", message),
            ),
            SettingsError::Invalid { path, message } => concat3(
                "invalid settings ",
                path,
                &concat(": ", message),
            ),
        }
    }
}

/// The settings where nothing is set.
pub open spec fn default_settings() -> ResolvedSettingsView {
    ResolvedSettingsView {
        default_provider: None,
        default_model: None,
        default_thinking_level: None,
        context: ContextSettings { enabled: true },
        compaction: CompactionSettings { enabled: true },
    }
}

impl Default for ResolvedSettings {
    fn default() -> (res: Self)
        ensures
            res.deep_view() == default_settings(),
    {
        ResolvedSettings {
            default_provider: None,
            default_model: None,
            default_thinking_level: None,
            context: ContextSettings::default(),
            compaction: CompactionSettings::default(),
        }
    }
}

/// Nothing was read.
pub open spec fn nothing_loaded() -> SettingsLoadView {
    SettingsLoadView { settings: default_settings(), warnings: Seq::empty() }
}

impl Default for SettingsLoad {
    fn default() -> (res: Self)
        ensures
            res.deep_view() == nothing_loaded(),
    {
        let res = SettingsLoad { settings: ResolvedSettings::default(), warnings: Vec::new() };
        assert(res.warnings.deep_view() =~= Seq::<ConfigWarningView>::empty());
        res
    }
}

/// The file of settings of the user.
pub fn default_settings_path(home: Option<&str>, user_profile: Option<&str>) -> (res: Option<
    String,
>)
    ensures
        res.deep_view() == under_home(
            home.deep_view(),
            user_profile.deep_view(),
            ".ri/agent/settings.json"@,
        ),
{
    home_path(home, user_profile, ".ri/agent/settings.json")
}

/// The file of settings of a project.
pub fn project_settings_path(project_root: &str) -> (res: String)
    ensures
        res@ == joined_path(project_root@, ".ri/settings.json"@),
{
    join_path(project_root, ".ri/settings.json")
}

// ---- one file ----

/// Something that cannot be, at a member of a file.
pub open spec fn invalid_member(path: Seq<char>, member: Seq<char>, message: Seq<char>) ->
    SettingsErrorView {
    SettingsErrorView::Invalid { path: path + "."@ + member, message }
}

/// A text that may be set.
pub open spec fn text_setting(value: RawField<Seq<char>>, path: Seq<char>, member: Seq<char>) ->
    Result<Option<Seq<char>>, SettingsErrorView> {
    match value {
        RawField::Missing => Ok(None),
        RawField::Value(text) => if is_blank_text(text) {
            Err(invalid_member(path, member, member + " must be a non-empty string"@))
        } else {
            Ok(Some(text))
        },
        RawField::Null => Err(
            invalid_member(path, member, member + " must be a non-empty string"@),
        ),
    }
}

/// A thinking level that may be set.
pub open spec fn level_setting(value: RawField<Seq<char>>, path: Seq<char>) -> Result<
    Option<ThinkingLevel>,
    SettingsErrorView,
> {
    match value {
        RawField::Missing => Ok(None),
        RawField::Value(text) => match level_named(text) {
            Some(level) => Ok(Some(level)),
            None => Err(
                invalid_member(path, "defaultThinkingLevel"@, level_error_text(text)),
            ),
        },
        RawField::Null => Err(
            invalid_member(
                path,
                "defaultThinkingLevel"@,
                "defaultThinkingLevel must be a valid thinking level"@,
            ),
        ),
    }
}

/// A switch that may be set.
pub open spec fn switch_setting(value: RawField<bool>, path: Seq<char>, member: Seq<char>) ->
    Result<Option<bool>, SettingsErrorView> {
    match value {
        RawField::Missing => Ok(None),
        RawField::Value(value) => Ok(Some(value)),
        RawField::Null => Err(invalid_member(path, member, member + " must be a boolean"@)),
    }
}

/// The settings of a file, as far as they are set.
#[verifier::ext_equal]
pub struct PartialSettings {
    pub default_provider: Option<Seq<char>>,
    pub default_model: Option<Seq<char>>,
    pub default_thinking_level: Option<ThinkingLevel>,
    pub context: Option<bool>,
    pub compaction: Option<bool>,
}

/// The settings of a file, or the first of them that cannot be.
pub open spec fn settings_in(raw: RawSettingsView, path: Seq<char>) -> Result<
    PartialSettings,
    SettingsErrorView,
> {
    match text_setting(raw.default_provider, path, "defaultProvider"@) {
        Err(error) => Err(error),
        Ok(default_provider) => match text_setting(raw.default_model, path, "defaultModel"@) {
            Err(error) => Err(error),
            Ok(default_model) => match level_setting(raw.default_thinking_level, path) {
                Err(error) => Err(error),
                Ok(default_thinking_level) => match switch_setting(
                    raw.context_enabled,
                    path,
                    "context.enabled"@,
                ) {
                    Err(error) => Err(error),
                    Ok(context) => match switch_setting(
                        raw.compaction_enabled,
                        path,
                        "compaction.enabled"@,
                    ) {
                        Err(error) => Err(error),
                        Ok(compaction) => Ok(
                            PartialSettings {
                                default_provider,
                                default_model,
                                default_thinking_level,
                                context,
                                compaction,
                            },
                        ),
                    },
                },
            },
        },
    }
}

/// Settings with those of a file over them: what the file sets counts.
pub open spec fn overridden(settings: ResolvedSettingsView, by: PartialSettings) ->
    ResolvedSettingsView {
    ResolvedSettingsView {
        default_provider: if by.default_provider is Some {
            by.default_provider
        } else {
            settings.default_provider
        },
        default_model: if by.default_model is Some {
            by.default_model
        } else {
            settings.default_model
        },
        default_thinking_level: if by.default_thinking_level is Some {
            by.default_thinking_level
        } else {
            settings.default_thinking_level
        },
        context: match by.context {
            Some(enabled) => ContextSettings { enabled },
            None => settings.context,
        },
        compaction: match by.compaction {
            Some(enabled) => CompactionSettings { enabled },
            None => settings.compaction,
        },
    }
}

/// What is passed over in a file.
pub open spec fn settings_warnings(raw: RawSettingsView) -> Seq<ConfigWarningView> {
    unknown_members("settings."@, raw.extra, "unknown field"@) + unknown_members(
        "settings.context."@,
        raw.context_extra,
        "unknown field"@,
    ) + unknown_members("settings.compaction."@, raw.compaction_extra, "unknown field"@)
}

/// What was loaded, with a file over it.
pub open spec fn file_applied(load: SettingsLoadView, file: SettingsFileView) -> Result<
    SettingsLoadView,
    SettingsErrorView,
> {
    match settings_in(file.raw, file.path) {
        Err(error) => Err(error),
        Ok(by) => Ok(
            SettingsLoadView {
                settings: overridden(load.settings, by),
                warnings: load.warnings + settings_warnings(file.raw),
            },
        ),
    }
}

/// What was loaded, with a file over it where there is one.
pub open spec fn maybe_applied(
    load: Result<SettingsLoadView, SettingsErrorView>,
    file: Option<SettingsFileView>,
) -> Result<SettingsLoadView, SettingsErrorView> {
    match (load, file) {
        (Ok(load), Some(file)) => file_applied(load, file),
        _ => load,
    }
}

/// The settings of the user with those of a project over them.
pub open spec fn settings_loaded(
    global: Option<SettingsFileView>,
    project: Option<SettingsFileView>,
) -> Result<SettingsLoadView, SettingsErrorView> {
    maybe_applied(maybe_applied(Ok(nothing_loaded()), global), project)
}

fn invalid(path: &str, member: &str, message: String) -> (res: SettingsError)
    ensures
        res.deep_view() == invalid_member(path@, member@, message@),
{
    SettingsError::Invalid { path: concat3(path, ".", member), message }
}

fn optional_string(value: &RawField<String>, path: &str, field: &str) -> (res: Result<
    Option<String>,
    SettingsError,
>)
    ensures
        match (res, text_setting(value.deep_view(), path@, field@)) {
            (Ok(text), Ok(expected)) => text.deep_view() == expected,
            (Err(error), Err(expected)) => error.deep_view() == expected,
            _ => false,
        },
{
    if let RawField::Missing = value {
        return Ok(None);
    }
    if let RawField::Value(text) = value {
        if !is_blank(text) {
            return Ok(Some(text.clone()));
        }
    }
    Err(invalid(path, field, concat(field, " must be a non-empty string")))
}

fn optional_thinking_level(value: &RawField<String>, path: &str) -> (res: Result<
    Option<ThinkingLevel>,
    SettingsError,
>)
    ensures
        match (res, level_setting(value.deep_view(), path@)) {
            (Ok(level), Ok(expected)) => level == expected,
            (Err(error), Err(expected)) => error.deep_view() == expected,
            _ => false,
        },
{
    match value {
        RawField::Missing => Ok(None),
        RawField::Null => Err(
            invalid(
                path,
                "defaultThinkingLevel",
                "defaultThinkingLevel must be a valid thinking level".to_owned(),
            ),
        ),
        RawField::Value(text) => match ThinkingLevel::parse(text) {
            Ok(level) => Ok(Some(level)),
            Err(error) => Err(invalid(path, "defaultThinkingLevel", error.to_text())),
        },
    }
}

fn optional_bool(value: &RawField<bool>, path: &str, field: &str) -> (res: Result<
    Option<bool>,
    SettingsError,
>)
    ensures
        match (res, switch_setting(*value, path@, field@)) {
            (Ok(value), Ok(expected)) => value == expected,
            (Err(error), Err(expected)) => error.deep_view() == expected,
            _ => false,
        },
{
    match value {
        RawField::Missing => Ok(None),
        RawField::Null => Err(invalid(path, field, concat(field, " must be a boolean"))),
        RawField::Value(value) => Ok(Some(*value)),
    }
}

/// Puts the settings of a file over what was loaded. Where one of them cannot be, the settings stay
/// as they are.
pub fn apply_raw_settings(load: &mut SettingsLoad, file: &SettingsFile) -> (res: Result<
    (),
    SettingsError,
>)
    ensures
        match (res, file_applied(old(load).deep_view(), file.deep_view())) {
            (Ok(_), Ok(expected)) => final(load).deep_view() == expected,
            (Err(error), Err(expected)) => {
                &&& error.deep_view() == expected
                &&& final(load).deep_view().settings == old(load).deep_view().settings
            },
            _ => false,
        },
{
    let raw = &file.raw;
    let ghost before = load.warnings.deep_view();
    push_unknown(&mut load.warnings, "settings.", &raw.extra, "unknown field");
    push_unknown(&mut load.warnings, "settings.context.", &raw.context_extra, "unknown field");
    push_unknown(
        &mut load.warnings,
        "settings.compaction.",
        &raw.compaction_extra,
        "unknown field",
    );
    assert(load.warnings.deep_view() =~= before + settings_warnings(raw.deep_view()));
    let default_provider = match optional_string(
        &raw.default_provider,
        &file.path,
        "defaultProvider",
    ) {
        Ok(value) => value,
        Err(error) => {
            return Err(error);
        },
    };
    let default_model = match optional_string(&raw.default_model, &file.path, "defaultModel") {
        Ok(value) => value,
        Err(error) => {
            return Err(error);
        },
    };
    let level = match optional_thinking_level(&raw.default_thinking_level, &file.path) {
        Ok(value) => value,
        Err(error) => {
            return Err(error);
        },
    };
    let context = match optional_bool(&raw.context_enabled, &file.path, "context.enabled") {
        Ok(value) => value,
        Err(error) => {
            return Err(error);
        },
    };
    let compaction = match optional_bool(
        &raw.compaction_enabled,
        &file.path,
        "compaction.enabled",
    ) {
        Ok(value) => value,
        Err(error) => {
            return Err(error);
        },
    };
    if default_provider.is_some() {
        load.settings.default_provider = default_provider;
    }
    if default_model.is_some() {
        load.settings.default_model = default_model;
    }
    if level.is_some() {
        load.settings.default_thinking_level = level;
    }
    if let Some(enabled) = context {
        load.settings.context = ContextSettings { enabled };
    }
    if let Some(enabled) = compaction {
        load.settings.compaction = CompactionSettings { enabled };
    }
    Ok(())
}

/// The settings of the user with those of a project over them; each is what was read at its path,
/// where there was a file.
pub fn load_settings_from_paths(
    global: Option<&SettingsFile>,
    project: Option<&SettingsFile>,
) -> (res: Result<SettingsLoad, SettingsError>)
    ensures
        match (res, settings_loaded(global.deep_view(), project.deep_view())) {
            (Ok(load), Ok(expected)) => load.deep_view() == expected,
            (Err(error), Err(expected)) => error.deep_view() == expected,
            _ => false,
        },
{
    let mut load = SettingsLoad::default();
    if let Some(file) = global {
        if let Err(error) = apply_raw_settings(&mut load, file) {
            return Err(error);
        }
    }
    if let Some(file) = project {
        if let Err(error) = apply_raw_settings(&mut load, file) {
            return Err(error);
        }
    }
    Ok(load)
}

/// What a project sets counts, whatever the user set; what it does not set stays as the user set
/// it.
pub proof fn lemma_projects_override(global: SettingsFileView, project: SettingsFileView)
    requires
        settings_in(global.raw, global.path) is Ok,
        settings_in(project.raw, project.path) is Ok,
    ensures
        ({
            let user = settings_loaded(Some(global), None)->Ok_0.settings;
            let both = settings_loaded(Some(global), Some(project))->Ok_0.settings;
            let set = settings_in(project.raw, project.path)->Ok_0;
            &&& both.default_provider == if set.default_provider is Some {
                set.default_provider
            } else {
                user.default_provider
            }
            &&& both.default_model == if set.default_model is Some {
                set.default_model
            } else {
                user.default_model
            }
            &&& both.default_thinking_level == if set.default_thinking_level is Some {
                set.default_thinking_level
            } else {
                user.default_thinking_level
            }
            &&& both.context.enabled == if set.context is Some {
                set.context->0
            } else {
                user.context.enabled
            }
            &&& both.compaction.enabled == if set.compaction is Some {
                set.compaction->0
            } else {
                user.compaction.enabled
            }
        }),
{
}

} // verus!
