use ri_core::config::catalog::{
    interpolate_env, RawCompatibility, RawModel, RawModelsFile, RawProvider, RawProviderEntry,
};
use ri_core::config::environment::{EnvVariable, Environment};
use ri_core::config::model::Header;
use ri_core::config::paths::{join_path, models_path};
use ri_core::config::settings::{RawField, RawSettings, SettingsFile};
use ri_core::config::state::{
    corrupt_state_name, lock_path, StateRead, WorkspaceEntry, STATE_VERSION,
};
use ri_core::config::{
    default_models_path, default_settings_path, default_state_path, load_settings_from_paths,
    load_state, persist_recent_model, project_settings_path, ApiKind, ConfigError, ConfigWarning,
    ModelCatalog, ModelRef, RecentModel, RecentModelState, ResolvedSettings, SettingsError,
    StateError, ThinkingLevel, WorkspaceRecentModel,
};

fn unset() -> RawCompatibility {
    RawCompatibility {
        supports_developer_role: None,
        supports_reasoning_effort: None,
    }
}

fn model(id: &str) -> RawModel {
    RawModel {
        id: id.to_owned(),
        name: None,
        api: None,
        reasoning: false,
        input: Vec::new(),
        context_window: None,
        max_tokens: None,
        cost: None,
        compat: unset(),
        sampling_params: Vec::new(),
        thinking_level_map: Vec::new(),
        extra: Vec::new(),
    }
}

fn provider(base_url: &str, api: &str, models: Vec<RawModel>) -> RawProvider {
    RawProvider {
        base_url: base_url.to_owned(),
        api: Some(api.to_owned()),
        api_key: None,
        headers: Vec::new(),
        auth_header: None,
        compat: unset(),
        models,
        extra: Vec::new(),
    }
}

fn file(providers: Vec<(&str, RawProvider)>) -> RawModelsFile {
    RawModelsFile {
        providers: providers
            .into_iter()
            .map(|(id, provider)| RawProviderEntry {
                id: id.to_owned(),
                provider,
            })
            .collect(),
        extra: Vec::new(),
    }
}

fn variables(pairs: &[(&str, &str)]) -> Environment {
    Environment {
        variables: pairs
            .iter()
            .map(|(name, value)| EnvVariable {
                name: (*name).to_owned(),
                value: (*value).to_owned(),
            })
            .collect(),
    }
}

fn catalog(raw: &RawModelsFile) -> Result<ModelCatalog, ConfigError> {
    ModelCatalog::from_raw("models.json", raw, &variables(&[]))
}

fn no_settings() -> RawSettings {
    RawSettings {
        default_provider: RawField::Missing,
        default_model: RawField::Missing,
        default_thinking_level: RawField::Missing,
        context_enabled: RawField::Missing,
        compaction_enabled: RawField::Missing,
        extra: Vec::new(),
        context_extra: Vec::new(),
        compaction_extra: Vec::new(),
    }
}

fn settings_file(raw: RawSettings) -> SettingsFile {
    SettingsFile {
        path: "settings.json".to_owned(),
        raw,
    }
}

fn text(value: &str) -> RawField<String> {
    RawField::Value(value.to_owned())
}

#[test]
fn levels_parse_and_display_canonically() {
    for level in ThinkingLevel::ALL {
        assert_eq!(level.as_str().parse::<ThinkingLevel>().unwrap(), level);
        assert_eq!(ThinkingLevel::parse(level.as_str()).unwrap(), level);
    }
    assert_eq!("MAX".parse::<ThinkingLevel>().unwrap(), ThinkingLevel::Max);
}

#[test]
fn invalid_levels_are_actionable() {
    let error = "extreme".parse::<ThinkingLevel>().unwrap_err();
    assert_eq!(error.to_text(), "invalid thinking level \"extreme\"; expected off, minimal, low, medium, high, xhigh, or max");
}

#[test]
fn levels_are_ordered_from_off_to_max() {
    assert!(ThinkingLevel::Off < ThinkingLevel::Minimal);
    assert!(ThinkingLevel::Minimal < ThinkingLevel::Low);
    assert!(ThinkingLevel::Low < ThinkingLevel::Medium);
    assert!(ThinkingLevel::Medium < ThinkingLevel::High);
    assert!(ThinkingLevel::High < ThinkingLevel::XHigh);
    assert!(ThinkingLevel::XHigh < ThinkingLevel::Max);
}

#[test]
fn parses_models_and_resolves_selection() {
    let mut coding = model("coding");
    coding.name = Some("Coding Model".to_owned());
    coding.reasoning = true;
    coding.context_window = Some(100_000);
    coding.max_tokens = Some(4_096);
    coding.compat.supports_developer_role = Some(true);
    let mut custom = provider(
        "https://example.test/v1",
        "openai-completions",
        vec![coding],
    );
    custom.api_key = Some("literal-key".to_owned());

    let found = catalog(&file(vec![("custom", custom)])).expect("config should parse");
    let model_found = found
        .resolve(Some("custom"), Some("coding"))
        .expect("model should resolve");
    assert_eq!(model_found.api, ApiKind::OpenAiCompletions);
    assert_eq!(model_found.model_ref.display_name(), "custom/coding");
    assert!(model_found.reasoning);
    assert!(model_found.compatibility.supports_developer_role);
    assert_eq!(model_found.api_key.as_deref(), Some("literal-key"));
    assert_eq!(model_found.limits().context_window, Some(100_000));

    let multiple = catalog(&file(vec![(
        "p",
        provider(
            "https://example.test",
            "openai-responses",
            vec![model("first"), model("second")],
        ),
    )]))
    .expect("multiple models should parse");
    assert_eq!(
        multiple.resolve(None, None).unwrap().model_ref.model,
        "first"
    );
    assert_eq!(
        multiple.resolve(Some("p"), None).unwrap().model_ref.model,
        "first"
    );
    assert_eq!(
        multiple
            .resolve(None, Some("p/second"))
            .unwrap()
            .model_ref
            .model,
        "second"
    );
}

#[test]
fn interpolates_plain_and_braced_environment_variables() {
    let env = variables(&[("RI_CONFIG_TEST_TOKEN", "secret")]);
    assert_eq!(
        interpolate_env(
            "Bearer $RI_CONFIG_TEST_TOKEN / ${RI_CONFIG_TEST_TOKEN}",
            "apiKey",
            &env
        )
        .expect("variable should resolve"),
        "Bearer secret / secret"
    );
}

#[test]
fn doubled_dollars_and_broken_references() {
    let env = variables(&[("A", "x")]);
    assert_eq!(interpolate_env("$$A costs $A", "p", &env).unwrap(), "$A costs x");
    for plain in ["$", "${A", "$-", "a$ b"] {
        assert_eq!(interpolate_env(plain, "p", &env).unwrap(), plain);
    }
    assert!(matches!(
        interpolate_env("${}", "somewhere", &env),
        Err(ConfigError::Invalid(message)) if message.contains("somewhere")
    ));
}

#[test]
fn unknown_fields_become_warnings() {
    let mut m = model("m");
    m.extra = vec!["futureModelField".to_owned()];
    let mut p = provider("https://example.test", "openai-responses", vec![m]);
    p.extra = vec!["futureProviderField".to_owned()];
    let mut raw = file(vec![("p", p)]);
    raw.extra = vec!["futureTopLevelField".to_owned()];
    let catalog = catalog(&raw).expect("config should parse");

    assert_eq!(catalog.warnings().len(), 3);
}

#[test]
fn missing_environment_variable_is_actionable() {
    let error = interpolate_env(
        "$RI_CONFIG_MISSING_VARIABLE",
        "headers.X-Key",
        &variables(&[]),
    )
    .expect_err("missing variable should fail");
    assert!(error.to_text().contains("RI_CONFIG_MISSING_VARIABLE"));
    assert!(error.to_text().contains("headers.X-Key"));
}

#[test]
fn addresses_and_protocols_are_checked() {
    for base_url in ["not a url", "ftp://example.test", "data:text/plain,x"] {
        assert!(matches!(
            catalog(&file(vec![(
                "p",
                provider(base_url, "openai-responses", vec![model("m")])
            )])),
            Err(ConfigError::Invalid(_))
        ));
    }
    assert!(catalog(&file(vec![(
        "p",
        provider("https://example.test", "smoke-signals", vec![model("m")])
    )]))
    .is_err());
    assert!(ApiKind::parse("openai-responses") == Ok(ApiKind::OpenAiResponses));
    assert_eq!(ApiKind::OpenAiCompletions.as_str(), "openai-completions");
}

#[test]
fn selections_that_name_nothing_are_refused() {
    let found = catalog(&file(vec![(
        "p",
        provider("https://example.test", "openai-responses", vec![model("m")]),
    )]))
    .unwrap();
    assert!(found.resolve(Some("q"), None).is_err());
    assert!(found.resolve(Some("p"), Some("n")).is_err());
    assert!(found.resolve(None, Some("p/n")).is_err());
    assert!(catalog(&file(vec![])).and_then(|c| c.resolve(None, None)).is_err());
    assert_eq!(found.model_refs(), [ModelRef::new("p", "m")]);
    assert_eq!(found.models().len(), 1);
}

#[test]
fn headers_and_keys_refer_to_the_environment() {
    let mut p = provider("https://example.test", "openai-responses", vec![model("m")]);
    p.api_key = Some("$KEY".to_owned());
    p.headers = vec![Header {
        name: "X-A".to_owned(),
        value: "v-${KEY}".to_owned(),
    }];
    let found = ModelCatalog::from_raw(
        "models.json",
        &file(vec![("p", p)]),
        &variables(&[("KEY", "k")]),
    )
    .unwrap();
    let resolved = found.resolve(None, None).unwrap();
    assert_eq!(resolved.api_key.as_deref(), Some("k"));
    assert_eq!(resolved.headers[0].value, "v-k");
    assert!(resolved.auth_header);
}

#[test]
fn missing_settings_keep_builtin_defaults() {
    let load = load_settings_from_paths(None, None).unwrap();

    assert_eq!(load.settings, ResolvedSettings::default());
    assert!(load.warnings.is_empty());
}

#[test]
fn project_settings_override_global_values_and_merge_context() {
    let global = settings_file(RawSettings {
        default_provider: text("remote"),
        default_model: text("general"),
        context_enabled: RawField::Value(true),
        ..no_settings()
    });
    let project = settings_file(RawSettings {
        default_model: text("coding"),
        context_enabled: RawField::Value(false),
        ..no_settings()
    });

    let load = load_settings_from_paths(Some(&global), Some(&project)).unwrap();

    assert_eq!(load.settings.default_provider.as_deref(), Some("remote"));
    assert_eq!(load.settings.default_model.as_deref(), Some("coding"));
    assert!(!load.settings.context.enabled);
}

#[test]
fn compaction_setting_merges_with_project_precedence() {
    let global = settings_file(RawSettings {
        compaction_enabled: RawField::Value(false),
        ..no_settings()
    });
    let project = settings_file(RawSettings {
        compaction_enabled: RawField::Value(true),
        ..no_settings()
    });

    let load = load_settings_from_paths(Some(&global), Some(&project)).unwrap();

    assert!(load.settings.compaction.enabled);
}

#[test]
fn max_default_thinking_level_is_accepted() {
    let path = settings_file(RawSettings {
        default_thinking_level: text("max"),
        ..no_settings()
    });

    let load = load_settings_from_paths(Some(&path), None).unwrap();

    assert_eq!(
        load.settings.default_thinking_level,
        Some(ThinkingLevel::Max)
    );
}

#[test]
fn unknown_levels_in_settings_are_refused() {
    let path = settings_file(RawSettings {
        default_thinking_level: text("extreme"),
        ..no_settings()
    });
    assert!(matches!(
        load_settings_from_paths(Some(&path), None),
        Err(SettingsError::Invalid { .. })
    ));
}

#[test]
fn unknown_fields_are_warnings_with_stable_paths() {
    let path = settings_file(RawSettings {
        extra: vec!["future".to_owned()],
        context_extra: vec!["futureEnabledMode".to_owned()],
        ..no_settings()
    });

    let load = load_settings_from_paths(Some(&path), None).unwrap();

    assert_eq!(
        load.warnings,
        vec![
            ConfigWarning {
                path: "settings.future".to_owned(),
                message: "unknown field".to_owned(),
            },
            ConfigWarning {
                path: "settings.context.futureEnabledMode".to_owned(),
                message: "unknown field".to_owned(),
            },
        ]
    );
}

#[test]
fn empty_model_selections_are_rejected() {
    for (field, raw) in [
        (
            "defaultProvider",
            RawSettings {
                default_provider: text("  "),
                ..no_settings()
            },
        ),
        (
            "defaultModel",
            RawSettings {
                default_model: text(""),
                ..no_settings()
            },
        ),
    ] {
        let error = load_settings_from_paths(Some(&settings_file(raw)), None).unwrap_err();
        assert!(error.to_text().contains(field));
    }
}

#[test]
fn null_known_values_are_not_treated_as_unset() {
    for (field, raw) in [
        (
            "defaultProvider",
            RawSettings {
                default_provider: RawField::Null,
                ..no_settings()
            },
        ),
        (
            "defaultModel",
            RawSettings {
                default_model: RawField::Null,
                ..no_settings()
            },
        ),
        (
            "context.enabled",
            RawSettings {
                context_enabled: RawField::Null,
                ..no_settings()
            },
        ),
    ] {
        let error = load_settings_from_paths(Some(&settings_file(raw)), None).unwrap_err();
        assert!(error.to_text().contains(field));
    }
}

#[test]
fn recent_state_round_trips_global_and_workspace_models() {
    let first_workspace = "a43bd19c5e1b4b2f89e114ad2b61ec33";
    let second_workspace = "b43bd19c5e1b4b2f89e114ad2b61ec33";
    let first_model = ModelRef::new("local", "qwen");
    let second_model = ModelRef::new("remote", "coder");

    let first = persist_recent_model(StateRead::Missing, first_workspace, &first_model)
        .expect("state should persist");
    let second = persist_recent_model(
        StateRead::Parsed(first.state),
        second_workspace,
        &second_model,
    )
    .expect("state should preserve other workspaces");
    let state = load_state(StateRead::Parsed(second.state))
        .expect("state should load")
        .expect("state should exist");

    assert_eq!(state.version, STATE_VERSION);
    assert_eq!(state.last_model, Some(RecentModel::of(&second_model)));
    assert_eq!(
        state.workspace_model(first_workspace),
        Some(&RecentModel::of(&first_model))
    );
    assert_eq!(
        state.workspace_model(second_workspace),
        Some(&RecentModel::of(&second_model))
    );
    assert_eq!(state.last_model.unwrap().to_model_ref(), second_model);
}

#[test]
fn missing_state_is_normal() {
    assert_eq!(
        load_state(StateRead::Missing).expect("missing state should load"),
        None
    );
}

#[test]
fn malformed_or_unsupported_state_is_rejected() {
    let malformed = || {
        StateRead::Failed(StateError::Json {
            path: "state.json".to_owned(),
            message: "expected ident".to_owned(),
        })
    };
    assert!(matches!(
        load_state(malformed()),
        Err(StateError::Json { .. })
    ));

    let model = ModelRef::new("provider", "model");
    let recovered = persist_recent_model(malformed(), "workspace", &model)
        .expect("malformed state should be recovered during persistence");
    assert!(recovered.preserve_corrupt);
    assert_eq!(recovered.state.version, STATE_VERSION);
    assert_eq!(recovered.state.last_model, Some(RecentModel::of(&model)));
    assert_eq!(corrupt_state_name("state.json", 0), "state.json.corrupt");

    let unsupported = || {
        StateRead::Parsed(RecentModelState {
            version: 99,
            last_model: None,
            workspaces: Vec::new(),
        })
    };
    assert!(matches!(
        load_state(unsupported()),
        Err(StateError::UnsupportedVersion { version: 99 })
    ));
    let error = persist_recent_model(unsupported(), "workspace", &model)
        .expect_err("future state versions must not be overwritten");
    assert!(matches!(
        error,
        StateError::UnsupportedVersion { version: 99 }
    ));
}

#[test]
fn a_state_that_cannot_be_read_is_not_overwritten() {
    let failed = StateRead::Failed(StateError::Io {
        path: "state.json".to_owned(),
        operation: "reading state".to_owned(),
        message: "denied".to_owned(),
    });
    let error = persist_recent_model(failed, "w", &ModelRef::new("p", "m")).unwrap_err();
    assert!(error.to_text().contains("reading state"));
    assert!(error.to_text().contains("denied"));
}

#[test]
fn a_workspace_that_is_used_again_keeps_one_entry() {
    let mut state = RecentModelState {
        version: STATE_VERSION,
        last_model: None,
        workspaces: vec![WorkspaceEntry {
            id: "w".to_owned(),
            recent: WorkspaceRecentModel { last_model: None },
        }],
    };
    state.use_model("w", &ModelRef::new("p", "m"));
    assert_eq!(state.workspaces.len(), 1);
    assert_eq!(
        state.workspace_model("w"),
        Some(&RecentModel::of(&ModelRef::new("p", "m")))
    );
    assert_eq!(state.workspace_model("other"), None);
}

#[test]
fn files_stand_under_the_home_directory() {
    assert_eq!(
        default_models_path(Some("/home/a"), Some("C:/b")).as_deref(),
        Some("/home/a/.ri/agent/models.json")
    );
    assert_eq!(
        default_models_path(None, Some("/b/")).as_deref(),
        Some("/b/.ri/agent/models.json")
    );
    assert_eq!(default_models_path(None, None), None);
    assert_eq!(
        models_path(Some("x.json"), None, None).as_deref(),
        Some("x.json")
    );
    assert_eq!(
        default_settings_path(Some("/h"), None).as_deref(),
        Some("/h/.ri/agent/settings.json")
    );
    assert_eq!(project_settings_path("/p"), "/p/.ri/settings.json");
    assert_eq!(
        default_state_path(Some("/h"), None).as_deref(),
        Some("/h/.ri/agent/state.json")
    );
    assert_eq!(lock_path("/h/state.json"), "/h/state.json.lock");
    assert_eq!(join_path("", "a"), "a");
}

#[test]
fn a_protocol_is_read_from_its_name() {
    assert_eq!("openai-responses".parse::<ApiKind>().unwrap(), ApiKind::OpenAiResponses);
    let error = "other".parse::<ApiKind>().unwrap_err();
    assert!(error.to_text().contains("unsupported model API \"other\""));
    assert_eq!(WorkspaceRecentModel::default().last_model, None);
}
