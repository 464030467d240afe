use ri_core::agent::compaction::{plan_compaction, CompactionError};
use ri_core::agent::forward::tool_error_result;
use ri_core::config::environment::{interpolate, EnvVariable, Environment, InterpolationError};
use ri_core::config::catalog::interpolate_env;
use ri_core::context::agents::{CandidateRead, CandidateStat, ContentRead, DirectoryRead, PathRead};
use ri_core::context::{load_context, ContextError, ContextFileKind, ProjectError};
use ri_core::plugin::host::{activation_failed, start_failed};
use ri_core::plugin::process::cleanup_error;
use ri_core::plugin::protocol::{decode_plugin_message, ProtocolError};
use ri_core::plugin::tools::tools_of_answer;
use ri_core::plugin::{
    ExternalToolError, PluginActivationError, PluginDiagnostics, PluginEntrypoint, PluginManifest,
    PluginManifestError, PluginProcessError, PluginShutdownFailure,
};
use ri_core::{
    ConfigError, ConversationHistory, ModelLimits, ModelMessage, SettingsError, ToolError,
};

fn text(value: &str) -> String {
    value.to_owned()
}

#[test]
fn compactions_end_without_history_or_by_cancellation() {
    let empty = ConversationHistory::new(None, Vec::new());
    let stop = plan_compaction(&[], &empty, &[], ModelLimits::default(), 0, true, true)
        .err()
        .unwrap();
    assert!(matches!(stop.error, CompactionError::NoHistory));
    assert!(stop.report.is_none());
    let history = ConversationHistory::new(
        None,
        vec![ModelMessage::user("a"), ModelMessage::user("b")],
    );
    let plan = plan_compaction(&[], &history, &[], ModelLimits::default(), 0, true, true)
        .unwrap_or_else(|_| panic!("one request stands before the current one"));
    let stop = plan.begin(true).err().unwrap();
    assert!(matches!(stop.error, CompactionError::Cancelled));
    assert!(stop.report.is_some());
}

#[test]
fn configuration_errors_name_what_they_are_about() {
    let env = Environment {
        variables: vec![EnvVariable {
            name: text("SET"),
            value: text("yes"),
        }],
    };
    assert_eq!(interpolate("${SET}!", &env), Ok(text("yes!")));
    assert_eq!(interpolate("${}", &env), Err(InterpolationError::Empty));
    assert_eq!(
        interpolate("$UNSET", &env),
        Err(InterpolationError::Missing(text("UNSET")))
    );
    let error = interpolate_env("$UNSET", "providers.p.apiKey", &env).unwrap_err();
    assert_eq!(
        error,
        ConfigError::MissingEnv {
            variable: text("UNSET"),
            path: text("providers.p.apiKey"),
        }
    );
    assert_eq!(
        error.to_text(),
        "environment variable UNSET referenced by providers.p.apiKey is not set"
    );
    let io = ConfigError::Io {
        path: text("m.json"),
        message: text("no"),
    };
    assert_eq!(io.to_text(), "could not read models config m.json: no");
    let json = ConfigError::Json {
        path: text("m.json"),
        message: text("no"),
    };
    assert_eq!(json.to_text(), "could not parse models config m.json: no");
    let io = SettingsError::Io {
        path: text("s.json"),
        message: text("no"),
    };
    assert_eq!(io.to_text(), "could not read settings s.json: no");
    let json = SettingsError::Json {
        path: text("s.json"),
        message: text("no"),
    };
    assert_eq!(json.to_text(), "could not parse settings s.json: no");
}

fn candidate(stat: CandidateStat) -> CandidateRead {
    CandidateRead {
        path: text("/root/AGENTS.md"),
        stat,
        canonical: PathRead::Found(text("/root/AGENTS.md")),
        content: ContentRead::Bytes(b"hello".to_vec()),
    }
}

fn context_error(agents_file: CandidateRead) -> ContextError {
    let directory = DirectoryRead {
        kind: ContextFileKind::Agents,
        override_file: CandidateRead {
            path: text("/root/AGENTS.override.md"),
            stat: CandidateStat::Missing,
            canonical: PathRead::Failed(text("missing")),
            content: ContentRead::OpenFailed(text("missing")),
        },
        agents_file,
    };
    load_context("/root", "/root", &vec![directory]).unwrap_err()
}

#[test]
fn files_of_instructions_fail_at_every_step() {
    for stat in [CandidateStat::Other, CandidateStat::LinkToOther] {
        let error = context_error(candidate(stat));
        assert_eq!(
            error,
            ContextError::NotAFile {
                path: text("/root/AGENTS.md")
            }
        );
        assert_eq!(
            error.to_text(),
            "context file /root/AGENTS.md is not a regular file"
        );
    }
    let io = |operation: &str| ContextError::Io {
        operation: text(operation),
        path: text("/root/AGENTS.md"),
        message: text("no"),
    };
    assert_eq!(
        context_error(candidate(CandidateStat::Unreadable(text("no")))),
        io("inspect")
    );
    assert_eq!(
        context_error(candidate(CandidateStat::BrokenLink(text("no")))),
        io("resolve")
    );
    let mut read = candidate(CandidateStat::LinkToFile(5));
    read.canonical = PathRead::Failed(text("no"));
    assert_eq!(context_error(read), io("canonicalize"));
    let mut read = candidate(CandidateStat::File(5));
    read.content = ContentRead::OpenFailed(text("no"));
    assert_eq!(context_error(read), io("open"));
    let mut read = candidate(CandidateStat::File(5));
    read.content = ContentRead::ReadFailed(text("no"));
    assert_eq!(context_error(read), io("read"));
    assert_eq!(
        io("read").to_text(),
        "could not read context file /root/AGENTS.md: no"
    );
}

#[test]
fn directories_that_do_not_fit_are_named() {
    let error = ContextError::Canonicalize {
        label: text("launch cwd"),
        path: text("/x"),
        message: text("no"),
    };
    assert_eq!(error.to_text(), "could not canonicalize launch cwd /x: no");
    let error = ContextError::NotDirectory {
        label: text("project root"),
        path: text("/x"),
    };
    assert_eq!(error.to_text(), "project root is not a directory: /x");
    let error = ContextError::InvalidHierarchy {
        launch_cwd: text("/a"),
        project_root: text("/b"),
    };
    assert_eq!(
        error.to_text(),
        "project root /b is not an ancestor of launch cwd /a"
    );
    let error = ProjectError::Canonicalize {
        path: text("/x"),
        message: text("no"),
    };
    assert_eq!(error.to_text(), "could not canonicalize launch cwd /x: no");
}

fn manifest() -> PluginManifest {
    PluginManifest {
        manifest_version: 1,
        id: text("dev.example.echo"),
        name: text("Echo"),
        version: text("0.1.0"),
        protocol_version: text("ri.plugin.v1"),
        entrypoint: PluginEntrypoint {
            command: text("./echo"),
            args: Vec::new(),
        },
    }
}

#[test]
fn manifests_are_refused_for_one_reason_each() {
    let mut wrong = manifest();
    wrong.manifest_version = 2;
    let error = wrong.validate("p.json").unwrap_err();
    assert_eq!(
        error,
        PluginManifestError::UnsupportedManifestVersion {
            path: text("p.json"),
            value: 2
        }
    );
    assert_eq!(
        error.to_text(),
        "manifest p.json: unsupported manifest version 2"
    );
    let mut wrong = manifest();
    wrong.protocol_version = text("v2");
    let error = wrong.validate("p.json").unwrap_err();
    assert_eq!(
        error,
        PluginManifestError::UnsupportedProtocolVersion {
            path: text("p.json"),
            value: text("v2")
        }
    );
    assert_eq!(
        error.to_text(),
        "manifest p.json: unsupported protocol version v2"
    );
    let mut wrong = manifest();
    wrong.entrypoint.command = text(" ");
    let error = wrong.validate("p.json").unwrap_err();
    assert!(
        matches!(&error, PluginManifestError::InvalidField { field, value, .. } if field == "entrypoint.command" && value == " ")
    );
    assert_eq!(
        error.to_text(),
        "manifest p.json: invalid entrypoint.command: \" \""
    );
    let wrapped = PluginProcessError::Manifest(error);
    assert_eq!(
        wrapped.to_text(),
        "invalid plugin manifest: manifest p.json: invalid entrypoint.command: \" \""
    );
}

#[test]
fn processes_and_hosts_say_what_went_wrong() {
    assert_eq!(
        PluginProcessError::Spawn(text("no")).to_text(),
        "could not spawn plugin: no"
    );
    assert_eq!(
        PluginProcessError::Reap(text("no")).to_text(),
        "could not reap plugin: no"
    );
    let stderr = || PluginDiagnostics {
        text: text("oops"),
        truncated: false,
    };
    let error = cleanup_error(PluginProcessError::StartupTimeout, Ok(()), stderr());
    assert!(
        matches!(&error, PluginProcessError::Diagnostics { source, .. } if matches!(**source, PluginProcessError::StartupTimeout))
    );
    assert_eq!(
        error.to_text(),
        "plugin initialization timed out; stderr: PluginDiagnostics { text: \"oops\", truncated: false }"
    );
    let error = cleanup_error(
        PluginProcessError::StartupTimeout,
        Err(text("gone")),
        stderr(),
    );
    assert!(
        matches!(&error, PluginProcessError::Diagnostics { source, .. } if matches!(**source, PluginProcessError::Reap(_)))
    );
    let error = start_failed("p", PluginProcessError::StartupTimeout);
    assert!(matches!(error, PluginActivationError::Start { .. }));
    let failure = PluginShutdownFailure {
        plugin_id: text("q"),
        message: text("stuck"),
    };
    let error = activation_failed(error, vec![failure]);
    assert!(matches!(error, PluginActivationError::Cleanup { .. }));
    assert_eq!(
        error.to_text(),
        "plugin activation failed: could not start plugin \"p\": plugin initialization timed out; cleanup failures: [PluginShutdownFailure { plugin_id: \"q\", message: \"stuck\" }]"
    );
    let error = PluginActivationError::ToolsTimeout {
        plugin_id: text("p"),
    };
    assert_eq!(
        error.to_text(),
        "could not load tools from plugin \"p\": tools/list timed out"
    );
    let error =
        tools_of_answer("p", Err(PluginProcessError::Transport(text("closed")))).unwrap_err();
    assert!(matches!(error, ExternalToolError::Process { .. }));
    assert_eq!(
        error.to_text(),
        "plugin \"p\" request failed: plugin transport: closed"
    );
}

#[test]
fn frames_are_refused_as_text_or_as_messages() {
    assert!(matches!(
        decode_plugin_message("not json"),
        Err(ProtocolError::Json(_))
    ));
    assert!(matches!(
        decode_plugin_message("[]"),
        Err(ProtocolError::Invalid(_))
    ));
}

#[test]
fn a_failed_tool_is_no_cancelled_one() {
    let error = ToolError::Failed {
        message: text("no such file"),
    };
    let result = tool_error_result(&error, false);
    assert_eq!(result.model_content, "Tool error: no such file");
    assert!(!result.metadata.cancelled);
    let result = tool_error_result(&error, true);
    assert_eq!(result.model_content, "Tool execution cancelled by user.");
    assert!(result.metadata.cancelled);
}
