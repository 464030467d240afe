use ri_core::plugin::host::{
    activation_failed, shutdown_failures, start_failed, stop_order, EndedPlugin, ToolsOutcome,
};
use ri_core::plugin::installed::{ManifestRead, Resolution};
use ri_core::plugin::manifest::{is_valid_plugin_id, validate_plugin_id_value};
use ri_core::plugin::process::{
    cleanup_error, initialized, program_of, shutdown_next, signed_decimal, Dispatch, ExitReport,
    Frame, Received, ShutdownAction, ShutdownEvent, StderrCapture,
};
use ri_core::plugin::protocol::{
    decode_plugin_message, encode_request, interpret_message, HostIdentity, InitializeParams,
    ProtocolError, RpcErrorObject,
};
use ri_core::plugin::tools::{register_into, tools_of_answer, validate_definitions};
use ri_core::plugin::{
    builtin_plugins, default_plugins_dir, load_plugin_manifest, resolve_installed_plugins,
    ExternalToolError, InstalledPluginError, LoadedPluginManifest, PluginActivationError,
    PluginCapabilities, PluginDiagnostics, PluginEntrypoint, PluginHost, PluginManifest,
    PluginManifestError, PluginProcessError, PluginRegistry, PluginShutdownFailure,
    PluginToolDefinition, ToolCallParams, ToolCallResult, ToolsListResult, MAX_PLUGIN_FRAME_BYTES,
    MAX_PLUGIN_STDERR_BYTES, PLUGIN_PROTOCOL_VERSION,
};
use ri_core::{builtin_tool_registry, JsonValue, ToolDefinition};
use serde_json::Value;

fn json(text: &str) -> Value {
    serde_json::from_str(text).unwrap()
}

fn value(text: &str) -> JsonValue {
    JsonValue::parse(text).unwrap()
}

fn plain(value: &JsonValue) -> Value {
    json(&value.to_text())
}

fn manifest() -> PluginManifest {
    PluginManifest {
        manifest_version: 1,
        id: "dev.example.echo".to_owned(),
        name: "Echo".to_owned(),
        version: "0.1.0".to_owned(),
        protocol_version: "ri.plugin.v1".to_owned(),
        entrypoint: PluginEntrypoint {
            command: "./echo".to_owned(),
            args: Vec::new(),
        },
    }
}

fn loaded(id: &str) -> LoadedPluginManifest {
    let mut manifest = manifest();
    manifest.id = id.to_owned();
    LoadedPluginManifest {
        manifest,
        path: format!("/plugins/{id}/plugin.json"),
        directory: format!("/plugins/{id}"),
    }
}

fn descriptor(name: &str) -> PluginToolDefinition {
    PluginToolDefinition {
        name: name.to_owned(),
        description: Some("Echo".to_owned()),
        input_schema: value(r#"{"type":"object", "custom":true}"#),
    }
}

fn offered(name: &str) -> ToolDefinition {
    ToolDefinition {
        name: name.to_owned(),
        description: None,
        parameters: value("{}"),
    }
}

#[test]
fn normal_bootstrap_remains_builtin_only() {
    assert_eq!(
        builtin_plugins().tools().names(),
        ["read", "write", "edit", "bash"]
    );
    assert!(PluginRegistry::default().tools().names().is_empty());
}

#[test]
fn rejects_invalid_fields_and_versions() {
    let changes: Vec<(&str, fn(&mut PluginManifest))> = vec![
        ("manifestVersion", |m| m.manifest_version = 2),
        ("protocolVersion", |m| m.protocol_version = "v2".to_owned()),
        ("id", |m| m.id = String::new()),
        ("id", |m| m.id = "Upper".to_owned()),
        ("id", |m| m.id = ".abc".to_owned()),
        ("id", |m| m.id = "a".repeat(129)),
        ("name", |m| m.name = " ".to_owned()),
        ("version", |m| m.version = String::new()),
        ("entrypoint.command", |m| {
            m.entrypoint.command = " ".to_owned()
        }),
    ];
    for (field, change) in changes {
        let mut manifest = manifest();
        change(&mut manifest);
        assert!(manifest.validate("plugin.json").is_err(), "{field}");
    }
    assert!(manifest().validate("plugin.json").is_ok());
}

#[test]
fn errors_of_manifests_name_what_is_wrong() {
    let mut wrong = manifest();
    wrong.manifest_version = 2;
    assert_eq!(
        wrong.validate("p.json").unwrap_err().to_text(),
        "manifest p.json: unsupported manifest version 2"
    );
    let mut wrong = manifest();
    wrong.protocol_version = "v2".to_owned();
    assert_eq!(
        wrong.validate("p.json").unwrap_err().to_text(),
        "manifest p.json: unsupported protocol version v2"
    );
    let mut wrong = manifest();
    wrong.id = "Upper".to_owned();
    assert_eq!(
        wrong.validate("p.json").unwrap_err().to_text(),
        "manifest p.json: invalid id: \"Upper\""
    );
    assert_eq!(
        PluginManifestError::Json {
            path: "p".to_owned(),
            message: "x".to_owned()
        }
        .to_text(),
        "manifest JSON p: x"
    );
    let read = load_plugin_manifest(manifest(), "/a/plugin.json".to_owned(), "/a".to_owned());
    assert_eq!(read.unwrap().directory, "/a");
    assert!(is_valid_plugin_id("0.a-b_c"));
    assert!(!is_valid_plugin_id("a/b"));
    assert!(validate_plugin_id_value("..").is_err());
}

#[test]
fn wire_round_trips() {
    let params = InitializeParams {
        protocol_version: PLUGIN_PROTOCOL_VERSION.to_owned(),
        host: HostIdentity {
            name: "ri".to_owned(),
            version: "0.1.0".to_owned(),
        },
    };
    let line = encode_request(1, "initialize", &params.to_json()).unwrap();
    assert_eq!(
        json(&line),
        json(
            r#"{"jsonrpc":"2.0","id":1,"method":"initialize","params":{"protocolVersion":"ri.plugin.v1","host":{"name":"ri","version":"0.1.0"}}}"#
        )
    );
    assert!(line.starts_with(r#"{"jsonrpc":"2.0","id":1,"method":"initialize","params":"#));
    for value in [
        json(r#"{"jsonrpc":"2.0","id":1,"result":null}"#),
        json(r#"{"jsonrpc":"2.0","id":2,"error":{"code":-1,"message":"bad"}}"#),
        json(r#"{"jsonrpc":"2.0","method":"event/example","params":{}}"#),
    ] {
        let message = decode_plugin_message(&value.to_string()).unwrap();
        assert_eq!(plain(&message.to_json()), value);
    }
    let caps = PluginCapabilities::from_json(&value(r#"{"tools":false,"future":42}"#)).unwrap();
    assert_eq!(caps.extra.len(), 1);
    assert_eq!(caps.extra[0].name, "future");
    assert_eq!(caps.extra[0].value.as_u64(), Some(42));
}

#[test]
fn tool_wire_contract_round_trips_and_tolerates_additions() {
    let list = r#"{"tools":[{"name":"echo","inputSchema":{"type":"object"},"description":"Echo"}]}"#;
    let decoded = ToolsListResult::from_json(&value(list)).unwrap();
    assert_eq!(plain(&decoded.to_json()), json(list));
    let params = ToolCallParams {
        name: "echo".to_owned(),
        arguments: value(r#"{"text":"hello"}"#),
    };
    assert_eq!(
        plain(&params.to_json()),
        json(r#"{"name":"echo","arguments":{"text":"hello"}}"#)
    );
    let result = ToolCallResult::from_json(&value(r#"{"content":"hello","future":42}"#)).unwrap();
    assert!(!result.is_error);
    assert_eq!(
        plain(&result.to_json()),
        json(r#"{"content":"hello","isError":false}"#)
    );
    let result =
        ToolCallResult::from_json(&value(r#"{"content":"failed","isError":true}"#)).unwrap();
    assert!(result.is_error);
    let list = ToolsListResult::from_json(&value(
        r#"{"tools":[{"name":"echo","inputSchema":{},"future":true}],"future":true}"#,
    ))
    .unwrap();
    assert!(list.tools[0].description.is_none());
    assert!(ToolCallParams::from_json(&value(
        r#"{"name":"echo","arguments":{},"future":true}"#
    ))
    .is_some());
}

#[test]
fn rejects_invalid_and_oversized_frames() {
    for value in [
        r#"{"jsonrpc":"2.0","id":1,"result":null,"error":{"code":1,"message":"x"}}"#,
        r#"{"jsonrpc":"2.0","id":1}"#,
        r#"{"jsonrpc":"1.0","id":1,"result":0}"#,
        r#"{"jsonrpc":"2.0","id":1,"method":"host/request"}"#,
        r#"[]"#,
        r#"{"jsonrpc":"2.0","id":-1,"result":0}"#,
        r#"{"jsonrpc":"2.0","id":1,"error":null}"#,
    ] {
        assert!(decode_plugin_message(value).is_err(), "{value}");
    }
    assert!(encode_request(
        1,
        "large",
        &JsonValue::string(&"x".repeat(MAX_PLUGIN_FRAME_BYTES))
    )
    .is_err());
    assert!(decode_plugin_message(&"x".repeat(MAX_PLUGIN_FRAME_BYTES + 1)).is_err());
}

#[test]
fn members_may_come_in_order_without_names() {
    assert_eq!(
        RpcErrorObject::from_json(&value(r#"[-32000,"bad",null]"#)),
        Some(RpcErrorObject {
            code: -32000,
            message: "bad".to_owned(),
            data: None
        })
    );
    assert!(RpcErrorObject::from_json(&value(r#"[1,"bad"]"#)).is_none());
    assert!(RpcErrorObject::from_json(&value(r#"[1,"bad",null,1]"#)).is_none());
    assert!(RpcErrorObject::from_json(&value(r#"{"code":1.5,"message":"x"}"#)).is_none());
    assert!(interpret_message(&value(
        r#"{"jsonrpc":"2.0","method":"m","params":{},"extra":1}"#
    ))
    .is_err());
    assert_eq!(
        ProtocolError::FrameTooLarge.to_text(),
        "plugin frame exceeds 1048576 bytes"
    );
    assert_eq!(
        interpret_message(&value("[]")).unwrap_err().to_text(),
        "invalid JSON-RPC message: expected object"
    );
}

#[test]
fn validates_names_without_rewriting_definitions() {
    for name in ["snake_case", "hyphen-name", "0Mixed", &"a".repeat(64)] {
        let tool = descriptor(name);
        let definitions = validate_definitions("test.echo", vec![tool.clone()]).unwrap();
        assert_eq!(definitions[0].name, name);
        assert_eq!(definitions[0].description, tool.description);
        assert_eq!(definitions[0].parameters, tool.input_schema);
    }
    for name in ["", &"a".repeat(65), "a.b", "a b", "_abc", "-abc", "écho"] {
        assert!(matches!(
            validate_definitions("test.echo", vec![descriptor(name)]),
            Err(ExternalToolError::InvalidDefinition { .. })
        ));
    }
}

#[test]
fn validates_descriptions_schemas_duplicates_and_count() {
    for description in ["", " \n\t", &"é".repeat(8193)] {
        let mut tool = descriptor("echo");
        tool.description = Some(description.to_owned());
        assert!(matches!(
            validate_definitions("p", vec![tool]),
            Err(ExternalToolError::InvalidDefinition { .. })
        ));
    }
    for description in [None, Some("é".repeat(8192))] {
        let mut tool = descriptor("echo");
        tool.description = description;
        assert!(validate_definitions("p", vec![tool]).is_ok());
    }
    for schema in ["null", "[]", "true", "\"object\"", "42"] {
        let mut tool = descriptor("echo");
        tool.input_schema = value(schema);
        assert!(matches!(
            validate_definitions("p", vec![tool]),
            Err(ExternalToolError::InvalidDefinition { .. })
        ));
    }
    assert!(matches!(
        validate_definitions("p", vec![descriptor("echo"), descriptor("echo")]),
        Err(ExternalToolError::DuplicateDefinition { .. })
    ));
    let tools = (0..128).map(|i| descriptor(&format!("tool{i}"))).collect();
    assert_eq!(validate_definitions("p", tools).unwrap().len(), 128);
    let many = (0..129).map(|_| descriptor("echo")).collect();
    assert!(matches!(
        validate_definitions("p", many),
        Err(ExternalToolError::TooManyTools {
            count: 129,
            max: 128,
            ..
        })
    ));
}

#[test]
fn tools_come_from_the_answer_of_a_plugin() {
    let tools = tools_of_answer(
        "p",
        Ok(value(r#"{"tools":[{"name":"alpha","inputSchema":{}}]}"#)),
    )
    .unwrap();
    assert_eq!(tools[0].name, "alpha");
    assert!(matches!(
        tools_of_answer("p", Ok(value("{}"))),
        Err(ExternalToolError::InvalidListResult { .. })
    ));
    let error = tools_of_answer("p", Err(PluginProcessError::Transport("gone".to_owned())))
        .unwrap_err();
    assert_eq!(
        error.to_text(),
        "plugin \"p\" request failed: plugin transport: gone"
    );
}

#[test]
fn non_utf8_diagnostics_remain_bounded() {
    let mut capture = StderrCapture::default();
    capture.append(&vec![0xff; MAX_PLUGIN_STDERR_BYTES + 1]);
    assert_eq!(capture.bytes().len(), MAX_PLUGIN_STDERR_BYTES);
    let snapshot = capture.snapshot();
    assert!(snapshot.text.len() <= MAX_PLUGIN_STDERR_BYTES);
    assert!(snapshot.truncated);
}

#[test]
fn diagnostics_do_not_depend_on_the_pieces() {
    let bytes: Vec<u8> = (0..70_000u32).map(|i| b'a' + (i % 26) as u8).collect();
    let mut whole = StderrCapture::default();
    whole.append(&bytes);
    let mut pieces = StderrCapture::default();
    for piece in bytes.chunks(8192) {
        pieces.append(piece);
    }
    assert_eq!(whole, pieces);
    let mut short = StderrCapture::default();
    short.append(b"warning");
    assert_eq!(
        short.snapshot(),
        PluginDiagnostics {
            text: "warning".to_owned(),
            truncated: false
        }
    );
}

#[test]
fn requests_are_answered_once() {
    let mut dispatch = Dispatch::new();
    let (first, line) = dispatch.request("ping", &value("{}")).unwrap();
    assert_eq!(first, 1);
    assert_eq!(
        line,
        "{\"jsonrpc\":\"2.0\",\"id\":1,\"method\":\"ping\",\"params\":{}}\n"
    );
    let (second, _) = dispatch.request("ping", &value("{}")).unwrap();
    assert_eq!(second, 2);
    assert_eq!(dispatch.pending().len(), 2);
    let answer = || Frame::Line("{\"jsonrpc\":\"2.0\",\"id\":1,\"result\":7}".to_owned());
    assert_eq!(dispatch.receive(answer()), Received::Answered(1, value("7")));
    assert_eq!(dispatch.receive(answer()), Received::Ignored);
    assert!(matches!(
        dispatch.receive(Frame::Line(
            "{\"jsonrpc\":\"2.0\",\"id\":2,\"error\":{\"code\":-1,\"message\":\"no\"}}".to_owned()
        )),
        Received::Refused(2, _)
    ));
    assert!(matches!(
        dispatch.receive(Frame::Line(
            "{\"jsonrpc\":\"2.0\",\"method\":\"event\"}".to_owned()
        )),
        Received::Notified(notification) if notification.method == "event"
    ));
    assert_eq!(
        dispatch.receive(Frame::Closed),
        Received::Stopped("plugin stdout closed".to_owned())
    );
    assert_eq!(
        dispatch.receive(Frame::WriterFailed),
        Received::Stopped("plugin stdin writer failed".to_owned())
    );
    assert!(matches!(
        dispatch.receive(Frame::Line("{".to_owned())),
        Received::Stopped(reason) if reason.starts_with("invalid plugin JSON: ")
    ));
}

#[test]
fn a_failed_plugin_takes_no_more_requests() {
    let mut dispatch = Dispatch::new();
    dispatch.open().unwrap();
    dispatch.open().unwrap();
    assert!(dispatch.settle(1));
    assert!(!dispatch.settle(1));
    assert_eq!(dispatch.fail("first"), [2]);
    assert!(dispatch.fail("second").is_empty());
    assert_eq!(dispatch.failure().as_deref(), Some("first"));
    assert_eq!(dispatch.open(), Err("first".to_owned()));
    assert_eq!(dispatch.next_id(), 3);
    let mut dispatch = Dispatch::new();
    let large = JsonValue::string(&"x".repeat(MAX_PLUGIN_FRAME_BYTES));
    assert!(dispatch.request("large", &large).is_err());
    assert!(dispatch.pending().is_empty());
    assert_eq!(dispatch.next_id(), 2);
}

#[test]
fn a_plugin_must_be_the_one_of_its_manifest() {
    let answer = |protocol: &str, id: &str, name: &str, version: &str| {
        value(&format!(
            r#"{{"protocolVersion":"{protocol}","plugin":{{"id":"{id}","name":"{name}","version":"{version}"}},"capabilities":{{"tools":true,"future":true}}}}"#
        ))
    };
    let id = "dev.example.echo";
    let capabilities =
        initialized(&manifest(), &answer("ri.plugin.v1", id, "Echo", "0.1.0")).unwrap();
    assert!(capabilities.tools);
    assert_eq!(
        initialized(&manifest(), &answer("v2", id, "Echo", "0.1.0")),
        Err(PluginProcessError::ProtocolMismatch("v2".to_owned()))
    );
    for (field, wrong) in [
        ("id", answer("ri.plugin.v1", "x", "Echo", "0.1.0")),
        ("name", answer("ri.plugin.v1", id, "x", "0.1.0")),
        ("version", answer("ri.plugin.v1", id, "Echo", "x")),
    ] {
        assert!(matches!(
            initialized(&manifest(), &wrong),
            Err(PluginProcessError::IdentityMismatch { field: found, actual, .. })
                if found == field && actual == "x"
        ));
    }
    assert!(matches!(
        initialized(&manifest(), &value("{}")),
        Err(PluginProcessError::Transport(_))
    ));
    assert_eq!(program_of("./echo", "/plugins/a", true, 2), "/plugins/a/./echo");
    assert_eq!(program_of("echo", "/plugins/a", true, 1), "echo");
    assert_eq!(program_of("/bin/sh", "/plugins/a", false, 3), "/bin/sh");
}

#[test]
fn a_plugin_is_asked_to_end_before_it_is_ended() {
    assert_eq!(
        shutdown_next(ShutdownEvent::Polled(Ok(None))),
        ShutdownAction::Ask
    );
    assert_eq!(
        shutdown_next(ShutdownEvent::Answered(Ok(()))),
        ShutdownAction::CloseAndWait
    );
    assert_eq!(
        shutdown_next(ShutdownEvent::Waited(Ok(ExitReport {
            success: true,
            status: "exit status: 0".to_owned()
        }))),
        ShutdownAction::Finish
    );
    assert_eq!(
        shutdown_next(ShutdownEvent::Polled(Ok(Some("exit status: 1".to_owned())))),
        ShutdownAction::CleanUp(PluginProcessError::Exited("exit status: 1".to_owned()))
    );
    assert_eq!(
        shutdown_next(ShutdownEvent::TimedOut),
        ShutdownAction::CleanUp(PluginProcessError::ShutdownTimeout)
    );
    let error = cleanup_error(
        PluginProcessError::StartupTimeout,
        Ok(()),
        PluginDiagnostics {
            text: "oops".to_owned(),
            truncated: false,
        },
    );
    assert_eq!(
        error.to_text(),
        "plugin initialization timed out; stderr: PluginDiagnostics { text: \"oops\", truncated: false }"
    );
    let remote = PluginProcessError::RemoteError(RpcErrorObject {
        code: i64::MIN,
        message: "bad".to_owned(),
        data: Some(value(r#"{"a":[1,"x"]}"#)),
    });
    assert_eq!(
        remote.to_text(),
        "plugin remote error: RpcErrorObject { code: -9223372036854775808, message: \"bad\", data: Some(Object {\"a\": Array [Number(1), String(\"x\")]}) }"
    );
    assert_eq!(signed_decimal(-7), "-7");
    assert_eq!(signed_decimal(0), "0");
}

#[test]
fn plugins_become_active_in_order() {
    let mut host = PluginHost::builtin_only();
    assert_eq!(
        host.registry().tools().names(),
        ["read", "write", "edit", "bash"]
    );
    assert!(host.active_ids().is_empty());
    host.activate("plugin-a", ToolsOutcome::Loaded(vec![offered("alpha")]))
        .unwrap();
    host.activate("plugin-b", ToolsOutcome::Loaded(vec![offered("beta")]))
        .unwrap();
    assert_eq!(
        host.registry().tools().names(),
        ["read", "write", "edit", "bash", "alpha", "beta"]
    );
    assert_eq!(host.active_ids(), ["plugin-a", "plugin-b"]);
    let error = host
        .activate("plugin-c", ToolsOutcome::Loaded(vec![offered("read")]))
        .unwrap_err();
    assert!(
        matches!(&error, PluginActivationError::Tools { plugin_id, .. } if plugin_id == "plugin-c")
    );
    assert_eq!(
        error.to_text(),
        "could not load tools from plugin \"plugin-c\": tool \"read\" is already registered"
    );
    let error = host
        .activate("plugin-c", ToolsOutcome::TimedOut)
        .unwrap_err();
    assert!(error.to_text().contains("tools/list timed out"));
    assert_eq!(stop_order(3), [2, 1, 0]);
}

#[test]
fn tools_are_registered_all_or_none() {
    let mut registry = builtin_tool_registry();
    let error = register_into(&mut registry, vec![offered("alpha"), offered("bash")]).unwrap_err();
    assert!(matches!(error, ExternalToolError::Registry { name } if name == "bash"));
    assert_eq!(registry.names(), ["read", "write", "edit", "bash"]);
    register_into(&mut registry, vec![offered("alpha"), offered("beta")]).unwrap();
    assert_eq!(
        registry.names(),
        ["read", "write", "edit", "bash", "alpha", "beta"]
    );
}

#[test]
fn failures_at_the_end_are_all_reported() {
    let failures = shutdown_failures(&vec![
        EndedPlugin {
            plugin_id: "plugin-b".to_owned(),
            result: Err(PluginProcessError::ShutdownTimeout),
        },
        EndedPlugin {
            plugin_id: "plugin-x".to_owned(),
            result: Ok(()),
        },
        EndedPlugin {
            plugin_id: "plugin-a".to_owned(),
            result: Err(PluginProcessError::Transport("shutdown failed".to_owned())),
        },
    ]);
    assert_eq!(
        failures,
        [
            PluginShutdownFailure {
                plugin_id: "plugin-b".to_owned(),
                message: "plugin shutdown timed out".to_owned()
            },
            PluginShutdownFailure {
                plugin_id: "plugin-a".to_owned(),
                message: "plugin transport: shutdown failed".to_owned()
            },
        ]
    );
    let source = || start_failed("plugin-b", PluginProcessError::StartupTimeout);
    assert_eq!(activation_failed(source(), Vec::new()), source());
    let error = activation_failed(source(), failures);
    assert_eq!(
        error.to_text(),
        "plugin activation failed: could not start plugin \"plugin-b\": plugin initialization timed out; cleanup failures: [PluginShutdownFailure { plugin_id: \"plugin-b\", message: \"plugin shutdown timed out\" }, PluginShutdownFailure { plugin_id: \"plugin-a\", message: \"plugin transport: shutdown failed\" }]"
    );
}

fn resolve(ids: &[&str], reads: &[ManifestRead]) -> Resolution {
    let ids: Vec<String> = ids.iter().map(|id| (*id).to_owned()).collect();
    resolve_installed_plugins("/plugins", &ids, reads)
}

#[test]
fn resolves_only_selected_ids_in_order() {
    assert_eq!(resolve(&[], &[]), Resolution::Resolved(Vec::new()));
    assert_eq!(
        resolve(&["b", "a"], &[]),
        Resolution::Read("/plugins/b/plugin.json".to_owned())
    );
    assert_eq!(
        resolve(&["b", "a"], &[ManifestRead::Loaded(loaded("b"))]),
        Resolution::Read("/plugins/a/plugin.json".to_owned())
    );
    assert_eq!(
        resolve(
            &["b", "a"],
            &[
                ManifestRead::Loaded(loaded("b")),
                ManifestRead::Loaded(loaded("a"))
            ]
        ),
        Resolution::Resolved(vec![loaded("b"), loaded("a")])
    );
    assert!(matches!(
        resolve(&["a", "a"], &[ManifestRead::Loaded(loaded("a"))]),
        Resolution::Refused(InstalledPluginError::DuplicateSelection { .. })
    ));
    assert!(matches!(
        resolve(&["a/b"], &[]),
        Resolution::Refused(InstalledPluginError::InvalidId { .. })
    ));
    assert!(matches!(
        resolve(
            &["broken"],
            &[ManifestRead::Failed(PluginManifestError::Json {
                path: "/plugins/broken/plugin.json".to_owned(),
                message: "expected value".to_owned()
            })]
        ),
        Resolution::Refused(InstalledPluginError::InvalidManifest { .. })
    ));
    assert!(matches!(
        resolve(
            &["missing"],
            &[ManifestRead::Failed(PluginManifestError::Io {
                path: "/plugins/missing/plugin.json".to_owned(),
                message: "not found".to_owned(),
                not_found: true
            })]
        ),
        Resolution::Refused(InstalledPluginError::NotInstalled { path, .. })
            if path == "/plugins/missing/plugin.json"
    ));
    let refused = resolve(&["b"], &[ManifestRead::Loaded(loaded("a"))]);
    assert!(matches!(
        &refused,
        Resolution::Refused(InstalledPluginError::IdentityMismatch { .. })
    ));
    let Resolution::Refused(error) = refused else {
        panic!("expected an error");
    };
    assert_eq!(
        error.to_text(),
        "installed plugin directory /plugins/b contains manifest id \"a\", expected \"b\""
    );
    assert_eq!(
        default_plugins_dir(Some("/h"), None).as_deref(),
        Some("/h/.ri/agent/plugins")
    );
}

#[test]
fn a_copy_of_a_registry_offers_the_same_tools() {
    let registry = builtin_plugins();
    assert_eq!(registry.clone().tools().names(), registry.tools().names());
    assert!(!registry.clone().tools().names().is_empty());
}
