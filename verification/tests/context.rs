use ri_core::context::agents::{
    project_directories, CandidateRead, CandidateStat, ContentRead, DirectoryRead, PathRead,
};
use ri_core::context::project::{Ancestor, MarkerRead};
use ri_core::context::prompt::escape_xml_attribute;
use ri_core::context::{
    build_system_prompt, discover_project, discover_project_root, load_context, ContextBundle,
    ContextError, ContextFileKind, ProjectError, BUILT_IN_SYSTEM_PROMPT, MAX_CONTEXT_FILE_BYTES,
    MAX_TOTAL_CONTEXT_BYTES,
};

fn absent(path: &str) -> CandidateRead {
    CandidateRead {
        path: path.to_owned(),
        stat: CandidateStat::Missing,
        canonical: PathRead::Failed("missing".to_owned()),
        content: ContentRead::OpenFailed("missing".to_owned()),
    }
}

fn present(path: &str, bytes: &[u8]) -> CandidateRead {
    CandidateRead {
        path: path.to_owned(),
        stat: CandidateStat::File(bytes.len() as u64),
        canonical: PathRead::Found(path.to_owned()),
        content: ContentRead::Bytes(bytes.to_vec()),
    }
}

fn directory(path: &str, kind: ContextFileKind, content: Option<&[u8]>) -> DirectoryRead {
    let agents = format!("{path}/AGENTS.md");
    DirectoryRead {
        kind,
        override_file: absent(&format!("{path}/AGENTS.override.md")),
        agents_file: match content {
            Some(bytes) => present(&agents, bytes),
            None => absent(&agents),
        },
    }
}

fn project(path: &str, content: Option<&[u8]>) -> DirectoryRead {
    directory(path, ContextFileKind::Agents, content)
}

fn contents(bundle: &ContextBundle) -> Vec<String> {
    bundle
        .files()
        .iter()
        .map(|file| file.content.clone())
        .collect()
}

#[test]
fn loads_global_root_nested_and_cwd_context_in_order() {
    let bundle = load_context(
        "/root/crates/foo",
        "/root",
        &vec![
            directory("/home/.ri/agent", ContextFileKind::GlobalAgents, Some(b"global")),
            project("/root", Some(b"root")),
            project("/root/crates", Some(b"nested")),
            project("/root/crates/foo", Some(b"cwd")),
        ],
    )
    .unwrap();

    assert_eq!(contents(&bundle), ["global", "root", "nested", "cwd"]);
    assert!(bundle.files().iter().all(|file| file.path.starts_with('/')));
    assert!(bundle.is_enabled());
}

#[test]
fn global_override_replaces_global_agents() {
    let mut global = directory(
        "/home/.ri/agent",
        ContextFileKind::GlobalAgents,
        Some(b"ignored global"),
    );
    global.override_file = present("/home/.ri/agent/AGENTS.override.md", b"global override");
    let bundle = load_context(
        "/root",
        "/root",
        &vec![global, project("/root", Some(b"project root"))],
    )
    .unwrap();

    assert_eq!(contents(&bundle), ["global override", "project root"]);
    assert_eq!(bundle.files()[0].kind, ContextFileKind::AgentsOverride);
}

#[test]
fn override_replaces_only_the_same_directory_file() {
    let mut cwd = project("/root/crates/foo", Some(b"ignored"));
    cwd.override_file = present("/root/crates/foo/AGENTS.override.md", b"override");
    let bundle = load_context(
        "/root/crates/foo",
        "/root",
        &vec![
            project("/root", Some(b"root")),
            project("/root/crates", Some(b"nested")),
            cwd,
        ],
    )
    .unwrap();

    assert_eq!(contents(&bundle), ["root", "nested", "override"]);
    assert_eq!(bundle.files()[2].kind, ContextFileKind::AgentsOverride);
}

#[test]
fn unrelated_sibling_context_is_not_loaded() {
    let parts = |path: &str| -> Vec<String> { path.split('/').map(str::to_owned).collect() };
    assert_eq!(
        project_directories(&parts("/root/nested"), &parts("/root")),
        Some(vec![2, 3])
    );
    assert_eq!(
        project_directories(&parts("/elsewhere"), &parts("/root")),
        None
    );
    assert_eq!(
        project_directories(&parts("/root"), &parts("/root/nested")),
        None
    );
    let bundle = load_context(
        "/root/nested",
        "/root",
        &vec![
            project("/root", Some(b"root")),
            project("/root/nested", None),
        ],
    )
    .unwrap();

    assert_eq!(bundle.files().len(), 1);
    assert_eq!(bundle.files()[0].content, "root");
}

#[test]
fn missing_context_is_normal_and_diagnostic_is_explicit() {
    let bundle = load_context("/root", "/root", &vec![project("/root", None)]).unwrap();

    assert!(bundle.files().is_empty());
    assert_eq!(bundle.diagnostic(), "context: no AGENTS files loaded");
}

#[test]
fn disabled_context_has_a_distinct_diagnostic() {
    let bundle = ContextBundle::disabled("/root".to_owned(), "/root".to_owned());

    assert!(!bundle.is_enabled());
    assert_eq!(bundle.diagnostic(), "context: disabled");
}

#[test]
fn accepts_a_file_at_the_per_file_limit() {
    let bundle = load_context(
        "/root",
        "/root",
        &vec![project("/root", Some(&vec![b'x'; MAX_CONTEXT_FILE_BYTES]))],
    )
    .unwrap();

    assert_eq!(bundle.files().len(), 1);
    assert_eq!(bundle.files()[0].content.len(), MAX_CONTEXT_FILE_BYTES);
}

#[test]
fn rejects_a_file_over_the_per_file_limit() {
    let error = load_context(
        "/root",
        "/root",
        &vec![project(
            "/root",
            Some(&vec![b'x'; MAX_CONTEXT_FILE_BYTES + 1]),
        )],
    )
    .unwrap_err();

    assert!(matches!(error, ContextError::FileTooLarge { .. }));
    assert!(error.to_text().contains("--no-context"));
}

#[test]
fn rejects_context_over_the_total_limit() {
    let error = load_context(
        "/root/nested/foo",
        "/root",
        &vec![
            project("/root", Some(&vec![b'x'; MAX_CONTEXT_FILE_BYTES])),
            project("/root/nested", Some(&vec![b'y'; MAX_CONTEXT_FILE_BYTES])),
            project("/root/nested/foo", Some(b"z")),
        ],
    )
    .unwrap_err();

    assert!(matches!(error, ContextError::TotalTooLarge { .. }));
    assert!(error.to_text().contains("256000") || error.to_text().contains("262144"));
    assert!(MAX_TOTAL_CONTEXT_BYTES >= MAX_CONTEXT_FILE_BYTES);
}

#[test]
fn rejects_invalid_utf8_without_truncating_or_replacing_it() {
    let error = load_context(
        "/root",
        "/root",
        &vec![project("/root", Some(&[0xff, 0xfe]))],
    )
    .unwrap_err();

    assert!(matches!(error, ContextError::InvalidUtf8 { .. }));
    assert!(error.to_text().contains("not valid UTF-8"));
}

#[test]
fn canonical_paths_prevent_duplicate_context_from_symlink_aliases() {
    let mut alias = directory(
        "/home/.ri/agent",
        ContextFileKind::GlobalAgents,
        Some(b"same"),
    );
    alias.agents_file.canonical = PathRead::Found("/root/AGENTS.md".to_owned());
    let bundle = load_context(
        "/root/nested",
        "/root",
        &vec![
            alias,
            project("/root", Some(b"same")),
            project("/root/nested", None),
        ],
    )
    .unwrap();

    assert_eq!(bundle.files().len(), 1);
    assert_eq!(bundle.files()[0].content, "same");
}

fn ancestor(path: &str, marker: MarkerRead) -> Ancestor {
    Ancestor {
        path: path.to_owned(),
        marker_path: format!("{path}/.git"),
        marker,
    }
}

#[test]
fn launch_directory_with_git_is_project_root() {
    let layout = discover_project(
        "/root",
        &vec![
            ancestor("/root", MarkerRead::Present),
            ancestor("/", MarkerRead::Absent),
        ],
    )
    .unwrap();

    assert_eq!(layout.launch_cwd, "/root");
    assert_eq!(layout.project_root, layout.launch_cwd);
}

#[test]
fn nested_launch_directory_uses_nearest_git_ancestor() {
    let layout = discover_project(
        "/outer/workspace/crates/foo",
        &vec![
            ancestor("/outer/workspace/crates/foo", MarkerRead::Absent),
            ancestor("/outer/workspace/crates", MarkerRead::Absent),
            ancestor("/outer/workspace", MarkerRead::Present),
            ancestor("/outer", MarkerRead::Present),
            ancestor("/", MarkerRead::Absent),
        ],
    )
    .unwrap();

    assert_eq!(layout.project_root, "/outer/workspace");
}

#[test]
fn missing_git_uses_launch_directory() {
    assert_eq!(
        discover_project_root(
            "/root/nested",
            &vec![
                ancestor("/root/nested", MarkerRead::Absent),
                ancestor("/root", MarkerRead::Absent),
            ]
        )
        .unwrap(),
        "/root/nested"
    );
}

#[test]
fn markers_that_cannot_be_read_are_errors() {
    let error = discover_project_root(
        "/root/nested",
        &vec![
            ancestor("/root/nested", MarkerRead::Absent),
            ancestor("/root", MarkerRead::Failed("denied".to_owned())),
        ],
    )
    .unwrap_err();
    assert!(matches!(&error, ProjectError::MarkerIo { path, .. } if path == "/root/.git"));
    assert!(error.to_text().contains("denied"));
    assert!(ProjectError::NotDirectory {
        path: "/file".to_owned()
    }
    .to_text()
    .contains("/file"));
}

#[test]
fn builds_one_deterministic_prompt_with_metadata_and_ordered_sections() {
    let context = load_context(
        "/root/nested",
        "/root",
        &vec![
            directory(
                "/home/.ri/agent",
                ContextFileKind::GlobalAgents,
                Some(b"global instruction"),
            ),
            project("/root", Some(b"root instruction")),
            project("/root/nested", Some(b"nested instruction\n")),
        ],
    )
    .unwrap();
    let prompt = build_system_prompt(&context);

    assert_eq!(prompt.matches("You are ri, a coding agent.").count(), 1);
    assert_eq!(prompt.matches("Tool workspace:").count(), 1);
    assert_eq!(prompt.matches("Project root:").count(), 1);
    assert_eq!(prompt.matches("<agents-context").count(), 3);
    assert!(prompt.find("global instruction").unwrap() < prompt.find("root instruction").unwrap());
    assert!(prompt.find("root instruction").unwrap() < prompt.find("nested instruction").unwrap());
    for file in context.files() {
        assert!(prompt.contains(&format!("path=\"{}\"", file.path)));
        assert!(prompt.contains(&file.content));
    }
    assert!(prompt.contains("bytes=\"16\""));
    assert!(prompt.contains("</agents-context>"));
}

#[test]
fn escapes_paths_without_mutating_instruction_content() {
    let root = "/tmp/prompt-&\"<>";
    let context = load_context(
        root,
        root,
        &vec![project(root, Some(b"raw *markdown* & <tag>\n"))],
    )
    .unwrap();
    let prompt = build_system_prompt(&context);

    assert!(prompt.contains("&amp;") || prompt.contains("&quot;") || prompt.contains("&lt;"));
    assert!(prompt.contains("raw *markdown* & <tag>\n"));
    let unescaped_path = "path=\"".to_owned() + root;
    assert!(!prompt.contains(&unescaped_path));
    assert_eq!(escape_xml_attribute("a&\"<>b"), "a&amp;&quot;&lt;&gt;b");
}

#[test]
fn prompt_without_files_still_contains_the_builtin_context() {
    let context = load_context("/root", "/root", &vec![project("/root", None)]).unwrap();

    let prompt = build_system_prompt(&context);

    assert!(prompt.starts_with(BUILT_IN_SYSTEM_PROMPT));
    assert!(prompt.contains(&format!("Tool workspace: {}", context.launch_cwd())));
    assert!(!prompt.contains("agents-context"));
}

#[test]
fn disabled_context_keeps_builtin_prompt_and_metadata() {
    let context = ContextBundle::disabled("/some/root".to_owned(), "/some/root".to_owned());

    let prompt = build_system_prompt(&context);

    assert!(prompt.starts_with(BUILT_IN_SYSTEM_PROMPT));
    assert!(!prompt.contains("agents-context"));
    assert!(prompt.contains("/some/root"));
}
