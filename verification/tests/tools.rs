//! Commands, directories, manifests and questions.

use autoreport::agent::AgentType;
use autoreport::codex_shell::bash::{parse_double_quoted_string, parse_raw_string};
use autoreport::codex_shell::simple::{
    is_dangerous_powershell_cmdlet, split_on_separators, tokenize_command,
};
use autoreport::codex_shell::running::{RunAction, RunEvent, Running};
use autoreport::codex_shell::{
    append_capped, check_commands, default_user_shell, detect_shell_type, finished_output,
    get_shell, shell_args_owned, timed_out_output, ultimate_fallback_shell,
    validate_command_for_shell, validate_plain_command_script, CodexShell, FoundProgram, Platform,
    SandboxMode, SandboxWrap, ShellEnvironment, ShellType, EXEC_OUTPUT_MAX_BYTES, READ_CHUNK_SIZE,
};
use autoreport::exec_tool::{ExecTool, PermissionArg, SandboxSpec};
use autoreport::file_tools::{
    file_name, file_stem, join_path, normalize, path_starts_with, resolve_within, strip_base,
    FsCtx,
};
use autoreport::json::{ArgValue, Json, Shape};
use autoreport::list_dir::{format_entry_line, DirEntryKind, Lister, ListDirTool, RawEntry};
use autoreport::manifest::notes::apply_notes_patch;
use autoreport::manifest::{
    choose_records, choose_text, parse_optional_text, parse_records, should_ignore_dir,
    should_ignore_file, FileRecord, ManifestAction, ManifestStore, ManifestTool, ScanKind, ScanNode,
};
use autoreport::request_user_input::{
    clamp_auto_resolution, Question, QuestionOption, RequestUserInputTool,
};

fn unix() -> ShellEnvironment {
    ShellEnvironment {
        platform: Platform::Unix,
        user_shell: Some("/bin/bash".to_string()),
        files: vec!["/bin/bash".to_string()],
        programs: Vec::new(),
    }
}

// ---------------------------------------------------------------------------
// Commands
// ---------------------------------------------------------------------------

#[test]
fn parses_plain_command_sequence() {
    let parsed = validate_plain_command_script(
        r#"rg "foo" src && sed -n "1,10p" Cargo.toml"#,
        &vec!["rg", "sed"],
        &unix(),
    )
    .unwrap();
    assert_eq!(parsed.len(), 2);
    assert_eq!(parsed[0][0], "rg");
    assert_eq!(parsed[1][0], "sed");
}

#[test]
fn bash_words_are_unquoted() {
    let parsed = validate_command_for_shell(
        Platform::Unix,
        r#"rg "a b" 'c d' plain"#,
        &vec!["rg"],
        ShellType::Bash,
    )
    .unwrap();
    assert_eq!(
        parsed,
        vec![vec![
            "rg".to_string(),
            "a b".to_string(),
            "c d".to_string(),
            "plain".to_string()
        ]]
    );
}

#[test]
fn rejects_redirects() {
    let err = validate_command_for_shell(
        Platform::Unix,
        "cat foo > out.txt",
        &vec!["cat"],
        ShellType::Bash,
    )
    .unwrap_err();
    assert!(err.contains("plain shell command sequence"));
}

#[test]
fn rejects_programs_that_are_not_listed() {
    let err = validate_command_for_shell(
        Platform::Unix,
        "rm x && cat y",
        &vec!["cat"],
        ShellType::Bash,
    )
    .unwrap_err();
    assert!(err.contains("rm"), "got: {err}");
}

#[test]
fn powershell_path_accepts_simple_sequence() {
    let allowlist = vec!["python", "rg"];
    let parsed = validate_command_for_shell(
        Platform::Unix,
        "python analyze.py; rg result data",
        &allowlist,
        ShellType::PowerShell,
    )
    .unwrap();
    assert_eq!(parsed.len(), 2);
    assert_eq!(parsed[0][0], "python");
    assert_eq!(parsed[1][0], "rg");
}

#[test]
fn powershell_path_rejects_redirects_and_subshells() {
    let allowlist = vec!["python"];
    let err = validate_command_for_shell(
        Platform::Unix,
        "python a.py > out.txt",
        &allowlist,
        ShellType::PowerShell,
    )
    .unwrap_err();
    assert!(err.contains("plain command sequence"));
    let err = validate_command_for_shell(
        Platform::Unix,
        "python $(whoami)",
        &allowlist,
        ShellType::Cmd,
    )
    .unwrap_err();
    assert!(err.contains("plain command sequence"));
}

#[test]
fn check_commands_asks_for_a_sequence() {
    assert!(check_commands(Platform::Unix, None, &vec!["cat"], ShellType::Bash).is_err());
    let one = vec![vec!["cat".to_string(), "x".to_string()]];
    assert_eq!(
        check_commands(Platform::Unix, Some(one.clone()), &vec!["cat"], ShellType::Bash).unwrap(),
        one
    );
}

#[test]
fn quoted_strings_stand_for_their_text() {
    assert_eq!(
        parse_double_quoted_string("\"a b\""),
        Some("a b".to_string())
    );
    assert_eq!(
        parse_double_quoted_string("\"a\\\"b\""),
        Some("a\"b".to_string())
    );
    assert_eq!(parse_double_quoted_string("a"), None);
    assert_eq!(parse_raw_string("'x'"), Some("x".to_string()));
    assert_eq!(parse_raw_string("x"), None);
}

#[test]
fn simple_commands_are_split() {
    assert_eq!(
        split_on_separators("a b; c && d | e"),
        vec![
            "a b".to_string(),
            " c ".to_string(),
            " d ".to_string(),
            " e".to_string()
        ]
    );
    assert_eq!(
        tokenize_command("a 'b c' \"d\""),
        Some(vec!["a".to_string(), "b c".to_string(), "d".to_string()])
    );
    assert_eq!(tokenize_command("a 'b"), None);
    assert!(is_dangerous_powershell_cmdlet("Invoke-Expression"));
    assert!(!is_dangerous_powershell_cmdlet("python"));
}

#[test]
fn read_capped_truncates_at_exec_output_max_bytes() {
    let payload: Vec<u8> = vec![0xAB; EXEC_OUTPUT_MAX_BYTES * 4];
    assert!(payload.len() > EXEC_OUTPUT_MAX_BYTES);
    let mut out: Vec<u8> = Vec::new();
    for chunk in payload.chunks(READ_CHUNK_SIZE) {
        append_capped(&mut out, chunk, EXEC_OUTPUT_MAX_BYTES);
    }
    assert_eq!(out.len(), EXEC_OUTPUT_MAX_BYTES);
    assert!(out.iter().all(|&b| b == 0xAB));
}

#[test]
fn read_capped_keeps_all_data_under_cap() {
    let payload = b"hello world".to_vec();
    let mut out: Vec<u8> = Vec::new();
    append_capped(&mut out, &payload, EXEC_OUTPUT_MAX_BYTES);
    assert_eq!(out, payload);
}

#[test]
fn read_capped_empty_input_yields_empty() {
    let mut out: Vec<u8> = Vec::new();
    append_capped(&mut out, &[], EXEC_OUTPUT_MAX_BYTES);
    assert!(out.is_empty());
}

#[test]
fn exec_output_max_bytes_matches_codex_default_output_bytes_cap() {
    assert_eq!(EXEC_OUTPUT_MAX_BYTES, 1024 * 1024);
}

#[test]
fn outputs_tell_how_the_command_ended() {
    let done = finished_output("a".to_string(), "b".to_string(), Some(3));
    assert_eq!(done.returncode, 3);
    assert!(!done.timed_out);
    let killed = finished_output(String::new(), String::new(), None);
    assert_eq!(killed.returncode, -1);
    let late = timed_out_output("a".to_string(), String::new());
    assert!(late.timed_out);
    assert_eq!(late.stdout, "a");
}

#[test]
fn shells_are_told_by_their_paths() {
    assert_eq!(detect_shell_type(Platform::Unix, "/usr/bin/zsh"), Some(ShellType::Zsh));
    assert_eq!(detect_shell_type(Platform::Unix, "bash"), Some(ShellType::Bash));
    assert_eq!(detect_shell_type(Platform::Unix, "pwsh"), Some(ShellType::PowerShell));
    assert_eq!(detect_shell_type(Platform::Unix, "/bin/fish"), None);
    assert_eq!(default_user_shell(&unix()).shell_path, "/bin/bash");
    assert_eq!(ultimate_fallback_shell(Platform::Unix).shell_path, "/bin/sh");
    assert_eq!(
        ultimate_fallback_shell(Platform::Windows).shell_type,
        ShellType::Cmd
    );
}

#[test]
fn shells_are_found_among_programs() {
    let env = ShellEnvironment {
        platform: Platform::Unix,
        user_shell: None,
        files: Vec::new(),
        programs: vec![FoundProgram {
            name: "zsh".to_string(),
            path: "/opt/zsh".to_string(),
        }],
    };
    let found = get_shell(&env, ShellType::Zsh, &None).unwrap();
    assert_eq!(found.shell_path, "/opt/zsh");
    assert!(get_shell(&env, ShellType::PowerShell, &None).is_none());
}

#[test]
fn commands_are_handed_to_the_shell() {
    assert_eq!(
        shell_args_owned(ShellType::Bash, "ls"),
        vec!["-lc".to_string(), "ls".to_string()]
    );
    let shell = CodexShell::new(&unix());
    assert_eq!(shell.detected_shell().name(), "bash");
    let launch = shell.run("ls", &None).unwrap();
    assert_eq!(launch.program, "/bin/bash");
    assert_eq!(launch.args, vec!["-lc".to_string(), "ls".to_string()]);
}

#[test]
fn a_sandbox_that_cannot_be_had_stops_the_command() {
    let shell = CodexShell::new(&unix());
    let wrap = SandboxWrap {
        mode: SandboxMode::WorkspaceWrite,
        wrapped: Err("no sandbox".to_string()),
    };
    let err = shell.run("ls", &Some(wrap)).unwrap_err();
    assert!(err.contains("no sandbox"), "got: {err}");
    let none = SandboxWrap {
        mode: SandboxMode::WorkspaceWrite,
        wrapped: Ok(None),
    };
    assert!(shell.run("ls", &Some(none)).is_err());
    let wrapped = SandboxWrap {
        mode: SandboxMode::ReadOnly,
        wrapped: Ok(Some(vec!["box".to_string(), "ls".to_string()])),
    };
    let launch = shell.run("ls", &Some(wrapped)).unwrap();
    assert_eq!(launch.program, "box");
    assert_eq!(launch.args, vec!["ls".to_string()]);
}

#[test]
fn escalation_requires_runtime_only_execution_context() {
    let ctx = FsCtx::new("/ws".to_string(), Some("/ws/Data/Processed".to_string()), Platform::Unix);
    let exec = ExecTool::new(ctx, 10, &unix());
    let permissions = PermissionArg::Text("require_escalated".to_string());
    let why = Some("write a shared report artifact".to_string());
    assert!(
        exec.call_with_context(&permissions, &why, false).is_err(),
        "model arguments cannot self-escalate"
    );
    let approved = exec.call_with_context(&permissions, &why, true).unwrap();
    assert_eq!(approved.mode.as_kebab(), "danger-full-access");
}

#[test]
fn escalation_needs_a_reason() {
    let exec = ExecTool::new(FsCtx::new("/ws".to_string(), None, Platform::Unix), 10, &unix());
    let permissions = PermissionArg::Text("require_escalated".to_string());
    assert!(exec.call_with_context(&permissions, &None, true).is_err());
    assert!(exec
        .call_with_context(&PermissionArg::NotText, &None, true)
        .is_err());
    assert!(exec
        .call_with_context(&PermissionArg::Absent, &None, false)
        .is_ok());
}

#[test]
fn exec_respects_write_dir() {
    let root = Some("/ws/Data/Processed".to_string());
    let ctx = FsCtx::new("/ws".to_string(), root.clone(), Platform::Unix);
    let spec = SandboxSpec::new(SandboxMode::WorkspaceWrite, false);
    let exec = autoreport::exec_tool::make(ctx, 10, spec, &unix());
    let used = exec
        .call_with_context(&PermissionArg::Absent, &None, false)
        .unwrap();
    assert_eq!(used.writable_root, root);
    assert_eq!(used.mode.as_kebab(), "workspace-write");
}

// ---------------------------------------------------------------------------
// Paths
// ---------------------------------------------------------------------------

#[test]
fn file_tools_path_escape_is_blocked() {
    let escaped = resolve_within(Platform::Unix, "../../etc/passwd", "/tmp/autoreport-file-tools");
    assert!(escaped.is_err());
}

#[test]
fn isolation_path_escape_is_blocked() {
    let escaped = resolve_within(Platform::Unix, "../../etc/autoreport-escape", "/tmp/autoreport-iso");
    assert!(escaped.is_err(), "path traversal must be blocked");
}

#[test]
fn write_dir_is_enforced() {
    let workspace = "/tmp/autoreport-file-tools-write";
    let ctx = FsCtx::new(
        workspace.to_string(),
        Some(format!("{workspace}/Data/Processed")),
        Platform::Unix,
    );
    assert!(ctx
        .assert_write_allowed(&format!("{workspace}/Data/Processed/x.csv"))
        .is_ok());
    assert!(ctx
        .assert_write_allowed(&format!("{workspace}/Theory/x.md"))
        .is_err());
}

#[test]
fn paths_are_joined_and_normalized() {
    assert_eq!(join_path(Platform::Unix, "/ws", "a/b"), "/ws/a/b");
    assert_eq!(join_path(Platform::Unix, "/ws", "/x"), "/x");
    assert_eq!(normalize(Platform::Unix, "/ws/a/../b/./c"), "/ws/b/c");
    assert_eq!(normalize(Platform::Unix, "/.."), "/");
    assert!(path_starts_with(Platform::Unix, "/ws/a", "/ws"));
    assert!(!path_starts_with(Platform::Unix, "/wsx/a", "/ws"));
    assert_eq!(file_name(Platform::Unix, "/a/b.txt"), Some("b.txt".to_string()));
    assert_eq!(file_stem(Platform::Unix, "/a/b.tar.gz"), Some("b.tar".to_string()));
    assert_eq!(strip_base(Platform::Unix, "/ws/a/b", "/ws"), Some("a/b".to_string()));
    assert_eq!(strip_base(Platform::Unix, "/x", "/ws"), None);
    assert_eq!(resolve_within(Platform::Unix, "a", "/ws").unwrap(), "/ws/a");
}

// ---------------------------------------------------------------------------
// Directories
// ---------------------------------------------------------------------------

fn entry(name: &str, kind: DirEntryKind) -> RawEntry {
    RawEntry {
        name: name.to_string(),
        kind,
    }
}

#[test]
fn list_dir_paginates_and_marks_dirs() {
    let tool = ListDirTool::new(FsCtx::new("/tmp/listdir".to_string(), None, Platform::Unix));
    let resolved = tool
        .call(&Some(".".to_string()), None, None, Some(2))
        .unwrap();
    let mut lister = Lister::new(Platform::Unix, 2);
    assert_eq!(lister.next_dir(), Some(String::new()));
    lister.collect_entries(vec![
        entry("sub", DirEntryKind::Directory),
        entry("a.txt", DirEntryKind::File),
    ]);
    assert_eq!(lister.next_dir(), Some("sub".to_string()));
    lister.collect_entries(vec![entry("b.txt", DirEntryKind::File)]);
    assert_eq!(lister.next_dir(), None);
    let slice = lister.list_dir_slice(1, 25).unwrap();
    let text = tool.render(&resolved, &slice);
    assert!(text.contains("Absolute path:"));
    assert!(text.contains("a.txt"));
    assert!(text.contains("sub/"));
    assert!(text.contains("b.txt"));
}

#[test]
fn list_dir_offset_beyond_range_errors() {
    let mut lister = Lister::new(Platform::Unix, 1);
    lister.collect_entries(vec![entry("only.txt", DirEntryKind::File)]);
    assert!(lister.list_dir_slice(99, 25).is_err());
}

#[test]
fn list_dir_tells_how_to_go_on() {
    let mut lister = Lister::new(Platform::Unix, 1);
    lister.collect_entries(vec![
        entry("b", DirEntryKind::File),
        entry("a", DirEntryKind::Symlink),
        entry("c", DirEntryKind::Other),
    ]);
    let first = lister.list_dir_slice(1, 2).unwrap();
    assert_eq!(first[0], "a@");
    assert_eq!(first[1], "b");
    assert_eq!(first.len(), 3);
    assert!(first[2].contains("More than 2 entries found"));
    assert_eq!(format_entry_line(&lister.entries[2]), "c?");
}

#[test]
fn list_dir_refuses_bad_numbers() {
    let tool = ListDirTool::new(FsCtx::new("/ws".to_string(), None, Platform::Unix));
    let here = Some(".".to_string());
    assert!(tool.call(&here, Some(0), None, None).is_err());
    assert!(tool.call(&here, None, Some(0), None).is_err());
    assert!(tool.call(&here, None, None, Some(0)).is_err());
    assert!(tool
        .call(&Some("../..".to_string()), None, None, None)
        .is_err());
}

// ---------------------------------------------------------------------------
// Manifests
// ---------------------------------------------------------------------------

fn file_node(name: &str) -> ScanNode {
    ScanNode {
        name: name.to_string(),
        kind: ScanKind::File,
        updated_at: Some("2026-01-01T00:00:00Z".to_string()),
        children: Vec::new(),
    }
}

fn dir_node(name: &str, children: Vec<ScanNode>) -> ScanNode {
    ScanNode {
        name: name.to_string(),
        kind: ScanKind::Dir,
        updated_at: None,
        children,
    }
}

#[test]
fn load_scans_agent_directory_and_preserves_annotations() {
    let now = "2026-01-02T00:00:00Z";
    let mut store = ManifestStore::new(Platform::Unix, "/ws", "/ws");
    let first = Some(vec![dir_node("Scripts", vec![file_node("plot.py")])]);
    let mut manifest = store.load(AgentType::Plotting, None, &first, now);
    assert_eq!(manifest.files.len(), 1);
    manifest.files[0].description = "main plotting script".to_string();
    manifest.files[0].description_updated_at = Some("2026-01-01T00:00:00Z".to_string());
    store.save(AgentType::Plotting, manifest, now);

    let second = Some(vec![dir_node(
        "Scripts",
        vec![file_node("plot.py"), file_node("other.py")],
    )]);
    let loaded = store.load(AgentType::Plotting, None, &second, now);
    assert_eq!(loaded.files.len(), 2);
    let plot = loaded
        .files
        .iter()
        .find(|item| item.path == "Plots/Scripts/plot.py")
        .unwrap();
    assert_eq!(plot.description, "main plotting script");
}

#[test]
fn notes_patch_updates_text() {
    let updated = apply_notes_patch("alpha\nbeta\n", "@@\n alpha\n-beta\n+gamma\n").unwrap();
    assert_eq!(updated, "alpha\ngamma\n");
}

#[test]
fn notes_patch_that_does_not_fit_is_refused() {
    assert!(apply_notes_patch("alpha\n", "@@\n-missing\n+x\n").is_err());
    assert!(apply_notes_patch("alpha\n", "no hunk\n").is_err());
}

#[test]
fn manifest_scan_does_not_follow_symlinks() {
    let store = ManifestStore::new(Platform::Unix, "/ws", "/ws");
    let nodes = Some(vec![ScanNode {
        name: "linked.txt".to_string(),
        kind: ScanKind::Symlink,
        updated_at: None,
        children: Vec::new(),
    }]);
    assert!(store
        .scan_manifest_files(AgentType::Plotting, &nodes)
        .is_empty());
}

#[test]
fn manifest_scan_skips_what_is_generated() {
    assert!(should_ignore_dir("__pycache__"));
    assert!(!should_ignore_dir("Scripts"));
    assert!(should_ignore_file(".DS_Store"));
    assert!(!should_ignore_file("plot.py"));
}

#[test]
fn manifests_are_read_and_updated() {
    let tool = ManifestTool::new(AgentType::DataAnalysis);
    assert_eq!(tool.name(), "manifest");
    assert!(matches!(
        tool.call(&Some("read".to_string()), AgentType::Plotting),
        Ok(ManifestAction::Read(AgentType::Plotting))
    ));
    assert!(tool
        .call(&Some("erase".to_string()), AgentType::DataAnalysis)
        .is_err());
    let now = "2026-01-02T00:00:00Z";
    let manifest = ManifestStore::default_manifest(AgentType::DataAnalysis, now);
    let records = vec![FileRecord {
        path: Some("Data/none.csv".to_string()),
        description_old: None,
        description_new: Some("x".to_string()),
    }];
    let update = tool
        .update(manifest, &records, &Some("@@\n+note\n".to_string()), now)
        .unwrap();
    assert_eq!(update.not_found, vec!["Data/none.csv".to_string()]);
    assert_eq!(update.manifest.notes, "note");
    assert!(update.notes_diff.unwrap().contains("+note"));
}

#[test]
fn text_arguments_may_be_json() {
    assert_eq!(parse_optional_text("\"a\\nb\""), Some("a\nb".to_string()));
    assert_eq!(parse_optional_text("plain"), Some("plain".to_string()));
    assert_eq!(parse_optional_text("{\"a\":1}"), None);
    assert_eq!(choose_text("raw", None), Some("raw".to_string()));
    let number = Json {
        text: "1".to_string(),
        shape: Shape::Plain(ArgValue::Other),
    };
    assert_eq!(choose_text("raw", Some(number)), None);
}

#[test]
fn records_may_come_as_json_text() {
    let records = parse_records(
        "[{\"path\": \"a\", \"description_new\": \"x\\ny\"}, 7, {\"path\": 1, \"description_old\": \"o\"}]",
    );
    assert_eq!(records.len(), 3);
    assert_eq!(records[0].path, Some("a".to_string()));
    assert_eq!(records[0].description_new, Some("x\ny".to_string()));
    assert_eq!(records[0].description_old, None);
    assert_eq!(records[1].path, None);
    assert_eq!(records[2].path, None);
    assert_eq!(records[2].description_old, Some("o".to_string()));
    assert!(parse_records("{\"path\": \"a\"}").is_empty());
    assert!(parse_records("\"[]\"").is_empty());
    assert!(parse_records("[{\"path\": \"a\"}").is_empty());
    assert!(choose_records(&None).is_empty());
}

// ---------------------------------------------------------------------------
// Questions
// ---------------------------------------------------------------------------

fn question(options: Option<Vec<QuestionOption>>) -> Question {
    Question {
        id: "choice".to_string(),
        header: "Choice".to_string(),
        question: "Pick one".to_string(),
        is_other: false,
        is_secret: false,
        options,
    }
}

fn one_option() -> Option<Vec<QuestionOption>> {
    Some(vec![QuestionOption {
        label: "A".to_string(),
        description: "first".to_string(),
    }])
}

fn observed_auto_resolution(ms: u64) -> Option<u64> {
    RequestUserInputTool::new(AgentType::Main)
        .call(vec![question(one_option())], Some(ms))
        .unwrap()
        .auto_resolution_ms
}

#[test]
fn publishes_codex_shape_and_returns_answers() {
    let tool = RequestUserInputTool::new(AgentType::Main);
    assert_eq!(tool.name(), "request_user_input");
    let request = tool.call(vec![question(one_option())], None).unwrap();
    assert_eq!(request.questions[0].id, "choice");
    assert!(request.questions[0].is_other);
    assert_eq!(request.auto_resolution_ms, None);
}

#[test]
fn clamp_auto_resolution_aligns_to_codex_range() {
    assert_eq!(clamp_auto_resolution(None), None);
    assert_eq!(clamp_auto_resolution(Some(0)), Some(60_000));
    assert_eq!(clamp_auto_resolution(Some(1)), Some(60_000));
    assert_eq!(clamp_auto_resolution(Some(59_999)), Some(60_000));
    assert_eq!(clamp_auto_resolution(Some(60_000)), Some(60_000));
    assert_eq!(clamp_auto_resolution(Some(100_000)), Some(100_000));
    assert_eq!(clamp_auto_resolution(Some(240_000)), Some(240_000));
    assert_eq!(clamp_auto_resolution(Some(240_001)), Some(240_000));
    assert_eq!(clamp_auto_resolution(Some(999_999)), Some(240_000));
}

#[test]
fn call_clamps_low_auto_resolution_ms_up_to_minimum() {
    assert_eq!(observed_auto_resolution(1), Some(60_000));
}

#[test]
fn call_clamps_high_auto_resolution_ms_down_to_maximum() {
    assert_eq!(observed_auto_resolution(999_999), Some(240_000));
}

#[test]
fn call_passes_through_auto_resolution_ms_within_range() {
    assert_eq!(observed_auto_resolution(100_000), Some(100_000));
}

#[test]
fn rejects_question_with_no_options() {
    let err = RequestUserInputTool::new(AgentType::Main)
        .call(vec![question(None)], None)
        .unwrap_err();
    assert!(
        err.contains("non-empty options"),
        "unexpected error message: {err}"
    );
}

#[test]
fn rejects_question_with_empty_options() {
    let err = RequestUserInputTool::new(AgentType::Main)
        .call(vec![question(Some(Vec::new()))], None)
        .unwrap_err();
    assert!(
        err.contains("non-empty options"),
        "unexpected error message: {err}"
    );
}

// ---------------------------------------------------------------------------
// Running commands
// ---------------------------------------------------------------------------

#[test]
fn output_is_reported_when_a_command_ends() {
    let mut run = Running::new();
    assert!(matches!(
        run.take(RunEvent::Stdout(b"one ".to_vec())),
        RunAction::Wait
    ));
    assert!(matches!(
        run.take(RunEvent::Stderr(vec![b'e', 0xff])),
        RunAction::Wait
    ));
    run.take(RunEvent::Stdout(b"two".to_vec()));
    assert!(matches!(run.take(RunEvent::Drained), RunAction::Wait));
    assert!(matches!(run.take(RunEvent::StdoutEnd(None)), RunAction::Wait));
    assert!(matches!(run.take(RunEvent::Exited(Some(3))), RunAction::Wait));
    assert!(matches!(
        run.take(RunEvent::StderrEnd(None)),
        RunAction::AwaitExit
    ));
    match run.take(RunEvent::Exited(Some(3))) {
        RunAction::Done(Ok(out)) => {
            assert_eq!(out.stdout, "one two");
            assert_eq!(out.stderr, "e\u{fffd}");
            assert_eq!(out.returncode, 3);
            assert!(!out.timed_out);
        }
        other => panic!("unexpected action {other:?}"),
    }
}

#[test]
fn commands_are_killed_when_their_time_is_up() {
    let mut run = Running::new();
    run.take(RunEvent::Stdout(b"early ".to_vec()));
    assert!(matches!(run.take(RunEvent::TimedOut), RunAction::Kill));
    assert!(matches!(run.take(RunEvent::Exited(Some(0))), RunAction::Wait));
    assert!(matches!(
        run.take(RunEvent::StdoutEnd(Some("gone".to_string()))),
        RunAction::Wait
    ));
    run.take(RunEvent::Stdout(b"late".to_vec()));
    match run.take(RunEvent::Drained) {
        RunAction::Done(Ok(out)) => {
            assert_eq!(out.stdout, "early late");
            assert_eq!(out.returncode, -1);
            assert!(out.timed_out);
        }
        other => panic!("unexpected action {other:?}"),
    }
}

#[test]
fn faults_end_a_run() {
    let mut run = Running::new();
    run.take(RunEvent::StdoutEnd(None));
    run.take(RunEvent::StderrEnd(None));
    match run.take(RunEvent::WaitFault("y".to_string())) {
        RunAction::Done(Err(e)) => assert_eq!(e, "exec failed: y"),
        other => panic!("unexpected action {other:?}"),
    }
}

#[test]
fn faulty_streams_wait_for_each_other() {
    let mut run = Running::new();
    assert!(matches!(
        run.take(RunEvent::StderrEnd(Some("second".to_string()))),
        RunAction::Wait
    ));
    match run.take(RunEvent::StdoutEnd(Some("first".to_string()))) {
        RunAction::Done(Err(e)) => assert_eq!(e, "pipe read failed: first"),
        other => panic!("unexpected action {other:?}"),
    }
    let mut run = Running::new();
    run.take(RunEvent::StderrEnd(Some("only".to_string())));
    match run.take(RunEvent::StdoutEnd(None)) {
        RunAction::Done(Err(e)) => assert_eq!(e, "pipe read failed: only"),
        other => panic!("unexpected action {other:?}"),
    }
    let mut run = Running::new();
    run.take(RunEvent::Stderr(b"kept".to_vec()));
    run.take(RunEvent::StdoutEnd(Some("gone".to_string())));
    assert!(matches!(run.take(RunEvent::TimedOut), RunAction::Kill));
    match run.take(RunEvent::Drained) {
        RunAction::Done(Ok(out)) => {
            assert_eq!(out.stderr, "kept");
            assert!(out.timed_out);
        }
        other => panic!("unexpected action {other:?}"),
    }
}

#[test]
fn runaway_output_is_bounded() {
    let mut run = Running::new();
    let chunk = vec![b'x'; EXEC_OUTPUT_MAX_BYTES];
    run.take(RunEvent::Stdout(chunk.clone()));
    run.take(RunEvent::Stdout(chunk));
    assert_eq!(run.stdout.len(), EXEC_OUTPUT_MAX_BYTES);
}
