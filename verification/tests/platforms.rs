//! What differs from platform to platform.

use autoreport::agent::AgentType;
use autoreport::apply_patch::plan::{apply, parent_path};
use autoreport::bottom_pane::history_search::{find_match, Direction};
use autoreport::bottom_pane::paste_burst::{FlushResult, PasteBurst};
use autoreport::codex_shell::simple::{split_on_separators, tokenize_command};
use autoreport::codex_shell::{
    check_commands, default_user_shell, detect_shell_type, Platform, ShellEnvironment, ShellType,
};
use autoreport::config_update::presets::PresetProvider;
use autoreport::config_update::providers::Settings;
use autoreport::config_update::{ConfigScreen, EnvKey};
use autoreport::file_tools::{
    component_eq, components, equals_exactly, file_name, file_stem, has_root, join_path, normalize,
    path_eq, path_starts_with, prefix_length, resolve_within, starts_exactly, strip_base, FsCtx,
};
use autoreport::manifest::{ManifestStore, ScanKind, ScanNode};
use autoreport::mentions::{mention_path, resolve_workspace_mention};

const MILLI: u64 = 1_000_000;
const SECOND: u64 = 1_000_000_000;

fn strings(v: &[&str]) -> Vec<String> {
    v.iter().map(|s| s.to_string()).collect()
}

fn guard(workspace: &str, write_dir: &str, platform: Platform) -> FsCtx {
    FsCtx::new(
        workspace.to_string(),
        Some(write_dir.to_string()),
        platform,
    )
}

// ---------------------------------------------------------------------------
// Case
// ---------------------------------------------------------------------------

#[test]
fn names_differ_by_case_only_where_the_file_system_says_so() {
    assert!(component_eq(Platform::Windows, "Data", "dATA"));
    assert!(component_eq(Platform::MacOs, "Data", "dATA"));
    assert!(!component_eq(Platform::Unix, "Data", "dATA"));
    assert!(component_eq(Platform::MacOs, "\u{c4}rger", "\u{e4}rger"));
}

#[test]
fn metadata_is_protected_in_any_spelling() {
    for platform in [Platform::Windows, Platform::MacOs] {
        let ctx = guard("/ws", "/ws", platform);
        assert_eq!(
            ctx.assert_write_allowed("/ws/.AutoReport/x"),
            Err("writing inside .autoreport is not permitted".to_string())
        );
        assert!(ctx.assert_write_allowed("/WS/.autoreport").is_err());
        assert!(ctx.assert_write_allowed("/WS/a").is_ok());
    }
    let ctx = guard("/ws", "/ws", Platform::Unix);
    assert!(ctx.assert_write_allowed("/ws/.AutoReport/x").is_ok());
    assert!(ctx.assert_write_allowed("/ws/.autoreport/x").is_err());
    assert!(ctx.assert_write_allowed("/WS/a").is_err());
}

#[test]
fn write_directories_may_be_spelled_in_another_case() {
    let target = "/ws/Data/Processed/x.csv";
    assert!(guard("/ws", "/ws/data/processed", Platform::MacOs)
        .assert_write_allowed(target)
        .is_ok());
    assert!(guard("/ws", "/ws/data/processed", Platform::Windows)
        .assert_write_allowed(target)
        .is_ok());
    assert!(guard("/ws", "/ws/data/processed", Platform::Unix)
        .assert_write_allowed(target)
        .is_err());
}

#[test]
fn workspaces_may_be_spelled_in_another_case() {
    assert_eq!(
        resolve_within(Platform::MacOs, "/WS/a", "/ws").unwrap(),
        "/WS/a"
    );
    assert!(resolve_within(Platform::Unix, "/WS/a", "/ws").is_err());
    assert!(path_eq(Platform::MacOs, "/WS/A", "/ws/a"));
    assert!(!equals_exactly(Platform::MacOs, "/WS/A", "/ws/a"));
    assert!(!starts_exactly(Platform::MacOs, "/WS/A", "/ws"));
}

#[test]
fn patches_are_guarded_in_any_spelling() {
    let patch = "*** Begin Patch\n*** Add File: .AUTOREPORT/x\n+x\n*** End Patch";
    let mac = guard("/ws", "/ws", Platform::MacOs);
    assert!(apply(patch, &mac, &Vec::new()).is_err());
    let unix = guard("/ws", "/ws", Platform::Unix);
    assert!(apply(patch, &unix, &Vec::new()).is_ok());
}

// ---------------------------------------------------------------------------
// Paths of Windows
// ---------------------------------------------------------------------------

const WIN: Platform = Platform::Windows;

#[test]
fn drives_and_shares_are_prefixes() {
    assert_eq!(prefix_length(WIN, r"C:\ws"), 2);
    assert_eq!(prefix_length(WIN, r"\\server\share\x"), 14);
    assert_eq!(prefix_length(WIN, "//server/share"), 14);
    assert_eq!(prefix_length(WIN, r"\\server"), 0);
    assert_eq!(prefix_length(WIN, r"\\?\C:\ws"), 6);
    assert_eq!(prefix_length(WIN, "1:x"), 0);
    assert_eq!(prefix_length(Platform::Unix, "C:/ws"), 0);
    assert!(has_root(WIN, r"\x"));
    assert!(!has_root(WIN, "C:x"));
    assert!(has_root(WIN, r"\\server\share"));
}

#[test]
fn both_separators_divide_paths_of_windows() {
    assert_eq!(
        components(WIN, r"C:\a/b\.\c"),
        strings(&["C:", r"\", "a", "b", "c"])
    );
    assert_eq!(components(WIN, r"a\b"), strings(&["a", "b"]));
    assert_eq!(components(Platform::Unix, r"a\b"), strings(&[r"a\b"]));
    assert_eq!(
        components(WIN, r"\\server\share\a"),
        strings(&[r"\\server\share", r"\", "a"])
    );
}

#[test]
fn paths_of_windows_are_joined_and_normalized() {
    assert_eq!(join_path(WIN, r"C:\ws", r"a\b"), r"C:\ws\a\b");
    assert_eq!(join_path(WIN, r"C:\ws", r"D:x"), "D:x");
    assert_eq!(join_path(WIN, r"C:\ws", r"\x"), r"C:\x");
    assert_eq!(join_path(WIN, "C:", "x"), "C:x");
    assert_eq!(normalize(WIN, r"C:\ws\a\..\b/./c"), r"C:\ws\b\c");
    assert_eq!(normalize(WIN, r"C:\.."), r"C:\");
    assert_eq!(components(WIN, "C:."), strings(&["C:"]));
    assert_eq!(components(WIN, "."), strings(&["."]));
    assert_eq!(normalize(WIN, r"a\C:x\..\b"), "C:b");
}

#[test]
fn paths_of_windows_do_not_escape() {
    assert_eq!(
        resolve_within(WIN, r"a\..\b", r"C:\ws").unwrap(),
        r"C:\ws\b"
    );
    assert_eq!(
        resolve_within(WIN, r"c:\WS\b", r"C:\ws").unwrap(),
        r"c:\WS\b"
    );
    assert!(resolve_within(WIN, r"..\b", r"C:\ws").is_err());
    assert!(resolve_within(WIN, r"D:\ws\b", r"C:\ws").is_err());
    assert!(resolve_within(WIN, r"a\C:x\..\b", r"C:\ws").is_err());
    assert!(path_starts_with(WIN, r"C:\ws\a", "c:/WS"));
    let ctx = guard(r"C:\ws", r"C:\ws", WIN);
    assert!(ctx.assert_write_allowed(r"C:\ws\.AUTOREPORT\x").is_err());
    assert!(ctx.assert_write_allowed(r"C:\ws\a").is_ok());
}

#[test]
fn only_backslashes_divide_verbatim_paths() {
    assert_eq!(
        components(WIN, r"\\?\C:\a/b\.\c"),
        strings(&[r"\\?\C:", r"\", "a/b", ".", "c"])
    );
    assert_eq!(
        components(WIN, r"\\?\UNC\server\share\a"),
        strings(&[r"\\?\UNC\server\share", r"\", "a"])
    );
    assert_eq!(
        components(WIN, r"\\?\pictures\a"),
        strings(&[r"\\?\pictures", r"\", "a"])
    );
    assert_eq!(components(WIN, r"\\?\C:"), strings(&[r"\\?\C:"]));
    assert_eq!(
        components(WIN, "//?/C:/a"),
        strings(&["//?/C:", r"\", "a"])
    );
    assert_eq!(prefix_length(WIN, r"\\?\UNC\server"), 14);
    assert_eq!(prefix_length(WIN, r"\\?\UNC\server\"), 14);
    assert_eq!(prefix_length(WIN, r"\\?\UNC\"), 8);
    assert_eq!(prefix_length(WIN, r"\\?\UNC"), 7);
    assert_eq!(prefix_length(WIN, r"\\?\a/b"), 7);
    assert_eq!(prefix_length(Platform::Unix, r"\\?\C:\a"), 0);
    assert!(equals_exactly(WIN, r"\\?\c:\a", r"\\?\C:\a"));
    assert!(!equals_exactly(WIN, r"\\?\C:\a", r"C:\a"));
    assert!(!equals_exactly(WIN, r"\\?\C:\a", "//?/C:/a"));
}

#[test]
fn verbatim_paths_are_joined_piece_by_piece() {
    assert_eq!(join_path(WIN, r"\\?\C:\ws", "a/./b"), r"\\?\C:\ws\a\b");
    assert_eq!(join_path(WIN, r"\\?\C:\ws", r"..\b"), r"\\?\C:\b");
    assert_eq!(join_path(WIN, r"\\?\C:\", r"..\b"), r"\\?\C:\b");
    assert_eq!(join_path(WIN, r"\\?\C:\ws", r"\x"), r"\\?\C:\x");
    assert_eq!(join_path(WIN, r"\\?\C:", "x"), r"\\?\C:\x");
    assert_eq!(join_path(WIN, r"\\?\C:\ws", "D:x"), "D:x");
    assert_eq!(join_path(WIN, r"\\?\C:\ws", ""), "\\\\?\\C:\\ws\\");
    assert_eq!(normalize(WIN, r"\\?\C:\a\.\b\..\c"), r"\\?\C:\a\c");
    assert_eq!(normalize(WIN, r"\\?\C:\a/b"), r"\\?\C:\a\b");
    assert_eq!(normalize(WIN, r"\\?\UNC\s\t\..\.."), "\\\\?\\UNC\\s\\t\\");
}

#[test]
fn verbatim_paths_do_not_escape() {
    let workspace = r"\\?\C:\ws";
    let target = resolve_within(WIN, "a/../b", workspace).unwrap();
    assert_eq!(target, r"\\?\C:\ws\b");
    assert_eq!(resolve_within(WIN, &target, workspace).unwrap(), target);
    assert!(resolve_within(WIN, r"..\b", workspace).is_err());
    assert!(resolve_within(WIN, r"C:\ws\b", workspace).is_err());
    assert_eq!(resolve_within(WIN, r"\\?\C:\ws/b", workspace).unwrap(), target);
    assert!(!path_starts_with(WIN, r"\\?\C:\ws/b", workspace));
    assert!(resolve_within(WIN, r"\\?\c:\WS\b", workspace).is_ok());
}

#[test]
fn names_are_read_from_paths_of_windows() {
    assert_eq!(file_name(WIN, r"C:\bin\rg.exe").unwrap(), "rg.exe");
    assert_eq!(file_stem(WIN, r"C:\bin\rg.exe").unwrap(), "rg");
    assert_eq!(file_name(WIN, "C:"), None);
    assert_eq!(file_name(WIN, r"C:\"), None);
    assert_eq!(strip_base(WIN, r"c:\ws\a\b", r"C:\ws").unwrap(), r"a\b");
    assert_eq!(strip_base(WIN, r"C:\WS\a", r"C:\ws"), None);
    assert_eq!(parent_path(WIN, r"C:\a\b").unwrap(), r"C:\a");
    assert_eq!(parent_path(WIN, r"C:\"), None);
    assert_eq!(parent_path(WIN, "C:"), None);
}

#[test]
fn shells_are_known_by_paths_of_windows() {
    let path = r"C:\Windows\System32\cmd.exe";
    assert_eq!(detect_shell_type(WIN, path), Some(ShellType::Cmd));
    assert_eq!(detect_shell_type(Platform::Unix, path), None);
    let env = ShellEnvironment {
        platform: WIN,
        user_shell: None,
        files: Vec::new(),
        programs: Vec::new(),
    };
    assert_eq!(default_user_shell(&env).shell_type, ShellType::Cmd);
}

#[test]
fn programs_are_listed_by_their_base_names() {
    let commands = vec![strings(&[r"C:\tools\rg", "x"])];
    assert!(check_commands(
        WIN,
        Some(commands.clone()),
        &vec!["rg"],
        ShellType::PowerShell
    )
    .is_ok());
    assert!(check_commands(
        Platform::Unix,
        Some(commands),
        &vec!["rg"],
        ShellType::PowerShell
    )
    .is_err());
}

#[test]
fn mentions_have_no_prefix_and_no_root() {
    assert!(mention_path(WIN, r"C:\ws", r"D:\x").is_none());
    assert!(mention_path(WIN, r"C:\ws", "D:x").is_none());
    assert!(mention_path(WIN, r"C:\ws", r"\x").is_none());
    assert!(mention_path(WIN, r"C:\ws", r"a\..\..\x").is_none());
    assert_eq!(
        mention_path(WIN, r"C:\ws", r"a\x").unwrap(),
        r"C:\ws\a\x"
    );
    assert!(
        resolve_workspace_mention(WIN, r"C:\ws", "x", Some(r"C:\other\x".to_string())).is_none()
    );
}

// ---------------------------------------------------------------------------
// Pastes
// ---------------------------------------------------------------------------

fn collecting(platform: Platform) -> PasteBurst {
    let mut burst = PasteBurst::new(platform);
    burst.on_plain_char('a', SECOND);
    burst.on_plain_char('b', SECOND);
    burst.append_char_to_buffer('b', SECOND);
    burst
}

#[test]
fn pastes_may_pause_longer_on_windows() {
    let mut burst = collecting(Platform::Unix);
    assert!(matches!(
        burst.flush_if_due(SECOND + 8 * MILLI),
        FlushResult::Nothing
    ));
    assert!(matches!(
        burst.flush_if_due(SECOND + 9 * MILLI),
        FlushResult::Paste(_)
    ));
    let mut burst = collecting(Platform::Windows);
    assert!(matches!(
        burst.flush_if_due(SECOND + 60 * MILLI),
        FlushResult::Nothing
    ));
    assert!(matches!(
        burst.flush_if_due(SECOND + 61 * MILLI),
        FlushResult::Paste(_)
    ));
}

// ---------------------------------------------------------------------------
// Searching, splitting, loading, adding
// ---------------------------------------------------------------------------

#[test]
fn searches_leave_out_where_they_start() {
    let history = strings(&["cargo", "ls", "CARGO test"]);
    let query: Vec<char> = "c".chars().collect();
    assert_eq!(
        find_match(&strings(&["cargo"]), &query, 0, Direction::Newer),
        None
    );
    assert_eq!(find_match(&history, &query, 0, Direction::Newer), Some(2));
    assert_eq!(find_match(&history, &query, 2, Direction::Newer), None);
    assert_eq!(find_match(&history, &query, 2, Direction::Older), Some(0));
    assert_eq!(find_match(&history, &query, 0, Direction::Older), None);
    assert_eq!(find_match(&history, &query, 3, Direction::Older), Some(2));
    assert_eq!(
        find_match(&history, &Vec::new(), 3, Direction::Older),
        None
    );
}

#[test]
fn parts_split_no_further() {
    for script in ["", "a; b && c || d | e\nf", "a '; b' \"|\"; c", "a & b &&& c", "'open; x"] {
        let parts = split_on_separators(script);
        assert!(!parts.is_empty());
        for part in parts {
            assert_eq!(split_on_separators(&part), vec![part.clone()]);
        }
    }
}

#[test]
fn quoted_words_are_read_back() {
    let words = strings(&["a b", "", "it's", "c"]);
    let line = words
        .iter()
        .map(|w| format!("\"{w}\""))
        .collect::<Vec<String>>()
        .join(" ");
    assert_eq!(tokenize_command(&line), Some(words));
    assert_eq!(tokenize_command(&format!("{line} \"x")), None);
    assert_eq!(tokenize_command(" \"x"), None);
}

fn node(name: &str, kind: ScanKind, children: Vec<ScanNode>) -> ScanNode {
    ScanNode {
        name: name.to_string(),
        kind,
        updated_at: None,
        children,
    }
}

#[test]
fn loaded_manifests_are_sorted_and_complete() {
    for platform in [Platform::Unix, Platform::MacOs, Platform::Windows] {
        let mut store = ManifestStore::new(platform, "ws", "state");
        let tree = Some(vec![
            node("z.csv", ScanKind::File, Vec::new()),
            node(
                "sub",
                ScanKind::Dir,
                vec![
                    node("b.csv", ScanKind::File, Vec::new()),
                    node("a.csv", ScanKind::File, Vec::new()),
                    node("x.tmp", ScanKind::File, Vec::new()),
                    node("link", ScanKind::Symlink, Vec::new()),
                ],
            ),
            node(
                "__pycache__",
                ScanKind::Dir,
                vec![node("c.pyc", ScanKind::File, Vec::new())],
            ),
        ]);
        let mut loaded = store.load(AgentType::DataAnalysis, None, &tree, "t");
        let paths: Vec<String> = loaded.files.iter().map(|f| f.path.clone()).collect();
        assert_eq!(
            paths,
            strings(&[
                "Data/Processed/sub/a.csv",
                "Data/Processed/sub/b.csv",
                "Data/Processed/z.csv"
            ])
        );
        loaded.files[1].description = "kept".to_string();
        loaded.notes = "notes".to_string();
        store.save(AgentType::DataAnalysis, loaded, "t");
        let again = store.load(AgentType::DataAnalysis, None, &tree, "t");
        assert_eq!(again.files[1].description, "kept");
        assert_eq!(again.files[0].description, "");
        assert_eq!(again.notes, "notes");
        let gone = store.load(AgentType::DataAnalysis, None, &None, "t");
        assert!(gone.files.is_empty());
    }
}

#[test]
fn added_providers_have_a_limit_of_tokens() {
    let preset = PresetProvider {
        name: "Gateway".to_string(),
        kind: "openai".to_string(),
        base_url: String::new(),
        models: Vec::new(),
        env_key: None,
        default_env: None,
        env_resolves: false,
    };
    let mut screen = ConfigScreen::new_with_presets(
        Settings::new(),
        vec![preset],
        EnvKey {
            variable: None,
            resolves: false,
        },
    );
    screen.add_custom_api();
    assert_eq!(screen.settings.get("custom").unwrap().max_tokens, 8192);
    screen.add_selected_preset();
    assert_eq!(screen.settings.get("Gateway").unwrap().max_tokens, 8192);
}
