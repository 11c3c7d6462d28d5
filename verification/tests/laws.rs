//! What holds of every input, tried on some.

use autoreport::agent::{AgentStatus, AgentType, AGENT_COUNT};
use autoreport::app_event::BusMessage;
use autoreport::app_state::{Effect, Tui};
use autoreport::apply_patch::replacements::{apply_replacements, update_contents, Replacement};
use autoreport::bottom_pane::chat_composer::ChatComposer;
use autoreport::bottom_pane::draft::{
    beginning_of_previous_word, end_of_next_word, find_line_end, find_line_start, Draft,
};
use autoreport::bottom_pane::history_search::{HistorySearchSession, HistorySearchStatus};
use autoreport::bottom_pane::paste_burst::PasteBurst;
use autoreport::bottom_pane::pending_input_preview::PendingInputPreview;
use autoreport::bottom_pane::popup_state::step;
use autoreport::bottom_pane::visual_lines::{visual_line_ranges, wrap_input};
use autoreport::chatwidget::extract_mentions;
use autoreport::codex_shell::{Platform, SandboxMode, ShellEnvironment};
use autoreport::config_update::presets::PresetProvider;
use autoreport::config_update::providers::Settings;
use autoreport::config_update::{ConfigScreen, EnvKey};
use autoreport::desk::Desk;
use autoreport::diff_render::{line_bg, ColorLevel, DiffSign, Rgb};
use autoreport::editor::Editor;
use autoreport::exec_tool::{make_with_environment, SandboxSpec};
use autoreport::file_tools::{normalize, resolve_within, FsCtx};
use autoreport::frame_requester::FrameScheduler;
use autoreport::geometry::{place, Rect};
use autoreport::key_events::Event;
use autoreport::keys::{KeyCode, KeyEvent, Modifiers};
use autoreport::manifest::notes::apply_notes_patch;
use autoreport::manifest::{sync_with_filesystem, AgentManifest, ManifestFile};
use autoreport::order::sort_indices;
use autoreport::replay::{HistoryItem, SessionHistory};
use autoreport::style::{Line, Tone};
use autoreport::text::{join, split_on};
use autoreport::transcript::Cell;

const MILLI: u64 = 1_000_000;
const SECOND: u64 = 1_000_000_000;

fn chars(s: &str) -> Vec<char> {
    s.chars().collect()
}

fn strings(v: &[&str]) -> Vec<String> {
    v.iter().map(|s| s.to_string()).collect()
}

// ---------------------------------------------------------------------------
// Text and order
// ---------------------------------------------------------------------------

#[test]
fn joining_undoes_splitting() {
    for s in ["", "a", "a\nb", "\n\n", "a\n"] {
        assert_eq!(join(&split_on(s, '\n'), "\n"), s);
    }
}

#[test]
fn sorting_keeps_equal_names_in_place() {
    assert_eq!(sort_indices(&strings(&["b", "a", "c", "a"])), vec![1, 3, 0, 2]);
    assert!(sort_indices(&Vec::new()).is_empty());
}

#[test]
fn agents_are_named_once() {
    for i in 0..AGENT_COUNT {
        let agent = AgentType::at(i);
        assert_eq!(agent.index(), i);
        assert_eq!(AgentType::parse(agent.as_str()), Some(agent));
    }
    assert_eq!(AgentType::parse("nobody"), None);
}

#[test]
fn steps_go_round() {
    assert_eq!(step(2, 3, true), 0);
    assert_eq!(step(0, 3, false), 2);
    assert_eq!(step(step(1, 3, true), 3, false), 1);
}

// ---------------------------------------------------------------------------
// Paths
// ---------------------------------------------------------------------------

#[test]
fn normal_paths_stay_as_they_are() {
    for path in ["/a/./b/../c", "a/b/..", "/../x", ".", ""] {
        let once = normalize(Platform::Unix, path);
        assert_eq!(normalize(Platform::Unix, &once), once);
    }
    assert_eq!(normalize(Platform::Unix, "/a/./b/../c"), "/a/c");
}

#[test]
fn resolving_again_changes_nothing() {
    for (platform, path, workspace, target) in [
        (Platform::Unix, "./a//b/../c", "/ws", "/ws/a/c"),
        (Platform::MacOs, "/WS/x", "/ws", "/WS/x"),
        (Platform::Windows, r"a\..\b", r"C:\ws", r"C:\ws\b"),
        (Platform::Windows, r"\ws\b\.", r"C:\ws", r"C:\ws\b"),
        (Platform::Windows, "b", r"\\srv\share\ws", r"\\srv\share\ws\b"),
    ] {
        let once = resolve_within(platform, path, workspace).unwrap();
        assert_eq!(once, target);
        assert_eq!(resolve_within(platform, &once, workspace).unwrap(), once);
    }
}

#[test]
fn resolved_paths_lie_inside() {
    assert_eq!(resolve_within(Platform::Unix, "a/../b", "/ws").unwrap(), "/ws/b");
    assert!(resolve_within(Platform::Unix, "../b", "/ws").is_err());
    assert!(resolve_within(Platform::Unix, "/etc/passwd", "/ws").is_err());
    assert_eq!(resolve_within(Platform::Unix, "/ws/b", "/ws").unwrap(), "/ws/b");
}

#[test]
fn nothing_is_written_without_a_directory() {
    let none = FsCtx::new("/ws".to_string(), None, Platform::Unix);
    assert!(none.assert_write_allowed("/ws/a").is_err());
    let some = FsCtx::new("/ws".to_string(), Some("/ws/Data".to_string()), Platform::Unix);
    assert!(some.assert_write_allowed("/ws/Data/a").is_ok());
    assert!(some.assert_write_allowed("/ws/Database").is_err());
}

// ---------------------------------------------------------------------------
// Edits
// ---------------------------------------------------------------------------

#[test]
fn edits_that_put_back_what_they_take_change_nothing() {
    let lines = strings(&["a", "b", "c"]);
    assert_eq!(apply_replacements(&lines, &Vec::new()), lines);
    let same = vec![Replacement {
        start: 1,
        old_len: 1,
        new_lines: strings(&["b"]),
    }];
    assert_eq!(apply_replacements(&lines, &same), lines);
}

#[test]
fn files_end_in_a_line_feed() {
    assert_eq!(update_contents("a\nb", "f", &Vec::new()).unwrap(), "a\nb\n");
    assert_eq!(update_contents("a\n", "f", &Vec::new()).unwrap(), "a\n");
}

#[test]
fn empty_patches_keep_the_notes() {
    for notes in ["", "a", "a\nb\n"] {
        assert_eq!(apply_notes_patch(notes, "").unwrap(), notes);
    }
}

fn listed(path: &str, description: &str) -> ManifestFile {
    ManifestFile {
        path: path.to_string(),
        description: description.to_string(),
        description_updated_at: None,
        file_updated_at: None,
    }
}

#[test]
fn manifests_follow_the_disk() {
    let manifest = AgentManifest {
        agent_type: "plotting".to_string(),
        updated_at: "t".to_string(),
        files: vec![listed("a", "first"), listed("gone", "old")],
        notes: "n".to_string(),
        notes_updated_at: None,
    };
    let actual = vec![listed("a", ""), listed("b", "")];
    let once = sync_with_filesystem(manifest, &actual);
    let paths: Vec<&str> = once.files.iter().map(|f| f.path.as_str()).collect();
    assert_eq!(paths, vec!["a", "b"]);
    assert_eq!(once.files[0].description, "first");
    assert_eq!(once.notes, "n");
    let copy = once.copy();
    let twice = sync_with_filesystem(copy, &actual);
    assert_eq!(twice.files[0].description, once.files[0].description);
    assert_eq!(twice.files.len(), once.files.len());
}

// ---------------------------------------------------------------------------
// Drafts
// ---------------------------------------------------------------------------

#[test]
fn motions_stay_inside() {
    let s = chars("one two\nthree");
    for cursor in 0..=s.len() {
        assert!(beginning_of_previous_word(&s, cursor) <= cursor);
        assert!(end_of_next_word(&s, cursor) >= cursor);
        assert!(end_of_next_word(&s, cursor) <= s.len());
        assert!(find_line_start(&s, cursor) <= cursor);
        assert!(find_line_end(&s, cursor) >= cursor);
    }
    assert_eq!(beginning_of_previous_word(&s, 7), 4);
    assert_eq!(find_line_start(&s, 10), 8);
    assert_eq!(find_line_end(&s, 2), 7);
}

#[test]
fn putting_in_undoes_taking_out() {
    let mut d = Draft::at_end("hello world");
    let cut = d.remove_range(5, 11);
    assert_eq!(d.to_text(), "hello");
    d.insert_chars(&cut);
    assert_eq!(d.to_text(), "hello world");
    assert_eq!(d.cursor, 11);
}

#[test]
fn rows_cover_the_text() {
    let s = chars("abcdef\ngh");
    assert_eq!(visual_line_ranges(&s, 4), vec![(0, 4), (4, 6), (7, 9)]);
    assert_eq!(wrap_input(&s, 4), strings(&["abcd", "ef", "gh"]));
    let wide = chars("你好");
    assert_eq!(visual_line_ranges(&wide, 3), vec![(0, 1), (1, 2)]);
}

#[test]
fn the_composer_covers_its_area() {
    let mut composer = ChatComposer::new("Main");
    composer.insert_text("a\nb\nc");
    for height in 1..9u16 {
        let area = Rect::new(3, 4, 20, height);
        let (surface, footer) = composer.layout_areas(area);
        assert_eq!(surface.y + surface.height, footer.y);
        assert_eq!(footer.y + footer.height, area.y + area.height);
        if let Some(frame) = composer.render(area) {
            if surface.height >= 3 {
                for row in &frame.rows {
                    assert!(row.area.y > surface.y);
                    assert!(row.area.y + row.area.height < surface.y + surface.height);
                }
            }
        }
    }
}

#[test]
fn sent_texts_are_kept_once() {
    let mut composer = ChatComposer::new("Main");
    composer.record_history("a");
    composer.record_history("a");
    assert_eq!(composer.history, strings(&["a"]));
    composer.insert_text("  ");
    composer.take_text();
    assert_eq!(composer.history, strings(&["a"]));
    composer.insert_text("b");
    composer.take_text();
    assert_eq!(composer.history, strings(&["a", "b"]));
}

#[test]
fn texts_are_set_with_their_cursor() {
    let mut composer = ChatComposer::new("Main");
    composer.set_text_and_cursor("你好", 3);
    assert_eq!(composer.text(), "你好");
    assert_eq!(composer.cursor(), 3);
    composer.set_text_and_cursor("ab", 9);
    assert_eq!(composer.cursor(), 2);
}

#[test]
fn searches_can_be_asked_about() {
    let mut composer = ChatComposer::new("Main");
    composer.record_history("cargo test");
    composer.insert_text("mine");
    assert_eq!(composer.history_search_status(), None);
    composer.begin_history_search();
    composer.handle_history_search_key(KeyEvent::new(KeyCode::Char('t'), Modifiers::none()));
    assert_eq!(composer.history_search_query(), "t");
    assert_eq!(
        composer.history_search_status(),
        Some(HistorySearchStatus::Match)
    );
    composer.cancel_history_search();
    assert_eq!(composer.text(), "mine");
    assert!(!composer.history_search_active());
    let session = HistorySearchSession::new(Draft::at_end("kept"));
    assert_eq!(session.original_draft(), "kept");
}

#[test]
fn accepted_mentions_are_read_back() {
    for path in ["Data/a.csv", "Data/my file.csv"] {
        let mut composer = ChatComposer::new("Main");
        composer.insert_text("@");
        composer.recompute_mention();
        composer.set_mention_matches(vec![path.to_string()]);
        composer.accept_mention();
        assert_eq!(extract_mentions(&composer.text()), vec![path.to_string()]);
    }
}

#[test]
fn popups_are_bounded() {
    let mut composer = ChatComposer::new("Main");
    composer.insert_text("/");
    composer.recompute_slash();
    let popup = composer.completion_popup_build().unwrap();
    assert_eq!(popup.desired_height(), 8);
    let mut composer = ChatComposer::new("Main");
    composer.insert_text("@");
    composer.recompute_mention();
    composer.set_mention_matches((0..20).map(|i| format!("f{i}")).collect());
    let popup = composer.completion_popup_build().unwrap();
    assert_eq!(popup.desired_height(), 10);
}

#[test]
fn previews_are_bounded() {
    let mut preview = PendingInputPreview::new();
    preview.set_queued_messages(strings(&["long"]));
    let rows: Vec<Line> = (0..5).map(|_| Line::one("x", Tone::Dim)).collect();
    assert_eq!(preview.desired_height(&vec![rows], 40, true), 6);
}

// ---------------------------------------------------------------------------
// Typing
// ---------------------------------------------------------------------------

/// All characters of the draft and all that are withheld.
fn held(editor: &Editor) -> Vec<char> {
    let mut all = editor.composer.draft.text.clone();
    all.extend(editor.paste_burst.buffer.iter());
    all.extend(editor.paste_burst.pending_first_char.iter().map(|h| h.ch));
    all.sort_unstable();
    all
}

#[test]
fn no_character_gets_lost() {
    let mut editor = Editor::new(Platform::Unix, "Main");
    let mut expected: Vec<char> = Vec::new();
    let mut now = SECOND;
    for c in "paste 你好 of some length".chars() {
        now += MILLI;
        editor.insert_plain_char(c, now);
        expected.push(c);
        expected.sort_unstable();
        assert_eq!(held(&editor), expected);
    }
    editor.flush_paste_burst_if_due(now + SECOND);
    assert_eq!(editor.composer.text(), "paste 你好 of some length");
}

#[test]
fn enter_right_behind_a_character_breaks_the_line() {
    let mut burst = PasteBurst::default();
    assert!(!burst.direct_insert_newline_should_insert(SECOND));
    assert!(!burst.try_append_char_if_active('x', SECOND));
    burst.on_plain_char('a', SECOND);
    assert!(burst.direct_insert_newline_should_insert(SECOND + MILLI));
    burst.on_plain_char('b', SECOND + MILLI);
    assert!(burst.try_append_char_if_active('b', SECOND + MILLI));
    assert_eq!(burst.buffer, vec!['a', 'b']);
}

// ---------------------------------------------------------------------------
// Agents
// ---------------------------------------------------------------------------

#[test]
fn queues_are_first_in_first_out() {
    let mut desk = Desk::new();
    desk.enqueue(AgentType::Theory, "one");
    desk.enqueue(AgentType::Theory, "two");
    desk.drain_queued_input(AgentType::Theory, false);
    assert!(matches!(
        desk.history.last(),
        Some(Cell::User { text, .. }) if text == "one"
    ));
    assert_eq!(desk.take_queue(AgentType::Theory), strings(&["two"]));
}

#[test]
fn agents_are_independent() {
    let mut desk = Desk::new();
    desk.enqueue(AgentType::Report, "later");
    desk.set_status(AgentType::Main, AgentStatus::Thinking, SECOND, false);
    desk.set_status(AgentType::Main, AgentStatus::Idle, 2 * SECOND, false);
    assert_eq!(desk.statuses[AgentType::Report.index()], AgentStatus::Idle);
    assert_eq!(desk.take_queue(AgentType::Report), strings(&["later"]));
}

#[test]
fn retracted_turns_are_silent() {
    let mut tui = Tui::new(Platform::Unix);
    tui.handle_event(
        Event::Paste {
            text: "hello".to_string(),
        },
        SECOND,
    );
    tui.submit();
    tui.apply_bus(
        Some(AgentType::Main),
        BusMessage::StatusChange {
            agent: AgentType::Main,
            status: AgentStatus::Thinking,
            runtime_metrics: None,
        },
        SECOND,
    );
    let id = tui.desk.pending_submissions[0].id;
    tui.desk.mark_submitted(id);
    assert!(tui.retract_pending_submission(AgentType::Main));
    assert_eq!(tui.editor.composer.text(), "hello");
    let before = tui.desk.history.len();
    tui.apply_bus(
        Some(AgentType::Main),
        BusMessage::AgentResponse {
            agent: AgentType::Main,
            content: "too late".to_string(),
            streaming: true,
        },
        2 * SECOND,
    );
    assert_eq!(tui.desk.history.len(), before);
    tui.apply_bus(
        Some(AgentType::Main),
        BusMessage::StatusChange {
            agent: AgentType::Main,
            status: AgentStatus::Idle,
            runtime_metrics: None,
        },
        3 * SECOND,
    );
    tui.apply_bus(
        Some(AgentType::Main),
        BusMessage::AgentResponse {
            agent: AgentType::Main,
            content: "in time".to_string(),
            streaming: true,
        },
        4 * SECOND,
    );
    assert_eq!(tui.desk.history.len(), before + 1);
}

#[test]
fn replay_is_quiet() {
    let mut tui = Tui::new(Platform::Unix);
    tui.restore_history(vec![SessionHistory {
        agent: AgentType::Report,
        items: vec![
            HistoryItem::Message {
                role: "user".to_string(),
                parts: strings(&["x"]),
            },
            HistoryItem::Reasoning {
                body: "thought".to_string(),
            },
        ],
    }]);
    assert!(tui.take_effects().is_empty());
    assert_eq!(tui.editor.composer.text(), "");
    assert_eq!(tui.desk.history.len(), 2);
    assert!(tui
        .desk
        .statuses
        .iter()
        .all(|s| *s == AgentStatus::Idle));
}

#[test]
fn withdrawn_questions_are_answered() {
    let mut tui = Tui::new(Platform::Unix);
    tui.apply_bus(
        Some(AgentType::Main),
        BusMessage::UserInputRequest {
            agent: AgentType::Main,
            call_id: "q1".to_string(),
            questions: Vec::new(),
            auto_resolution_ms: None,
        },
        SECOND,
    );
    tui.take_effects();
    tui.clear_terminal_ui();
    assert!(tui
        .take_effects()
        .iter()
        .any(|e| matches!(e, Effect::CancelUserInput { call_id } if call_id == "q1")));
}

// ---------------------------------------------------------------------------
// Frames, colors, settings
// ---------------------------------------------------------------------------

#[test]
fn requests_are_merged_in_any_order() {
    let mut a = FrameScheduler::new();
    a.request(3 * SECOND);
    a.request(2 * SECOND);
    let mut b = FrameScheduler::new();
    b.request(2 * SECOND);
    b.request(3 * SECOND);
    assert_eq!(a.target(0), b.target(0));
    assert_eq!(a.target(0), 2 * SECOND);
}

#[test]
fn rectangles_are_placed_inside() {
    let area = Rect::new(10, 5, 40, 20);
    let p = place(area, 20, 10, 2);
    assert_eq!(p, Rect::new(20, 10, 20, 10));
}

#[test]
fn few_colors_have_no_background() {
    assert_eq!(line_bg(false, DiffSign::Added, ColorLevel::Ansi16), None);
    assert_eq!(line_bg(false, DiffSign::Context, ColorLevel::TrueColor), None);
    assert_eq!(
        line_bg(false, DiffSign::Added, ColorLevel::TrueColor),
        Some(Rgb {
            red: 33,
            green: 58,
            blue: 43
        })
    );
    assert_eq!(
        line_bg(true, DiffSign::Removed, ColorLevel::Ansi256),
        Some(Rgb {
            red: 255,
            green: 235,
            blue: 233
        })
    );
}

#[test]
fn catalogs_are_grouped() {
    let preset = |name: &str, kind: &str| PresetProvider {
        name: name.to_string(),
        kind: kind.to_string(),
        base_url: String::new(),
        models: Vec::new(),
        env_key: None,
        default_env: None,
        env_resolves: false,
    };
    let screen = ConfigScreen::new_with_presets(
        Settings::new(),
        vec![preset("A", "openai"), preset("B", "anthropic")],
        EnvKey {
            variable: None,
            resolves: false,
        },
    );
    let rows = screen.preset_rows();
    let labels: Vec<&str> = rows.iter().map(|r| r.label.as_str()).collect();
    assert_eq!(rows.len(), 4);
    assert_eq!(labels[0], "Anthropic");
    assert_eq!(rows[1].preset, Some(1));
    assert_eq!(labels[2], "OpenAI-Compatible");
    assert_eq!(rows[3].preset, Some(0));
}

#[test]
fn tools_know_their_home() {
    let env = ShellEnvironment {
        platform: Platform::Unix,
        user_shell: None,
        files: Vec::new(),
        programs: Vec::new(),
    };
    let tool = make_with_environment(
        FsCtx::new("/ws".to_string(), Some("/ws/Data".to_string()), Platform::Unix),
        30,
        SandboxSpec::new(SandboxMode::ReadOnly, false),
        "/home/me".to_string(),
        &env,
    );
    assert_eq!(tool.environment_home.as_deref(), Some("/home/me"));
    assert_eq!(tool.sandbox.mode, SandboxMode::ReadOnly);
    assert_eq!(tool.sandbox.writable_root.as_deref(), Some("/ws/Data"));
    assert_eq!(tool.shell.detected_shell().shell_path, "/bin/sh");
}
