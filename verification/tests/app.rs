//! The application: keys, messages, frames and what is written to the transcript.

use autoreport::codex_shell::Platform;
use autoreport::agent::{AgentStatus, AgentType};
use autoreport::app::{
    chat_viewport_height, chat_viewport_y, select_full_frame_surface, transcript_scroll,
    FullFrameSurface, SurfaceChange,
};
use autoreport::app_command::{ide_notice, parse_command, Command, IdeProbe};
use autoreport::app_event::BusMessage;
use autoreport::app_state::{Effect, Overlay, PendingApproval, ReviewDecision, Tui};
use autoreport::bottom_pane::approval_overlay;
use autoreport::bottom_pane::rendering::{PanePart, PaneView};
use autoreport::bottom_pane::request_user_input_overlay;
use autoreport::bottom_pane::status_indicator_widget::{
    fmt_elapsed_compact, StatusIndicatorWidget,
};
use autoreport::chatwidget::{
    extract_mentions, filter_patch, render_tool_result_lines, render_user_text, text_arg,
    tool_arg_summary, truncate, ResultLines,
};
use autoreport::clipboard_copy::{
    check_set_clipboard, check_tmux_info, explain_failure, names_wsl, osc52_sequence, program_failure, CopyAttempt,
    CopyEnvironment, CopyStep, CopyWay, OSC52_MAX_RAW_BYTES,
};
use autoreport::diff_render::{render, unified_diff, DiffSign};
use autoreport::frame_rate_limiter::{FrameRateLimiter, MIN_FRAME_INTERVAL};
use autoreport::frame_requester::FrameScheduler;
use autoreport::geometry::{Rect, Size};
use autoreport::json::{Arg, ArgValue, Json, Shape};
use autoreport::key_events::{route_key, Event, KeyAction, ScreenOutcome, Situation};
use autoreport::keys::{KeyCode, KeyEvent, KeyKind, Modifiers};
use autoreport::mentions::{
    capped_text, expand_mentions, mention_path, resolve_workspace_mention,
};
use autoreport::replay::{choose_args, read_args, HistoryItem, SessionHistory};
use autoreport::request_user_input::{Question, QuestionOption};
use autoreport::slash_command;
use autoreport::style::{Line, Span, Tone};
use autoreport::transcript::{Cell, MessageSource, SysKind, ToolArgs, ToolValue};
use autoreport::user_input::{Answer, PendingUserInput};

const MILLI: u64 = 1_000_000;
const SECOND: u64 = 1_000_000_000;

fn press(code: KeyCode) -> Event {
    Event::Key {
        key: KeyEvent::new(code, Modifiers::none()),
    }
}

fn control(c: char) -> Event {
    Event::Key {
        key: KeyEvent::new(KeyCode::Char(c), Modifiers::control()),
    }
}

/// Types text slowly enough that nothing is taken for a paste.
fn type_slowly(tui: &mut Tui, text: &str, now: &mut u64) {
    for c in text.chars() {
        *now += SECOND;
        tui.tick(*now);
        assert!(tui.handle_event(press(KeyCode::Char(c)), *now));
    }
    *now += SECOND;
    tui.tick(*now);
}

fn notices(tui: &Tui) -> Vec<String> {
    tui.desk
        .history
        .iter()
        .filter_map(|c| match c {
            Cell::System { text, .. } => Some(text.clone()),
            _ => None,
        })
        .collect()
}

fn args(list: &[(&str, &str)]) -> ToolArgs {
    ToolArgs {
        json: "{}".to_string(),
        args: list
            .iter()
            .map(|(n, v)| Arg {
                name: n.to_string(),
                value: ArgValue::Text(v.to_string()),
            })
            .collect(),
    }
}

// ---------------------------------------------------------------------------
// Frames
// ---------------------------------------------------------------------------

#[test]
fn initial_chat_uses_codex_sized_viewport_at_120_by_30() {
    assert_eq!(chat_viewport_height(30, 11, true), 19);
}

#[test]
fn active_chat_keeps_content_driven_viewport_height() {
    assert_eq!(chat_viewport_height(30, 11, false), 11);
}

#[test]
fn initial_chat_viewport_is_clamped_to_small_terminals() {
    assert_eq!(chat_viewport_height(12, 8, true), 12);
}

#[test]
fn ordinary_chat_draw_preserves_viewport_origin() {
    let previous = Rect::new(0, 3, 120, 19);
    let screen = Size {
        width: 120,
        height: 30,
    };
    assert_eq!(chat_viewport_y(screen, previous, 19, false, false), 3);
}

#[test]
fn clear_and_resize_are_the_only_viewport_reanchors() {
    let previous = Rect::new(0, 3, 120, 19);
    let screen = Size {
        width: 120,
        height: 30,
    };
    assert_eq!(chat_viewport_y(screen, previous, 19, false, true), 0);
    assert_eq!(chat_viewport_y(screen, previous, 15, false, false), 7);
}

#[test]
fn full_frame_surface_uses_chat_or_pager_without_configuration() {
    assert_eq!(
        select_full_frame_surface(None, false),
        FullFrameSurface::Chat
    );
    assert_eq!(
        select_full_frame_surface(None, true),
        FullFrameSurface::Pager
    );
}

#[test]
fn configuration_surface_wins_over_a_stale_pager() {
    for configuration in [
        FullFrameSurface::ApiConfiguration,
        FullFrameSurface::ConfigurationFlow,
        FullFrameSurface::EnvironmentConfiguration,
    ] {
        assert_eq!(
            select_full_frame_surface(Some(configuration), true),
            configuration
        );
    }
}

#[test]
fn wanted_screens_are_opened_before_the_frame() {
    let mut tui = Tui::new(Platform::Unix);
    tui.screen.want_models = true;
    tui.screen.pager = true;
    let screen = Size {
        width: 80,
        height: 24,
    };
    let plan = tui.begin_frame(screen, Rect::zero(), FullFrameSurface::Chat, 5);
    assert_eq!(plan.opened, Some(Overlay::Configuration));
    assert_eq!(plan.change, SurfaceChange::Enter);
    assert_eq!(plan.area, Rect::new(0, 0, 80, 24));
    assert!(!tui.screen.pager);
    tui.close_screen(ScreenOutcome::Cancelled);
    let plan = tui.begin_frame(screen, plan.area, FullFrameSurface::ConfigurationFlow, 5);
    assert_eq!(plan.change, SurfaceChange::Leave);
    assert_eq!(notices(&tui), vec!["config unchanged".to_string()]);
}

#[test]
fn clearing_moves_the_viewport_to_the_top() {
    let mut tui = Tui::new(Platform::Unix);
    tui.clear_terminal_ui();
    let screen = Size {
        width: 80,
        height: 24,
    };
    let plan = tui.begin_frame(screen, Rect::new(0, 10, 80, 14), FullFrameSurface::Chat, 5);
    assert!(plan.clear);
    assert_eq!(plan.area.y, 0);
    assert!(!tui.screen.needs_clear);
}

#[test]
fn settled_cells_are_written_once() {
    let mut tui = Tui::new(Platform::Unix);
    tui.begin_session(Vec::new());
    let batch = tui.flush_history_to_scrollback(false, Some(false)).unwrap();
    assert_eq!((batch.start, batch.end), (0, 2));
    assert!(batch.header);
    assert!(!batch.separator);
    assert!(tui.flush_history_to_scrollback(false, None).is_none());
    tui.system("more", SysKind::Info);
    let batch = tui.flush_history_to_scrollback(false, Some(true)).unwrap();
    assert_eq!((batch.start, batch.end), (2, 3));
    assert!(batch.separator);
    assert!(tui.screen.tail_blank);
}

#[test]
fn the_last_rows_of_the_transcript_show() {
    assert_eq!(transcript_scroll(30, 10), 20);
    assert_eq!(transcript_scroll(5, 10), 0);
}

#[test]
fn first_frame_is_not_clamped() {
    let now = 5 * SECOND;
    assert_eq!(FrameRateLimiter::new().clamp_deadline(now), now);
}

#[test]
fn subsequent_frame_is_limited_to_120_fps() {
    let now = 5 * SECOND;
    let mut limiter = FrameRateLimiter::new();
    limiter.mark_emitted(now);
    assert_eq!(
        limiter.clamp_deadline(now + MILLI),
        now + MIN_FRAME_INTERVAL
    );
}

#[test]
fn coalesces_immediate_requests() {
    let mut scheduler = FrameScheduler::new();
    scheduler.request(SECOND);
    scheduler.request(SECOND);
    assert_eq!(scheduler.target(SECOND), SECOND);
    assert!(scheduler.wake());
    assert!(!scheduler.wake());
}

#[test]
fn delayed_request_waits_until_deadline() {
    let mut scheduler = FrameScheduler::new();
    scheduler.request(SECOND + 20 * MILLI);
    assert_eq!(scheduler.target(SECOND), SECOND + 20 * MILLI);
    assert!(scheduler.wake());
    assert!(scheduler.target(SECOND) > 100 * SECOND);
}

// ---------------------------------------------------------------------------
// Mentions
// ---------------------------------------------------------------------------

#[test]
fn extracts_mentions_skipping_emails() {
    let m = extract_mentions("see @Data/Raw.csv and contact me@example.com and @Report/main.tex");
    assert_eq!(
        m,
        vec!["Data/Raw.csv".to_string(), "Report/main.tex".to_string()]
    );
}

#[test]
fn extracts_quoted_mentions_with_spaces() {
    let m = extract_mentions("compare @\"Data/Raw Files/trial one.csv\" with @Report/main.tex");
    assert_eq!(
        m,
        vec![
            "Data/Raw Files/trial one.csv".to_string(),
            "Report/main.tex".to_string()
        ]
    );
}

#[test]
fn mention_resolution_rejects_absolute_and_parent_paths() {
    let outside = "/tmp/outside.txt";
    assert!(resolve_workspace_mention(
        Platform::Unix,
        "/ws",
        outside,
        Some(outside.to_string())
    )
    .is_none());
    assert!(mention_path(Platform::Unix, "/ws", outside).is_none());
    assert!(resolve_workspace_mention(
        Platform::Unix,
        "/ws",
        "../secret.txt",
        Some("/secret.txt".to_string())
    )
    .is_none());
    assert!(mention_path(Platform::Unix, "/ws", "../secret.txt").is_none());
    assert!(mention_path(Platform::Unix, "/ws", "nested/../../secret.txt").is_none());
    assert_eq!(
        mention_path(Platform::Unix, "/ws", "Data/a.csv"),
        Some("/ws/Data/a.csv".to_string())
    );
}

#[test]
fn expansion_preserves_valid_nested_paths_with_spaces() {
    let expanded = expand_mentions(
        "inspect @\"Data/Raw Files/trial one.csv\"",
        &vec![Some(capped_text(b"time,value\n0,1\n".to_vec(), 16_000))],
    );
    assert!(expanded.contains("## @Data/Raw Files/trial one.csv"));
    assert!(expanded.contains("time,value\n0,1"));
}

#[test]
fn expansion_does_not_read_parent_traversal() {
    let resolved = resolve_workspace_mention(
        Platform::Unix,
        "/root/workspace",
        "../secret.txt",
        Some("/root/secret.txt".to_string()),
    );
    let contents = vec![resolved.map(|_| "DO NOT LEAK".to_string())];
    let expanded = expand_mentions("inspect @../secret.txt", &contents);
    assert!(!expanded.contains("DO NOT LEAK"));
    assert!(expanded.contains("(invalid or not found)"));
}

#[test]
fn mention_resolution_rejects_symlink_escape() {
    // The path lies in the workspace, but the file that it leads to does not.
    assert!(mention_path(Platform::Unix, "/ws", "linked.txt").is_some());
    assert!(
        resolve_workspace_mention(
            Platform::Unix,
            "/ws",
            "linked.txt",
            Some("/tmp/outside".to_string())
        )
        .is_none()
    );
    assert_eq!(
        resolve_workspace_mention(
            Platform::Unix,
            "/ws",
            "linked.txt",
            Some("/ws/real.txt".to_string())
        ),
        Some("/ws/real.txt".to_string())
    );
}

#[test]
fn long_files_are_cut_off() {
    assert_eq!(
        capped_text(b"abcdef".to_vec(), 3),
        "abc\n…(truncated)".to_string()
    );
    assert_eq!(capped_text(b"abc".to_vec(), 3), "abc".to_string());
    assert_eq!(
        capped_text(vec![b'a', 0xff, b'b'], 10),
        "a\u{fffd}b".to_string()
    );
}

#[test]
fn messages_without_mentions_stay_as_they_are() {
    assert_eq!(expand_mentions("hello", &Vec::new()), "hello");
}

// ---------------------------------------------------------------------------
// Tool calls
// ---------------------------------------------------------------------------

#[test]
fn apply_patch_tool_result_renders_patch_not_json() {
    let call = args(&[(
        "patch",
        "*** Begin Patch\n*** Update File: Plots/Scripts/main.py\n@@\n-old\n+new\n*** End Patch\n",
    )]);
    let result = Some(ToolValue::Json(
        "{\"applied\":[{\"update\":\"/tmp/Plots/Scripts/main.py\"}]}".to_string(),
    ));
    let lines = match render_tool_result_lines("apply_patch", &call, &result, &None) {
        ResultLines::Changes(lines) => lines,
        ResultLines::Dimmed(rows) => panic!("unexpected rows {rows:?}"),
    };
    assert!(lines
        .iter()
        .any(|l| l.gutter == "+ " && l.body.contains("new")));
    assert!(lines
        .iter()
        .any(|l| l.gutter == "- " && l.body.contains("old")));
    assert!(!lines.iter().any(|l| l.body.contains("\"applied\"")));
}

#[test]
fn other_results_are_shown_as_text() {
    let lines = render_tool_result_lines(
        "exec",
        &args(&[("command", "ls")]),
        &Some(ToolValue::Text("a\nb".to_string())),
        &None,
    );
    match lines {
        ResultLines::Dimmed(rows) => assert!(rows.iter().any(|r| r.contains('a'))),
        ResultLines::Changes(rows) => panic!("unexpected changes {rows:?}"),
    }
}

#[test]
fn diff_shows_insert_and_delete() {
    let d = unified_diff(&Some("alpha\nbeta\n".to_string()), "alpha\nBETA\n");
    let lines = render(&d);
    let has_plus = lines
        .iter()
        .any(|l| l.gutter == "+ " && l.body.contains("BETA"));
    let has_minus = lines
        .iter()
        .any(|l| l.gutter == "- " && l.body.contains("beta"));
    assert!(has_plus, "expected a +BETA line: {lines:?}");
    assert!(has_minus, "expected a -beta line: {lines:?}");
    assert!(lines.iter().any(|l| l.sign == DiffSign::Header));
}

#[test]
fn no_change_is_empty() {
    assert_eq!(unified_diff(&Some("x\n".to_string()), "x\n"), "");
    assert_eq!(unified_diff(&None, ""), "");
}

#[test]
fn summaries_are_short() {
    assert_eq!(truncate("abcdef", 3), "abc…");
    assert_eq!(truncate("abc", 3), "abc");
    assert_eq!(
        tool_arg_summary("exec", &args(&[("command", "ls -la")])),
        "{}"
    );
    assert_eq!(
        tool_arg_summary("manifest", &args(&[("action", "update")])),
        "action=update, agent=self"
    );
}

#[test]
fn quotes_in_summaries_are_escaped() {
    let summary = tool_arg_summary(
        "send_to_agent",
        &args(&[("agent_type", "theory"), ("summary", "a\"b")]),
    );
    assert_eq!(summary, "theory, summary=\"a\\\"b\", blocking=true");
}

#[test]
fn patches_lose_their_markers() {
    let text = filter_patch("*** Begin Patch\n*** Add File: a\n+x\n*** End Patch\n");
    assert!(!text.contains("Begin Patch"));
    assert!(text.contains("+x"));
}

#[test]
fn mentions_are_marked_in_messages() {
    let lines = render_user_text("see @a.csv now");
    assert_eq!(lines.len(), 1);
    assert!(lines[0].spans.iter().any(|s| s.text == "@a.csv"));
}

#[test]
fn letters_of_other_scripts_belong_to_mentions() {
    assert_eq!(extract_mentions("@数据.csv"), vec!["数据.csv".to_string()]);
}

#[test]
fn slash_command_catalog_removes_only_models_alias() {
    assert!(slash_command::matches("agent")
        .iter()
        .any(|m| m.name == "agent"));
    assert!(slash_command::matches("model")
        .iter()
        .any(|m| m.name == "model"));
    assert!(slash_command::matches("models").is_empty());
}

#[test]
fn commands_are_read() {
    assert_eq!(parse_command("help"), Command::Help);
    assert_eq!(parse_command("nonsense"), Command::Unknown);
    assert!(ide_notice(&IdeProbe::Connected).contains("Connected to your IDE"));
    assert!(ide_notice(&IdeProbe::Unavailable("no socket".to_string())).contains("no socket"));
}

// ---------------------------------------------------------------------------
// Keys
// ---------------------------------------------------------------------------

fn nothing_open() -> Situation {
    Situation {
        pager: false,
        searching: false,
        approvals: false,
        inputs: false,
        overlay: false,
        slash: false,
        mention: false,
        picker: false,
        draft_empty: true,
    }
}

#[test]
fn keys_go_to_what_is_in_front() {
    let key = KeyEvent::new(KeyCode::Enter, Modifiers::none());
    assert_eq!(route_key(nothing_open(), key), KeyAction::Enter);
    let s = Situation {
        approvals: true,
        ..nothing_open()
    };
    assert_eq!(route_key(s, key), KeyAction::Approval);
    let s = Situation {
        pager: true,
        approvals: true,
        ..nothing_open()
    };
    assert_eq!(route_key(s, key), KeyAction::Pager);
    let s = Situation {
        slash: true,
        ..nothing_open()
    };
    assert_eq!(route_key(s, key), KeyAction::RunSlash);
    let s = Situation {
        mention: true,
        ..nothing_open()
    };
    assert_eq!(route_key(s, key), KeyAction::AcceptMention);
}

#[test]
fn digits_choose_an_agent() {
    let s = Situation {
        picker: true,
        ..nothing_open()
    };
    let digit = |c: char| route_key(s, KeyEvent::new(KeyCode::Char(c), Modifiers::none()));
    assert_eq!(digit('1'), KeyAction::ChooseAgent { index: 0 });
    assert_eq!(digit('5'), KeyAction::ChooseAgent { index: 4 });
    assert_eq!(digit('0'), KeyAction::Swallow);
    assert_eq!(digit('6'), KeyAction::Swallow);
}

#[test]
fn a_question_mark_shows_the_shortcuts() {
    let mut tui = Tui::new(Platform::Unix);
    assert!(tui.handle_event(press(KeyCode::Char('?')), SECOND));
    assert!(tui.editor.composer.shortcuts_visible);
    assert_eq!(tui.editor.composer.text(), "");
}

#[test]
fn enter_sends_the_message() {
    let mut tui = Tui::new(Platform::Unix);
    let mut now = SECOND;
    type_slowly(&mut tui, "hello", &mut now);
    assert_eq!(tui.editor.composer.text(), "hello");
    now += SECOND;
    assert!(tui.handle_event(press(KeyCode::Enter), now));
    assert_eq!(tui.editor.composer.text(), "");
    let sent = tui
        .take_effects()
        .into_iter()
        .find_map(|e| match e {
            Effect::Submit { agent, text, .. } => Some((agent, text)),
            _ => None,
        })
        .unwrap();
    assert_eq!(sent, (AgentType::Main, "hello".to_string()));
    assert!(matches!(
        tui.desk.history.last(),
        Some(Cell::User { text, .. }) if text == "hello"
    ));
}

#[test]
fn control_c_takes_back_then_quits() {
    let mut tui = Tui::new(Platform::Unix);
    let mut now = SECOND;
    type_slowly(&mut tui, "hello", &mut now);
    now += SECOND;
    tui.handle_event(press(KeyCode::Enter), now);
    tui.take_effects();
    now += SECOND;
    assert!(tui.handle_event(control('c'), now));
    assert_eq!(tui.editor.composer.text(), "hello");
    assert!(tui
        .take_effects()
        .iter()
        .any(|e| matches!(e, Effect::InterruptAndRetract { .. })));
    now += SECOND;
    assert!(tui.handle_event(control('c'), now));
    assert_eq!(tui.editor.composer.text(), "");
    now += SECOND;
    assert!(!tui.handle_event(control('c'), now));
}

#[test]
fn control_d_quits_on_an_empty_draft_only() {
    let mut tui = Tui::new(Platform::Unix);
    let mut now = SECOND;
    type_slowly(&mut tui, "ab", &mut now);
    now += SECOND;
    tui.handle_event(press(KeyCode::Home), now);
    assert!(tui.handle_event(control('d'), now));
    assert_eq!(tui.editor.composer.text(), "b");
    assert!(tui.handle_event(control('d'), now));
    assert!(!tui.handle_event(control('d'), now));
}

#[test]
fn tab_goes_to_the_next_agent_and_back() {
    let mut tui = Tui::new(Platform::Unix);
    tui.handle_event(press(KeyCode::Tab), SECOND);
    assert_eq!(tui.focused, AgentType::DataAnalysis);
    tui.handle_event(press(KeyCode::BackTab), SECOND);
    assert_eq!(tui.focused, AgentType::Main);
    tui.handle_event(press(KeyCode::BackTab), SECOND);
    assert_eq!(tui.focused, AgentType::Report);
}

#[test]
fn released_keys_do_nothing() {
    let mut tui = Tui::new(Platform::Unix);
    let key = KeyEvent {
        code: KeyCode::Tab,
        modifiers: Modifiers::none(),
        kind: KeyKind::Release,
    };
    assert!(tui.handle_event(Event::Key { key }, SECOND));
    assert_eq!(tui.focused, AgentType::Main);
}

#[test]
fn scrolling_moves_the_transcript_or_the_pager() {
    let mut tui = Tui::new(Platform::Unix);
    tui.handle_event(Event::Scroll { up: true }, SECOND);
    assert_eq!(tui.screen.scroll, 3);
    tui.handle_event(Event::Scroll { up: false }, SECOND);
    tui.handle_event(Event::Scroll { up: false }, SECOND);
    assert_eq!(tui.screen.scroll, 0);
    tui.screen.pager = true;
    tui.take_effects();
    tui.handle_event(Event::Scroll { up: true }, SECOND);
    assert!(tui
        .take_effects()
        .iter()
        .any(|e| matches!(e, Effect::PagerScroll { up: true, rows: 3 })));
}

#[test]
fn pasted_carriage_returns_become_line_feeds() {
    let mut tui = Tui::new(Platform::Unix);
    tui.handle_event(
        Event::Paste {
            text: "a\rb".to_string(),
        },
        SECOND,
    );
    assert_eq!(tui.editor.composer.text(), "a\nb");
}

fn approval(id: &str) -> PendingApproval {
    PendingApproval {
        agent: AgentType::Main,
        call_id: id.to_string(),
        command: "touch a\nls".to_string(),
        cwd: Some("/ws".to_string()),
        summary: vec!["write outside".to_string()],
        reason: Some("needs it".to_string()),
    }
}

#[test]
fn approvals_are_decided_by_keys() {
    for (code, decision, notice) in [
        (KeyCode::Enter, ReviewDecision::Approved, "command approved"),
        (
            KeyCode::Char('a'),
            ReviewDecision::ApprovedForSession,
            "command approved for session",
        ),
        (
            KeyCode::Char('p'),
            ReviewDecision::ApprovedAndPersisted,
            "command approved and saved as a rule",
        ),
        (KeyCode::Esc, ReviewDecision::Denied, "command denied"),
    ] {
        let mut tui = Tui::new(Platform::Unix);
        tui.apply_bus(
            Some(AgentType::Main),
            BusMessage::ApprovalRequest {
                payload: approval("c1"),
            },
            SECOND,
        );
        tui.take_effects();
        tui.handle_event(press(KeyCode::Char('x')), SECOND);
        assert_eq!(tui.prompts.approvals.len(), 1);
        tui.handle_event(press(code), SECOND);
        assert!(tui.prompts.approvals.is_empty());
        assert!(tui.take_effects().iter().any(|e| matches!(
            e,
            Effect::ResolveApproval { call_id, decision: d } if call_id == "c1" && *d == decision
        )));
        assert_eq!(notices(&tui).last().unwrap(), notice);
    }
}

#[test]
fn approvals_that_were_missed_are_recovered() {
    let mut tui = Tui::new(Platform::Unix);
    tui.reconcile_approvals(&vec![approval("a"), approval("b")]);
    assert_eq!(tui.prompts.approvals.len(), 2);
    tui.reconcile_approvals(&vec![approval("b")]);
    assert_eq!(tui.prompts.approvals.len(), 1);
    assert_eq!(tui.prompts.approvals[0].call_id, "b");
}

#[test]
fn screens_say_how_they_were_left() {
    let leave = |overlay: Overlay, outcome: ScreenOutcome| {
        let mut tui = Tui::new(Platform::Unix);
        tui.screen.overlay = Some(overlay);
        tui.close_screen(outcome);
        assert!(tui.screen.overlay.is_none());
        notices(&tui)[0].clone()
    };
    assert_eq!(
        leave(Overlay::Environment, ScreenOutcome::Saved { result: Ok(()) }),
        "environment saved to environment.toml"
    );
    assert_eq!(
        leave(Overlay::Environment, ScreenOutcome::Cancelled),
        "environment unchanged"
    );
    assert_eq!(
        leave(Overlay::Api, ScreenOutcome::Saved { result: Ok(()) }),
        "configuration saved to config.toml — restart to apply"
    );
    assert_eq!(
        leave(
            Overlay::Api,
            ScreenOutcome::Saved {
                result: Err("full".to_string())
            }
        ),
        "config save failed: full"
    );
}

// ---------------------------------------------------------------------------
// Messages
// ---------------------------------------------------------------------------

#[test]
fn messages_wait_while_the_agent_works() {
    let mut tui = Tui::new(Platform::Unix);
    tui.apply_bus(
        Some(AgentType::Main),
        BusMessage::StatusChange {
            agent: AgentType::Main,
            status: AgentStatus::Thinking,
            runtime_metrics: None,
        },
        SECOND,
    );
    let mut now = SECOND;
    type_slowly(&mut tui, "later", &mut now);
    now += SECOND;
    tui.handle_event(press(KeyCode::Enter), now);
    assert_eq!(
        tui.pending_input_preview.queued_messages,
        vec!["later".to_string()]
    );
    tui.take_effects();
    tui.apply_bus(
        Some(AgentType::Main),
        BusMessage::StatusChange {
            agent: AgentType::Main,
            status: AgentStatus::Idle,
            runtime_metrics: None,
        },
        now,
    );
    assert!(tui
        .take_effects()
        .iter()
        .any(|e| matches!(e, Effect::Submit { text, .. } if text == "later")));
}

#[test]
fn streamed_answers_grow() {
    let mut tui = Tui::new(Platform::Unix);
    for part in ["Hel", "lo"] {
        tui.apply_bus(
            Some(AgentType::Main),
            BusMessage::AgentResponse {
                agent: AgentType::Main,
                content: part.to_string(),
                streaming: true,
            },
            SECOND,
        );
    }
    assert_eq!(tui.committed_history_len(), 0);
    tui.apply_bus(
        Some(AgentType::Main),
        BusMessage::AgentResponse {
            agent: AgentType::Main,
            content: String::new(),
            streaming: false,
        },
        SECOND,
    );
    assert!(tui
        .desk
        .history
        .iter()
        .any(|c| matches!(c, Cell::AgentMarkdown { text, .. } if text == "Hello")));
}

#[test]
fn results_find_their_calls() {
    let mut tui = Tui::new(Platform::Unix);
    for id in ["c1", "c2"] {
        tui.apply_bus(
            Some(AgentType::Main),
            BusMessage::ToolCall {
                agent: AgentType::Main,
                tool_name: "exec".to_string(),
                arguments: args(&[("command", "ls")]),
                call_id: id.to_string(),
            },
            SECOND,
        );
    }
    tui.apply_bus(
        Some(AgentType::Main),
        BusMessage::ToolResult {
            agent: AgentType::Main,
            tool_name: "exec".to_string(),
            result: ToolValue::Text("done".to_string()),
            answers: Vec::new(),
            error: None,
            call_id: "c1".to_string(),
        },
        SECOND,
    );
    match &tui.desk.history[0] {
        Cell::ToolGroup { items, .. } => {
            assert!(items[0].result.is_some());
            assert!(items[1].result.is_none());
        }
        other => panic!("unexpected cell {other:?}"),
    }
}

#[test]
fn other_messages_are_noted() {
    let mut tui = Tui::new(Platform::Unix);
    tui.apply_bus(
        None,
        BusMessage::SystemNotice {
            agent: None,
            content: "ready".to_string(),
        },
        SECOND,
    );
    tui.apply_bus(
        None,
        BusMessage::Error {
            message: "broken".to_string(),
        },
        SECOND,
    );
    assert_eq!(
        notices(&tui),
        vec!["system: ready".to_string(), "error: broken".to_string()]
    );
    tui.apply_bus(
        Some(AgentType::Main),
        BusMessage::UserMessage {
            agent: AgentType::Main,
            source: MessageSource::User,
            content: "typed".to_string(),
        },
        SECOND,
    );
    tui.apply_bus(None, BusMessage::TaskUpdate, SECOND);
    assert_eq!(notices(&tui).len(), 2);
}

#[test]
fn sessions_are_put_together_again() {
    let mut tui = Tui::new(Platform::Unix);
    tui.begin_session(vec![SessionHistory {
        agent: AgentType::Main,
        items: vec![
            HistoryItem::Message {
                role: "user".to_string(),
                parts: vec!["he".to_string(), "llo".to_string()],
            },
            HistoryItem::FunctionCall {
                call_id: "c1".to_string(),
                name: "exec".to_string(),
                arguments: "{\"command\": \"ls\"}".to_string(),
                questions: None,
            },
            HistoryItem::FunctionCallOutput {
                call_id: "c1".to_string(),
                output: "a".to_string(),
                answers: Vec::new(),
            },
            HistoryItem::Message {
                role: "assistant".to_string(),
                parts: vec!["hi".to_string()],
            },
            HistoryItem::Other,
        ],
    }]);
    assert!(notices(&tui)[0].starts_with("Tip: use /agent"));
    assert_eq!(tui.desk.history.len(), 5);
    assert!(tui.editor.composer.history_previous());
    assert_eq!(tui.editor.composer.text(), "hello");
}

#[test]
fn recorded_arguments_are_read_as_json() {
    let read = read_args("{ \"b\": true, \"a\": \"x\\ty\", \"c\": [1] }");
    assert_eq!(read.json, "{\"a\":\"x\\ty\",\"b\":true,\"c\":[1]}");
    assert_eq!(text_arg(&read, "a"), Some("x\ty".to_string()));
    assert!(matches!(read.args[1].value, ArgValue::Flag(true)));
    assert!(matches!(read.args[2].value, ArgValue::Other));
    assert_eq!(text_arg(&read, "c"), None);
    let list = read_args("[ 1, 2 ]");
    assert_eq!(list.json, "[1,2]");
    assert!(list.args.is_empty());
}

#[test]
fn recorded_arguments_that_are_no_json_are_kept_as_text() {
    let read = read_args("say \"hi\" \\ \n\r\t\u{8}\u{c}\u{1}\u{1f}\u{7f}\u{e9}");
    assert_eq!(
        read.json,
        "\"say \\\"hi\\\" \\\\ \\n\\r\\t\\b\\f\\u0001\\u001f\u{7f}\u{e9}\""
    );
    assert!(read.args.is_empty());
    let given = Json {
        text: "{}".to_string(),
        shape: Shape::Object(Vec::new()),
    };
    assert_eq!(choose_args("x", Some(given)).json, "{}");
    assert_eq!(choose_args("x", None).json, "\"x\"");
}

#[test]
fn recorded_calls_show_their_arguments() {
    let mut tui = Tui::new(Platform::Unix);
    let call = |id: &str, arguments: &str| HistoryItem::FunctionCall {
        call_id: id.to_string(),
        name: "exec".to_string(),
        arguments: arguments.to_string(),
        questions: None,
    };
    tui.restore_history(vec![SessionHistory {
        agent: AgentType::Main,
        items: vec![call("c1", "{\"command\": \"ls\"}"), call("c2", "{oops")],
    }]);
    match &tui.desk.history[0] {
        Cell::ToolGroup { items, .. } => {
            assert_eq!(text_arg(&items[0].args, "command"), Some("ls".to_string()));
            assert_eq!(items[0].args.json, "{\"command\":\"ls\"}");
            assert_eq!(items[1].args.json, "\"{oops\"");
        }
        _ => panic!("no tools"),
    }
}

// ---------------------------------------------------------------------------
// What is painted below the transcript
// ---------------------------------------------------------------------------

#[test]
fn the_pane_shows_what_waits() {
    let mut tui = Tui::new(Platform::Unix);
    assert_eq!(tui.pane_view(), PaneView::Composer);
    assert_eq!(
        tui.pane_parts(false),
        vec![PanePart::Status, PanePart::Preview, PanePart::Composer]
    );
    tui.desk.statuses[0] = AgentStatus::Thinking;
    assert_eq!(
        tui.pane_parts(true),
        vec![
            PanePart::Status,
            PanePart::Blank,
            PanePart::Preview,
            PanePart::Composer
        ]
    );
    tui.reconcile_approvals(&vec![approval("a")]);
    assert_eq!(tui.pane_view(), PaneView::Approval);
    tui.screen.agent_picker = Some(1);
    assert_eq!(tui.pane_view(), PaneView::AgentPicker);
    let picker = tui.agent_picker(Rect::new(0, 0, 80, 9)).unwrap();
    assert_eq!(picker.selected, 1);
    assert_eq!(picker.area, Rect::new(8, 0, 64, 9));
    assert_eq!(picker.rows.len(), 5);
    assert_eq!(picker.rows[0].number, "1. ");
    assert_eq!(picker.rows[0].status, "  [thinking]");
    assert!(picker.rows[0].active);
    assert_eq!(picker.rows[1].status, "  [idle]");
}

#[test]
fn the_model_follows_the_agent() {
    let mut tui = Tui::new(Platform::Unix);
    assert_eq!(tui.focused_model("big", "small"), "big");
    tui.focus_agent(AgentType::Theory);
    assert_eq!(tui.focused_model("big", "small"), "small");
}

#[test]
fn approvals_show_the_whole_command() {
    let waiting = vec![approval("a"), approval("b")];
    let rows: Vec<String> = approval_overlay::lines(&waiting)
        .iter()
        .map(|l| l.to_text())
        .collect();
    assert_eq!(rows[0], " Main agent wants to run a command ");
    assert!(rows.contains(&"  write outside".to_string()));
    assert!(rows.contains(&"  reason: needs it".to_string()));
    assert!(rows.contains(&"$ touch a".to_string()));
    assert!(rows.contains(&"  ls".to_string()));
    assert!(rows.contains(&"  cwd: /ws".to_string()));
    assert_eq!(rows.last().unwrap(), "  +1 more pending");
    let popup = approval_overlay::popup(&waiting, Rect::new(0, 0, 80, 30)).unwrap();
    assert_eq!(popup.title, " approval required (1/2) ");
    assert_eq!(popup.area.width, 64);
    assert_eq!(popup.area.height as usize, rows.len() + 2);
    assert!(approval_overlay::popup(&Vec::new(), Rect::new(0, 0, 80, 30)).is_none());
    assert_eq!(approval_overlay::desired_height(&Vec::new()), 0);
}

fn asked(secret: bool) -> PendingUserInput {
    let question = Question {
        id: "q".to_string(),
        header: "Key".to_string(),
        question: "Which?".to_string(),
        is_other: true,
        is_secret: secret,
        options: Some(vec![QuestionOption {
            label: "A".to_string(),
            description: "first".to_string(),
        }]),
    };
    PendingUserInput::new(
        AgentType::Main,
        "c".to_string(),
        vec![question],
        Some(60_000),
        SECOND,
    )
}

#[test]
fn questions_show_their_answers() {
    let mut p = asked(true);
    p.draft = "pw".to_string();
    p.selected = 1;
    let popup =
        request_user_input_overlay::draw(&vec![p], Rect::new(0, 0, 100, 30)).unwrap();
    let rows: Vec<String> = popup.lines.iter().map(|l| l.to_text()).collect();
    assert_eq!(rows[0], " Key ");
    assert!(rows.contains(&"    A — first".to_string()));
    assert!(rows.contains(&"  › Other: ••".to_string()));
    assert_eq!(popup.title, " input required ");
    assert_eq!(popup.area.width, 76);
    assert!(request_user_input_overlay::draw(&Vec::new(), Rect::new(0, 0, 10, 10)).is_none());
}

#[test]
fn questions_answer_themselves_in_time() {
    let p = asked(false);
    assert!(!p.timed_out(SECOND + 59 * SECOND));
    assert!(p.timed_out(SECOND + 60 * SECOND));
    let answer = Answer {
        question: "q".to_string(),
        given: vec!["A".to_string()],
    };
    assert_eq!(answer.given.len(), 1);
}

#[test]
fn renders_codex_working_shape() {
    let now = 100 * SECOND;
    let widget = StatusIndicatorWidget::new(AgentStatus::Thinking, Some(now - 61 * SECOND));
    let rows = widget.render(
        Rect::new(0, 0, 80, 1),
        Some(Span::new("•", Tone::Plain)),
        Line::one(widget.header(), Tone::Bold),
        Vec::new(),
        now,
    );
    let line = rows[0].to_text();
    assert!(line.contains("Working"));
    assert!(line.contains("1m 01s"));
    assert!(line.contains("esc to interrupt"));
    assert_eq!(widget.next_frame_in(Rect::new(0, 0, 80, 1)), Some(32));
}

#[test]
fn queued_and_error_states_are_visible_without_interrupt_hint() {
    for status in [AgentStatus::Queued, AgentStatus::Error] {
        let widget = StatusIndicatorWidget::new(status, None);
        assert_eq!(widget.desired_height(Vec::new(), 80), 1);
        let rows = widget.render(
            Rect::new(0, 0, 80, 1),
            None,
            Line::one(widget.header(), Tone::Plain),
            Vec::new(),
            SECOND,
        );
        assert!(!rows[0].to_text().contains("interrupt"));
    }
    assert_eq!(
        StatusIndicatorWidget::new(AgentStatus::Idle, None).desired_height(Vec::new(), 80),
        0
    );
}

#[test]
fn renders_codex_style_tool_details_below_working_row() {
    let widget = StatusIndicatorWidget::new(AgentStatus::RunningTool, Some(SECOND))
        .with_details(Some(" exec · uname -a ".to_string()), None);
    assert_eq!(widget.details.as_deref(), Some("exec · uname -a"));
    let rows = widget.render(
        Rect::new(0, 0, 80, 2),
        None,
        Line::one(widget.header(), Tone::Plain),
        vec![Line::one("  └ exec · uname -a", Tone::Dim)],
        SECOND,
    );
    assert_eq!(rows.len(), 2);
    assert!(rows[0].to_text().contains("Running tool"));
    let content = rows[1].to_text();
    assert!(content.contains("exec · uname -a"));
    assert!(content.contains("└"));
}

#[test]
fn long_details_are_cut() {
    let widget = StatusIndicatorWidget::new(AgentStatus::RunningTool, None)
        .with_details(Some("x".to_string()), None);
    let all: Vec<Line> = (0..5).map(|_| Line::one("abcdefghij", Tone::Dim)).collect();
    let rows = widget.wrapped_details_lines(all, 10);
    assert_eq!(rows.len(), 3);
    assert_eq!(rows[2].to_text(), "abcde…");
}

#[test]
fn times_are_written_short() {
    assert_eq!(fmt_elapsed_compact(59), "59s");
    assert_eq!(fmt_elapsed_compact(60), "1m 00s");
    assert_eq!(fmt_elapsed_compact(3_599), "59m 59s");
    assert_eq!(fmt_elapsed_compact(3_661), "1h 01m 01s");
}

// ---------------------------------------------------------------------------
// The clipboard
// ---------------------------------------------------------------------------

fn environment(ssh: bool, wsl: bool, tmux: bool) -> CopyEnvironment {
    CopyEnvironment {
        ssh_session: ssh,
        wsl_session: wsl,
        tmux_session: tmux,
    }
}

/// Copies with the results that each way gives, and tells which ways were tried.
fn copy(
    env: CopyEnvironment,
    result: impl Fn(CopyWay) -> Result<(), String>,
) -> (Result<(), String>, Vec<CopyWay>) {
    let mut attempt = CopyAttempt::begin("hello", env).unwrap();
    let mut tried = vec![attempt.way()];
    loop {
        let way = attempt.way();
        match attempt.step(result(way)) {
            CopyStep::Try(next) => tried.push(next),
            CopyStep::Done(r) => return (r, tried),
        }
    }
}

#[test]
fn rejects_oversized_copy_before_touching_clipboard() {
    let text = "x".repeat(OSC52_MAX_RAW_BYTES + 1);
    let err = CopyAttempt::begin(&text, environment(false, false, false)).unwrap_err();
    assert_eq!(err, "OSC 52 payload too large (100001 bytes; max 100000)");
}

#[test]
fn osc52_sequence_wraps_tmux_passthrough() {
    let plain = osc52_sequence("hello", false).unwrap();
    let tmux = osc52_sequence("hello", true).unwrap();
    assert!(plain.starts_with("\x1b]52;c;"));
    assert!(tmux.starts_with("\x1bPtmux;\x1b\x1b]52;c;"));
    assert_eq!(plain, "\x1b]52;c;aGVsbG8=\x07");
    assert_eq!(tmux, "\x1bPtmux;\x1b\x1b]52;c;aGVsbG8=\x07\x1b\\");
    assert!(osc52_sequence(&"x".repeat(OSC52_MAX_RAW_BYTES + 1), false).is_err());
}

#[test]
fn ssh_prefers_terminal_clipboard_and_skips_native() {
    let (result, tried) = copy(environment(true, false, false), |_| Ok(()));
    assert!(result.is_ok());
    assert_eq!(tried, vec![CopyWay::Osc52]);
}

#[test]
fn local_native_failure_uses_wsl_before_terminal_fallback() {
    let (result, tried) = copy(environment(false, true, false), |way| match way {
        CopyWay::Native => Err("native unavailable".to_string()),
        _ => Ok(()),
    });
    assert!(result.is_ok());
    assert_eq!(tried, vec![CopyWay::Native, CopyWay::Wsl]);
}

#[test]
fn copying_tells_all_that_failed() {
    let (result, tried) = copy(environment(false, true, true), |way| match way {
        CopyWay::Native => Err("a".to_string()),
        CopyWay::Wsl => Err("b".to_string()),
        CopyWay::Tmux => Err("c".to_string()),
        CopyWay::Osc52 => Err("d".to_string()),
    });
    assert_eq!(
        result.unwrap_err(),
        "native clipboard: a; WSL fallback: b; terminal fallback: d"
    );
    assert_eq!(
        tried,
        vec![
            CopyWay::Native,
            CopyWay::Wsl,
            CopyWay::Tmux,
            CopyWay::Osc52
        ]
    );
    let (result, _) = copy(environment(false, false, false), |_| Err("x".to_string()));
    assert_eq!(
        result.unwrap_err(),
        "native clipboard: x; terminal fallback: x"
    );
}

#[test]
fn what_other_programs_say_is_read() {
    assert!(check_set_clipboard("off\n").is_err());
    assert!(check_set_clipboard("on\n").is_ok());
    assert!(check_tmux_info("a\n Ms: [missing]\n").is_err());
    assert!(check_tmux_info("Ms: (string)").is_ok());
    assert_eq!(program_failure("tmux", b" bad \n", "1"), "tmux failed: bad");
    assert_eq!(program_failure("tmux", b"", "1"), "tmux exited with status 1");
    assert_eq!(explain_failure("x", "no", "2"), "x failed: no");
    assert!(names_wsl("Linux version 5 Microsoft"));
    assert!(!names_wsl("Linux version 6 generic"));
}

#[test]
fn the_copied_answer_is_the_last_one() {
    let mut tui = Tui::new(Platform::Unix);
    tui.apply_bus(
        Some(AgentType::Main),
        BusMessage::AgentResponse {
            agent: AgentType::Main,
            content: "answer".to_string(),
            streaming: false,
        },
        SECOND,
    );
    tui.take_effects();
    tui.handle_event(control('o'), SECOND);
    assert!(tui
        .take_effects()
        .iter()
        .any(|e| matches!(e, Effect::Copy { text } if text == "answer")));
}
