//! The composer: its draft, its history, its popups and how it is painted.

use autoreport::codex_shell::Platform;
use autoreport::bottom_pane::chat_composer::ChatComposer;
use autoreport::bottom_pane::completion_popup::{CompletionPopup, POPUP_BORDER_ROWS};
use autoreport::bottom_pane::composer_view::ComposerFrame;
use autoreport::bottom_pane::draft::Draft;
use autoreport::bottom_pane::history_search::{
    handle_search_key, HistorySearchSession, HistorySearchStatus, SearchKeyOutcome,
};
use autoreport::bottom_pane::paste_burst::{CharDecision, FlushResult, PasteBurst};
use autoreport::bottom_pane::pending_input_preview::PendingInputPreview;
use autoreport::bottom_pane::popup_state::{Mention, PopupState, SlashCompletion};
use autoreport::bottom_pane::rendering::{composer_and_popup, composer_and_popup_height};
use autoreport::editor::{is_completion_introducer, Editor};
use autoreport::geometry::Rect;
use autoreport::keys::{KeyCode, KeyEvent, KeyKind, Modifiers};
use autoreport::style::{truncate_line_with_ellipsis_if_overflow, Color, Line, Tone};
use autoreport::width::{char_width, text_width};

const MILLI: u64 = 1_000_000;

fn composer() -> ChatComposer {
    ChatComposer::new("Main")
}

fn key(code: KeyCode, modifiers: Modifiers) -> KeyEvent {
    KeyEvent::new(code, modifiers)
}

fn plain(code: KeyCode) -> KeyEvent {
    key(code, Modifiers::none())
}

/// The text of everything that is painted, row by row.
fn painted(frame: &ComposerFrame) -> Vec<String> {
    let mut rows: Vec<String> = frame.rows.iter().map(|r| r.line.to_text()).collect();
    if let Some(f) = &frame.footer {
        rows.push(f.line.to_text());
    }
    rows
}

// ---------------------------------------------------------------------------
// Editing
// ---------------------------------------------------------------------------

#[test]
fn composer_keeps_utf8_cursor_boundaries_during_editing() {
    let mut composer = composer();
    composer.insert('你');
    composer.insert('a');
    assert_eq!(composer.text(), "你a");

    composer.move_left();
    composer.delete_previous();
    assert_eq!(composer.text(), "a");
    assert_eq!(composer.cursor(), 0);

    composer.delete_next();
    assert!(composer.text().is_empty());
}

#[test]
fn taking_text_resets_the_cursor() {
    let mut composer = composer();
    composer.insert('a');
    assert_eq!(composer.take_text(), "a");
    assert_eq!(composer.cursor(), 0);
    assert!(composer.text().is_empty());
}

#[test]
fn ctrl_c_clears_draft_without_recording_history() {
    let mut composer = composer();
    composer.insert_text("draft");
    assert_eq!(composer.clear_for_ctrl_c().as_deref(), Some("draft"));
    assert!(composer.text().is_empty());
    assert!(!composer.history_previous());
}

#[test]
fn history_navigation_restores_draft_after_last_entry() {
    let mut composer = composer();
    composer.insert_text("first");
    assert_eq!(composer.take_text(), "first");
    composer.insert_text("second");
    assert_eq!(composer.take_text(), "second");
    composer.insert_text("draft");

    assert!(composer.history_previous());
    assert_eq!(composer.text(), "second");
    assert!(composer.history_previous());
    assert_eq!(composer.text(), "first");
    assert!(composer.history_next());
    assert_eq!(composer.text(), "second");
    assert!(composer.history_next());
    assert_eq!(composer.text(), "draft");
}

#[test]
fn pasted_text_preserves_newlines() {
    let mut composer = composer();
    composer.insert_text("a\nb");
    assert_eq!(composer.text(), "a\nb");
    assert_eq!(composer.cursor(), 3);
}

#[test]
fn long_lines_wrap_and_keep_cursor_on_visual_tail() {
    let mut composer = composer();
    composer.insert_text("abcdefghij");
    assert_eq!(composer.desired_height(10), 5);
    let cursor = composer.cursor_pos(Rect::new(0, 0, 10, 8));
    assert_eq!(cursor.1, 2);
}

#[test]
fn composer_surface_stops_before_the_footer_row() {
    let composer = composer();
    let (surface, footer) = composer.layout_areas(Rect::new(0, 10, 40, 4));
    assert_eq!(surface, Rect::new(0, 10, 40, 3));
    assert_eq!(footer, Rect::new(0, 13, 40, 1));
}

#[test]
fn footer_stays_at_the_bottom_when_input_wraps() {
    let mut composer = composer();
    composer.set_status_line(Some(Line::one("status", Tone::Plain)));
    composer.insert_text("abcdefghij");
    let area = Rect::new(0, 0, 10, composer.desired_height(10));
    let frame = composer.render(area).unwrap();
    let footer = frame.footer.unwrap();
    assert_eq!(footer.line.to_text(), "status");
    assert_eq!(footer.area.y, area.height - 1);
}

#[test]
fn multiline_input_scrolls_to_keep_the_cursor_visible() {
    let mut composer = composer();
    composer.insert_text("one\ntwo\nthree\nfour\nfive\nsix");
    let area = Rect::new(0, 0, 40, 7);
    let frame = composer.render(area).unwrap();
    let rendered = painted(&frame).join("\n");
    assert!(!rendered.contains("one"));
    assert!(rendered.contains("six"));
    let cursor = composer.cursor_pos(area);
    assert_eq!(cursor.1, 4);
}

#[test]
fn vertical_motion_follows_wrapped_visual_lines() {
    let mut composer = composer();
    composer.input_width = 6;
    composer.insert_text("abcdefghi\njklmnop");
    composer.draft.cursor = "abcdefghi\njklmn".len();

    assert!(composer.move_up());
    assert_eq!(composer.cursor(), 9);
    assert!(composer.move_up());
    assert_eq!(composer.cursor(), 5);
    assert!(composer.move_down());
    assert_eq!(composer.cursor(), 9);
}

#[test]
fn codex_editing_shortcuts_preserve_utf8_and_line_boundaries() {
    let mut composer = composer();
    composer.insert_text("你好 world\nnext");
    composer.move_home();
    assert_eq!(composer.cursor(), "你好 world\n".len());
    composer.move_left();
    composer.delete_word_previous();
    assert_eq!(composer.text(), "你好 \nnext");
    composer.move_end();
    assert_eq!(composer.cursor(), "你好 ".len());
    composer.move_right();
    composer.move_end();
    composer.move_home();
    composer.delete_to_end();
    assert_eq!(composer.text(), "你好 \n");
    composer.move_left();
    composer.delete_to_home();
    assert_eq!(composer.text(), "\n");
}

#[test]
fn multiline_vertical_motion_precedes_history_recall() {
    let mut composer = composer();
    composer.insert_text("ab\ncd\nef");
    composer.move_home();
    assert!(composer.move_up());
    assert_eq!(composer.cursor(), 3);
    composer.move_home();
    assert!(composer.move_up());
    assert_eq!(composer.cursor(), 0);
    assert!(composer.move_down());
    assert_eq!(composer.cursor(), 3);
}

#[test]
fn vertical_motion_uses_display_width_for_wide_glyphs() {
    let mut composer = composer();
    composer.insert_text("你a\nbcde");
    composer.move_home();
    assert!(composer.move_up());
    assert_eq!(composer.cursor(), 0);
    assert!(composer.move_down());
    composer.move_end();
    assert!(composer.move_up());
    assert_eq!(composer.cursor(), "你a".len());
}

#[test]
fn codex_word_shortcuts_and_yank_round_trip() {
    let mut composer = composer();
    composer.insert_text("hello world");
    composer.delete_word_previous();
    assert_eq!(composer.text(), "hello ");
    composer.yank();
    assert_eq!(composer.text(), "hello world");
    composer.move_word_left();
    assert_eq!(composer.cursor(), 6);
    composer.delete_word_next();
    assert_eq!(composer.text(), "hello ");
}

#[test]
fn word_motion_matches_codex_separator_and_cjk_boundaries() {
    let mut composer = composer();
    composer.insert_text("foo.bar 你好");
    composer.move_home();
    composer.move_end();
    composer.move_word_left();
    assert_eq!(composer.cursor(), "foo.bar 你".len());
    composer.move_word_left();
    assert_eq!(composer.cursor(), "foo.bar ".len());
    composer.move_word_left();
    assert_eq!(composer.cursor(), "foo.".len());
    composer.move_word_left();
    assert_eq!(composer.cursor(), "foo".len());
}

#[test]
fn reverse_history_search_matches_and_advances() {
    let mut composer = composer();
    composer.insert_text("cargo test");
    composer.take_text();
    composer.insert_text("cargo build");
    composer.take_text();
    composer.insert_text("cargo");
    composer.begin_history_search();
    composer.handle_history_search_key(plain(KeyCode::Char('c')));
    assert_eq!(composer.text(), "cargo build");
    composer.handle_history_search_key(key(KeyCode::Char('r'), Modifiers::control()));
    assert_eq!(composer.text(), "cargo test");
    composer.handle_history_search_key(key(KeyCode::Char('s'), Modifiers::control()));
    assert_eq!(composer.text(), "cargo build");
}

#[test]
fn history_search_uses_codex_footer_mode_until_accept() {
    let mut composer = composer();
    composer.record_history("cargo test");
    composer.begin_history_search();
    composer.handle_history_search_key(plain(KeyCode::Char('c')));
    assert_eq!(composer.text(), "cargo test");
    let frame = composer.render(Rect::new(0, 0, 60, 5)).unwrap();
    assert!(painted(&frame).join("\n").contains("reverse-i-search: c"));
    composer.history_search = None;
    assert!(!composer.history_search_active());
}

#[test]
fn cancelling_search_restores_the_original_draft() {
    let mut composer = composer();
    composer.record_history("cargo test");
    composer.insert_text("my draft");
    composer.begin_history_search();
    composer.handle_history_search_key(plain(KeyCode::Char('c')));
    assert_eq!(composer.text(), "cargo test");
    composer.handle_history_search_key(plain(KeyCode::Esc));
    assert_eq!(composer.text(), "my draft");
    assert!(!composer.history_search_active());
}

#[test]
fn focused_agent_footer_is_not_dimmed_with_shortcuts() {
    let mut composer = composer();
    composer.toggle_shortcuts();
    let frame = composer.render(Rect::new(0, 0, 80, 4)).unwrap();
    let footer = frame.footer.unwrap();
    assert_eq!(footer.area.y, 3);
    let label = footer
        .line
        .spans
        .iter()
        .find(|s| s.text.contains('M'))
        .expect("agent label");
    let paint = label.tone.paint();
    assert_eq!(paint.foreground, Color::Cyan);
    assert!(!paint.dim);
}

#[test]
fn empty_composer_renders_codex_status_line_when_shortcuts_are_hidden() {
    let mut composer = composer();
    let mut status = Line::empty();
    status.push("gpt-5.6-luna", Tone::Cyan);
    status.push(" · ", Tone::Dim);
    status.push("~", Tone::Green);
    composer.set_status_line(Some(status));
    let frame = composer.render(Rect::new(0, 0, 80, 4)).unwrap();
    let rendered = painted(&frame).join("\n");
    assert!(rendered.contains("Implement {feature}"));
    assert!(rendered.contains("gpt-5.6-luna"));
    assert!(rendered.contains("~"));
}

#[test]
fn long_status_line_is_truncated_before_footer_render() {
    let mut composer = composer();
    composer.set_status_line(Some(Line::one(
        "provider/this-is-a-very-long-model-name · ~/project",
        Tone::Plain,
    )));
    let frame = composer.render(Rect::new(0, 0, 20, 4)).unwrap();
    let footer = frame.footer.unwrap().line.to_text();
    assert!(footer.contains('…'));
    assert!(!footer.contains("project"));
}

#[test]
fn nothing_is_painted_without_room() {
    let mut composer = composer();
    assert!(composer.render(Rect::new(0, 0, 0, 4)).is_none());
    assert!(composer.render_input_only(Rect::new(0, 0, 4, 0)).is_none());
}

#[test]
fn widths_are_those_of_the_terminal() {
    assert_eq!(text_width("abc"), 3);
    assert_eq!(text_width("你好"), 4);
    assert_eq!(char_width('你'), 2);
    assert_eq!(char_width('a'), 1);
}

#[test]
fn long_lines_are_cut_with_an_ellipsis() {
    let cut = truncate_line_with_ellipsis_if_overflow(Line::one("abcdef", Tone::Plain), 4);
    assert_eq!(cut.to_text(), "abc…");
    let kept = truncate_line_with_ellipsis_if_overflow(Line::one("abcd", Tone::Plain), 4);
    assert_eq!(kept.to_text(), "abcd");
}

// ---------------------------------------------------------------------------
// Popups
// ---------------------------------------------------------------------------

#[test]
fn active_popup_owns_the_composer_footer_slot() {
    let mut composer = composer();
    let popup = CompletionPopup::new(vec![Line::one("/help", Tone::Plain)], false);
    assert_eq!(
        composer_and_popup_height(composer.input_desired_height(80), popup.desired_height()),
        4
    );
    let area = Rect::new(0, 0, 40, 4);
    let (input, below) = composer_and_popup(area, popup.desired_height());
    assert_eq!(below, Rect::new(0, 3, 40, 1));
    assert_eq!(popup.lines[0].to_text(), "/help");
    let frame = composer.render_input_only(input).unwrap();
    assert!(frame.footer.is_none());
    assert!(!painted(&frame)
        .iter()
        .any(|row| row.contains("? for shortcuts")));
}

#[test]
fn popup_height_includes_file_border_rows() {
    assert_eq!(
        CompletionPopup::new(vec![Line::one("a", Tone::Plain)], true).desired_height(),
        1 + POPUP_BORDER_ROWS
    );
}

#[test]
fn popup_state_has_one_active_popup() {
    let mut state = PopupState::default();
    state.set_slash(Some(SlashCompletion {
        matches: Vec::new(),
        selected: 0,
    }));
    assert!(state.slash().is_some());
    state.set_mention(Some(Mention {
        start: 0,
        cursor: 1,
        matches: Vec::new(),
        selected: 0,
    }));
    assert!(state.slash().is_none());
    assert!(state.mention().is_some());
}

#[test]
fn commands_are_offered_in_a_column() {
    let mut composer = composer();
    composer.insert_text("/conf");
    composer.recompute_slash();
    let popup = composer.completion_popup_build().unwrap();
    assert!(!popup.bordered);
    let text = popup.lines[0].to_text();
    assert!(text.starts_with("  /config"), "got: {text}");
    assert_eq!(popup.lines[0].spans[0].text.len(), 24);
    assert_eq!(popup.lines[0].spans[0].tone, Tone::Accent);
}

#[test]
fn commands_that_do_not_exist_are_said_so() {
    let mut composer = composer();
    composer.popups.set_slash(Some(SlashCompletion {
        matches: Vec::new(),
        selected: 0,
    }));
    let popup = composer.completion_popup_build().unwrap();
    assert_eq!(popup.lines[0].to_text(), "no matching commands");
    assert_eq!(popup.desired_height(), 1);
}

#[test]
fn accepted_mentions_are_quoted_where_needed() {
    let mut composer = composer();
    composer.insert_text("see @tr");
    assert_eq!(composer.recompute_mention(), Some("tr".to_string()));
    composer.set_mention_matches(vec!["Raw Files/trial one.csv".to_string()]);
    let popup = composer.completion_popup_build().unwrap();
    assert!(popup.bordered);
    assert_eq!(popup.lines[0].to_text(), "  Raw Files/trial one.csv");
    composer.accept_mention();
    assert_eq!(composer.text(), "see @\"Raw Files/trial one.csv\" ");
}

#[test]
fn dismissed_popups_stay_closed_for_the_same_text() {
    let mut composer = composer();
    composer.insert_text("/co");
    composer.recompute_slash();
    assert!(composer.slash_popup().is_some());
    composer.dismiss_slash();
    composer.recompute_slash();
    assert!(composer.slash_popup().is_none());
    composer.insert('n');
    composer.recompute_slash();
    assert!(composer.slash_popup().is_some());
}

#[test]
fn dismissed_mentions_are_known_by_their_bytes() {
    let mut composer = composer();
    composer.insert_text("\u{e9} @a");
    assert!(composer.recompute_mention().is_some());
    composer.dismiss_mention();
    assert!(composer.recompute_mention().is_none());
    composer.set_text("xy @a");
    assert!(composer.recompute_mention().is_none());
    composer.set_text("x @a");
    assert!(composer.recompute_mention().is_some());
}

#[test]
fn marks_go_round() {
    let mut composer = composer();
    composer.insert_text("@");
    composer.recompute_mention();
    composer.set_mention_matches(vec!["a".to_string(), "b".to_string()]);
    composer.move_mention(false);
    assert_eq!(composer.mention_popup().unwrap().selected, 1);
    composer.move_mention(true);
    assert_eq!(composer.mention_popup().unwrap().selected, 0);
}

// ---------------------------------------------------------------------------
// Search
// ---------------------------------------------------------------------------

fn history() -> Vec<String> {
    vec![
        "cargo test".to_string(),
        "cargo build".to_string(),
        "git status".to_string(),
    ]
}

#[test]
fn typing_query_finds_latest_match_case_insensitively() {
    let history = history();
    let mut session = HistorySearchSession::new(Draft::new());
    let mut draft = Draft::new();
    handle_search_key(
        &history,
        &mut session,
        &mut draft,
        plain(KeyCode::Char('g')),
    );
    assert_eq!(draft.to_text(), "git status");
    assert_eq!(session.status(), HistorySearchStatus::Match);
    assert_eq!(session.match_index, Some(2));
}

#[test]
fn capital_queries_find_small_letters() {
    let mut session = HistorySearchSession::new(Draft::new());
    let mut draft = Draft::new();
    handle_search_key(
        &history(),
        &mut session,
        &mut draft,
        key(KeyCode::Char('G'), Modifiers::shift()),
    );
    assert_eq!(draft.to_text(), "git status");
}

#[test]
fn ctrl_r_advances_to_older_match() {
    let history = history();
    let mut session = HistorySearchSession::new(Draft::new());
    let mut draft = Draft::new();
    handle_search_key(
        &history,
        &mut session,
        &mut draft,
        plain(KeyCode::Char('c')),
    );
    assert_eq!(draft.to_text(), "cargo build");
    let older = key(KeyCode::Char('r'), Modifiers::control());
    handle_search_key(&history, &mut session, &mut draft, older);
    assert_eq!(draft.to_text(), "cargo test");
    handle_search_key(&history, &mut session, &mut draft, older);
    assert_eq!(session.status(), HistorySearchStatus::Match);
    assert_eq!(draft.to_text(), "cargo test");
}

#[test]
fn ctrl_s_advances_to_newer_match() {
    let history = history();
    let mut session = HistorySearchSession::new(Draft::new());
    let mut draft = Draft::new();
    handle_search_key(
        &history,
        &mut session,
        &mut draft,
        plain(KeyCode::Char('c')),
    );
    let older = key(KeyCode::Char('r'), Modifiers::control());
    handle_search_key(&history, &mut session, &mut draft, older);
    assert_eq!(draft.to_text(), "cargo test");
    let newer = key(KeyCode::Char('s'), Modifiers::control());
    handle_search_key(&history, &mut session, &mut draft, newer);
    assert_eq!(draft.to_text(), "cargo build");
    assert_eq!(session.status(), HistorySearchStatus::Match);
}

#[test]
fn enter_accepts_only_on_match_else_continues() {
    let history = history();
    let mut session = HistorySearchSession::new(Draft::new());
    let mut draft = Draft::new();
    let out = handle_search_key(&history, &mut session, &mut draft, plain(KeyCode::Enter));
    assert_eq!(out, SearchKeyOutcome::Continue);
    handle_search_key(
        &history,
        &mut session,
        &mut draft,
        plain(KeyCode::Char('g')),
    );
    let out = handle_search_key(&history, &mut session, &mut draft, plain(KeyCode::Enter));
    assert_eq!(out, SearchKeyOutcome::Accept);
}

#[test]
fn esc_restores_original_draft() {
    let history = history();
    let mut session = HistorySearchSession::new(Draft::at_byte("draft text", 10));
    let mut draft = Draft::new();
    handle_search_key(
        &history,
        &mut session,
        &mut draft,
        plain(KeyCode::Char('g')),
    );
    assert_eq!(draft.to_text(), "git status");
    let out = handle_search_key(&history, &mut session, &mut draft, plain(KeyCode::Esc));
    assert_eq!(out, SearchKeyOutcome::Cancel);
    assert_eq!(draft.to_text(), "draft text");
    assert_eq!(draft.cursor_byte(), 10);
}

#[test]
fn backspace_pops_query_and_re_searches() {
    let history = history();
    let mut session = HistorySearchSession::new(Draft::new());
    let mut draft = Draft::new();
    handle_search_key(
        &history,
        &mut session,
        &mut draft,
        plain(KeyCode::Char('c')),
    );
    handle_search_key(
        &history,
        &mut session,
        &mut draft,
        plain(KeyCode::Char('a')),
    );
    assert_eq!(draft.to_text(), "cargo build");
    handle_search_key(
        &history,
        &mut session,
        &mut draft,
        plain(KeyCode::Backspace),
    );
    assert_eq!(session.query(), "c");
}

#[test]
fn no_match_restores_original_draft() {
    let history = history();
    let mut session = HistorySearchSession::new(Draft::at_byte("my draft", 8));
    let mut draft = Draft::at_byte("my draft", 8);
    handle_search_key(
        &history,
        &mut session,
        &mut draft,
        plain(KeyCode::Char('c')),
    );
    assert_eq!(draft.to_text(), "cargo build");
    handle_search_key(
        &history,
        &mut session,
        &mut draft,
        plain(KeyCode::Char('x')),
    );
    assert_eq!(session.status(), HistorySearchStatus::NoMatch);
    assert_eq!(
        draft.to_text(),
        "my draft",
        "no-match must restore original draft"
    );
}

#[test]
fn alt_modified_char_does_not_corrupt_query() {
    let mut session = HistorySearchSession::new(Draft::new());
    let mut draft = Draft::new();
    handle_search_key(
        &history(),
        &mut session,
        &mut draft,
        key(KeyCode::Char('b'), Modifiers::alt()),
    );
    assert!(
        session.query().is_empty(),
        "Alt+char must not enter the query"
    );
    assert_eq!(session.status(), HistorySearchStatus::Idle);
}

#[test]
fn release_event_is_ignored() {
    let mut session = HistorySearchSession::new(Draft::new());
    let mut draft = Draft::new();
    let mut evt = plain(KeyCode::Char('g'));
    evt.kind = KeyKind::Release;
    let out = handle_search_key(&history(), &mut session, &mut draft, evt);
    assert_eq!(out, SearchKeyOutcome::Ignored);
    assert!(
        session.query().is_empty(),
        "Release must not append to query"
    );
}

// ---------------------------------------------------------------------------
// Pastes
// ---------------------------------------------------------------------------

#[test]
fn fast_chars_are_flushed_as_one_paste() {
    let mut burst = PasteBurst::default();
    let start = 1_000 * MILLI;
    assert!(matches!(
        burst.on_plain_char('a', start),
        CharDecision::RetainFirstChar
    ));
    assert!(matches!(
        burst.on_plain_char('b', start + MILLI),
        CharDecision::BeginBufferFromPending
    ));
    burst.append_char_to_buffer('b', start + MILLI);
    assert!(matches!(
        burst.flush_if_due(start + 20 * MILLI),
        FlushResult::Paste(text) if text == vec!['a', 'b']
    ));
}

#[test]
fn single_fast_char_is_flushed_as_typed() {
    let mut burst = PasteBurst::default();
    let start = 1_000 * MILLI;
    assert!(matches!(
        burst.on_plain_char('a', start),
        CharDecision::RetainFirstChar
    ));
    assert!(matches!(
        burst.flush_if_due(start + PasteBurst::recommended_flush_delay() + MILLI),
        FlushResult::Typed('a')
    ));
}

#[test]
fn nothing_is_flushed_before_its_time() {
    let mut burst = PasteBurst::default();
    burst.on_plain_char('a', MILLI);
    assert!(matches!(burst.flush_if_due(2 * MILLI), FlushResult::Nothing));
    assert!(burst.is_active());
    assert_eq!(burst.flush_before_modified_input(), Some(vec!['a']));
    assert!(!burst.is_active());
}

#[test]
fn completion_introducers_bypass_the_first_character_hold() {
    assert!(is_completion_introducer('/', "", 0));
    assert!(is_completion_introducer('@', "", 0));
    assert!(is_completion_introducer('@', "inspect ", 8));
    assert!(!is_completion_introducer('/', "text", 4));
    assert!(!is_completion_introducer('@', "email", 5));
}

#[test]
fn typed_characters_come_out_in_order() {
    let mut editor = Editor::new(Platform::Unix, "Main");
    editor.insert_plain_char('h', 0);
    assert_eq!(editor.composer.text(), "");
    editor.insert_plain_char('i', 100 * MILLI);
    editor.flush_paste_burst_if_due(200 * MILLI);
    assert!(editor.composer.text().ends_with('i'));
    let mut slash = Editor::new(Platform::Unix, "Main");
    slash.insert_plain_char('/', 0);
    assert_eq!(slash.composer.text(), "/");
}

// ---------------------------------------------------------------------------
// Messages that wait
// ---------------------------------------------------------------------------

#[test]
fn empty_preview_has_no_height() {
    assert_eq!(
        PendingInputPreview::new().desired_height(&Vec::new(), 40, false),
        0
    );
}

#[test]
fn queued_message_has_codex_header_and_arrow() {
    let mut preview = PendingInputPreview::new();
    preview.set_queued_messages(vec!["follow up".to_string()]);
    let wrapped = vec![vec![Line::one("  ↳ follow up", Tone::Dim)]];
    assert_eq!(preview.desired_height(&wrapped, 40, false), 3);
    let text = preview
        .lines(&wrapped, 40, false)
        .iter()
        .map(|l| l.to_text())
        .collect::<Vec<_>>()
        .join("\n");
    assert!(text.contains("Queued follow-up inputs"));
    assert!(text.contains("↳"));
    assert!(text.contains("alt + ↑ edit last queued message"));
}
