//! What events of the terminal do.
//!
//! A key is first brought to what it means in the situation at hand, and then done.

use crate::agent;
use crate::agent::{AgentType, AGENT_COUNT};
use crate::app_command;
use crate::app_input;
use crate::app_state;
use crate::app_state::{
    Effect, EffectView, Overlay, PromptsView, ReviewDecision, Screen, Tui, TuiView,
};
use crate::bottom_pane::chat_composer;
use crate::bottom_pane::chat_composer::{ChatComposer, ComposerView};
use crate::bottom_pane::completion;
use crate::bottom_pane::paste_burst;
use crate::bottom_pane::popup_state;
use crate::desk;
use crate::editor;
use crate::editor::EditorView;
use crate::keys::{KeyCode, KeyEvent, KeyKind, Modifiers};
use crate::text;
use crate::transcript::{CellView, SysKind};
use vstd::prelude::*;

verus! {

/// An event of the terminal.
#[derive(Debug)]
pub enum Event {
    FocusGained,
    Scroll { up: bool },
    Paste { text: String },
    Key { key: KeyEvent },
    Other,
}

/// A key that changes the draft.
#[derive(Debug, Clone, Copy, PartialEq, Eq, Structural)]
pub enum EditKey {
    DeletePrevious,
    DeleteNext,
    DeleteWordPrevious,
    DeleteWordNext,
    DeleteToHome,
    DeleteToEnd,
    Left,
    Right,
    WordLeft,
    WordRight,
    Home,
    End,
    PreviousLine,
    NextLine,
    Search,
    Yank,
}

/// What a key means.
#[derive(Debug, Clone, Copy, PartialEq, Eq, Structural)]
pub enum KeyAction {
    CopyResponse,
    Pager,
    HistorySearch,
    Approval,
    UserInput,
    Overlay,
    MoveSlash { forward: bool },
    AcceptSlash,
    RunSlash,
    DismissSlash,
    MoveMention { forward: bool },
    AcceptMention,
    DismissMention,
    ClosePicker,
    MovePicker { forward: bool },
    AcceptPicker,
    ChooseAgent { index: usize },
    Swallow,
    ToggleShortcuts,
    EditQueued,
    BreakLine,
    Enter,
    CycleAgent { forward: bool },
    Interrupt,
    DeleteOrQuit,
    CopyLast,
    OpenPager,
    ClearScreen,
    ToggleRaw,
    Edit { key: EditKey },
    Up,
    Down,
    Page { up: bool },
    Escape,
    Plain { ch: char },
    Nothing,
}

/// What is open when a key comes.
#[derive(Debug, Clone, Copy, PartialEq, Eq, Structural)]
pub struct Situation {
    pub pager: bool,
    pub searching: bool,
    pub approvals: bool,
    pub inputs: bool,
    pub overlay: bool,
    pub slash: bool,
    pub mention: bool,
    pub picker: bool,
    pub draft_empty: bool,
}

// ---------------------------------------------------------------------------
// What keys mean
// ---------------------------------------------------------------------------

/// What a key means while commands are offered.
pub open spec fn slash_key(key: KeyEvent) -> Option<KeyAction> {
    let m = key.modifiers;
    match key.code {
        KeyCode::Down => Some(KeyAction::MoveSlash { forward: true }),
        KeyCode::Up => Some(KeyAction::MoveSlash { forward: false }),
        KeyCode::Char(c) => if c == 'n' && m.control {
            Some(KeyAction::MoveSlash { forward: true })
        } else if c == 'p' && m.control {
            Some(KeyAction::MoveSlash { forward: false })
        } else {
            None
        },
        KeyCode::Tab => if m.plain() {
            Some(KeyAction::AcceptSlash)
        } else {
            None
        },
        KeyCode::Enter => if m.plain() {
            Some(KeyAction::RunSlash)
        } else {
            None
        },
        KeyCode::Esc => Some(KeyAction::DismissSlash),
        _ => None,
    }
}

/// What a key means while files are offered.
pub open spec fn mention_key(key: KeyEvent) -> Option<KeyAction> {
    match key.code {
        KeyCode::Down => Some(KeyAction::MoveMention { forward: true }),
        KeyCode::Up => Some(KeyAction::MoveMention { forward: false }),
        KeyCode::Tab => if key.modifiers.plain() {
            Some(KeyAction::AcceptMention)
        } else {
            None
        },
        KeyCode::Enter => if key.modifiers.plain() {
            Some(KeyAction::AcceptMention)
        } else {
            None
        },
        KeyCode::Esc => Some(KeyAction::DismissMention),
        _ => None,
    }
}

/// What a key means while the agent picker is open. The digits choose an agent by
/// its place.
pub open spec fn picker_key(key: KeyEvent) -> KeyAction {
    let m = key.modifiers;
    match key.code {
        KeyCode::Esc => KeyAction::ClosePicker,
        KeyCode::Enter => KeyAction::AcceptPicker,
        KeyCode::Tab => KeyAction::MovePicker { forward: true },
        KeyCode::Down => KeyAction::MovePicker { forward: true },
        KeyCode::BackTab => KeyAction::MovePicker { forward: false },
        KeyCode::Up => KeyAction::MovePicker { forward: false },
        KeyCode::Char(c) => if c == 'j' && m.plain() {
            KeyAction::MovePicker { forward: true }
        } else if c == 'k' && m.plain() {
            KeyAction::MovePicker { forward: false }
        } else if c == 'n' && m.control {
            KeyAction::MovePicker { forward: true }
        } else if c == 'p' && m.control {
            KeyAction::MovePicker { forward: false }
        } else if '1' <= c && c <= '5' && m.plain() {
            KeyAction::ChooseAgent { index: (c as u32 - '1' as u32) as usize }
        } else {
            KeyAction::Swallow
        },
        _ => KeyAction::Swallow,
    }
}

/// What a character means with the control key.
pub open spec fn control_key(c: char) -> Option<KeyAction> {
    if c == 'j' || c == 'm' {
        Some(KeyAction::BreakLine)
    } else if c == 'c' {
        Some(KeyAction::Interrupt)
    } else if c == 'd' {
        Some(KeyAction::DeleteOrQuit)
    } else if c == 'o' {
        Some(KeyAction::CopyLast)
    } else if c == 't' {
        Some(KeyAction::OpenPager)
    } else if c == 'l' {
        Some(KeyAction::ClearScreen)
    } else if c == 'b' {
        Some(KeyAction::Edit { key: EditKey::Left })
    } else if c == 'f' {
        Some(KeyAction::Edit { key: EditKey::Right })
    } else if c == 'h' {
        Some(KeyAction::Edit { key: EditKey::DeletePrevious })
    } else if c == 'a' {
        Some(KeyAction::Edit { key: EditKey::Home })
    } else if c == 'e' {
        Some(KeyAction::Edit { key: EditKey::End })
    } else if c == 'w' {
        Some(KeyAction::Edit { key: EditKey::DeleteWordPrevious })
    } else if c == 'u' {
        Some(KeyAction::Edit { key: EditKey::DeleteToHome })
    } else if c == 'k' {
        Some(KeyAction::Edit { key: EditKey::DeleteToEnd })
    } else if c == 'p' {
        Some(KeyAction::Edit { key: EditKey::PreviousLine })
    } else if c == 'n' {
        Some(KeyAction::Edit { key: EditKey::NextLine })
    } else if c == 'r' || c == 's' {
        Some(KeyAction::Edit { key: EditKey::Search })
    } else if c == 'y' {
        Some(KeyAction::Edit { key: EditKey::Yank })
    } else {
        None
    }
}

/// What a character means with the alt key.
pub open spec fn alt_key(c: char) -> Option<KeyAction> {
    if c == 'r' {
        Some(KeyAction::ToggleRaw)
    } else if c == 'd' {
        Some(KeyAction::Edit { key: EditKey::DeleteWordNext })
    } else if c == 'b' {
        Some(KeyAction::Edit { key: EditKey::WordLeft })
    } else if c == 'f' {
        Some(KeyAction::Edit { key: EditKey::WordRight })
    } else {
        None
    }
}

/// What a character means in the composer. With both control and alt, `r` goes by
/// alt and the others go by control.
pub open spec fn char_key(c: char, m: Modifiers) -> KeyAction {
    if c == 'r' && m.alt {
        KeyAction::ToggleRaw
    } else if m.control && control_key(c) is Some {
        control_key(c)->0
    } else if m.alt && alt_key(c) is Some {
        alt_key(c)->0
    } else if m.at_most_shift() {
        KeyAction::Plain { ch: c }
    } else {
        KeyAction::Nothing
    }
}

/// What an arrow to the side means in the composer.
pub open spec fn arrow_key(right: bool, m: Modifiers, draft_empty: bool) -> KeyAction {
    if m.alt && draft_empty {
        KeyAction::CycleAgent { forward: right }
    } else if m.alt || m.control {
        KeyAction::Edit {
            key: if right {
                EditKey::WordRight
            } else {
                EditKey::WordLeft
            },
        }
    } else {
        KeyAction::Edit {
            key: if right {
                EditKey::Right
            } else {
                EditKey::Left
            },
        }
    }
}

/// What a key means in the composer.
pub open spec fn composer_key(key: KeyEvent, draft_empty: bool) -> KeyAction {
    let m = key.modifiers;
    match key.code {
        KeyCode::Up => if m.alt {
            KeyAction::EditQueued
        } else {
            KeyAction::Up
        },
        KeyCode::Down => KeyAction::Down,
        KeyCode::Enter => if m.shift || m.alt {
            KeyAction::BreakLine
        } else if m.plain() {
            KeyAction::Enter
        } else {
            KeyAction::Nothing
        },
        KeyCode::Tab => KeyAction::CycleAgent { forward: true },
        KeyCode::BackTab => KeyAction::CycleAgent { forward: false },
        KeyCode::Backspace => KeyAction::Edit {
            key: if m.alt || m.control {
                EditKey::DeleteWordPrevious
            } else {
                EditKey::DeletePrevious
            },
        },
        KeyCode::Delete => KeyAction::Edit {
            key: if m.alt || m.control {
                EditKey::DeleteWordNext
            } else {
                EditKey::DeleteNext
            },
        },
        KeyCode::Left => arrow_key(false, m, draft_empty),
        KeyCode::Right => arrow_key(true, m, draft_empty),
        KeyCode::Home => KeyAction::Edit { key: EditKey::Home },
        KeyCode::End => KeyAction::Edit { key: EditKey::End },
        KeyCode::PageUp => KeyAction::Page { up: true },
        KeyCode::PageDown => KeyAction::Page { up: false },
        KeyCode::Esc => KeyAction::Escape,
        KeyCode::Char(c) => char_key(c, m),
        KeyCode::Other => KeyAction::Nothing,
    }
}

/// Whether a key asks for the shortcuts: a question mark in an empty draft.
pub open spec fn asks_shortcuts(key: KeyEvent, draft_empty: bool) -> bool {
    key.code == KeyCode::Char('?') && key.modifiers.at_most_shift() && draft_empty
}

/// What a key means where nothing but a popup or the picker is open.
pub open spec fn chat_key(s: Situation, key: KeyEvent) -> KeyAction {
    if s.slash && slash_key(key) is Some {
        slash_key(key)->0
    } else if s.mention && mention_key(key) is Some {
        mention_key(key)->0
    } else if s.picker {
        picker_key(key)
    } else if asks_shortcuts(key, s.draft_empty) {
        KeyAction::ToggleShortcuts
    } else {
        composer_key(key, s.draft_empty)
    }
}

/// What a key means. What is open in front takes all keys: the pager, then a search,
/// then approvals, then questions, then a screen.
pub open spec fn routed(s: Situation, key: KeyEvent) -> KeyAction {
    if s.pager {
        if key.code == KeyCode::Char('o') && key.modifiers.control {
            KeyAction::CopyResponse
        } else {
            KeyAction::Pager
        }
    } else if s.searching {
        KeyAction::HistorySearch
    } else if s.approvals {
        KeyAction::Approval
    } else if s.inputs {
        KeyAction::UserInput
    } else if s.overlay {
        KeyAction::Overlay
    } else {
        chat_key(s, key)
    }
}

/// Whether nothing more happens behind an action: popups and the scroll position
/// stay as they are.
pub open spec fn is_final(a: KeyAction) -> bool {
    match a {
        KeyAction::CopyResponse => true,
        KeyAction::Pager => true,
        KeyAction::HistorySearch => true,
        KeyAction::Approval => true,
        KeyAction::UserInput => true,
        KeyAction::Overlay => true,
        KeyAction::MoveSlash { .. } => true,
        KeyAction::AcceptSlash => true,
        KeyAction::RunSlash => true,
        KeyAction::DismissSlash => true,
        KeyAction::MoveMention { .. } => true,
        KeyAction::AcceptMention => true,
        KeyAction::DismissMention => true,
        KeyAction::ClosePicker => true,
        KeyAction::MovePicker { .. } => true,
        KeyAction::AcceptPicker => true,
        KeyAction::ChooseAgent { .. } => true,
        KeyAction::Swallow => true,
        KeyAction::ToggleShortcuts => true,
        _ => false,
    }
}

/// What a key means while commands are offered.
fn route_slash(key: KeyEvent) -> (r: Option<KeyAction>)
    ensures
        r == slash_key(key),
{
    let m = key.modifiers;
    match key.code {
        KeyCode::Down => Some(KeyAction::MoveSlash { forward: true }),
        KeyCode::Up => Some(KeyAction::MoveSlash { forward: false }),
        KeyCode::Char(c) => {
            if c == 'n' && m.control {
                Some(KeyAction::MoveSlash { forward: true })
            } else if c == 'p' && m.control {
                Some(KeyAction::MoveSlash { forward: false })
            } else {
                None
            }
        },
        KeyCode::Tab => {
            if m.is_empty() {
                Some(KeyAction::AcceptSlash)
            } else {
                None
            }
        },
        KeyCode::Enter => {
            if m.is_empty() {
                Some(KeyAction::RunSlash)
            } else {
                None
            }
        },
        KeyCode::Esc => Some(KeyAction::DismissSlash),
        _ => None,
    }
}

/// What a key means while files are offered.
fn route_mention(key: KeyEvent) -> (r: Option<KeyAction>)
    ensures
        r == mention_key(key),
{
    match key.code {
        KeyCode::Down => Some(KeyAction::MoveMention { forward: true }),
        KeyCode::Up => Some(KeyAction::MoveMention { forward: false }),
        KeyCode::Tab | KeyCode::Enter => {
            if key.modifiers.is_empty() {
                Some(KeyAction::AcceptMention)
            } else {
                None
            }
        },
        KeyCode::Esc => Some(KeyAction::DismissMention),
        _ => None,
    }
}

/// What a key means while the agent picker is open.
fn route_picker(key: KeyEvent) -> (r: KeyAction)
    ensures
        r == picker_key(key),
{
    let m = key.modifiers;
    match key.code {
        KeyCode::Esc => KeyAction::ClosePicker,
        KeyCode::Enter => KeyAction::AcceptPicker,
        KeyCode::Tab | KeyCode::Down => KeyAction::MovePicker { forward: true },
        KeyCode::BackTab | KeyCode::Up => KeyAction::MovePicker { forward: false },
        KeyCode::Char(c) => {
            if c == 'j' && m.is_empty() {
                KeyAction::MovePicker { forward: true }
            } else if c == 'k' && m.is_empty() {
                KeyAction::MovePicker { forward: false }
            } else if c == 'n' && m.control {
                KeyAction::MovePicker { forward: true }
            } else if c == 'p' && m.control {
                KeyAction::MovePicker { forward: false }
            } else if '1' <= c && c <= '5' && m.is_empty() {
                KeyAction::ChooseAgent { index: (c as u32 - '1' as u32) as usize }
            } else {
                KeyAction::Swallow
            }
        },
        _ => KeyAction::Swallow,
    }
}

/// What a character means with the control key.
fn route_control(c: char) -> (r: Option<KeyAction>)
    ensures
        r == control_key(c),
{
    let edit = match c {
        'b' => EditKey::Left,
        'f' => EditKey::Right,
        'h' => EditKey::DeletePrevious,
        'a' => EditKey::Home,
        'e' => EditKey::End,
        'w' => EditKey::DeleteWordPrevious,
        'u' => EditKey::DeleteToHome,
        'k' => EditKey::DeleteToEnd,
        'p' => EditKey::PreviousLine,
        'n' => EditKey::NextLine,
        'r' => EditKey::Search,
        's' => EditKey::Search,
        'y' => EditKey::Yank,
        'j' => {
            return Some(KeyAction::BreakLine);
        },
        'm' => {
            return Some(KeyAction::BreakLine);
        },
        'c' => {
            return Some(KeyAction::Interrupt);
        },
        'd' => {
            return Some(KeyAction::DeleteOrQuit);
        },
        'o' => {
            return Some(KeyAction::CopyLast);
        },
        't' => {
            return Some(KeyAction::OpenPager);
        },
        'l' => {
            return Some(KeyAction::ClearScreen);
        },
        _ => {
            return None;
        },
    };
    Some(KeyAction::Edit { key: edit })
}

/// What a character means in the composer.
fn route_char(c: char, m: Modifiers) -> (r: KeyAction)
    ensures
        r == char_key(c, m),
{
    if c == 'r' && m.alt {
        return KeyAction::ToggleRaw;
    }
    if m.control {
        if let Some(a) = route_control(c) {
            return a;
        }
    }
    if m.alt {
        if c == 'd' {
            return KeyAction::Edit { key: EditKey::DeleteWordNext };
        }
        if c == 'b' {
            return KeyAction::Edit { key: EditKey::WordLeft };
        }
        if c == 'f' {
            return KeyAction::Edit { key: EditKey::WordRight };
        }
    }
    if m.is_at_most_shift() {
        KeyAction::Plain { ch: c }
    } else {
        KeyAction::Nothing
    }
}

/// What an arrow to the side means in the composer.
fn route_arrow(right: bool, m: Modifiers, draft_empty: bool) -> (r: KeyAction)
    ensures
        r == arrow_key(right, m, draft_empty),
{
    if m.alt && draft_empty {
        KeyAction::CycleAgent { forward: right }
    } else if m.alt || m.control {
        if right {
            KeyAction::Edit { key: EditKey::WordRight }
        } else {
            KeyAction::Edit { key: EditKey::WordLeft }
        }
    } else if right {
        KeyAction::Edit { key: EditKey::Right }
    } else {
        KeyAction::Edit { key: EditKey::Left }
    }
}

/// What a key means in the composer.
fn route_composer(key: KeyEvent, draft_empty: bool) -> (r: KeyAction)
    ensures
        r == composer_key(key, draft_empty),
{
    let m = key.modifiers;
    match key.code {
        KeyCode::Up => {
            if m.alt {
                KeyAction::EditQueued
            } else {
                KeyAction::Up
            }
        },
        KeyCode::Down => KeyAction::Down,
        KeyCode::Enter => {
            if m.shift || m.alt {
                KeyAction::BreakLine
            } else if m.is_empty() {
                KeyAction::Enter
            } else {
                KeyAction::Nothing
            }
        },
        KeyCode::Tab => KeyAction::CycleAgent { forward: true },
        KeyCode::BackTab => KeyAction::CycleAgent { forward: false },
        KeyCode::Backspace => {
            if m.alt || m.control {
                KeyAction::Edit { key: EditKey::DeleteWordPrevious }
            } else {
                KeyAction::Edit { key: EditKey::DeletePrevious }
            }
        },
        KeyCode::Delete => {
            if m.alt || m.control {
                KeyAction::Edit { key: EditKey::DeleteWordNext }
            } else {
                KeyAction::Edit { key: EditKey::DeleteNext }
            }
        },
        KeyCode::Left => route_arrow(false, m, draft_empty),
        KeyCode::Right => route_arrow(true, m, draft_empty),
        KeyCode::Home => KeyAction::Edit { key: EditKey::Home },
        KeyCode::End => KeyAction::Edit { key: EditKey::End },
        KeyCode::PageUp => KeyAction::Page { up: true },
        KeyCode::PageDown => KeyAction::Page { up: false },
        KeyCode::Esc => KeyAction::Escape,
        KeyCode::Char(c) => route_char(c, m),
        KeyCode::Other => KeyAction::Nothing,
    }
}

/// What a key means.
pub fn route_key(s: Situation, key: KeyEvent) -> (r: KeyAction)
    ensures
        r == routed(s, key),
{
    if s.pager {
        if key.code == KeyCode::Char('o') && key.modifiers.control {
            return KeyAction::CopyResponse;
        }
        return KeyAction::Pager;
    }
    if s.searching {
        return KeyAction::HistorySearch;
    }
    if s.approvals {
        return KeyAction::Approval;
    }
    if s.inputs {
        return KeyAction::UserInput;
    }
    if s.overlay {
        return KeyAction::Overlay;
    }
    if s.slash {
        if let Some(a) = route_slash(key) {
            return a;
        }
    }
    if s.mention {
        if let Some(a) = route_mention(key) {
            return a;
        }
    }
    if s.picker {
        return route_picker(key);
    }
    if key.code == KeyCode::Char('?') && key.modifiers.is_at_most_shift() && s.draft_empty {
        return KeyAction::ToggleShortcuts;
    }
    route_composer(key, s.draft_empty)
}

/// Whether nothing more happens behind an action.
fn ends_event(a: KeyAction) -> (r: bool)
    ensures
        r == is_final(a),
{
    match a {
        KeyAction::CopyResponse | KeyAction::Pager | KeyAction::HistorySearch
        | KeyAction::Approval | KeyAction::UserInput | KeyAction::Overlay
        | KeyAction::MoveSlash { .. } | KeyAction::AcceptSlash | KeyAction::RunSlash
        | KeyAction::DismissSlash | KeyAction::MoveMention { .. } | KeyAction::AcceptMention
        | KeyAction::DismissMention | KeyAction::ClosePicker | KeyAction::MovePicker { .. }
        | KeyAction::AcceptPicker | KeyAction::ChooseAgent { .. } | KeyAction::Swallow
        | KeyAction::ToggleShortcuts => true,
        _ => false,
    }
}

// ---------------------------------------------------------------------------
// The draft
// ---------------------------------------------------------------------------

/// The composer with the cursor up a row.
pub open spec fn row_up(c: ComposerView) -> ComposerView {
    if chat_composer::can_go_up(c) {
        chat_composer::moved_to_row(
            c,
            chat_composer::draft_row(c)->0,
            chat_composer::draft_row(c)->0 - 1,
        )
    } else {
        c
    }
}

/// The composer with the cursor down a row.
pub open spec fn row_down(c: ComposerView) -> ComposerView {
    if chat_composer::can_go_down(c) {
        chat_composer::moved_to_row(
            c,
            chat_composer::draft_row(c)->0,
            chat_composer::draft_row(c)->0 + 1,
        )
    } else {
        c
    }
}

/// The composer without the character before the cursor.
pub open spec fn previous_deleted(c: ComposerView) -> ComposerView {
    if c.draft.cursor == 0 {
        chat_composer::off_history(c)
    } else {
        ComposerView {
            preferred_column: None,
            ..chat_composer::cut(c, c.draft.cursor - 1, c.draft.cursor)
        }
    }
}

/// The composer without the character behind the cursor.
pub open spec fn next_deleted(c: ComposerView) -> ComposerView {
    if c.draft.cursor == c.draft.text.len() {
        chat_composer::off_history(c)
    } else {
        ComposerView {
            preferred_column: None,
            ..chat_composer::cut(c, c.draft.cursor, c.draft.cursor + 1)
        }
    }
}

/// What a key does to the draft.
#[verifier::opaque]
pub open spec fn edited(c: ComposerView, key: EditKey) -> ComposerView {
    let s = c.draft.text;
    let at = c.draft.cursor;
    match key {
        EditKey::DeletePrevious => previous_deleted(c),
        EditKey::DeleteNext => next_deleted(c),
        EditKey::DeleteWordPrevious => if at == 0 {
            c
        } else {
            chat_composer::cut(c, crate::bottom_pane::draft::previous_word(s, at), at)
        },
        EditKey::DeleteWordNext => if at == s.len() {
            c
        } else {
            chat_composer::cut(c, at, crate::bottom_pane::draft::next_word(s, at))
        },
        EditKey::DeleteToHome => chat_composer::cut(
            c,
            crate::bottom_pane::draft::line_start(s, at),
            at,
        ),
        EditKey::DeleteToEnd => chat_composer::cut(
            c,
            at,
            crate::bottom_pane::draft::line_end(s, at),
        ),
        EditKey::Left => chat_composer::with_cursor(
            c,
            if at > 0 {
                at - 1
            } else {
                0
            },
        ),
        EditKey::Right => chat_composer::with_cursor(
            c,
            if at < s.len() {
                at + 1
            } else {
                at
            },
        ),
        EditKey::WordLeft => chat_composer::with_cursor(
            c,
            crate::bottom_pane::draft::previous_word(s, at),
        ),
        EditKey::WordRight => chat_composer::with_cursor(
            c,
            crate::bottom_pane::draft::next_word(s, at),
        ),
        EditKey::Home => chat_composer::with_cursor(
            c,
            crate::bottom_pane::draft::line_start(s, at),
        ),
        EditKey::End => chat_composer::with_cursor(
            c,
            crate::bottom_pane::draft::line_end(s, at),
        ),
        EditKey::PreviousLine => if chat_composer::can_go_up(c) {
            row_up(c)
        } else {
            chat_composer::stepped_back(c)
        },
        EditKey::NextLine => if chat_composer::can_go_down(c) {
            row_down(c)
        } else {
            chat_composer::stepped_forward(c)
        },
        EditKey::Search => chat_composer::searching(c),
        EditKey::Yank => match c.killed {
            Some(k) => chat_composer::inserted(c, k),
            None => c,
        },
    }
}

/// Changes the draft.
pub fn edit(c: &mut ChatComposer, key: EditKey)
    requires
        old(c)@.wf(),
    ensures
        final(c)@ == edited(old(c)@, key),
        final(c)@.wf(),
{
    reveal(edited);
    match key {
        EditKey::DeletePrevious => c.delete_previous(),
        EditKey::DeleteNext => c.delete_next(),
        EditKey::DeleteWordPrevious => c.delete_word_previous(),
        EditKey::DeleteWordNext => c.delete_word_next(),
        EditKey::DeleteToHome => c.delete_to_home(),
        EditKey::DeleteToEnd => c.delete_to_end(),
        EditKey::Left => c.move_left(),
        EditKey::Right => c.move_right(),
        EditKey::WordLeft => c.move_word_left(),
        EditKey::WordRight => c.move_word_right(),
        EditKey::Home => c.move_home(),
        EditKey::End => c.move_end(),
        EditKey::PreviousLine => {
            if !c.move_up() {
                let _ = c.history_previous();
            }
        },
        EditKey::NextLine => {
            if !c.move_down() {
                let _ = c.history_next();
            }
        },
        EditKey::Search => c.begin_history_search(),
        EditKey::Yank => c.yank(),
    }
}

/// What the up key does to the draft, and whether it did anything: a row up, or the
/// input before.
#[verifier::opaque]
pub open spec fn up_pressed(c: ComposerView) -> (ComposerView, bool) {
    if chat_composer::can_go_up(c) {
        (row_up(c), true)
    } else if c.history.len() > 0 {
        (chat_composer::stepped_back(c), true)
    } else {
        (c, false)
    }
}

/// What the down key does to the draft, and whether it did anything: a row down, or
/// the input behind while an input is recalled.
#[verifier::opaque]
pub open spec fn down_pressed(c: ComposerView) -> (ComposerView, bool) {
    if chat_composer::can_go_down(c) {
        (row_down(c), true)
    } else if c.draft.text.len() > 0 && c.history_index is Some {
        (chat_composer::stepped_forward(c), true)
    } else {
        (c, false)
    }
}

/// Presses the up key on the draft.
fn press_up(c: &mut ChatComposer) -> (r: bool)
    requires
        old(c)@.wf(),
    ensures
        (final(c)@, r) == up_pressed(old(c)@),
        final(c)@.wf(),
{
    reveal(up_pressed);
    if c.move_up() {
        true
    } else {
        c.history_previous()
    }
}

/// Presses the down key on the draft.
fn press_down(c: &mut ChatComposer) -> (r: bool)
    requires
        old(c)@.wf(),
    ensures
        (final(c)@, r) == down_pressed(old(c)@),
        final(c)@.wf(),
{
    reveal(down_pressed);
    if c.move_down() {
        return true;
    }
    if c.draft.text.len() > 0 && c.history_index.is_some() {
        return c.history_next();
    }
    false
}

// ---------------------------------------------------------------------------
// Approvals and screens
// ---------------------------------------------------------------------------

/// What a key decides about a command.
pub open spec fn decision_of(code: KeyCode) -> Option<ReviewDecision> {
    match code {
        KeyCode::Enter => Some(ReviewDecision::Approved),
        KeyCode::Esc => Some(ReviewDecision::Denied),
        KeyCode::Char(c) => if c == 'y' || c == 'Y' {
            Some(ReviewDecision::Approved)
        } else if c == 'a' || c == 'A' {
            Some(ReviewDecision::ApprovedForSession)
        } else if c == 'p' || c == 'P' {
            Some(ReviewDecision::ApprovedAndPersisted)
        } else if c == 'd' || c == 'D' || c == 'c' || c == 'C' || c == 'n' || c == 'N' {
            Some(ReviewDecision::Denied)
        } else {
            None
        },
        _ => None,
    }
}

/// What is said of a decision.
pub open spec fn decision_text(d: ReviewDecision) -> Seq<char> {
    match d {
        ReviewDecision::Approved => "command approved"@,
        ReviewDecision::ApprovedForSession => "command approved for session"@,
        ReviewDecision::ApprovedAndPersisted => "command approved and saved as a rule"@,
        ReviewDecision::Denied => "command denied"@,
    }
}

/// The state with the first waiting command decided.
#[verifier::opaque]
pub open spec fn approval_pressed(v: TuiView, code: KeyCode) -> TuiView {
    match decision_of(code) {
        None => v,
        Some(d) => if v.prompts.approvals.len() == 0 {
            v
        } else {
            app_state::said(
                app_state::asking(
                    TuiView {
                        prompts: PromptsView {
                            approvals: v.prompts.approvals.skip(1),
                            ..v.prompts
                        },
                        ..v
                    },
                    EffectView::ResolveApproval {
                        call_id: v.prompts.approvals[0].call_id,
                        decision: d,
                    },
                ),
                decision_text(d),
                SysKind::Info,
            )
        },
    }
}

/// What a key decides about a command.
fn decide(code: KeyCode) -> (r: Option<ReviewDecision>)
    ensures
        r == decision_of(code),
{
    match code {
        KeyCode::Enter => Some(ReviewDecision::Approved),
        KeyCode::Esc => Some(ReviewDecision::Denied),
        KeyCode::Char(c) => {
            if c == 'y' || c == 'Y' {
                Some(ReviewDecision::Approved)
            } else if c == 'a' || c == 'A' {
                Some(ReviewDecision::ApprovedForSession)
            } else if c == 'p' || c == 'P' {
                Some(ReviewDecision::ApprovedAndPersisted)
            } else if c == 'd' || c == 'D' || c == 'c' || c == 'C' || c == 'n' || c == 'N' {
                Some(ReviewDecision::Denied)
            } else {
                None
            }
        },
        _ => None,
    }
}

/// What is said of a decision.
fn decision_line(d: ReviewDecision) -> (r: &'static str)
    ensures
        r@ == decision_text(d),
{
    match d {
        ReviewDecision::Approved => "command approved",
        ReviewDecision::ApprovedForSession => "command approved for session",
        ReviewDecision::ApprovedAndPersisted => "command approved and saved as a rule",
        ReviewDecision::Denied => "command denied",
    }
}

/// How a screen was left.
#[derive(Debug)]
pub enum ScreenOutcome {
    /// What was set is to be kept, and how keeping it went.
    Saved { result: Result<(), String> },
    Cancelled,
}

/// What is said when a screen is left.
#[verifier::opaque]
pub open spec fn screen_notice(overlay: Overlay, outcome: ScreenOutcome) -> (Seq<char>, SysKind) {
    let environment = overlay == Overlay::Environment;
    match outcome {
        ScreenOutcome::Saved { result } => if environment {
            ("environment saved to environment.toml"@, SysKind::Info)
        } else {
            match result {
                Ok(_) => (
                    "configuration saved to config.toml — restart to apply"@,
                    SysKind::Info,
                ),
                Err(e) => ("config save failed: "@ + e@, SysKind::Error),
            }
        },
        ScreenOutcome::Cancelled => if environment {
            ("environment unchanged"@, SysKind::Info)
        } else {
            ("config unchanged"@, SysKind::Info)
        },
    }
}

/// What is said when a screen is left.
fn leaving_line(overlay: Overlay, outcome: ScreenOutcome) -> (r: (String, SysKind))
    ensures
        (r.0@, r.1) == screen_notice(overlay, outcome),
{
    reveal(screen_notice);
    let environment = overlay == Overlay::Environment;
    match outcome {
        ScreenOutcome::Saved { result } => {
            if environment {
                return ("environment saved to environment.toml".to_string(), SysKind::Info);
            }
            match result {
                Ok(_) => (
                    "configuration saved to config.toml — restart to apply".to_string(),
                    SysKind::Info,
                ),
                Err(e) => {
                    let mut line = "config save failed: ".to_string();
                    line.push_str(&e);
                    (line, SysKind::Error)
                },
            }
        },
        ScreenOutcome::Cancelled => {
            if environment {
                ("environment unchanged".to_string(), SysKind::Info)
            } else {
                ("config unchanged".to_string(), SysKind::Info)
            }
        },
    }
}

impl Tui {
    /// Decides about the first command that waits.
    pub fn handle_approval_key(&mut self, code: KeyCode)
        requires
            old(self)@.wf(),
        ensures
            final(self)@ == approval_pressed(old(self)@, code),
            final(self)@.wf(),
    {
        reveal(approval_pressed);
        if let Some(d) = decide(code) {
            if self.prompts.approvals.len() == 0 {
                return ;
            }
            let ghost all = self@.prompts.approvals;
            assert(all[0] == self.prompts.approvals@[0]@);
            let first = self.prompts.approvals.remove(0);
            assert(app_state::approval_views(self.prompts.approvals@) =~= all.skip(1));
            self.ask(Effect::ResolveApproval { call_id: first.call_id, decision: d });
            self.system(decision_line(d), SysKind::Info);
        }
    }

    /// Leaves the open screen.
    pub fn close_screen(&mut self, outcome: ScreenOutcome)
        requires
            old(self)@.wf(),
        ensures
            final(self)@ == (match old(self)@.screen.overlay {
                None => old(self)@,
                Some(overlay) => app_state::with_screen(
                    app_state::said(
                        old(self)@,
                        screen_notice(overlay, outcome).0,
                        screen_notice(overlay, outcome).1,
                    ),
                    Screen { overlay: None, ..old(self)@.screen },
                ),
            }),
            final(self)@.wf(),
    {
        if let Some(overlay) = self.screen.overlay {
            let (line, kind) = leaving_line(overlay, outcome);
            self.system(&line, kind);
            self.screen = Screen { overlay: None, ..self.screen };
        }
    }

    /// Closes the pager.
    pub fn close_pager(&mut self)
        requires
            old(self)@.wf(),
        ensures
            final(self)@ == app_state::with_screen(
                old(self)@,
                Screen { pager: false, ..old(self)@.screen },
            ),
            final(self)@.wf(),
    {
        self.screen = Screen { pager: false, ..self.screen };
    }
}

// ---------------------------------------------------------------------------
// Doing what a key means
// ---------------------------------------------------------------------------

/// A scroll position further up.
pub open spec fn scrolled_up(s: Screen, rows: int) -> Screen {
    Screen {
        scroll: if s.scroll + rows > usize::MAX {
            usize::MAX
        } else {
            (s.scroll + rows) as usize
        },
        ..s
    }
}

/// A scroll position further down.
pub open spec fn scrolled_down(s: Screen, rows: int) -> Screen {
    Screen {
        scroll: if s.scroll < rows {
            0
        } else {
            (s.scroll - rows) as usize
        },
        ..s
    }
}

/// The scroll position further up or down.
fn scroll_screen(s: Screen, up: bool, rows: usize) -> (r: Screen)
    ensures
        r == (if up {
            scrolled_up(s, rows as int)
        } else {
            scrolled_down(s, rows as int)
        }),
{
    let scroll: usize = if up {
        if s.scroll > usize::MAX - rows {
            usize::MAX
        } else {
            s.scroll + rows
        }
    } else if s.scroll < rows {
        0
    } else {
        s.scroll - rows
    };
    Screen { scroll, ..s }
}

/// What is done to the composer alone.
#[verifier::opaque]
pub open spec fn composer_done(c: ComposerView, a: KeyAction, key: KeyEvent) -> ComposerView {
    match a {
        KeyAction::HistorySearch => chat_composer::after_search_key(c, key).0,
        KeyAction::MoveSlash { forward } => completion::with_popups(
            c,
            popup_state::slash_moved(c.popups, forward),
        ),
        KeyAction::AcceptSlash => completion::slash_accepted(c),
        KeyAction::DismissSlash => completion::slash_dismissed(c),
        KeyAction::MoveMention { forward } => completion::with_popups(
            c,
            popup_state::mention_moved(c.popups, forward),
        ),
        KeyAction::AcceptMention => completion::mention_accepted(c),
        KeyAction::DismissMention => completion::mention_dismissed(c),
        KeyAction::ToggleShortcuts => ComposerView {
            shortcuts_visible: !c.shortcuts_visible,
            ..c
        },
        KeyAction::Edit { key } => edited(c, key),
        _ => c,
    }
}

/// Does what concerns the composer alone.
fn do_in_composer(c: &mut ChatComposer, a: KeyAction, key: KeyEvent)
    requires
        old(c)@.wf(),
    ensures
        final(c)@ == composer_done(old(c)@, a, key),
        final(c)@.wf(),
{
    reveal(composer_done);
    match a {
        KeyAction::HistorySearch => {
            let _ = c.handle_history_search_key(key);
        },
        KeyAction::MoveSlash { forward } => c.move_slash(forward),
        KeyAction::AcceptSlash => c.accept_slash(),
        KeyAction::DismissSlash => c.dismiss_slash(),
        KeyAction::MoveMention { forward } => c.move_mention(forward),
        KeyAction::AcceptMention => c.accept_mention(),
        KeyAction::DismissMention => c.dismiss_mention(),
        KeyAction::ToggleShortcuts => c.toggle_shortcuts(),
        KeyAction::Edit { key } => edit(c, key),
        _ => {},
    }
}

/// Whether an action concerns the composer alone.
pub open spec fn in_composer(a: KeyAction) -> bool {
    match a {
        KeyAction::HistorySearch => true,
        KeyAction::MoveSlash { .. } => true,
        KeyAction::AcceptSlash => true,
        KeyAction::DismissSlash => true,
        KeyAction::MoveMention { .. } => true,
        KeyAction::AcceptMention => true,
        KeyAction::DismissMention => true,
        KeyAction::ToggleShortcuts => true,
        KeyAction::Edit { .. } => true,
        _ => false,
    }
}

/// What is done to the screen alone.
pub open spec fn screen_done(s: Screen, a: KeyAction) -> Screen {
    match a {
        KeyAction::ClosePicker => Screen { agent_picker: None, ..s },
        KeyAction::MovePicker { forward } => match s.agent_picker {
            Some(i) => Screen {
                agent_picker: Some(
                    popup_state::stepped(i as int, AGENT_COUNT as int, forward) as usize,
                ),
                ..s
            },
            None => s,
        },
        KeyAction::ToggleRaw => Screen { raw_output: !s.raw_output, ..s },
        KeyAction::Page { up } => if up {
            scrolled_up(s, 10)
        } else {
            scrolled_down(s, 10)
        },
        _ => s,
    }
}

/// Does what concerns the screen alone.
fn do_on_screen(s: Screen, a: KeyAction) -> (r: Screen)
    requires
        s.agent_picker matches Some(i) ==> i < AGENT_COUNT,
    ensures
        r == screen_done(s, a),
        r.agent_picker matches Some(i) ==> i < AGENT_COUNT,
{
    match a {
        KeyAction::ClosePicker => Screen { agent_picker: None, ..s },
        KeyAction::MovePicker { forward } => match s.agent_picker {
            Some(i) => {
                let k: usize = popup_state::step(i, AGENT_COUNT, forward);
                Screen { agent_picker: Some(k), ..s }
            },
            None => s,
        },
        KeyAction::ToggleRaw => Screen { raw_output: !s.raw_output, ..s },
        KeyAction::Page { up } => scroll_screen(s, up, 10),
        _ => s,
    }
}

/// The state with an agent chosen and the picker closed.
#[verifier::opaque]
pub open spec fn agent_chosen(v: TuiView, index: int) -> TuiView {
    let w = app_input::focused_on(v, agent::agent_at(index));
    app_state::with_screen(w, Screen { agent_picker: None, ..w.screen })
}

/// The state after enter on a marked command: it is run, or without one the draft is
/// sent.
#[verifier::opaque]
pub open spec fn slash_entered(v: TuiView) -> TuiView {
    if completion::marked_command(v.editor.composer.popups) is Some {
        app_input::slash_run(v)
    } else {
        app_input::submitted(app_input::slash_run(v))
    }
}

/// The state after enter: a new line while a paste may be under way, else the draft
/// is sent.
#[verifier::opaque]
pub open spec fn entered(v: TuiView, now: u64) -> TuiView {
    if paste_burst::enter_is_newline(v.editor.burst, now) {
        app_state::with_editor(v, editor::enter_broken(v.editor, now))
    } else {
        app_input::submitted(v)
    }
}

/// The state after the focused agent was told to stop: what waits for it is in the
/// draft again.
#[verifier::opaque]
pub open spec fn interrupted(v: TuiView) -> TuiView {
    app_state::asking(
        app_input::requeued_to_draft(v, v.focused),
        EffectView::Interrupt { agent: v.focused },
    )
}

/// What control-C does, and whether the application goes on: it clears the draft,
/// takes back the last message, stops the agent, or ends the application.
#[verifier::opaque]
pub open spec fn control_c(v: TuiView) -> (TuiView, bool) {
    if v.editor.composer.draft.text.len() > 0 {
        (
            app_input::with_composer(v, chat_composer::emptied(v.editor.composer)),
            true,
        )
    } else if app_input::retractable(v, v.focused) is Some {
        (
            app_state::asking(
                app_input::retracted(v, v.focused),
                EffectView::InterruptAndRetract { agent: v.focused },
            ),
            true,
        )
    } else if agent::is_running(v.desk.statuses[agent::index_of(v.focused)]) {
        (interrupted(v), true)
    } else {
        (v, false)
    }
}

/// What control-D does, and whether the application goes on.
#[verifier::opaque]
pub open spec fn control_d(v: TuiView) -> (TuiView, bool) {
    if v.editor.composer.draft.text.len() == 0 {
        (v, false)
    } else {
        (
            app_input::with_composer(v, next_deleted(v.editor.composer)),
            true,
        )
    }
}

/// The state after the up or the down key.
#[verifier::opaque]
pub open spec fn arrow_pressed(v: TuiView, up: bool) -> TuiView {
    let (c, done) = if up {
        up_pressed(v.editor.composer)
    } else {
        down_pressed(v.editor.composer)
    };
    let w = app_input::with_composer(v, c);
    if done {
        w
    } else {
        app_state::with_screen(
            w,
            if up {
                scrolled_up(w.screen, 1)
            } else {
                scrolled_down(w.screen, 1)
            },
        )
    }
}

/// The state after escape: a popup is closed, or the focused agent is stopped.
#[verifier::opaque]
pub open spec fn escaped(v: TuiView) -> TuiView {
    let c = v.editor.composer;
    if c.popups.slash() is Some {
        app_input::with_composer(v, completion::with_popups(c, c.popups.without_slash()))
    } else if c.popups.mention() is Some {
        app_input::with_composer(v, completion::with_popups(c, c.popups.without_mention()))
    } else {
        interrupted(v)
    }
}

/// The state with work for others.
#[verifier::opaque]
pub open spec fn handed_on(v: TuiView, e: EffectView) -> TuiView {
    app_state::asking(v, e)
}

/// The state with the composer changed.
#[verifier::opaque]
pub open spec fn composed(v: TuiView, a: KeyAction, key: KeyEvent) -> TuiView {
    app_input::with_composer(v, composer_done(v.editor.composer, a, key))
}

/// The state with the screen changed.
#[verifier::opaque]
pub open spec fn displayed(v: TuiView, a: KeyAction) -> TuiView {
    app_state::with_screen(v, screen_done(v.screen, a))
}

/// The state with a line begun in the draft.
#[verifier::opaque]
pub open spec fn broken(v: TuiView, now: u64) -> TuiView {
    app_state::with_editor(v, editor::line_broken(v.editor, now))
}

/// The state with a character typed.
#[verifier::opaque]
pub open spec fn char_typed(v: TuiView, c: char, now: u64) -> TuiView {
    app_state::with_editor(v, editor::typed(v.editor, c, now))
}

/// The marked agent.
pub open spec fn picked(s: Screen) -> int {
    match s.agent_picker {
        Some(i) => i as int,
        None => 0,
    }
}

/// What an action does, and whether the application goes on.
pub open spec fn acted(v: TuiView, a: KeyAction, key: KeyEvent, now: u64) -> (TuiView, bool) {
    match a {
        KeyAction::CopyResponse => (app_input::copying(v), true),
        KeyAction::CopyLast => (app_input::copying(v), true),
        KeyAction::Pager => (handed_on(v, EffectView::PagerKey { key }), true),
        KeyAction::Approval => (approval_pressed(v, key.code), true),
        KeyAction::UserInput => (handed_on(v, EffectView::UserInputKey { key }), true),
        KeyAction::Overlay => (handed_on(v, EffectView::OverlayKey { key }), true),
        KeyAction::RunSlash => (slash_entered(v), true),
        KeyAction::AcceptPicker => (agent_chosen(v, picked(v.screen)), true),
        KeyAction::ChooseAgent { index } => (agent_chosen(v, index as int), true),
        KeyAction::EditQueued => (app_input::reedited(v), true),
        KeyAction::BreakLine => (broken(v, now), true),
        KeyAction::Enter => (entered(v, now), true),
        KeyAction::CycleAgent { forward } => (
            app_input::focused_on(v, app_input::neighbour(v.focused, forward)),
            true,
        ),
        KeyAction::Interrupt => control_c(v),
        KeyAction::DeleteOrQuit => control_d(v),
        KeyAction::OpenPager => (app_input::paging(v), true),
        KeyAction::ClearScreen => (app_command::cleared(v), true),
        KeyAction::Up => (arrow_pressed(v, true), true),
        KeyAction::Down => (arrow_pressed(v, false), true),
        KeyAction::Escape => (escaped(v), true),
        KeyAction::Plain { ch } => (char_typed(v, ch, now), true),
        KeyAction::Swallow => (v, true),
        KeyAction::Nothing => (v, true),
        _ => if in_composer(a) {
            (composed(v, a, key), true)
        } else {
            (displayed(v, a), true)
        },
    }
}

/// Whether a key keeps the scroll position.
pub open spec fn keeps_scroll(code: KeyCode) -> bool {
    code == KeyCode::Up || code == KeyCode::Down || code == KeyCode::PageUp || code
        == KeyCode::PageDown
}

/// What follows most keys: the scroll position goes back to the end, and the popups
/// follow the draft.
#[verifier::opaque]
pub open spec fn settled(v: TuiView, code: KeyCode) -> TuiView {
    let w = if keeps_scroll(code) {
        v
    } else {
        app_state::with_screen(v, Screen { scroll: 0, ..v.screen })
    };
    app_input::recomputed(w)
}

impl Tui {
    /// Chooses an agent and closes the picker.
    fn choose_agent(&mut self, index: usize)
        requires
            old(self)@.wf(),
            index < AGENT_COUNT,
        ensures
            final(self)@ == agent_chosen(old(self)@, index as int),
            final(self)@.wf(),
    {
        reveal(agent_chosen);
        self.focus_agent(AgentType::at(index));
        self.screen = Screen { agent_picker: None, ..self.screen };
    }

    /// Takes enter on a marked command.
    fn enter_slash(&mut self)
        requires
            old(self)@.wf(),
        ensures
            final(self)@ == slash_entered(old(self)@),
            final(self)@.wf(),
    {
        reveal(slash_entered);
        if !self.run_selected_slash() {
            self.submit();
        }
    }

    /// Takes enter.
    fn enter(&mut self, now: u64)
        requires
            old(self)@.wf(),
        ensures
            final(self)@ == entered(old(self)@, now),
            final(self)@.wf(),
    {
        reveal(entered);
        if self.editor.paste_burst.newline_should_insert_instead_of_submit(now) {
            self.editor.break_line_for_paste(now);
        } else {
            self.submit();
        }
    }

    /// Tells the focused agent to stop.
    fn interrupt(&mut self)
        requires
            old(self)@.wf(),
        ensures
            final(self)@ == interrupted(old(self)@),
            final(self)@.wf(),
    {
        reveal(interrupted);
        let who = self.focused;
        self.restore_queued_inputs_after_interrupt(who);
        self.ask(Effect::Interrupt { agent: who });
    }

    /// Takes control-C. Tells whether the application goes on.
    fn press_control_c(&mut self) -> (r: bool)
        requires
            old(self)@.wf(),
        ensures
            (final(self)@, r) == control_c(old(self)@),
            final(self)@.wf(),
    {
        reveal(control_c);
        if self.editor.composer.draft.text.len() > 0 {
            let _ = self.editor.composer.clear_for_ctrl_c();
            return true;
        }
        let who = self.focused;
        if self.retract_pending_submission(who) {
            self.ask(Effect::InterruptAndRetract { agent: who });
            return true;
        }
        proof {
            reveal(app_input::retracted);
        }
        if self.desk.statuses[who.index()].running() {
            self.interrupt();
            return true;
        }
        false
    }

    /// Takes control-D. Tells whether the application goes on.
    fn press_control_d(&mut self) -> (r: bool)
        requires
            old(self)@.wf(),
        ensures
            (final(self)@, r) == control_d(old(self)@),
            final(self)@.wf(),
    {
        reveal(control_d);
        if self.editor.composer.draft.text.len() == 0 {
            return false;
        }
        self.editor.composer.delete_next();
        true
    }

    /// Takes the up or the down key.
    fn press_arrow(&mut self, up: bool)
        requires
            old(self)@.wf(),
        ensures
            final(self)@ == arrow_pressed(old(self)@, up),
            final(self)@.wf(),
    {
        reveal(arrow_pressed);
        let done = if up {
            press_up(&mut self.editor.composer)
        } else {
            press_down(&mut self.editor.composer)
        };
        if !done {
            self.screen = scroll_screen(self.screen, up, 1);
        }
    }

    /// Takes escape.
    fn press_escape(&mut self)
        requires
            old(self)@.wf(),
        ensures
            final(self)@ == escaped(old(self)@),
            final(self)@.wf(),
    {
        reveal(escaped);
        if self.editor.composer.slash_popup().is_some() {
            self.editor.composer.close_slash();
        } else if self.editor.composer.mention_popup().is_some() {
            self.editor.composer.close_mention();
        } else {
            self.interrupt();
        }
    }

    /// Has work done outside.
    fn hand_on(&mut self, effect: Effect)
        requires
            old(self)@.wf(),
        ensures
            final(self)@ == handed_on(old(self)@, effect@),
            final(self)@.wf(),
    {
        reveal(handed_on);
        self.ask(effect);
    }

    /// Changes the composer.
    fn compose(&mut self, a: KeyAction, key: KeyEvent)
        requires
            old(self)@.wf(),
        ensures
            final(self)@ == composed(old(self)@, a, key),
            final(self)@.wf(),
    {
        reveal(composed);
        do_in_composer(&mut self.editor.composer, a, key);
    }

    /// Changes the screen.
    fn display(&mut self, a: KeyAction)
        requires
            old(self)@.wf(),
        ensures
            final(self)@ == displayed(old(self)@, a),
            final(self)@.wf(),
    {
        reveal(displayed);
        self.screen = do_on_screen(self.screen, a);
    }

    /// Begins a line in the draft.
    fn break_line(&mut self, now: u64)
        requires
            old(self)@.wf(),
        ensures
            final(self)@ == broken(old(self)@, now),
            final(self)@.wf(),
    {
        reveal(broken);
        self.editor.break_line(now);
    }

    /// Types a character.
    fn type_char(&mut self, c: char, now: u64)
        requires
            old(self)@.wf(),
        ensures
            final(self)@ == char_typed(old(self)@, c, now),
            final(self)@.wf(),
    {
        reveal(char_typed);
        self.editor.insert_plain_char(c, now);
    }

    /// Does what a key means. Tells whether the application goes on.
    fn act(&mut self, a: KeyAction, key: KeyEvent, now: u64) -> (r: bool)
        requires
            old(self)@.wf(),
            a matches KeyAction::ChooseAgent { index } ==> index < AGENT_COUNT,
        ensures
            (final(self)@, r) == acted(old(self)@, a, key, now),
            final(self)@.wf(),
    {
        match a {
            KeyAction::CopyResponse => self.copy_last_response(),
            KeyAction::CopyLast => self.copy_last_response(),
            KeyAction::Pager => self.hand_on(Effect::PagerKey { key }),
            KeyAction::Approval => self.handle_approval_key(key.code),
            KeyAction::UserInput => self.hand_on(Effect::UserInputKey { key }),
            KeyAction::Overlay => self.hand_on(Effect::OverlayKey { key }),
            KeyAction::RunSlash => self.enter_slash(),
            KeyAction::AcceptPicker => {
                let index: usize = match self.screen.agent_picker {
                    Some(i) => i,
                    None => 0,
                };
                self.choose_agent(index);
            },
            KeyAction::ChooseAgent { index } => self.choose_agent(index),
            KeyAction::EditQueued => {
                let _ = self.edit_last_queued_input();
            },
            KeyAction::BreakLine => self.break_line(now),
            KeyAction::Enter => self.enter(now),
            KeyAction::CycleAgent { forward } => self.cycle_agent(forward),
            KeyAction::Interrupt => {
                return self.press_control_c();
            },
            KeyAction::DeleteOrQuit => {
                return self.press_control_d();
            },
            KeyAction::OpenPager => self.open_pager(),
            KeyAction::ClearScreen => self.clear_terminal_ui(),
            KeyAction::Up => self.press_arrow(true),
            KeyAction::Down => self.press_arrow(false),
            KeyAction::Escape => self.press_escape(),
            KeyAction::Plain { ch } => self.type_char(ch, now),
            KeyAction::Swallow | KeyAction::Nothing => {},
            KeyAction::ClosePicker | KeyAction::MovePicker { .. } | KeyAction::ToggleRaw
            | KeyAction::Page { .. } => self.display(a),
            _ => self.compose(a, key),
        }
        true
    }

    /// Brings the scroll position and the popups in line with the draft.
    fn settle(&mut self, code: KeyCode)
        requires
            old(self)@.wf(),
        ensures
            final(self)@ == settled(old(self)@, code),
            final(self)@.wf(),
    {
        reveal(settled);
        if !(code == KeyCode::Up || code == KeyCode::Down || code == KeyCode::PageUp || code
            == KeyCode::PageDown) {
            self.screen = Screen { scroll: 0, ..self.screen };
        }
        self.recompute_popups();
    }
}

// ---------------------------------------------------------------------------
// Events
// ---------------------------------------------------------------------------

/// Whether a key is a plain character.
pub open spec fn is_plain(key: KeyEvent) -> bool {
    key.code is Char && key.modifiers.at_most_shift()
}

/// Whether a key may begin a line.
pub open spec fn is_newline(key: KeyEvent) -> bool {
    let m = key.modifiers;
    match key.code {
        KeyCode::Enter => !m.control && !m.other && !(m.shift && m.alt),
        KeyCode::Char(c) => m.control && (c == 'j' || c == 'm'),
        _ => false,
    }
}

/// The draft before a key is looked at: what was withheld comes out where it is due,
/// or where the key neither types nor begins a line.
#[verifier::opaque]
pub open spec fn readied(e: EditorView, key: KeyEvent, now: u64) -> EditorView {
    let p = editor::paused(e, now);
    if is_plain(key) || is_newline(key) {
        p
    } else {
        editor::flushed(p)
    }
}

/// What is open in a state.
pub open spec fn situation_of(v: TuiView) -> Situation {
    Situation {
        pager: v.screen.pager,
        searching: v.editor.composer.search is Some,
        approvals: v.prompts.approvals.len() > 0,
        inputs: v.prompts.inputs.len() > 0,
        overlay: v.screen.overlay is Some,
        slash: v.editor.composer.popups.slash() is Some,
        mention: v.editor.composer.popups.mention() is Some,
        picker: v.screen.agent_picker is Some,
        draft_empty: v.editor.composer.draft.text.len() == 0,
    }
}

/// What a key does, and whether the application goes on.
pub open spec fn after_key(v: TuiView, key: KeyEvent, now: u64) -> (TuiView, bool) {
    if key.kind == KeyKind::Release {
        (v, true)
    } else {
        let w = app_state::with_editor(v, readied(v.editor, key, now));
        let a = routed(situation_of(w), key);
        let (x, goes_on) = acted(w, a, key, now);
        if is_final(a) || !goes_on {
            (x, goes_on)
        } else {
            let y = settled(x, key.code);
            (y, !y.screen.exit_requested)
        }
    }
}

/// What scrolling does: it moves the pager or the transcript.
pub open spec fn after_scroll(v: TuiView, up: bool) -> TuiView {
    if v.screen.pager {
        app_state::asking(v, EffectView::PagerScroll { up, rows: 3 })
    } else if up {
        app_state::with_screen(v, scrolled_up(v.screen, 3))
    } else {
        app_state::with_screen(v, scrolled_down(v.screen, 3))
    }
}

/// What pasting does: text goes to the question that is asked, or into the draft.
/// Carriage returns become line feeds.
pub open spec fn after_paste(v: TuiView, s: Seq<char>) -> TuiView {
    let t = text::replaced(s, '\r', '\n');
    if v.prompts.inputs.len() > 0 {
        app_state::asking(v, EffectView::UserInputText { text: t })
    } else if !v.screen.pager && v.prompts.approvals.len() == 0 && v.screen.overlay is None {
        app_input::recomputed(app_state::with_editor(v, editor::pasted(v.editor, t)))
    } else {
        v
    }
}

/// What an event does, and whether the application goes on.
pub open spec fn after_event(v: TuiView, ev: Event, now: u64) -> (TuiView, bool) {
    match ev {
        Event::FocusGained => (app_state::asking(v, EffectView::RequeryColors), true),
        Event::Scroll { up } => (after_scroll(v, up), true),
        Event::Paste { text } => (after_paste(v, text@), true),
        Event::Key { key } => after_key(v, key, now),
        Event::Other => (v, true),
    }
}

/// Lets go what was withheld before a key is looked at.
fn ready(e: &mut editor::Editor, key: KeyEvent, now: u64)
    requires
        old(e)@.wf(),
    ensures
        final(e)@ == readied(old(e)@, key, now),
        final(e)@.wf(),
{
    reveal(readied);
    e.flush_paste_burst_if_due(now);
    let m = key.modifiers;
    let plain = match key.code {
        KeyCode::Char(_) => m.is_at_most_shift(),
        _ => false,
    };
    let newline = match key.code {
        KeyCode::Enter => !m.control && !m.other && !(m.shift && m.alt),
        KeyCode::Char(c) => m.control && (c == 'j' || c == 'm'),
        _ => false,
    };
    if !plain && !newline {
        e.flush_paste_burst_before_modified_input();
    }
}

impl Tui {
    /// What is open.
    fn situation(&self) -> (r: Situation)
        ensures
            r == situation_of(self@),
    {
        let c = &self.editor.composer;
        assert(app_state::approval_views(self.prompts.approvals@).len()
            == self.prompts.approvals@.len());
        Situation {
            pager: self.screen.pager,
            searching: c.history_search_active(),
            approvals: self.prompts.approvals.len() > 0,
            inputs: self.prompts.inputs.len() > 0,
            overlay: self.screen.overlay.is_some(),
            slash: c.slash_popup().is_some(),
            mention: c.mention_popup().is_some(),
            picker: self.screen.agent_picker.is_some(),
            draft_empty: c.draft.text.len() == 0,
        }
    }

    /// Takes a key. Tells whether the application goes on.
    pub fn handle_key(&mut self, key: KeyEvent, now: u64) -> (r: bool)
        requires
            old(self)@.wf(),
        ensures
            (final(self)@, r) == after_key(old(self)@, key, now),
            final(self)@.wf(),
    {
        if key.kind == KeyKind::Release {
            return true;
        }
        ready(&mut self.editor, key, now);
        let a = route_key(self.situation(), key);
        if !self.act(a, key, now) {
            return false;
        }
        if ends_event(a) {
            return true;
        }
        self.settle(key.code);
        !self.screen.exit_requested
    }

    /// Takes pasted text.
    fn take_paste(&mut self, s: &str)
        requires
            old(self)@.wf(),
        ensures
            final(self)@ == after_paste(old(self)@, s@),
            final(self)@.wf(),
    {
        let t = text::replace_char(s, '\r', '\n');
        if self.prompts.inputs.len() > 0 {
            self.ask(Effect::UserInputText { text: t });
        } else if !self.screen.pager && self.prompts.approvals.len() == 0
            && self.screen.overlay.is_none() {
            self.editor.paste(&t);
            self.recompute_popups();
        }
    }

    /// Takes an event of the terminal. Tells whether the application goes on.
    pub fn handle_event(&mut self, ev: Event, now: u64) -> (r: bool)
        requires
            old(self)@.wf(),
        ensures
            (final(self)@, r) == after_event(old(self)@, ev, now),
            final(self)@.wf(),
    {
        match ev {
            Event::FocusGained => self.ask(Effect::RequeryColors),
            Event::Scroll { up } => {
                if self.screen.pager {
                    self.ask(Effect::PagerScroll { up, rows: 3 });
                } else {
                    self.screen = scroll_screen(self.screen, up, 3);
                }
            },
            Event::Paste { text } => self.take_paste(&text),
            Event::Key { key } => {
                return self.handle_key(key, now);
            },
            Event::Other => {},
        }
        true
    }
}

// ---------------------------------------------------------------------------
// Laws
// ---------------------------------------------------------------------------

/// A key that is released does nothing.
pub proof fn law_releases_do_nothing(v: TuiView, key: KeyEvent, now: u64)
    requires
        key.kind == KeyKind::Release,
    ensures
        after_key(v, key, now) == (v, true),
{
}

/// While a command waits for approval, and neither the pager nor a search is open,
/// every key goes to the approval.
pub proof fn law_approvals_take_all_keys(s: Situation, key: KeyEvent)
    requires
        s.approvals,
        !s.pager,
        !s.searching,
    ensures
        routed(s, key) == KeyAction::Approval,
{
}

/// A command is never approved by a key that does not stand for it: only enter, `y`,
/// `a` and `p` approve.
pub proof fn law_only_four_keys_approve(code: KeyCode)
    requires
        code != KeyCode::Enter,
        code != KeyCode::Char('y'),
        code != KeyCode::Char('Y'),
        code != KeyCode::Char('a'),
        code != KeyCode::Char('A'),
        code != KeyCode::Char('p'),
        code != KeyCode::Char('P'),
    ensures
        decision_of(code) is None || decision_of(code) == Some(ReviewDecision::Denied),
{
}

/// A plain character in a draft that is not empty, with nothing else open, is typed.
pub proof fn law_plain_characters_are_typed(s: Situation, c: char, m: Modifiers, kind: KeyKind)
    requires
        !s.pager && !s.searching && !s.approvals && !s.inputs && !s.overlay && !s.picker,
        !s.draft_empty,
        m.at_most_shift(),
    ensures
        routed(s, KeyEvent { code: KeyCode::Char(c), modifiers: m, kind }) == (KeyAction::Plain {
            ch: c,
        }),
{
}

/// A key that decides settles the first command that waits: enter and `y` approve it, `a` for
/// the session, `p` for good, escape, `d`, `c` and `n` deny it, in either case of the letter.
/// The decision is handed on for the call of that command, it waits no more, and the others wait
/// on. Any other key decides nothing.
pub proof fn law_keys_decide_the_first_command(v: TuiView, key: KeyEvent, now: u64)
    requires
        v.prompts.approvals.len() > 0,
    ensures
        ({
            let c = key.code;
            let yes = c == KeyCode::Enter || c == KeyCode::Char('y') || c == KeyCode::Char('Y');
            let always = c == KeyCode::Char('a') || c == KeyCode::Char('A');
            let saved = c == KeyCode::Char('p') || c == KeyCode::Char('P');
            let no = c == KeyCode::Esc || c == KeyCode::Char('d') || c == KeyCode::Char('D') || c
                == KeyCode::Char('c') || c == KeyCode::Char('C') || c == KeyCode::Char('n') || c
                == KeyCode::Char('N');
            let (after, goes_on) = acted(v, KeyAction::Approval, key, now);
            let settles = |d: ReviewDecision, s: Seq<char>|
                {
                    &&& after.prompts.approvals == v.prompts.approvals.skip(1)
                    &&& after.desk.outbox == v.desk.outbox.push(
                        EffectView::ResolveApproval {
                            call_id: v.prompts.approvals[0].call_id,
                            decision: d,
                        },
                    )
                    &&& after.desk.history == v.desk.history.push(
                        CellView::System { text: s, kind: SysKind::Info },
                    )
                };
            &&& goes_on
            &&& yes ==> settles(ReviewDecision::Approved, "command approved"@)
            &&& always ==> settles(
                ReviewDecision::ApprovedForSession,
                "command approved for session"@,
            )
            &&& saved ==> settles(
                ReviewDecision::ApprovedAndPersisted,
                "command approved and saved as a rule"@,
            )
            &&& no ==> settles(ReviewDecision::Denied, "command denied"@)
            &&& !yes && !always && !saved && !no ==> after == v
        }),
{
    reveal(approval_pressed);
}

/// What is open in front takes the keys: the pager before all, then a search, then commands
/// that wait for approval, then questions, then a screen.
pub proof fn law_front_takes_the_keys(s: Situation, key: KeyEvent)
    ensures
        s.pager ==> routed(s, key) == KeyAction::Pager || (key.code == KeyCode::Char('o')
            && key.modifiers.control && routed(s, key) == KeyAction::CopyResponse),
        !s.pager && s.searching ==> routed(s, key) == KeyAction::HistorySearch,
        !s.pager && !s.searching && !s.approvals && s.inputs ==> routed(s, key)
            == KeyAction::UserInput,
        !s.pager && !s.searching && !s.approvals && !s.inputs && s.overlay ==> routed(s, key)
            == KeyAction::Overlay,
{
}

/// Whether nothing but the composer is open.
pub open spec fn only_composer(s: Situation) -> bool {
    !s.pager && !s.searching && !s.approvals && !s.inputs && !s.overlay && !s.slash && !s.mention
        && !s.picker
}

/// A key with the control key, pressed in the composer.
pub open spec fn with_control(c: char) -> KeyEvent {
    KeyEvent {
        code: KeyCode::Char(c),
        modifiers: Modifiers { control: true, alt: false, shift: false, other: false },
        kind: KeyKind::Press,
    }
}

/// In the composer, control keys do what they do in a shell: they move the cursor, cut, bring
/// back what was cut, and walk and search the inputs; and they stop, leave, copy and page.
pub proof fn law_control_keys_edit_as_in_a_shell(s: Situation)
    requires
        only_composer(s),
    ensures
        routed(s, with_control('a')) == (KeyAction::Edit { key: EditKey::Home }),
        routed(s, with_control('e')) == (KeyAction::Edit { key: EditKey::End }),
        routed(s, with_control('b')) == (KeyAction::Edit { key: EditKey::Left }),
        routed(s, with_control('f')) == (KeyAction::Edit { key: EditKey::Right }),
        routed(s, with_control('h')) == (KeyAction::Edit { key: EditKey::DeletePrevious }),
        routed(s, with_control('w')) == (KeyAction::Edit { key: EditKey::DeleteWordPrevious }),
        routed(s, with_control('u')) == (KeyAction::Edit { key: EditKey::DeleteToHome }),
        routed(s, with_control('k')) == (KeyAction::Edit { key: EditKey::DeleteToEnd }),
        routed(s, with_control('y')) == (KeyAction::Edit { key: EditKey::Yank }),
        routed(s, with_control('p')) == (KeyAction::Edit { key: EditKey::PreviousLine }),
        routed(s, with_control('n')) == (KeyAction::Edit { key: EditKey::NextLine }),
        routed(s, with_control('r')) == (KeyAction::Edit { key: EditKey::Search }),
        routed(s, with_control('s')) == (KeyAction::Edit { key: EditKey::Search }),
        routed(s, with_control('j')) == KeyAction::BreakLine,
        routed(s, with_control('m')) == KeyAction::BreakLine,
        routed(s, with_control('c')) == KeyAction::Interrupt,
        routed(s, with_control('d')) == KeyAction::DeleteOrQuit,
        routed(s, with_control('o')) == KeyAction::CopyLast,
        routed(s, with_control('t')) == KeyAction::OpenPager,
        routed(s, with_control('l')) == KeyAction::ClearScreen,
{
}

/// A key without any other key held.
pub open spec fn alone(code: KeyCode) -> KeyEvent {
    KeyEvent {
        code,
        modifiers: Modifiers { control: false, alt: false, shift: false, other: false },
        kind: KeyKind::Press,
    }
}

/// In the composer, keys that are named for what they do, do it.
pub proof fn law_named_keys_do_what_they_say(s: Situation)
    requires
        only_composer(s),
    ensures
        routed(s, alone(KeyCode::Enter)) == KeyAction::Enter,
        routed(s, alone(KeyCode::Esc)) == KeyAction::Escape,
        routed(s, alone(KeyCode::Up)) == KeyAction::Up,
        routed(s, alone(KeyCode::Down)) == KeyAction::Down,
        routed(s, alone(KeyCode::Left)) == (KeyAction::Edit { key: EditKey::Left }),
        routed(s, alone(KeyCode::Right)) == (KeyAction::Edit { key: EditKey::Right }),
        routed(s, alone(KeyCode::Home)) == (KeyAction::Edit { key: EditKey::Home }),
        routed(s, alone(KeyCode::End)) == (KeyAction::Edit { key: EditKey::End }),
        routed(s, alone(KeyCode::Backspace)) == (KeyAction::Edit { key: EditKey::DeletePrevious }),
        routed(s, alone(KeyCode::Delete)) == (KeyAction::Edit { key: EditKey::DeleteNext }),
        routed(s, alone(KeyCode::PageUp)) == (KeyAction::Page { up: true }),
        routed(s, alone(KeyCode::PageDown)) == (KeyAction::Page { up: false }),
        routed(s, alone(KeyCode::Tab)) == (KeyAction::CycleAgent { forward: true }),
        routed(s, alone(KeyCode::BackTab)) == (KeyAction::CycleAgent { forward: false }),
        s.draft_empty ==> routed(s, alone(KeyCode::Char('?'))) == KeyAction::ToggleShortcuts,
{
}

/// The keys that remove text leave all other text as it is: before the cursor or behind it, one
/// character, a word, or what is left of the line.
pub proof fn law_deleting_keys_leave_the_rest(c: ComposerView)
    requires
        c.wf(),
    ensures
        ({
            let s = c.draft.text;
            let at = c.draft.cursor;
            &&& at > 0 ==> edited(c, EditKey::DeletePrevious).draft.text == s.take(at - 1) + s.skip(
                at,
            )
            &&& at > 0 ==> edited(c, EditKey::DeletePrevious).draft.cursor == at - 1
            &&& at == 0 ==> edited(c, EditKey::DeletePrevious).draft == c.draft
            &&& at < s.len() ==> edited(c, EditKey::DeleteNext).draft.text == s.take(at) + s.skip(
                at + 1,
            )
            &&& at < s.len() ==> edited(c, EditKey::DeleteNext).draft.cursor == at
            &&& at == s.len() ==> edited(c, EditKey::DeleteNext).draft == c.draft
        }),
{
    reveal(edited);
}

/// The keys that move the cursor leave the text as it is, and go one place to the left or to the
/// right, within the text.
pub proof fn law_moving_keys_keep_the_text(c: ComposerView)
    requires
        c.wf(),
    ensures
        ({
            let s = c.draft.text;
            let at = c.draft.cursor;
            &&& edited(c, EditKey::Left).draft.text == s
            &&& edited(c, EditKey::Right).draft.text == s
            &&& edited(c, EditKey::Home).draft.text == s
            &&& edited(c, EditKey::End).draft.text == s
            &&& edited(c, EditKey::WordLeft).draft.text == s
            &&& edited(c, EditKey::WordRight).draft.text == s
            &&& at > 0 ==> edited(c, EditKey::Left).draft.cursor == at - 1
            &&& at == 0 ==> edited(c, EditKey::Left).draft.cursor == 0
            &&& at < s.len() ==> edited(c, EditKey::Right).draft.cursor == at + 1
            &&& at == s.len() ==> edited(c, EditKey::Right).draft.cursor == at
        }),
{
    reveal(edited);
}

/// Control-C first clears what stands in the draft. With an empty draft it takes back the
/// message that can be taken back, and stops the agent; without one it stops the agent if that
/// runs; and else it ends the application.
pub proof fn law_control_c_goes_step_by_step(v: TuiView, key: KeyEvent, now: u64)
    requires
        v.wf(),
    ensures
        ({
            let (after, goes_on) = acted(v, KeyAction::Interrupt, key, now);
            let who = v.focused;
            let text = v.editor.composer.draft.text.len() > 0;
            let back = app_input::retractable(v, who) is Some;
            let runs = agent::is_running(v.desk.statuses[agent::index_of(who)]);
            &&& text ==> goes_on && after.desk == v.desk && after.screen == v.screen
                && after.editor.composer.draft.text.len() == 0
            &&& !text && back ==> goes_on && after.desk.outbox.len() > 0
                && after.desk.outbox.last() == (EffectView::InterruptAndRetract { agent: who })
                && after.desk.submissions.len() + 1 == v.desk.submissions.len()
            &&& !text && !back && runs ==> goes_on && after.desk.outbox == v.desk.outbox.push(
                EffectView::Interrupt { agent: who },
            ) && after.desk.queued[agent::index_of(who)].len() == 0
            &&& !text && !back && !runs ==> !goes_on && after == v
        }),
{
    reveal(control_c);
    reveal(interrupted);
    reveal(app_input::retracted);
    reveal(app_input::requeued_to_draft);
    desk::law_untouched_message_is_the_newest(v.desk.submissions, v.focused, 0);
}

/// Control-D in an empty draft ends the application; else it removes the character behind the
/// cursor and goes on.
pub proof fn law_control_d_leaves_an_empty_draft(v: TuiView, key: KeyEvent, now: u64)
    requires
        v.wf(),
    ensures
        ({
            let (after, goes_on) = acted(v, KeyAction::DeleteOrQuit, key, now);
            let d = v.editor.composer.draft;
            &&& goes_on <==> d.text.len() > 0
            &&& d.text.len() == 0 ==> after == v
            &&& d.cursor < d.text.len() ==> after.editor.composer.draft.text == d.text.take(
                d.cursor,
            ) + d.text.skip(d.cursor + 1)
            &&& after.desk == v.desk
        }),
{
    reveal(control_d);
}

/// Escape closes the popup that is open, and stops the focused agent where none is.
pub proof fn law_escape_closes_or_stops(v: TuiView, key: KeyEvent, now: u64)
    requires
        v.wf(),
    ensures
        ({
            let (after, goes_on) = acted(v, KeyAction::Escape, key, now);
            let p = v.editor.composer.popups;
            &&& goes_on
            &&& p.slash() is Some || p.mention() is Some ==> after.desk == v.desk
                && after.editor.composer.draft == v.editor.composer.draft
            &&& p.slash() is None && p.mention() is None ==> after.desk.outbox
                == v.desk.outbox.push(EffectView::Interrupt { agent: v.focused })
        }),
{
    reveal(escaped);
    reveal(interrupted);
    reveal(app_input::requeued_to_draft);
}

/// Enter sends the draft, unless a paste may be under way: then it begins a line.
pub proof fn law_enter_sends_the_draft(v: TuiView, key: KeyEvent, now: u64)
    ensures
        !paste_burst::enter_is_newline(v.editor.burst, now) ==> acted(
            v,
            KeyAction::Enter,
            key,
            now,
        ) == (app_input::submitted(v), true),
        paste_burst::enter_is_newline(v.editor.burst, now) ==> acted(
            v,
            KeyAction::Enter,
            key,
            now,
        ).0.desk == v.desk,
{
    reveal(entered);
}

/// The wheel moves the pager by three rows where it is open, and else the transcript: up is
/// further back, and down comes back by as much, but not beyond the end.
pub proof fn law_wheel_scrolls_by_three_rows(v: TuiView)
    ensures
        v.screen.pager ==> forall|up: bool|
            (#[trigger] after_scroll(v, up)).desk.outbox == v.desk.outbox.push(
                EffectView::PagerScroll { up, rows: 3 },
            ) && after_scroll(v, up).screen == v.screen,
        !v.screen.pager && v.screen.scroll <= usize::MAX - 3 ==> {
            &&& after_scroll(v, true).screen.scroll == v.screen.scroll + 3
            &&& after_scroll(v, true).desk == v.desk
            &&& after_scroll(after_scroll(v, true), false).screen.scroll == v.screen.scroll
        },
        !v.screen.pager && v.screen.scroll < 3 ==> after_scroll(v, false).screen.scroll == 0,
{
}

/// A digit in the agent picker chooses the agent at that place, and the picker is closed.
pub proof fn law_digits_choose_agents(v: TuiView, who: AgentType, c: char, key: KeyEvent, now: u64)
    requires
        c as int == '1' as int + agent::index_of(who),
        key == alone(KeyCode::Char(c)),
    ensures
        ({
            let a = picker_key(key);
            let after = acted(v, a, key, now).0;
            &&& after.focused == who
            &&& after.screen.agent_picker is None
            &&& after.desk == v.desk
            &&& after.editor.composer.draft == v.editor.composer.draft
        }),
{
    reveal(agent_chosen);
    app_input::law_focus_follows_the_choice(v, who);
}

} // verus!
