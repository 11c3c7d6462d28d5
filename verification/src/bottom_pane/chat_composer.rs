//! The composer: the draft of the next message, the inputs sent before, what was
//! last cut, the search through earlier inputs, and the completion popup.

use crate::bottom_pane::draft;
use crate::bottom_pane::draft::{Draft, DraftView};
use crate::bottom_pane::history_search;
use crate::bottom_pane::history_search::{
    HistorySearchSession, HistorySearchStatus, SearchKeyOutcome, SearchView, SessionView,
};
use crate::bottom_pane::popup_state;
use crate::bottom_pane::popup_state::{Mention, PopupState, PopupView, SlashCompletion};
use crate::bottom_pane::visual_lines;
use crate::keys::KeyEvent;
use crate::style::{Line, SpanView};
use crate::text;
use crate::width;
use vstd::prelude::*;

verus! {

/// The columns that rows are wrapped at before the first drawing.
pub const DEFAULT_INPUT_WIDTH: usize = 80;

/// The composer.
#[derive(Debug)]
pub struct ChatComposer {
    pub draft: Draft,
    pub focused_agent: String,
    pub status_line: Option<Line>,
    pub show_agent_picker: bool,
    pub shortcuts_visible: bool,
    pub history: Vec<String>,
    pub history_index: Option<usize>,
    pub draft_before_history: Option<String>,
    pub history_search: Option<HistorySearchSession>,
    pub killed_text: Option<String>,
    pub popups: PopupState,
    pub input_width: usize,
    pub preferred_column: Option<usize>,
}

/// The composer.
#[verifier::ext_equal]
pub struct ComposerView {
    pub draft: DraftView,
    pub focused_agent: Seq<char>,
    pub status_line: Option<Seq<SpanView>>,
    pub show_agent_picker: bool,
    pub shortcuts_visible: bool,
    pub history: Seq<Seq<char>>,
    pub history_index: Option<int>,
    pub draft_before_history: Option<Seq<char>>,
    pub search: Option<SessionView>,
    pub killed: Option<Seq<char>>,
    pub popups: PopupView,
    pub input_width: int,
    pub preferred_column: Option<int>,
}

/// What a search session holds.
pub open spec fn search_view(o: Option<HistorySearchSession>) -> Option<SessionView> {
    match o {
        Some(s) => Some(s@),
        None => None,
    }
}

/// What a line holds.
pub open spec fn opt_line(o: Option<Line>) -> Option<Seq<SpanView>> {
    match o {
        Some(l) => Some(l@),
        None => None,
    }
}

impl View for ChatComposer {
    type V = ComposerView;

    open spec fn view(&self) -> ComposerView {
        ComposerView {
            draft: self.draft@,
            focused_agent: self.focused_agent@,
            status_line: opt_line(self.status_line),
            show_agent_picker: self.show_agent_picker,
            shortcuts_visible: self.shortcuts_visible,
            history: text::views(self.history@),
            history_index: visual_lines::index_of(self.history_index),
            draft_before_history: text::opt_view(self.draft_before_history),
            search: search_view(self.history_search),
            killed: text::opt_view(self.killed_text),
            popups: self.popups@,
            input_width: self.input_width as int,
            preferred_column: visual_lines::index_of(self.preferred_column),
        }
    }
}

impl ComposerView {
    /// Whether the cursor stands in the draft, and the input that is recalled or
    /// found is one of the history.
    pub open spec fn wf(self) -> bool {
        &&& self.draft.wf()
        &&& self.history_index matches Some(i) ==> 0 <= i < self.history.len()
        &&& self.popups.wf()
        &&& self.search matches Some(s) ==> s.original.wf() && (s.match_index matches Some(i)
            ==> 0 <= i < self.history.len())
    }
}

// ---------------------------------------------------------------------------
// What the operations do
// ---------------------------------------------------------------------------

/// The composer of a new session.
pub open spec fn fresh(agent: Seq<char>) -> ComposerView {
    ComposerView {
        draft: DraftView { text: Seq::empty(), cursor: 0 },
        focused_agent: agent,
        status_line: None,
        show_agent_picker: true,
        shortcuts_visible: false,
        history: Seq::empty(),
        history_index: None,
        draft_before_history: None,
        search: None,
        killed: None,
        popups: popup_state::closed(),
        input_width: DEFAULT_INPUT_WIDTH as int,
        preferred_column: None,
    }
}

/// The composer away from its history: no input is recalled and no search is
/// open.
pub open spec fn off_history(v: ComposerView) -> ComposerView {
    ComposerView { history_index: None, draft_before_history: None, search: None, ..v }
}

/// The composer with another draft, which forgets the column that vertical
/// motions aim at.
pub open spec fn with_draft(v: ComposerView, d: DraftView) -> ComposerView {
    ComposerView { draft: d, preferred_column: None, ..v }
}

/// The composer with the cursor elsewhere.
pub open spec fn with_cursor(v: ComposerView, cursor: int) -> ComposerView {
    with_draft(v, DraftView { cursor, ..v.draft })
}

/// Text put in at the cursor.
pub open spec fn inserted(v: ComposerView, s: Seq<char>) -> ComposerView {
    with_draft(off_history(v), draft::with_inserted(v.draft, s))
}

/// A range that ends or begins at the cursor cut out and kept for pasting.
pub open spec fn cut(v: ComposerView, from: int, to: int) -> ComposerView {
    ComposerView {
        draft: draft::without_range(v.draft, from, to),
        killed: Some(v.draft.text.subrange(from, to)),
        ..off_history(v)
    }
}

/// The history with one more input, if that is not blank.
pub open spec fn kept(history: Seq<Seq<char>>, s: Seq<char>) -> Seq<Seq<char>> {
    if text::trimmed(s).len() == 0 {
        history
    } else {
        history.push(s)
    }
}

/// The history with one more input, if that is neither blank nor the latest one.
pub open spec fn recorded(history: Seq<Seq<char>>, s: Seq<char>) -> Seq<Seq<char>> {
    if history.len() > 0 && history.last() == s {
        history
    } else {
        kept(history, s)
    }
}

/// The composer without its draft.
pub open spec fn emptied(v: ComposerView) -> ComposerView {
    with_draft(off_history(v), DraftView { text: Seq::empty(), cursor: 0 })
}

/// The composer with an input of the history as its draft.
pub open spec fn recalling(v: ComposerView, i: int) -> ComposerView {
    ComposerView {
        history_index: Some(i),
        search: None,
        ..with_draft(v, history_search::recalled(v.history[i]))
    }
}

/// One step back in the history. The first step keeps the draft.
pub open spec fn stepped_back(v: ComposerView) -> ComposerView {
    if v.history.len() == 0 {
        v
    } else {
        match v.history_index {
            None => ComposerView {
                draft_before_history: Some(v.draft.text),
                ..recalling(v, v.history.len() - 1)
            },
            Some(i) => recalling(
                v,
                if i == 0 {
                    0
                } else {
                    i - 1
                },
            ),
        }
    }
}

/// One step forward in the history. Behind the latest input the draft is back.
pub open spec fn stepped_forward(v: ComposerView) -> ComposerView {
    match v.history_index {
        None => v,
        Some(i) => if i + 1 >= v.history.len() {
            let s = match v.draft_before_history {
                Some(s) => s,
                None => Seq::empty(),
            };
            ComposerView {
                history_index: None,
                draft_before_history: None,
                search: None,
                ..with_draft(v, history_search::recalled(s))
            }
        } else {
            recalling(v, i + 1)
        },
    }
}

/// The composer with a search opened.
pub open spec fn searching(v: ComposerView) -> ComposerView {
    if v.search is Some {
        v
    } else {
        ComposerView {
            history_index: None,
            draft_before_history: None,
            search: Some(history_search::opened(v.draft)),
            ..v
        }
    }
}

/// What a key does to an open search: accepting or leaving closes it.
pub open spec fn after_search_key(v: ComposerView, key: KeyEvent) -> (
    ComposerView,
    SearchKeyOutcome,
) {
    match v.search {
        None => (v, SearchKeyOutcome::Ignored),
        Some(s) => {
            let (next, outcome) = history_search::after_key(
                v.history,
                SearchView { session: s, draft: v.draft },
                key,
            );
            (
                ComposerView {
                    draft: next.draft,
                    search: if outcome == SearchKeyOutcome::Accept || outcome
                        == SearchKeyOutcome::Cancel {
                        None
                    } else {
                        Some(next.session)
                    },
                    ..v
                },
                outcome,
            )
        },
    }
}

/// The rows of the draft.
pub open spec fn draft_rows(v: ComposerView) -> Seq<(int, int)> {
    visual_lines::rows_of(v.draft.text, v.input_width)
}

/// The row of the cursor.
pub open spec fn draft_row(v: ComposerView) -> Option<int> {
    visual_lines::cursor_row_from(draft_rows(v), 0, v.draft.cursor)
}

/// The column that a vertical motion aims at.
pub open spec fn aim(v: ComposerView, row: int) -> int {
    match v.preferred_column {
        Some(c) => c,
        None => width::display_width(
            v.draft.text.subrange(draft_rows(v)[row].0, v.draft.cursor),
        ) as int,
    }
}

/// The composer with the cursor moved from one row to another.
pub open spec fn moved_to_row(v: ComposerView, from: int, to: int) -> ComposerView {
    let column = aim(v, from);
    let (start, end) = draft_rows(v)[to];
    ComposerView {
        draft: DraftView {
            cursor: visual_lines::column_place(v.draft.text, start, end, 0, column),
            ..v.draft
        },
        preferred_column: Some(column),
        ..v
    }
}

/// Whether the cursor can go up a row.
pub open spec fn can_go_up(v: ComposerView) -> bool {
    draft_row(v) matches Some(k) && k > 0
}

/// Whether the cursor can go down a row.
pub open spec fn can_go_down(v: ComposerView) -> bool {
    draft_row(v) matches Some(k) && k + 1 < draft_rows(v).len()
}

// ---------------------------------------------------------------------------
// The operations
// ---------------------------------------------------------------------------

impl ChatComposer {
    /// A composer with an empty draft.
    pub fn new(focused_agent: &str) -> (r: Self)
        ensures
            r@ == fresh(focused_agent@),
            r@.wf(),
    {
        let r = ChatComposer {
            draft: Draft::new(),
            focused_agent: focused_agent.to_string(),
            status_line: None,
            show_agent_picker: true,
            shortcuts_visible: false,
            history: Vec::new(),
            history_index: None,
            draft_before_history: None,
            history_search: None,
            killed_text: None,
            popups: PopupState::default(),
            input_width: DEFAULT_INPUT_WIDTH,
            preferred_column: None,
        };
        assert(r@ =~= fresh(focused_agent@));
        r
    }

    /// The draft.
    pub fn text(&self) -> (r: String)
        ensures
            r@ == self@.draft.text,
    {
        self.draft.to_text()
    }

    /// The number of bytes before the cursor.
    pub fn cursor(&self) -> (r: usize)
        requires
            self@.wf(),
        ensures
            r as int == draft::byte_cursor(self@.draft),
    {
        self.draft.cursor_byte()
    }

    /// Adds an input to the history.
    pub fn record_history(&mut self, input: &str)
        requires
            old(self)@.wf(),
        ensures
            final(self)@ == (ComposerView {
                history: recorded(old(self)@.history, input@),
                ..old(self)@
            }),
            final(self)@.wf(),
    {
        let n: usize = self.history.len();
        if n > 0 && text::same(&self.history[n - 1], input) {
            assert(self@.history.last() == input@);
            return ;
        }
        assert(n > 0 ==> self@.history.last() == self.history@[n - 1]@);
        self.keep(input);
    }

    /// Adds an input to the history, unless it is blank.
    fn keep(&mut self, input: &str)
        requires
            old(self)@.wf(),
        ensures
            final(self)@ == (ComposerView {
                history: kept(old(self)@.history, input@),
                ..old(self)@
            }),
            final(self)@.wf(),
    {
        if !text::trim(input).as_str().is_empty() {
            let ghost before = self.history@;
            self.history.push(input.to_string());
            assert(text::views(self.history@) =~= text::views(before).push(input@));
        }
    }

    /// Sets the draft, with the cursor at a byte.
    pub fn set_text_and_cursor(&mut self, s: &str, cursor: usize)
        requires
            old(self)@.wf(),
        ensures
            final(self)@ == (ComposerView {
                search: None,
                ..with_draft(old(self)@, draft::at_byte(s@, cursor as nat))
            }),
            final(self)@.wf(),
    {
        self.draft = Draft::at_byte(s, cursor);
        self.history_search = None;
        self.preferred_column = None;
    }

    /// Sets the draft.
    pub fn set_draft(&mut self, draft: Draft)
        requires
            old(self)@.wf(),
            draft@.wf(),
        ensures
            final(self)@ == (ComposerView { search: None, ..with_draft(old(self)@, draft@) }),
            final(self)@.wf(),
    {
        self.draft = draft;
        self.history_search = None;
        self.preferred_column = None;
    }

    /// Sets the draft, with the cursor at its end.
    pub fn set_text(&mut self, s: &str)
        requires
            old(self)@.wf(),
        ensures
            final(self)@ == (ComposerView {
                search: None,
                ..with_draft(old(self)@, history_search::recalled(s@))
            }),
            final(self)@.wf(),
    {
        self.draft = Draft::at_end(s);
        self.history_search = None;
        self.preferred_column = None;
    }

    /// Drops the characters from `start` up to the cursor and gives them back.
    pub fn remove_range_before_cursor(&mut self, start: usize) -> (r: Option<String>)
        requires
            old(self)@.wf(),
        ensures
            final(self)@.wf(),
            match r {
                None => start > old(self)@.draft.cursor && final(self)@ == old(self)@,
                Some(s) => {
                    &&& start <= old(self)@.draft.cursor
                    &&& s@ == old(self)@.draft.text.subrange(
                        start as int,
                        old(self)@.draft.cursor,
                    )
                    &&& final(self)@ == with_draft(
                        old(self)@,
                        draft::without_range(
                            old(self)@.draft,
                            start as int,
                            old(self)@.draft.cursor,
                        ),
                    )
                },
            },
    {
        if start > self.draft.cursor {
            return None;
        }
        let to: usize = self.draft.cursor;
        let removed = self.draft.remove_range(start, to);
        self.preferred_column = None;
        Some(text::string_of(&removed))
    }

    /// Leaves the history.
    fn leave_history(&mut self)
        ensures
            final(self)@ == off_history(old(self)@),
            old(self)@.wf() ==> final(self)@.wf(),
    {
        self.history_index = None;
        self.draft_before_history = None;
        self.history_search = None;
    }

    /// Takes the draft for sending and adds it to the history.
    pub fn take_text(&mut self) -> (r: String)
        requires
            old(self)@.wf(),
        ensures
            r@ == old(self)@.draft.text,
            final(self)@ == (ComposerView {
                history: kept(old(self)@.history, old(self)@.draft.text),
                ..emptied(old(self)@)
            }),
            final(self)@.wf(),
    {
        let taken = self.draft.to_text();
        self.draft = Draft::new();
        self.preferred_column = None;
        self.leave_history();
        self.keep(&taken);
        taken
    }

    /// Clears a draft without adding it to the history. What was cut is kept.
    pub fn clear_for_ctrl_c(&mut self) -> (r: Option<String>)
        requires
            old(self)@.wf(),
        ensures
            final(self)@.wf(),
            match r {
                None => old(self)@.draft.text.len() == 0 && final(self)@ == old(self)@,
                Some(s) => {
                    &&& old(self)@.draft.text.len() > 0
                    &&& s@ == old(self)@.draft.text
                    &&& final(self)@ == emptied(old(self)@)
                },
            },
    {
        if self.draft.text.len() == 0 {
            return None;
        }
        let cleared = self.draft.to_text();
        self.draft = Draft::new();
        self.preferred_column = None;
        self.leave_history();
        Some(cleared)
    }

    /// Puts characters in at the cursor.
    pub fn insert_chars(&mut self, chars: &Vec<char>)
        requires
            old(self)@.wf(),
        ensures
            final(self)@ == inserted(old(self)@, chars@),
            final(self)@.wf(),
    {
        self.leave_history();
        self.draft.insert_chars(chars);
        self.preferred_column = None;
    }

    /// Puts a character in at the cursor.
    pub fn insert(&mut self, ch: char)
        requires
            old(self)@.wf(),
        ensures
            final(self)@ == inserted(old(self)@, seq![ch]),
            final(self)@.wf(),
    {
        let mut one: Vec<char> = Vec::new();
        one.push(ch);
        assert(one@ =~= seq![ch]);
        self.insert_chars(&one);
    }

    /// Puts text in at the cursor.
    pub fn insert_text(&mut self, s: &str)
        requires
            old(self)@.wf(),
        ensures
            final(self)@ == inserted(old(self)@, s@),
            final(self)@.wf(),
    {
        let chars = text::chars_of(s);
        self.insert_chars(&chars);
    }

    /// Starts a new line at the cursor.
    pub fn insert_newline(&mut self)
        requires
            old(self)@.wf(),
        ensures
            final(self)@ == inserted(old(self)@, seq!['\n']),
            final(self)@.wf(),
    {
        self.insert('\n');
    }

    /// Cuts out a range.
    fn cut_range(&mut self, from: usize, to: usize)
        requires
            old(self)@.wf(),
            from <= to <= old(self)@.draft.text.len(),
        ensures
            final(self)@ == cut(old(self)@, from as int, to as int),
            final(self)@.wf(),
    {
        let killed = self.draft.remove_range(from, to);
        self.killed_text = Some(text::string_of(&killed));
        self.leave_history();
    }

    /// Cuts the character before the cursor.
    pub fn delete_previous(&mut self)
        requires
            old(self)@.wf(),
        ensures
            final(self)@ == (if old(self)@.draft.cursor == 0 {
                off_history(old(self)@)
            } else {
                ComposerView {
                    preferred_column: None,
                    ..cut(old(self)@, old(self)@.draft.cursor - 1, old(self)@.draft.cursor)
                }
            }),
            final(self)@.wf(),
    {
        let at: usize = self.draft.cursor;
        if at == 0 {
            self.leave_history();
            return ;
        }
        self.cut_range(at - 1, at);
        self.preferred_column = None;
    }

    /// Cuts the character behind the cursor.
    pub fn delete_next(&mut self)
        requires
            old(self)@.wf(),
        ensures
            final(self)@ == (if old(self)@.draft.cursor == old(self)@.draft.text.len() {
                off_history(old(self)@)
            } else {
                ComposerView {
                    preferred_column: None,
                    ..cut(old(self)@, old(self)@.draft.cursor, old(self)@.draft.cursor + 1)
                }
            }),
            final(self)@.wf(),
    {
        let at: usize = self.draft.cursor;
        if at >= self.draft.text.len() {
            self.leave_history();
            return ;
        }
        self.cut_range(at, at + 1);
        self.preferred_column = None;
    }

    /// Moves the cursor one character to the left.
    pub fn move_left(&mut self)
        requires
            old(self)@.wf(),
        ensures
            final(self)@ == with_cursor(
                old(self)@,
                if old(self)@.draft.cursor > 0 {
                    old(self)@.draft.cursor - 1
                } else {
                    0
                },
            ),
            final(self)@.wf(),
    {
        if self.draft.cursor > 0 {
            self.draft.cursor = self.draft.cursor - 1;
        }
        self.preferred_column = None;
    }

    /// Moves the cursor one character to the right.
    pub fn move_right(&mut self)
        requires
            old(self)@.wf(),
        ensures
            final(self)@ == with_cursor(
                old(self)@,
                if old(self)@.draft.cursor < old(self)@.draft.text.len() {
                    old(self)@.draft.cursor + 1
                } else {
                    old(self)@.draft.cursor
                },
            ),
            final(self)@.wf(),
    {
        if self.draft.cursor < self.draft.text.len() {
            self.draft.cursor = self.draft.cursor + 1;
        }
        self.preferred_column = None;
    }

    /// Recalls the input before the one that is shown.
    pub fn history_previous(&mut self) -> (r: bool)
        requires
            old(self)@.wf(),
        ensures
            r == (old(self)@.history.len() > 0),
            final(self)@ == stepped_back(old(self)@),
            final(self)@.wf(),
    {
        let n: usize = self.history.len();
        if n == 0 {
            return false;
        }
        let i: usize = match self.history_index {
            None => {
                self.draft_before_history = Some(self.draft.to_text());
                n - 1
            },
            Some(i) => if i == 0 {
                0
            } else {
                i - 1
            },
        };
        self.recall(i);
        true
    }

    /// Shows an input of the history.
    fn recall(&mut self, i: usize)
        requires
            old(self)@.popups.wf(),
            i < old(self)@.history.len(),
        ensures
            final(self)@ == recalling(old(self)@, i as int),
            final(self)@.wf(),
    {
        self.history_index = Some(i);
        self.draft = Draft::at_end(&self.history[i]);
        self.history_search = None;
        self.preferred_column = None;
    }

    /// Recalls the input behind the one that is shown, or the draft again.
    pub fn history_next(&mut self) -> (r: bool)
        requires
            old(self)@.wf(),
        ensures
            r == (old(self)@.history_index is Some),
            final(self)@ == stepped_forward(old(self)@),
            final(self)@.wf(),
    {
        let n: usize = self.history.len();
        match self.history_index {
            None => false,
            Some(i) => {
                if i + 1 >= n {
                    let back = match self.draft_before_history.take() {
                        Some(s) => s,
                        None => String::new(),
                    };
                    self.history_index = None;
                    self.draft = Draft::at_end(&back);
                    self.history_search = None;
                    self.preferred_column = None;
                } else {
                    self.recall(i + 1);
                }
                true
            },
        }
    }

    /// Opens a search through the history.
    pub fn begin_history_search(&mut self)
        requires
            old(self)@.wf(),
        ensures
            final(self)@ == searching(old(self)@),
            final(self)@.wf(),
    {
        if self.history_search.is_some() {
            return ;
        }
        self.history_index = None;
        self.draft_before_history = None;
        self.history_search = Some(HistorySearchSession::new(self.draft.copy()));
    }

    /// Hands a key to the open search.
    pub fn handle_history_search_key(&mut self, key: KeyEvent) -> (r: SearchKeyOutcome)
        requires
            old(self)@.wf(),
        ensures
            (final(self)@, r) == after_search_key(old(self)@, key),
            final(self)@.wf(),
    {
        proof {
            if let Some(s) = self@.search {
                history_search::law_draft_stays_inside(
                    self@.history,
                    SearchView { session: s, draft: self@.draft },
                    key,
                );
            }
        }
        match self.history_search.take() {
            None => SearchKeyOutcome::Ignored,
            Some(mut session) => {
                let outcome = history_search::handle_search_key(
                    &self.history,
                    &mut session,
                    &mut self.draft,
                    key,
                );
                match outcome {
                    SearchKeyOutcome::Accept | SearchKeyOutcome::Cancel => {},
                    _ => {
                        self.history_search = Some(session);
                    },
                }
                outcome
            },
        }
    }

    /// Whether a search is open.
    pub fn history_search_active(&self) -> (r: bool)
        ensures
            r == (self@.search is Some),
    {
        self.history_search.is_some()
    }

    /// What is searched for.
    pub fn history_search_query(&self) -> (r: String)
        ensures
            r@ == (match self@.search {
                Some(s) => s.query,
                None => Seq::empty(),
            }),
    {
        match &self.history_search {
            Some(s) => s.query(),
            None => String::new(),
        }
    }

    /// How the search stands.
    pub fn history_search_status(&self) -> (r: Option<HistorySearchStatus>)
        ensures
            r == (match self@.search {
                Some(s) => Some(s.status),
                None => None,
            }),
    {
        match &self.history_search {
            Some(s) => Some(s.status()),
            None => None,
        }
    }

    /// Leaves the search and restores the draft.
    pub fn cancel_history_search(&mut self)
        requires
            old(self)@.wf(),
        ensures
            final(self)@ == (match old(self)@.search {
                None => old(self)@,
                Some(s) => ComposerView { search: None, ..with_draft(old(self)@, s.original) },
            }),
            final(self)@.wf(),
    {
        if let Some(session) = self.history_search.take() {
            self.draft = session.original.copy();
            self.preferred_column = None;
        }
    }

    /// Moves the cursor from one row of the draft to another.
    fn move_to_row(&mut self, rows: &Vec<(usize, usize)>, from: usize, to: usize)
        requires
            old(self)@.wf(),
            visual_lines::pairs(rows@) == draft_rows(old(self)@),
            from < rows@.len(),
            to < rows@.len(),
            rows@[from as int].0 <= old(self)@.draft.cursor,
            rows@[to as int].0 <= rows@[to as int].1 <= old(self)@.draft.text.len(),
        ensures
            final(self)@ == moved_to_row(old(self)@, from as int, to as int),
            final(self)@.wf(),
    {
        proof {
            assert(draft_rows(self@)[from as int].0 == rows@[from as int].0);
            assert(draft_rows(self@)[to as int] == (
                rows@[to as int].0 as int,
                rows@[to as int].1 as int,
            ));
        }
        let column: usize = match self.preferred_column {
            Some(c) => c,
            None => width::text_width(
                &text::string_of_range(&self.draft.text, rows[from].0, self.draft.cursor),
            ),
        };
        self.preferred_column = Some(column);
        let (start, end): (usize, usize) = rows[to];
        self.draft.cursor = visual_lines::visual_column_cursor(
            &self.draft.text,
            start,
            end,
            column,
        );
    }

    /// Moves the cursor up a row.
    pub fn move_up(&mut self) -> (r: bool)
        requires
            old(self)@.wf(),
        ensures
            r == can_go_up(old(self)@),
            final(self)@ == (if can_go_up(old(self)@) {
                moved_to_row(old(self)@, draft_row(old(self)@)->0, draft_row(old(self)@)->0 - 1)
            } else {
                old(self)@
            }),
            final(self)@.wf(),
    {
        let rows = visual_lines::visual_line_ranges(&self.draft.text, self.input_width);
        match visual_lines::current_visual_line(&rows, self.draft.cursor) {
            None => false,
            Some(k) => {
                if k == 0 {
                    return false;
                }
                assert(visual_lines::pairs(rows@)[k as int].0 == rows@[k as int].0);
                self.move_to_row(&rows, k, k - 1);
                true
            },
        }
    }

    /// Moves the cursor down a row.
    pub fn move_down(&mut self) -> (r: bool)
        requires
            old(self)@.wf(),
        ensures
            r == can_go_down(old(self)@),
            final(self)@ == (if can_go_down(old(self)@) {
                moved_to_row(old(self)@, draft_row(old(self)@)->0, draft_row(old(self)@)->0 + 1)
            } else {
                old(self)@
            }),
            final(self)@.wf(),
    {
        let rows = visual_lines::visual_line_ranges(&self.draft.text, self.input_width);
        assert(visual_lines::pairs(rows@).len() == rows@.len());
        match visual_lines::current_visual_line(&rows, self.draft.cursor) {
            None => false,
            Some(k) => {
                if k + 1 >= rows.len() {
                    return false;
                }
                assert(visual_lines::pairs(rows@)[k as int].0 == rows@[k as int].0);
                self.move_to_row(&rows, k, k + 1);
                true
            },
        }
    }

    /// Moves the cursor to a place.
    fn place_cursor(&mut self, at: usize)
        requires
            old(self)@.wf(),
            at <= old(self)@.draft.text.len(),
        ensures
            final(self)@ == with_cursor(old(self)@, at as int),
            final(self)@.wf(),
    {
        self.draft.cursor = at;
        self.preferred_column = None;
    }

    /// Moves the cursor to the start of the word before it.
    pub fn move_word_left(&mut self)
        requires
            old(self)@.wf(),
        ensures
            final(self)@ == with_cursor(
                old(self)@,
                draft::previous_word(old(self)@.draft.text, old(self)@.draft.cursor),
            ),
            final(self)@.wf(),
    {
        let at: usize = draft::beginning_of_previous_word(&self.draft.text, self.draft.cursor);
        self.place_cursor(at);
    }

    /// Moves the cursor to the end of the word behind it.
    pub fn move_word_right(&mut self)
        requires
            old(self)@.wf(),
        ensures
            final(self)@ == with_cursor(
                old(self)@,
                draft::next_word(old(self)@.draft.text, old(self)@.draft.cursor),
            ),
            final(self)@.wf(),
    {
        let at: usize = draft::end_of_next_word(&self.draft.text, self.draft.cursor);
        self.place_cursor(at);
    }

    /// Moves the cursor to the start of its line.
    pub fn move_home(&mut self)
        requires
            old(self)@.wf(),
        ensures
            final(self)@ == with_cursor(
                old(self)@,
                draft::line_start(old(self)@.draft.text, old(self)@.draft.cursor),
            ),
            final(self)@.wf(),
    {
        let at: usize = draft::find_line_start(&self.draft.text, self.draft.cursor);
        self.place_cursor(at);
    }

    /// Moves the cursor to the end of its line.
    pub fn move_end(&mut self)
        requires
            old(self)@.wf(),
        ensures
            final(self)@ == with_cursor(
                old(self)@,
                draft::line_end(old(self)@.draft.text, old(self)@.draft.cursor),
            ),
            final(self)@.wf(),
    {
        let at: usize = draft::find_line_end(&self.draft.text, self.draft.cursor);
        self.place_cursor(at);
    }

    /// Cuts back to the start of the word before the cursor.
    pub fn delete_word_previous(&mut self)
        requires
            old(self)@.wf(),
        ensures
            final(self)@ == (if old(self)@.draft.cursor == 0 {
                old(self)@
            } else {
                cut(
                    old(self)@,
                    draft::previous_word(old(self)@.draft.text, old(self)@.draft.cursor),
                    old(self)@.draft.cursor,
                )
            }),
            final(self)@.wf(),
    {
        let to: usize = self.draft.cursor;
        if to == 0 {
            return ;
        }
        let from: usize = draft::beginning_of_previous_word(&self.draft.text, to);
        self.cut_range(from, to);
    }

    /// Cuts up to the end of the word behind the cursor.
    pub fn delete_word_next(&mut self)
        requires
            old(self)@.wf(),
        ensures
            final(self)@ == (if old(self)@.draft.cursor == old(self)@.draft.text.len() {
                old(self)@
            } else {
                cut(
                    old(self)@,
                    old(self)@.draft.cursor,
                    draft::next_word(old(self)@.draft.text, old(self)@.draft.cursor),
                )
            }),
            final(self)@.wf(),
    {
        let from: usize = self.draft.cursor;
        if from >= self.draft.text.len() {
            return ;
        }
        let to: usize = draft::end_of_next_word(&self.draft.text, from);
        self.cut_range(from, to);
    }

    /// Cuts back to the start of the line.
    pub fn delete_to_home(&mut self)
        requires
            old(self)@.wf(),
        ensures
            final(self)@ == cut(
                old(self)@,
                draft::line_start(old(self)@.draft.text, old(self)@.draft.cursor),
                old(self)@.draft.cursor,
            ),
            final(self)@.wf(),
    {
        let to: usize = self.draft.cursor;
        let from: usize = draft::find_line_start(&self.draft.text, to);
        self.cut_range(from, to);
    }

    /// Cuts up to the end of the line.
    pub fn delete_to_end(&mut self)
        requires
            old(self)@.wf(),
        ensures
            final(self)@ == cut(
                old(self)@,
                old(self)@.draft.cursor,
                draft::line_end(old(self)@.draft.text, old(self)@.draft.cursor),
            ),
            final(self)@.wf(),
    {
        let from: usize = self.draft.cursor;
        let to: usize = draft::find_line_end(&self.draft.text, from);
        self.cut_range(from, to);
    }

    /// Puts in what was last cut.
    pub fn yank(&mut self)
        requires
            old(self)@.wf(),
        ensures
            final(self)@ == (match old(self)@.killed {
                Some(s) => inserted(old(self)@, s),
                None => old(self)@,
            }),
            final(self)@.wf(),
    {
        let killed = text::copy_opt(&self.killed_text);
        if let Some(s) = killed {
            self.insert_text(&s);
        }
    }

    /// Names the agent that the composer writes to.
    pub fn set_focused_agent(&mut self, agent: &str)
        ensures
            final(self)@ == (ComposerView { focused_agent: agent@, ..old(self)@ }),
            old(self)@.wf() ==> final(self)@.wf(),
    {
        self.focused_agent = agent.to_string();
    }

    /// Sets the line that is shown below the draft.
    pub fn set_status_line(&mut self, line: Option<Line>)
        ensures
            final(self)@ == (ComposerView { status_line: opt_line(line), ..old(self)@ }),
            old(self)@.wf() ==> final(self)@.wf(),
    {
        self.status_line = line;
    }

    /// The commands that are offered.
    pub fn slash_popup(&self) -> (r: Option<&SlashCompletion>)
        ensures
            match r {
                Some(p) => self@.popups.slash() == Some(p@),
                None => self@.popups.slash() is None,
            },
    {
        self.popups.slash()
    }

    /// The files that are offered.
    pub fn mention_popup(&self) -> (r: Option<&Mention>)
        ensures
            match r {
                Some(p) => self@.popups.mention() == Some(p@),
                None => self@.popups.mention() is None,
            },
    {
        self.popups.mention()
    }

    /// Closes the popup and forgets what was closed by hand.
    pub fn clear_popups(&mut self)
        ensures
            final(self)@ == (ComposerView { popups: popup_state::closed(), ..old(self)@ }),
            old(self)@.wf() ==> final(self)@.wf(),
    {
        self.popups.clear();
    }

    /// Shows or hides the shortcuts.
    pub fn toggle_shortcuts(&mut self)
        ensures
            final(self)@ == (ComposerView {
                shortcuts_visible: !old(self)@.shortcuts_visible,
                ..old(self)@
            }),
            old(self)@.wf() ==> final(self)@.wf(),
    {
        self.shortcuts_visible = !self.shortcuts_visible;
    }
}

// ---------------------------------------------------------------------------
// Laws
// ---------------------------------------------------------------------------

/// Putting in what was just cut gives the text back, with the cursor at the end
/// of what was cut.
pub proof fn law_yank_undoes_cut(v: ComposerView, from: int, to: int)
    requires
        0 <= from <= to <= v.draft.text.len(),
    ensures
        ({
            let c = cut(v, from, to);
            c.killed is Some && inserted(c, c.killed->0).draft == (DraftView {
                text: v.draft.text,
                cursor: to,
            })
        }),
{
    draft::law_insert_undoes_remove(v.draft, from, to);
}

/// `n` steps back in the history.
pub open spec fn back_steps(v: ComposerView, n: nat) -> ComposerView
    decreases n,
{
    if n == 0 {
        v
    } else {
        stepped_back(back_steps(v, (n - 1) as nat))
    }
}

/// `n` steps forward in the history.
pub open spec fn forward_steps(v: ComposerView, n: nat) -> ComposerView
    decreases n,
{
    if n == 0 {
        v
    } else {
        stepped_forward(forward_steps(v, (n - 1) as nat))
    }
}

/// After any number of steps back, as many forward give the draft back, as long
/// as the history has that many inputs.
pub proof fn law_history_walk_restores_draft(v: ComposerView, n: nat)
    requires
        v.wf(),
        v.history_index is None,
        0 < n <= v.history.len(),
    ensures
        forward_steps(back_steps(v, n), n).draft.text == v.draft.text,
        forward_steps(back_steps(v, n), n).history_index is None,
{
    walk_back(v, n);
    walk_forward(back_steps(v, n), v, n, n);
}

/// Where `n` steps back lead.
proof fn walk_back(v: ComposerView, n: nat)
    requires
        v.history_index is None,
        0 < n <= v.history.len(),
    ensures
        back_steps(v, n).history == v.history,
        back_steps(v, n).history_index == Some(v.history.len() - n),
        back_steps(v, n).draft_before_history == Some(v.draft.text),
    decreases n,
{
    reveal_with_fuel(back_steps, 2);
    if n > 1 {
        walk_back(v, (n - 1) as nat);
    }
}

/// Where `k` steps forward lead behind `n` steps back.
proof fn walk_forward(w: ComposerView, v: ComposerView, n: nat, k: nat)
    requires
        0 < n <= v.history.len(),
        k <= n,
        w.history == v.history,
        w.history_index == Some(v.history.len() - n),
        w.draft_before_history == Some(v.draft.text),
    ensures
        k < n ==> {
            &&& forward_steps(w, k).history == v.history
            &&& forward_steps(w, k).history_index == Some(v.history.len() - n + k)
            &&& forward_steps(w, k).draft_before_history == Some(v.draft.text)
        },
        k == n ==> {
            &&& forward_steps(w, k).history_index is None
            &&& forward_steps(w, k).draft.text == v.draft.text
        },
    decreases k,
{
    if k > 0 {
        walk_forward(w, v, n, (k - 1) as nat);
    }
}

/// A search that is opened and left restores the draft, and the composer is as it
/// was but for what was recalled from the history.
pub proof fn law_search_cancel_restores(v: ComposerView, key: KeyEvent)
    requires
        v.wf(),
        v.search is None,
    ensures
        ({
            let opened = searching(v);
            let (after, outcome) = after_search_key(opened, key);
            outcome == SearchKeyOutcome::Cancel ==> after == off_history(v)
        }),
{
}

/// Sending takes the draft, and the latest input of the history is what was sent,
/// unless it was blank.
pub proof fn law_sent_text_is_kept(history: Seq<Seq<char>>, s: Seq<char>)
    ensures
        text::trimmed(s).len() > 0 ==> kept(history, s).len() == history.len() + 1 && kept(
            history,
            s,
        ).last() == s,
        text::trimmed(s).len() == 0 ==> kept(history, s) == history,
        recorded(recorded(history, s), s) == recorded(history, s),
{
}

} // verus!
