//! Completion in the composer: commands behind a slash, and mentions of files.

use crate::bottom_pane::chat_composer;
use crate::bottom_pane::chat_composer::{ChatComposer, ComposerView};
use crate::bottom_pane::draft::{Draft, DraftView};
use crate::bottom_pane::history_search;
use crate::bottom_pane::popup_state;
use crate::bottom_pane::popup_state::{Mention, MentionView, PopupView, SlashCompletion, SlashView};
use crate::chatwidget;
use crate::slash_command;
use crate::text;
use vstd::prelude::*;

verus! {

/// The composer with other popups.
pub open spec fn with_popups(c: ComposerView, p: PopupView) -> ComposerView {
    ComposerView { popups: p, ..c }
}

/// The composer with another draft and no search.
pub open spec fn replaced(c: ComposerView, d: DraftView) -> ComposerView {
    ComposerView { search: None, ..chat_composer::with_draft(c, d) }
}

// ---------------------------------------------------------------------------
// Commands behind a slash
// ---------------------------------------------------------------------------

/// Whether a text holds white space.
pub open spec fn has_white(s: Seq<char>) -> bool {
    exists|i: int| 0 <= i < s.len() && text::is_white(#[trigger] s[i])
}

/// What was typed behind the slash, if that is being completed: the draft begins
/// with a slash, and no white space stands between it and the cursor.
pub open spec fn slash_query(d: DraftView) -> Option<Seq<char>> {
    if d.text.len() == 0 || d.text[0] != '/' || d.cursor == 0 || has_white(
        d.text.subrange(1, d.cursor),
    ) {
        None
    } else {
        Some(d.text.subrange(1, d.cursor))
    }
}

/// The commands that complete what was typed, the first one marked.
pub open spec fn slash_offer(typed: Seq<char>) -> SlashView {
    SlashView {
        matches: slash_command::offered(slash_command::catalog(), 0, typed),
        selected: 0,
    }
}

/// The popups with the commands offered that complete a text, unless the popup was
/// closed for this very text.
pub open spec fn slash_popups(p: PopupView, typed: Option<Seq<char>>) -> PopupView {
    match typed {
        None => PopupView { dismissed_slash: None, ..p.without_slash() },
        Some(s) => if p.dismissed_slash == Some(s) {
            p.without_slash()
        } else {
            PopupView { dismissed_slash: None, ..p }.with_slash(Some(slash_offer(s)))
        },
    }
}

/// The composer with the commands offered that complete the draft.
pub open spec fn slash_shown(c: ComposerView) -> ComposerView {
    with_popups(c, slash_popups(c.popups, slash_query(c.draft)))
}

/// The name of the marked command.
pub open spec fn marked_command(p: PopupView) -> Option<Seq<char>> {
    match p.slash() {
        Some(s) => if s.selected < s.matches.len() {
            Some(s.matches[s.selected].name)
        } else {
            None
        },
        None => None,
    }
}

/// The composer with the marked command as its draft.
pub open spec fn slash_accepted(c: ComposerView) -> ComposerView {
    let closed = with_popups(c, c.popups.without_slash());
    match marked_command(c.popups) {
        None => closed,
        Some(name) => replaced(
            with_popups(
                closed,
                PopupView { dismissed_slash: None, ..closed.popups },
            ),
            history_search::recalled("/"@ + name + " "@),
        ),
    }
}

/// What is run for the marked command: its name, or the whole line where that has
/// more than one word.
pub open spec fn chosen_command(name: Seq<char>, line: Seq<char>) -> Seq<char> {
    let raw = match text::after_prefix(line, "/"@) {
        Some(rest) => text::trimmed(rest),
        None => Seq::empty(),
    };
    if text::words_of(raw).len() <= 1 {
        name
    } else {
        raw
    }
}

/// The composer with the command popup closed by hand for what stands between the
/// slash and the cursor.
pub open spec fn slash_dismissed(c: ComposerView) -> ComposerView {
    let d = c.draft;
    let until = if d.cursor == 0 {
        1
    } else {
        d.cursor
    };
    with_popups(
        c,
        PopupView {
            dismissed_slash: if d.text.len() > 0 && d.text[0] == '/' {
                Some(d.text.subrange(1, until))
            } else {
                None
            },
            ..c.popups.without_slash()
        },
    )
}

/// Whether a part of a text holds white space.
fn holds_white(s: &Vec<char>, from: usize, to: usize) -> (r: bool)
    requires
        from <= to <= s@.len(),
    ensures
        r == has_white(s@.subrange(from as int, to as int)),
{
    let ghost part = s@.subrange(from as int, to as int);
    let mut i: usize = from;
    while i < to
        invariant
            from <= i <= to <= s@.len(),
            part == s@.subrange(from as int, to as int),
            forall|k: int| 0 <= k < i - from ==> !text::is_white(#[trigger] part[k]),
        decreases to - i,
    {
        assert(part[i - from] == s@[i as int]);
        if text::is_whitespace(s[i]) {
            assert(text::is_white(part[i - from]));
            return true;
        }
        i += 1;
    }
    false
}

/// What is run for the marked command.
pub fn choose_command(name: &str, line: &str) -> (r: String)
    ensures
        r@ == chosen_command(name@, line@),
{
    let raw = match text::strip_prefix(line, "/") {
        Some(rest) => text::trim(&rest),
        None => String::new(),
    };
    let words = text::words(&raw);
    assert(text::views(words@).len() == words@.len());
    if words.len() <= 1 {
        name.to_string()
    } else {
        raw
    }
}

impl ChatComposer {
    /// What was typed behind the slash.
    fn typed_command(&self) -> (r: Option<String>)
        requires
            self@.wf(),
        ensures
            text::opt_view(r) == slash_query(self@.draft),
    {
        let d = &self.draft;
        if d.text.len() == 0 || d.text[0] != '/' || d.cursor == 0 {
            return None;
        }
        if holds_white(&d.text, 1, d.cursor) {
            return None;
        }
        Some(text::string_of_range(&d.text, 1, d.cursor))
    }

    /// Offers the commands that complete the draft.
    pub fn recompute_slash(&mut self)
        requires
            old(self)@.wf(),
        ensures
            final(self)@ == slash_shown(old(self)@),
            final(self)@.wf(),
    {
        let typed = self.typed_command();
        match typed {
            None => {
                self.popups.set_slash(None);
                self.popups.set_dismissed_slash(None);
            },
            Some(s) => {
                let dismissed = match self.popups.dismissed_slash() {
                    Some(d) => text::same(&d, &s),
                    None => false,
                };
                if dismissed {
                    self.popups.set_slash(None);
                } else {
                    self.popups.set_dismissed_slash(None);
                    let popup = SlashCompletion {
                        matches: slash_command::matches(&s),
                        selected: 0,
                    };
                    self.popups.set_slash(Some(popup));
                }
            },
        }
    }

    /// Marks the next or the previous command.
    pub fn move_slash(&mut self, forward: bool)
        requires
            old(self)@.wf(),
        ensures
            final(self)@ == with_popups(
                old(self)@,
                popup_state::slash_moved(old(self)@.popups, forward),
            ),
            final(self)@.wf(),
    {
        self.popups.move_slash(forward);
    }

    /// Closes the command popup and gives the name of the marked command.
    pub fn take_command(&mut self) -> (r: Option<String>)
        requires
            old(self)@.wf(),
        ensures
            text::opt_view(r) == marked_command(old(self)@.popups),
            final(self)@ == with_popups(old(self)@, old(self)@.popups.without_slash()),
            final(self)@.wf(),
    {
        match self.popups.take_slash() {
            None => None,
            Some(popup) => {
                assert(popup_state::entry_views(popup.matches@).len() == popup.matches@.len());
                if popup.selected < popup.matches.len() {
                    let entry = &popup.matches[popup.selected];
                    assert(popup_state::entry_views(popup.matches@)[popup.selected as int]
                        == entry@);
                    Some(entry.name.as_str().to_string())
                } else {
                    None
                }
            },
        }
    }

    /// Puts the marked command into the draft.
    pub fn accept_slash(&mut self)
        requires
            old(self)@.wf(),
        ensures
            final(self)@ == slash_accepted(old(self)@),
            final(self)@.wf(),
    {
        if let Some(name) = self.take_command() {
            let mut line = "/".to_string();
            line.push_str(&name);
            line.push_str(" ");
            self.set_text(&line);
            self.popups.set_dismissed_slash(None);
        }
    }

    /// Closes the popup.
    pub fn close_popup(&mut self)
        requires
            old(self)@.wf(),
        ensures
            final(self)@ == with_popups(
                old(self)@,
                old(self)@.popups.without_mention().without_slash(),
            ),
            final(self)@.wf(),
    {
        self.popups.set_mention(None);
        self.popups.set_slash(None);
    }

    /// Closes the command popup.
    pub fn close_slash(&mut self)
        requires
            old(self)@.wf(),
        ensures
            final(self)@ == with_popups(old(self)@, old(self)@.popups.without_slash()),
            final(self)@.wf(),
    {
        self.popups.set_slash(None);
    }

    /// Closes the file popup.
    pub fn close_mention(&mut self)
        requires
            old(self)@.wf(),
        ensures
            final(self)@ == with_popups(old(self)@, old(self)@.popups.without_mention()),
            final(self)@.wf(),
    {
        self.popups.set_mention(None);
    }

    /// Forgets for which text the command popup was closed.
    pub fn forget_dismissed_slash(&mut self)
        requires
            old(self)@.wf(),
        ensures
            final(self)@ == with_popups(
                old(self)@,
                PopupView { dismissed_slash: None, ..old(self)@.popups },
            ),
            final(self)@.wf(),
    {
        self.popups.set_dismissed_slash(None);
    }

    /// Closes the command popup for what was typed.
    pub fn dismiss_slash(&mut self)
        requires
            old(self)@.wf(),
        ensures
            final(self)@ == slash_dismissed(old(self)@),
            final(self)@.wf(),
    {
        let dismissed = if self.draft.text.len() > 0 && self.draft.text[0] == '/' {
            let end: usize = if self.draft.cursor == 0 {
                1
            } else {
                self.draft.cursor
            };
            Some(text::string_of_range(&self.draft.text, 1, end))
        } else {
            None
        };
        self.popups.set_dismissed_slash(dismissed);
        self.popups.set_slash(None);
    }
}

// ---------------------------------------------------------------------------
// Mentions of files
// ---------------------------------------------------------------------------

/// The at sign before the first `i` characters, with only mention characters
/// behind it.
pub open spec fn at_sign(s: Seq<char>, i: int) -> Option<int>
    decreases i,
{
    if i <= 0 {
        None
    } else if s[i - 1] == '@' {
        Some(i - 1)
    } else if !chatwidget::in_mention(s[i - 1]) {
        None
    } else {
        at_sign(s, i - 1)
    }
}

/// Where the mention starts that is being completed: at an at sign at the start or
/// behind white space.
pub open spec fn mention_at(d: DraftView) -> Option<int> {
    match at_sign(d.text, d.cursor) {
        None => None,
        Some(at) => if at == 0 || text::is_white(d.text[at - 1]) {
            Some(at)
        } else {
            None
        },
    }
}

/// The text by which a mention is known that was closed by hand: how many bytes of
/// the draft stand before it and before its end, and what is looked for.
pub open spec fn mention_key(s: Seq<char>, start: int, cursor: int, query: Seq<char>) -> Seq<char> {
    text::decimal_of(text::byte_len(s.take(start))) + ":"@ + text::decimal_of(
        text::byte_len(s.take(cursor)),
    ) + ":"@ + query
}

/// What is looked for to complete the mention at the cursor. Where commands are
/// offered, or the popup was closed for this very mention, nothing is.
pub open spec fn mention_query(c: ComposerView) -> Option<Seq<char>> {
    let d = c.draft;
    match mention_at(d) {
        None => None,
        Some(at) => {
            let query = d.text.subrange(at + 1, d.cursor);
            if c.popups.slash() is Some || c.popups.dismissed_mention == Some(
                mention_key(d.text, at, d.cursor, query),
            ) {
                None
            } else {
                Some(query)
            }
        },
    }
}

/// The composer with a popup for the mention at the cursor, without files yet.
pub open spec fn mention_shown(c: ComposerView) -> ComposerView {
    if mention_query(c) is Some {
        with_popups(
            c,
            PopupView { dismissed_mention: None, ..c.popups }.with_mention(
                Some(
                    MentionView {
                        start: mention_at(c.draft)->0,
                        cursor: c.draft.cursor,
                        matches: Seq::empty(),
                        selected: 0,
                    },
                ),
            ),
        )
    } else {
        with_popups(c, c.popups.without_mention())
    }
}

/// The composer with the files that were found for the open mention.
pub open spec fn mention_found(c: ComposerView, found: Seq<Seq<char>>) -> ComposerView {
    match c.popups.mention() {
        None => c,
        Some(m) => with_popups(
            c,
            c.popups.with_mention(Some(MentionView { matches: found, selected: 0, ..m })),
        ),
    }
}

/// How a path is put into the draft: in quotation marks where it holds white space
/// and no quotation mark.
pub open spec fn mention_text(path: Seq<char>) -> Seq<char> {
    if has_white(path) && !path.contains('"') {
        seq!['"'] + path + seq!['"']
    } else {
        path
    }
}

/// A place brought into a text.
pub open spec fn inside(i: int, len: int) -> int {
    if i > len {
        len
    } else {
        i
    }
}

/// The draft with a path put in for a mention, a space behind everything, and the
/// cursor one byte behind the path: behind the next character, or before it where
/// it takes several bytes.
pub open spec fn mentioned(d: DraftView, m: MentionView, path: Seq<char>) -> DraftView {
    let n = d.text.len() as int;
    let head = d.text.take(inside(m.start + 1, n)) + mention_text(path);
    let whole = head + d.text.skip(inside(m.cursor, n)) + seq![' '];
    DraftView {
        text: whole,
        cursor: if whole[head.len() as int] as u32 <= 127 {
            head.len() as int + 1
        } else {
            head.len() as int
        },
    }
}

/// The composer with the marked file in its draft.
pub open spec fn mention_accepted(c: ComposerView) -> ComposerView {
    match c.popups.mention() {
        None => c,
        Some(m) => {
            let closed = with_popups(c, c.popups.without_mention());
            if m.selected >= m.matches.len() {
                closed
            } else {
                replaced(closed, mentioned(c.draft, m, m.matches[m.selected]))
            }
        },
    }
}

/// The composer with the file popup closed by hand for its mention.
pub open spec fn mention_dismissed(c: ComposerView) -> ComposerView {
    match c.popups.mention() {
        None => c,
        Some(m) => {
            let n = c.draft.text.len() as int;
            let end = inside(m.cursor, n);
            let query = if m.start + 1 <= end {
                c.draft.text.subrange(m.start + 1, end)
            } else {
                Seq::empty()
            };
            with_popups(
                c,
                PopupView {
                    dismissed_mention: Some(
                        mention_key(c.draft.text, inside(m.start, n), end, query),
                    ),
                    ..c.popups.without_mention()
                },
            )
        },
    }
}

/// The text by which a mention is known.
fn make_key(s: &Vec<char>, start: usize, cursor: usize, query: &str) -> (r: String)
    requires
        start <= s@.len(),
        cursor <= s@.len(),
    ensures
        r@ == mention_key(s@, start as int, cursor as int, query@),
{
    let before = text::string_of_range(s, 0, start);
    let whole = text::string_of_range(s, 0, cursor);
    assert(before@ =~= s@.take(start as int));
    assert(whole@ =~= s@.take(cursor as int));
    let mut key = text::decimal(text::count_bytes(&before) as u64);
    key.push_str(":");
    key.push_str(&text::decimal(text::count_bytes(&whole) as u64));
    key.push_str(":");
    key.push_str(query);
    key
}

/// The at sign before the cursor.
fn find_at_sign(s: &Vec<char>, cursor: usize) -> (r: Option<usize>)
    requires
        cursor <= s@.len(),
    ensures
        (match r {
            Some(i) => Some(i as int),
            None => None::<int>,
        }) == at_sign(s@, cursor as int),
        r matches Some(i) ==> i < cursor,
{
    let mut i: usize = cursor;
    while i > 0
        invariant
            i <= cursor <= s@.len(),
            at_sign(s@, i as int) == at_sign(s@, cursor as int),
        decreases i,
    {
        let c = s[i - 1];
        if c == '@' {
            return Some(i - 1);
        }
        if !chatwidget::is_mention_char(c) {
            return None;
        }
        i -= 1;
    }
    None
}

/// How a path is put into the draft.
fn quote_path(path: &str) -> (r: Vec<char>)
    ensures
        r@ == mention_text(path@),
{
    let chars = text::chars_of(path);
    assert(chars@.subrange(0, chars@.len() as int) =~= chars@);
    if holds_white(&chars, 0, chars.len()) && !text::has_char(path, '"') {
        let mut out: Vec<char> = Vec::new();
        out.push('"');
        let mut mid = chars;
        out.append(&mut mid);
        out.push('"');
        assert(out@ =~= seq!['"'] + path@ + seq!['"']);
        out
    } else {
        chars
    }
}

/// Puts the characters from `from` up to `to` behind others.
fn push_range(out: &mut Vec<char>, s: &Vec<char>, from: usize, to: usize)
    requires
        from <= to <= s@.len(),
    ensures
        final(out)@ == old(out)@ + s@.subrange(from as int, to as int),
{
    let ghost before = out@;
    let mut i: usize = from;
    assert(before + s@.subrange(from as int, from as int) =~= before);
    while i < to
        invariant
            from <= i <= to <= s@.len(),
            out@ == before + s@.subrange(from as int, i as int),
        decreases to - i,
    {
        out.push(s[i]);
        assert(out@ =~= before + s@.subrange(from as int, i + 1));
        i += 1;
    }
}

/// The draft with a path put in for a mention.
fn mention_draft(d: &Draft, m: &Mention, path: &str) -> (r: Draft)
    requires
        d@.wf(),
    ensures
        r@ == mentioned(d@, m@, path@),
        r@.wf(),
{
    let n: usize = d.text.len();
    let after_at: usize = if m.start >= n {
        n
    } else {
        m.start + 1
    };
    let end: usize = if m.cursor > n {
        n
    } else {
        m.cursor
    };
    let mut whole: Vec<char> = Vec::new();
    push_range(&mut whole, &d.text, 0, after_at);
    let mut quoted = quote_path(path);
    whole.append(&mut quoted);
    let ghost head = whole@;
    assert(head =~= d@.text.take(after_at as int) + mention_text(path@));
    let at: usize = whole.len();
    push_range(&mut whole, &d.text, end, n);
    whole.push(' ');
    assert(whole@ =~= head + d@.text.skip(end as int) + seq![' ']);
    let total: usize = whole.len();
    assert(at < total);
    let cursor: usize = if whole[at] as u32 <= 127 {
        at + 1
    } else {
        at
    };
    Draft { text: whole, cursor }
}

impl ChatComposer {
    /// Opens, keeps or closes the popup for the mention at the cursor. Gives what is
    /// to be looked for.
    pub fn recompute_mention(&mut self) -> (r: Option<String>)
        requires
            old(self)@.wf(),
        ensures
            final(self)@ == mention_shown(old(self)@),
            text::opt_view(r) == mention_query(old(self)@),
            final(self)@.wf(),
    {
        let cursor: usize = self.draft.cursor;
        let at: usize = match find_at_sign(&self.draft.text, cursor) {
            Some(at) => at,
            None => {
                self.popups.set_mention(None);
                return None;
            },
        };
        if at > 0 && !text::is_whitespace(self.draft.text[at - 1]) {
            self.popups.set_mention(None);
            return None;
        }
        let query = text::string_of_range(&self.draft.text, at + 1, cursor);
        let key = make_key(&self.draft.text, at, cursor, &query);
        let dismissed = match self.popups.dismissed_mention() {
            Some(k) => text::same(&k, &key),
            None => false,
        };
        if dismissed || self.popups.slash().is_some() {
            self.popups.set_mention(None);
            return None;
        }
        self.popups.set_dismissed_mention(None);
        let none: Vec<String> = Vec::new();
        assert(text::views(none@) =~= Seq::<Seq<char>>::empty());
        self.popups.set_mention(
            Some(Mention { start: at, cursor, matches: none, selected: 0 }),
        );
        Some(query)
    }

    /// Offers the files that were found for the open mention.
    pub fn set_mention_matches(&mut self, found: Vec<String>)
        requires
            old(self)@.wf(),
        ensures
            final(self)@ == mention_found(old(self)@, text::views(found@)),
            final(self)@.wf(),
    {
        if let Some(m) = self.popups.take_mention() {
            self.popups.set_mention(
                Some(Mention { start: m.start, cursor: m.cursor, matches: found, selected: 0 }),
            );
        }
    }

    /// Marks the next or the previous file.
    pub fn move_mention(&mut self, forward: bool)
        requires
            old(self)@.wf(),
        ensures
            final(self)@ == with_popups(
                old(self)@,
                popup_state::mention_moved(old(self)@.popups, forward),
            ),
            final(self)@.wf(),
    {
        self.popups.move_mention(forward);
    }

    /// Puts the marked file into the draft.
    pub fn accept_mention(&mut self)
        requires
            old(self)@.wf(),
        ensures
            final(self)@ == mention_accepted(old(self)@),
            final(self)@.wf(),
    {
        if let Some(m) = self.popups.take_mention() {
            assert(text::views(m.matches@).len() == m.matches@.len());
            if m.selected < m.matches.len() {
                assert(text::views(m.matches@)[m.selected as int] == m.matches@[m.selected as int]@);
                let d = mention_draft(&self.draft, &m, &m.matches[m.selected]);
                self.set_draft(d);
            }
        }
    }

    /// Closes the file popup for its mention.
    pub fn dismiss_mention(&mut self)
        requires
            old(self)@.wf(),
        ensures
            final(self)@ == mention_dismissed(old(self)@),
            final(self)@.wf(),
    {
        if let Some(m) = self.popups.take_mention() {
            let n: usize = self.draft.text.len();
            let end: usize = if m.cursor > n {
                n
            } else {
                m.cursor
            };
            let query = if m.start < end {
                text::string_of_range(&self.draft.text, m.start + 1, end)
            } else {
                String::new()
            };
            let start: usize = if m.start > n {
                n
            } else {
                m.start
            };
            let key = make_key(&self.draft.text, start, end, &query);
            self.popups.set_dismissed_mention(Some(key));
        }
    }
}

// ---------------------------------------------------------------------------
// Laws
// ---------------------------------------------------------------------------

/// A popup that was closed by hand stays closed as long as nothing changes.
pub proof fn law_dismissed_popups_stay_closed(c: ComposerView)
    requires
        c.wf(),
    ensures
        c.popups.slash() is Some && slash_query(c.draft) is Some ==> slash_shown(
            slash_dismissed(c),
        ).popups.slash() is None,
        c.popups.mention() matches Some(m) ==> mention_at(c.draft) == Some(m.start) && m.cursor
            == c.draft.cursor ==> mention_query(mention_dismissed(c)) is None,
{
    if c.popups.mention() is Some {
        let m = c.popups.mention()->0;
        if mention_at(c.draft) == Some(m.start) && m.cursor == c.draft.cursor {
            at_sign_inside(c.draft.text, c.draft.cursor);
        }
    }
}

/// The at sign stands before the cursor.
proof fn at_sign_inside(s: Seq<char>, i: int)
    ensures
        at_sign(s, i) matches Some(k) ==> 0 <= k < i,
    decreases i,
{
    if i > 0 {
        at_sign_inside(s, i - 1);
    }
}

/// A file that is put into the draft can be read out of it again: what stands
/// behind the at sign is a mention of just that path, as long as the path consists
/// of mention characters, or holds white space but no quotation mark.
pub proof fn law_accepted_mention_is_read_back(path: Seq<char>)
    requires
        path.len() > 0,
        (has_white(path) && !path.contains('"')) || (!has_white(path) && forall|i: int|
            0 <= i < path.len() ==> chatwidget::in_mention(#[trigger] path[i])),
    ensures
        chatwidget::mentions_from(seq!['@'] + mention_text(path) + seq![' '], 0) == seq![path],
{
    let s = seq!['@'] + mention_text(path) + seq![' '];
    let n = path.len() as int;
    assert(chatwidget::opens_mention(s, 0));
    if has_white(path) && !path.contains('"') {
        assert(s =~= seq!['@', '"'] + path + seq!['"', ' ']);
        assert forall|k: int| 2 <= k < n + 2 implies #[trigger] s[k] != '"' by {
            assert(s[k] == path[k - 2]);
            assert(path.contains(path[k - 2]));
        }
        quote_at(s, 2, n + 2);
        assert(s.subrange(2, n + 2) =~= path);
        assert(chatwidget::is_quoted(s, 0));
        assert(s[n + 3] == ' ');
        no_more_mentions(s, n + 3);
        assert(chatwidget::mentions_from(s, 0) =~= seq![path]);
    } else {
        assert(s =~= seq!['@'] + path + seq![' ']);
        assert forall|k: int| 1 <= k < n + 1 implies chatwidget::in_mention(#[trigger] s[k]) by {
            assert(s[k] == path[k - 1]);
        }
        assert(s[n + 1] == ' ');
        run_to(s, 1, n + 1);
        assert(s.subrange(1, n + 1) =~= path);
        assert(s[1] == path[0]);
        assert(s[1] != '"');
        no_more_mentions(s, n + 1);
        assert(chatwidget::mentions_from(s, 0) =~= seq![path]);
    }
}

/// The quotation mark at `end` is the next one from `i` on.
proof fn quote_at(s: Seq<char>, i: int, end: int)
    requires
        0 <= i <= end < s.len(),
        s[end] == '"',
        forall|k: int| i <= k < end ==> #[trigger] s[k] != '"',
    ensures
        chatwidget::quote_end(s, i) == end,
    decreases end - i,
{
    if i < end {
        quote_at(s, i + 1, end);
    }
}

/// The run of mention characters from `i` on ends at `end`.
proof fn run_to(s: Seq<char>, i: int, end: int)
    requires
        0 <= i <= end < s.len(),
        !chatwidget::in_mention(s[end]),
        forall|k: int| i <= k < end ==> chatwidget::in_mention(#[trigger] s[k]),
    ensures
        chatwidget::run_end(s, i) == end,
    decreases end - i,
{
    if i < end {
        run_to(s, i + 1, end);
    }
}

/// A space at the end holds no mention.
proof fn no_more_mentions(s: Seq<char>, i: int)
    requires
        i + 1 == s.len(),
        0 <= i,
        s[i] == ' ',
    ensures
        chatwidget::mentions_from(s, i) == Seq::<Seq<char>>::empty(),
{
    reveal_with_fuel(chatwidget::mentions_from, 2);
}

/// A command that is accepted stands in the draft behind a slash, with a space and the cursor
/// behind it, and the popup is closed.
pub proof fn law_accepted_command_stands_in_the_draft(c: ComposerView, name: Seq<char>)
    requires
        marked_command(c.popups) == Some(name),
    ensures
        slash_accepted(c).draft.text == seq!['/'] + name + seq![' '],
        slash_accepted(c).draft.cursor == name.len() + 2,
        slash_accepted(c).popups.slash() is None,
{
    reveal_strlit("/");
    reveal_strlit(" ");
    assert("/"@ =~= seq!['/']);
    assert(" "@ =~= seq![' ']);
}

/// Commands are completed while the cursor stands in the first word of a draft that begins with
/// a slash: what stands between the slash and the cursor is what they begin with.
pub proof fn law_slash_begins_a_completion(typed: Seq<char>, rest: Seq<char>)
    ensures
        ({
            let d = DraftView {
                text: seq!['/'] + typed + rest,
                cursor: typed.len() as int + 1,
            };
            &&& (forall|i: int| 0 <= i < typed.len() ==> !text::is_white(#[trigger] typed[i]))
                ==> slash_query(d) == Some(typed)
            &&& (exists|i: int| 0 <= i < typed.len() && text::is_white(#[trigger] typed[i]))
                ==> slash_query(d) is None
        }),
{
    let d = DraftView { text: seq!['/'] + typed + rest, cursor: typed.len() as int + 1 };
    assert(d.text[0] == '/');
    assert(d.text.subrange(1, d.cursor) =~= typed);
}

/// A mention that is completed begins with an at sign, at the start of the draft or behind white
/// space, and reaches to the cursor without a break; what is looked for stands between the two.
pub proof fn law_mentions_begin_with_an_at_sign(c: ComposerView)
    requires
        c.wf(),
    ensures
        mention_at(c.draft) matches Some(at) ==> {
            &&& 0 <= at < c.draft.cursor
            &&& c.draft.text[at] == '@'
            &&& at == 0 || text::is_white(c.draft.text[at - 1])
            &&& forall|i: int|
                at < i < c.draft.cursor ==> chatwidget::in_mention(#[trigger] c.draft.text[i])
                    && c.draft.text[i] != '@'
        },
        mention_query(c) matches Some(query) ==> mention_at(c.draft) is Some && query
            == c.draft.text.subrange(mention_at(c.draft)->0 + 1, c.draft.cursor),
{
    at_sign_is_near(c.draft.text, c.draft.cursor);
}

/// The nearest at sign before a place.
proof fn at_sign_is_near(s: Seq<char>, i: int)
    requires
        0 <= i <= s.len(),
    ensures
        at_sign(s, i) matches Some(at) ==> {
            &&& 0 <= at < i
            &&& s[at] == '@'
            &&& forall|k: int|
                at < k < i ==> chatwidget::in_mention(#[trigger] s[k]) && s[k] != '@'
        },
    decreases i,
{
    if i > 0 && s[i - 1] != '@' && chatwidget::in_mention(s[i - 1]) {
        at_sign_is_near(s, i - 1);
    }
}

/// A file that is accepted takes the place of what was typed of the mention; the text before it,
/// with the at sign, and the text behind the cursor stay.
pub proof fn law_accepted_file_stands_in_the_draft(c: ComposerView, m: MentionView)
    requires
        c.wf(),
        c.popups.mention() == Some(m),
        0 <= m.start < m.cursor <= c.draft.text.len(),
        0 <= m.selected < m.matches.len(),
    ensures
        ({
            let path = m.matches[m.selected];
            let shown = if has_white(path) && !path.contains('"') {
                seq!['"'] + path + seq!['"']
            } else {
                path
            };
            &&& mention_accepted(c).draft.text == c.draft.text.take(m.start + 1) + shown
                + c.draft.text.skip(m.cursor) + seq![' ']
            &&& mention_accepted(c).popups.mention() is None
        }),
{
}

} // verus!
