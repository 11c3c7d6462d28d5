//! The draft and what comes in from the keyboard: characters and pastes.

use crate::bottom_pane::chat_composer;
use crate::bottom_pane::chat_composer::{ChatComposer, ComposerView};
use crate::bottom_pane::draft;
use crate::bottom_pane::draft::{Draft, DraftView};
use crate::bottom_pane::paste_burst;
use crate::bottom_pane::paste_burst::{
    BurstView, CharDecision, FlushResult, FlushView, PasteBurst,
};
use crate::codex_shell::Platform;
use crate::text;
use vstd::prelude::*;

verus! {

/// The composer, and the characters that have not reached it yet.
#[derive(Debug)]
pub struct Editor {
    pub composer: ChatComposer,
    pub paste_burst: PasteBurst,
}

/// The composer, and the characters that have not reached it yet.
pub struct EditorView {
    pub composer: ComposerView,
    pub burst: BurstView,
}

impl View for Editor {
    type V = EditorView;

    open spec fn view(&self) -> EditorView {
        EditorView { composer: self.composer@, burst: self.paste_burst@ }
    }
}

impl EditorView {
    /// Whether the composer is well formed.
    pub open spec fn wf(self) -> bool {
        self.composer.wf()
    }
}

/// An empty draft.
pub open spec fn fresh(platform: Platform, agent: Seq<char>) -> EditorView {
    EditorView { composer: chat_composer::fresh(agent), burst: paste_burst::idle(platform) }
}

/// Another composer.
pub open spec fn with_composer(v: EditorView, c: ComposerView) -> EditorView {
    EditorView { composer: c, ..v }
}

/// Text put into the draft.
pub open spec fn with_text(v: EditorView, s: Seq<char>) -> EditorView {
    with_composer(v, chat_composer::inserted(v.composer, s))
}

/// What was withheld comes out, if nothing came for a while.
pub open spec fn paused(v: EditorView, now: u64) -> EditorView {
    let (burst, out) = paste_burst::after_flush(v.burst, now);
    let w = EditorView { burst, ..v };
    match out {
        FlushView::Paste(s) => with_text(w, s),
        FlushView::Typed(c) => with_text(w, seq![c]),
        FlushView::Nothing => w,
    }
}

/// What was withheld comes out before a key that is no plain character.
pub open spec fn flushed(v: EditorView) -> EditorView {
    let (burst, out) = paste_burst::after_modified(v.burst);
    let w = EditorView {
        burst: BurstView { buffer: burst.buffer, ..paste_burst::idle(burst.platform) },
        ..v
    };
    match out {
        Some(s) => with_text(w, s),
        None => w,
    }
}

/// Whether a character opens a completion popup: a slash in an empty draft, or an
/// at sign at the start or behind white space.
pub open spec fn introduces(c: char, d: DraftView) -> bool {
    if c == '/' {
        d.text.len() == 0 && d.cursor == 0
    } else if c == '@' {
        d.cursor == 0 || text::is_white(d.text[d.cursor - 1])
    } else {
        false
    }
}

/// A character collected.
pub open spec fn collected(v: EditorView, c: char, now: u64) -> EditorView {
    EditorView {
        burst: paste_burst::extended(BurstView { buffer: v.burst.buffer.push(c), ..v.burst }, now),
        ..v
    }
}

/// A character behind characters that were already typed and may belong to a
/// paste: where they look pasted, they leave the draft and are collected with it.
pub open spec fn regrouped(v: EditorView, count: int, c: char, now: u64) -> EditorView {
    let d = v.composer.draft;
    let before = d.text.take(d.cursor);
    let start = paste_burst::retro_start(before, count);
    let run = before.skip(start);
    if paste_burst::looks_pasted(run) {
        collected(
            EditorView {
                composer: chat_composer::with_draft(
                    v.composer,
                    draft::without_range(d, start, d.cursor),
                ),
                burst: paste_burst::extended(
                    BurstView { buffer: v.burst.buffer + run, active: true, ..v.burst },
                    now,
                ),
            },
            c,
            now,
        )
    } else {
        with_text(v, seq![c])
    }
}

/// A character once it is decided what it is.
pub open spec fn placed(v: EditorView, decision: Option<CharDecision>, c: char, now: u64) -> EditorView {
    match decision {
        None => with_text(v, seq![c]),
        Some(CharDecision::RetainFirstChar) => v,
        Some(CharDecision::BeginBufferFromPending) => collected(v, c, now),
        Some(CharDecision::BufferAppend) => collected(v, c, now),
        Some(CharDecision::BeginBuffer(count)) => regrouped(v, count as int, c, now),
    }
}

/// A plain character. One that opens a popup is typed at once; others may be held
/// back until it is clear whether they belong to a paste.
pub open spec fn typed(v: EditorView, c: char, now: u64) -> EditorView {
    if introduces(c, v.composer.draft) {
        with_text(EditorView { burst: paste_burst::idle(v.burst.platform), ..v }, seq![c])
    } else if c as u32 <= 127 {
        let (burst, d) = paste_burst::after_char(v.burst, c, now);
        placed(EditorView { burst, ..v }, Some(d), c, now)
    } else {
        let (burst, d) = paste_burst::after_char_no_hold(v.burst, now);
        placed(EditorView { burst, ..v }, d, c, now)
    }
}

/// A text that was pasted as a whole: what was withheld comes out first, and the
/// detector starts anew.
pub open spec fn pasted(v: EditorView, s: Seq<char>) -> EditorView {
    EditorView { burst: paste_burst::idle(v.burst.platform), ..with_text(flushed(v), s) }
}

/// The composer after its draft was taken for sending.
pub open spec fn taken(c: ComposerView) -> ComposerView {
    ComposerView {
        history: chat_composer::kept(c.history, c.draft.text),
        ..chat_composer::emptied(c)
    }
}

/// The draft taken for sending, with all that was withheld.
pub open spec fn line_taken(v: EditorView) -> EditorView {
    with_composer(flushed(v), taken(flushed(v).composer))
}

/// A new line that belongs to what is being collected, or goes into the draft.
pub open spec fn line_broken(v: EditorView, now: u64) -> EditorView {
    if paste_burst::busy(v.burst) {
        collected(v, '\n', now)
    } else {
        with_text(v, seq!['\n'])
    }
}

/// Enter while a paste may be under way: a new line, and the time begins anew in
/// which enter does not send.
pub open spec fn enter_broken(v: EditorView, now: u64) -> EditorView {
    if paste_burst::busy(v.burst) {
        collected(v, '\n', now)
    } else {
        let w = with_text(v, seq!['\n']);
        EditorView { burst: paste_burst::extended(w.burst, now), ..w }
    }
}

/// Whether a character opens a completion popup, typed at a byte of a text.
pub fn is_completion_introducer(ch: char, s: &str, cursor: usize) -> (r: bool)
    ensures
        r == introduces(ch, draft::at_byte(s@, cursor as nat)),
{
    opens_popup(ch, &Draft::at_byte(s, cursor))
}

/// Whether a character opens a completion popup.
fn opens_popup(ch: char, d: &Draft) -> (r: bool)
    requires
        d@.wf(),
    ensures
        r == introduces(ch, d@),
{
    if ch == '/' {
        d.text.len() == 0 && d.cursor == 0
    } else if ch == '@' {
        d.cursor == 0 || text::is_whitespace(d.text[d.cursor - 1])
    } else {
        false
    }
}

/// The characters before the cursor.
fn chars_before(d: &Draft) -> (r: Vec<char>)
    requires
        d@.wf(),
    ensures
        r@ == d@.text.take(d@.cursor),
{
    let mut out: Vec<char> = Vec::new();
    let mut i: usize = 0;
    while i < d.cursor
        invariant
            i <= d.cursor <= d.text@.len(),
            out@ == d.text@.take(i as int),
        decreases d.cursor - i,
    {
        out.push(d.text[i]);
        assert(d.text@.take(i + 1) =~= d.text@.take(i as int).push(d.text@[i as int]));
        i += 1;
    }
    out
}

impl Editor {
    /// An empty draft.
    pub fn new(platform: Platform, agent: &str) -> (r: Self)
        ensures
            r@ == fresh(platform, agent@),
            r@.wf(),
    {
        Editor { composer: ChatComposer::new(agent), paste_burst: PasteBurst::new(platform) }
    }

    /// Lets go what was withheld, if nothing came for a while.
    pub fn flush_paste_burst_if_due(&mut self, now: u64)
        requires
            old(self)@.wf(),
        ensures
            final(self)@ == paused(old(self)@, now),
            final(self)@.wf(),
    {
        match self.paste_burst.flush_if_due(now) {
            FlushResult::Paste(chars) => self.composer.insert_chars(&chars),
            FlushResult::Typed(c) => self.composer.insert(c),
            FlushResult::Nothing => {},
        }
    }

    /// Lets go what was withheld before a key that is no plain character.
    pub fn flush_paste_burst_before_modified_input(&mut self)
        requires
            old(self)@.wf(),
        ensures
            final(self)@ == flushed(old(self)@),
            final(self)@.wf(),
    {
        let out = self.paste_burst.flush_before_modified_input();
        if let Some(chars) = out {
            self.composer.insert_chars(&chars);
        }
        self.paste_burst.clear_window_after_non_char();
    }

    /// Takes a plain character.
    pub fn insert_plain_char(&mut self, ch: char, now: u64)
        requires
            old(self)@.wf(),
        ensures
            final(self)@ == typed(old(self)@, ch, now),
            final(self)@.wf(),
    {
        if opens_popup(ch, &self.composer.draft) {
            self.paste_burst.clear_after_explicit_paste();
            self.composer.insert(ch);
            return ;
        }
        let decision = if ch as u32 <= 127 {
            Some(self.paste_burst.on_plain_char(ch, now))
        } else {
            self.paste_burst.on_plain_char_no_hold(now)
        };
        match decision {
            None => self.composer.insert(ch),
            Some(CharDecision::RetainFirstChar) => {},
            Some(CharDecision::BeginBufferFromPending) => {
                self.paste_burst.append_char_to_buffer(ch, now);
            },
            Some(CharDecision::BufferAppend) => {
                self.paste_burst.append_char_to_buffer(ch, now);
            },
            Some(CharDecision::BeginBuffer(count)) => {
                self.regroup(count, ch, now);
            },
        }
    }

    /// Takes a character behind characters that may belong to a paste.
    fn regroup(&mut self, count: u16, ch: char, now: u64)
        requires
            old(self)@.wf(),
        ensures
            final(self)@ == regrouped(old(self)@, count as int, ch, now),
            final(self)@.wf(),
    {
        let before = chars_before(&self.composer.draft);
        match self.paste_burst.decide_begin_buffer(now, &before, count as usize) {
            Some(grab) => {
                let _ = self.composer.remove_range_before_cursor(grab.start);
                self.paste_burst.append_char_to_buffer(ch, now);
            },
            None => self.composer.insert(ch),
        }
    }

    /// Takes the draft for sending, with all that was withheld.
    pub fn take_line(&mut self) -> (r: String)
        requires
            old(self)@.wf(),
        ensures
            r@ == flushed(old(self)@).composer.draft.text,
            final(self)@ == line_taken(old(self)@),
            final(self)@.wf(),
    {
        self.flush_paste_burst_before_modified_input();
        self.composer.take_text()
    }

    /// Takes a text that was pasted as a whole.
    pub fn paste(&mut self, s: &str)
        requires
            old(self)@.wf(),
        ensures
            final(self)@ == pasted(old(self)@, s@),
            final(self)@.wf(),
    {
        self.flush_paste_burst_before_modified_input();
        self.composer.insert_text(s);
        self.paste_burst.clear_after_explicit_paste();
    }

    /// Starts a new line.
    pub fn break_line(&mut self, now: u64)
        requires
            old(self)@.wf(),
        ensures
            final(self)@ == line_broken(old(self)@, now),
            final(self)@.wf(),
    {
        if !self.paste_burst.append_newline_if_active(now) {
            self.composer.insert_newline();
        }
    }

    /// Starts a new line because a paste may be under way.
    pub fn break_line_for_paste(&mut self, now: u64)
        requires
            old(self)@.wf(),
        ensures
            final(self)@ == enter_broken(old(self)@, now),
            final(self)@.wf(),
    {
        if !self.paste_burst.append_newline_if_active(now) {
            self.composer.insert_newline();
            self.paste_burst.extend_window(now);
        }
    }
}

/// All characters of the draft and all that are withheld, in whatever order.
pub open spec fn characters(v: EditorView) -> vstd::multiset::Multiset<char> {
    v.composer.draft.text.to_multiset().add(paste_burst::withheld(v.burst).to_multiset())
}

/// Text that is put into a draft adds its characters to those of the draft.
proof fn inserting_adds(d: DraftView, added: Seq<char>)
    requires
        d.wf(),
    ensures
        draft::with_inserted(d, added).text.to_multiset() == d.text.to_multiset().add(
            added.to_multiset(),
        ),
{
    let front = d.text.take(d.cursor);
    let back = d.text.skip(d.cursor);
    assert(d.text =~= front + back);
    vstd::seq_lib::lemma_multiset_commutative(front, back);
    vstd::seq_lib::lemma_multiset_commutative(front, added);
    vstd::seq_lib::lemma_multiset_commutative(front + added, back);
    assert(draft::with_inserted(d, added).text.to_multiset() =~= d.text.to_multiset().add(
        added.to_multiset(),
    ));
}

/// What is cut out of a draft is missing from it.
proof fn cutting_takes(d: DraftView, from: int)
    requires
        d.wf(),
        0 <= from <= d.cursor,
    ensures
        d.text.to_multiset() == draft::without_range(d, from, d.cursor).text.to_multiset().add(
            d.text.take(d.cursor).skip(from).to_multiset(),
        ),
{
    let front = d.text.take(from);
    let run = d.text.take(d.cursor).skip(from);
    let back = d.text.skip(d.cursor);
    assert(d.text =~= front + run + back);
    vstd::seq_lib::lemma_multiset_commutative(front, back);
    vstd::seq_lib::lemma_multiset_commutative(front, run);
    vstd::seq_lib::lemma_multiset_commutative(front + run, back);
    assert(d.text.to_multiset() =~= (front + back).to_multiset().add(run.to_multiset()));
}

/// No character gets lost and none is made up: after a plain character, the draft with
/// all that is withheld holds the characters from before and the new one. This asks
/// that the character does not take the place of one that is held back, and that
/// nothing is withheld when a character opens a popup.
pub proof fn law_no_character_is_lost(v: EditorView, c: char, now: u64)
    requires
        v.wf(),
        introduces(c, v.composer.draft) ==> paste_burst::withheld(v.burst).len() == 0,
        !introduces(c, v.composer.draft) && c as u32 <= 127 && v.burst.pending is Some
            ==> paste_burst::after_char(v.burst, c, now).1 != CharDecision::RetainFirstChar,
    ensures
        characters(typed(v, c, now)) == characters(v).insert(c),
{
    broadcast use {
        vstd::seq_lib::group_seq_properties,
        vstd::multiset::group_multiset_axioms,
    };

    let d = v.composer.draft;
    let w = typed(v, c, now);
    let held = paste_burst::withheld(v.burst);
    inserting_adds(d, seq![c]);
    assert(seq![c] =~= Seq::<char>::empty().push(c));
    assert(seq![c].to_multiset() =~= vstd::multiset::Multiset::empty().insert(c));
    let burst = if c as u32 <= 127 {
        paste_burst::after_char(v.burst, c, now).0
    } else {
        paste_burst::after_char_no_hold(v.burst, now).0
    };
    let decision = if c as u32 <= 127 {
        Some(paste_burst::after_char(v.burst, c, now).1)
    } else {
        paste_burst::after_char_no_hold(v.burst, now).1
    };
    let taken_in = paste_burst::withheld(w.burst);
    if introduces(c, d) {
        assert(held =~= Seq::<char>::empty());
        assert(taken_in =~= Seq::<char>::empty());
    } else if let Some(CharDecision::BeginBuffer(count)) = decision {
        let before = d.text.take(d.cursor);
        let start = paste_burst::retro_start(before, count as int);
        let run = before.skip(start);
        if paste_burst::looks_pasted(run) {
            cutting_takes(d, start);
            let kept = v.burst.buffer;
            vstd::seq_lib::lemma_multiset_commutative(kept, run);
            match v.burst.pending {
                Some(h) => {
                    assert(taken_in =~= (kept + run).push(c).push(h.ch));
                    assert(held =~= kept.push(h.ch));
                },
                None => {
                    assert(taken_in =~= (kept + run).push(c));
                },
            }
        }
    } else {
        match v.burst.pending {
            Some(h) => {
                assert(held =~= v.burst.buffer.push(h.ch));
            },
            None => {},
        }
        match w.burst.pending {
            Some(h) => {
                assert(taken_in =~= w.burst.buffer.push(h.ch));
            },
            None => {},
        }
    }
    assert(characters(w) =~= characters(v).insert(c));
}

} // verus!
