//! The popup with the commands or files that complete the draft.

use crate::bottom_pane::approval_overlay;
use crate::bottom_pane::chat_composer::ChatComposer;
use crate::bottom_pane::popup_state::{
    EntryView, Mention, MentionView, PopupView, SlashCompletion, SlashEntry, SlashView,
};
use crate::geometry;
use crate::style;
use crate::style::{Line, Span, SpanView, Tone};
use crate::text;
use vstd::prelude::*;

verus! {

/// How many files are shown.
pub const MENTION_LIMIT: usize = 8;

/// How many commands are shown.
pub const SLASH_LIMIT: usize = 8;

/// How many rows the border takes.
pub const POPUP_BORDER_ROWS: u16 = 2;

/// How many columns the names of commands take.
pub const SLASH_COMMAND_COLUMN_WIDTH: usize = 22;

/// The popup below the draft.
#[derive(Debug)]
pub struct CompletionPopup {
    pub lines: Vec<Line>,
    pub bordered: bool,
}

/// The popup below the draft.
#[verifier::ext_equal]
pub struct CompletionView {
    pub lines: Seq<Seq<SpanView>>,
    pub bordered: bool,
}

impl View for CompletionPopup {
    type V = CompletionView;

    open spec fn view(&self) -> CompletionView {
        CompletionView { lines: style::line_views(self.lines@), bordered: self.bordered }
    }
}

/// The popup that there may be.
pub open spec fn opt_completion(o: Option<CompletionPopup>) -> Option<CompletionView> {
    match o {
        Some(p) => Some(p@),
        None => None,
    }
}

/// The tone of a row.
pub open spec fn mark_tone(selected: bool, other: Tone) -> Tone {
    if selected {
        Tone::Accent
    } else {
        other
    }
}

/// How many spaces fill the column behind a name of `bytes` bytes.
pub open spec fn padding(bytes: nat) -> nat {
    if bytes < SLASH_COMMAND_COLUMN_WIDTH {
        (SLASH_COMMAND_COLUMN_WIDTH - bytes) as nat
    } else {
        0
    }
}

/// The row of a command.
pub open spec fn command_row(e: EntryView, selected: bool) -> Seq<SpanView> {
    let name = "/"@ + e.name;
    seq![
        style::span(
            "  "@ + name + text::spaces(padding(text::byte_len(name))),
            mark_tone(selected, Tone::Plain),
        ),
        style::span(e.description, mark_tone(selected, Tone::Muted)),
    ]
}

/// The rows of the commands from `i` up to `end`.
pub open spec fn command_rows(v: SlashView, i: int, end: int) -> Seq<Seq<SpanView>>
    decreases end - i,
{
    if i < 0 || i >= end || end > v.matches.len() {
        Seq::empty()
    } else {
        seq![command_row(v.matches[i], i == v.selected)] + command_rows(v, i + 1, end)
    }
}

/// The rows of the files from `i` up to `end`.
pub open spec fn file_rows(v: MentionView, i: int, end: int) -> Seq<Seq<SpanView>>
    decreases end - i,
{
    if i < 0 || i >= end || end > v.matches.len() {
        Seq::empty()
    } else {
        seq![seq![style::span("  "@ + v.matches[i], mark_tone(i == v.selected, Tone::Plain))]]
            + file_rows(v, i + 1, end)
    }
}

/// The lesser of a count and a limit.
pub open spec fn at_most(n: nat, limit: usize) -> int {
    if n > limit {
        limit as int
    } else {
        n as int
    }
}

/// The popup for commands.
pub open spec fn slash_content(v: SlashView) -> CompletionView {
    CompletionView {
        lines: if v.matches.len() == 0 {
            seq![seq![style::span("no matching commands"@, Tone::Muted)]]
        } else {
            command_rows(v, 0, at_most(v.matches.len(), SLASH_LIMIT))
        },
        bordered: false,
    }
}

/// The popup for files.
pub open spec fn mention_content(v: MentionView) -> CompletionView {
    CompletionView {
        lines: if v.matches.len() == 0 {
            seq![seq![style::span("  no matching files"@, Tone::Muted)]]
        } else {
            file_rows(v, 0, at_most(v.matches.len(), MENTION_LIMIT))
        },
        bordered: true,
    }
}

/// The popup of a draft.
pub open spec fn completion_of(p: PopupView) -> Option<CompletionView> {
    match p.slash() {
        Some(s) => Some(slash_content(s)),
        None => match p.mention() {
            Some(m) => Some(mention_content(m)),
            None => None,
        },
    }
}

/// How many rows the popup wants.
pub open spec fn completion_height(v: CompletionView) -> int {
    v.lines.len() + (if v.bordered {
        POPUP_BORDER_ROWS as int
    } else {
        0
    })
}

/// The tone of a row.
fn tone_of(selected: bool, other: Tone) -> (r: Tone)
    ensures
        r == mark_tone(selected, other),
{
    if selected {
        Tone::Accent
    } else {
        other
    }
}

/// The spaces that fill the column behind a name.
fn fill(name: &str) -> (r: String)
    ensures
        r@ == text::spaces(padding(text::byte_len(name@))),
{
    let chars = text::chars_of(name);
    let mut left: usize = SLASH_COMMAND_COLUMN_WIDTH;
    let mut i: usize = 0;
    assert(name@.take(0) =~= Seq::<char>::empty());
    while i < chars.len()
        invariant
            i <= chars@.len(),
            chars@ == name@,
            left as nat == padding(text::byte_len(name@.take(i as int))),
        decreases chars@.len() - i,
    {
        assert(name@.take(i + 1).drop_last() =~= name@.take(i as int));
        let used: usize = text::char_width(chars[i]);
        left = if left > used {
            left - used
        } else {
            0
        };
        i += 1;
    }
    assert(name@.take(name@.len() as int) =~= name@);
    let mut out = String::new();
    let mut k: usize = 0;
    assert(out@ =~= text::spaces(0));
    while k < left
        invariant
            k <= left,
            out@ == text::spaces(k as nat),
        decreases left - k,
    {
        out.push(' ');
        assert(text::spaces((k + 1) as nat) =~= text::spaces(k as nat).push(' '));
        k += 1;
    }
    out
}

/// The row of a command.
fn command_line(e: &SlashEntry, selected: bool) -> (r: Line)
    ensures
        r@ == command_row(e@, selected),
{
    let name = approval_overlay::prefixed("/", e.name.as_str());
    let mut t = approval_overlay::prefixed("  ", &name);
    t.push_str(&fill(&name));
    let mut line = Line::empty();
    line.add(Span::of(t, tone_of(selected, Tone::Plain)));
    line.push(e.description.as_str(), tone_of(selected, Tone::Muted));
    assert(line@ =~= command_row(e@, selected));
    line
}

/// The popup for commands.
fn slash_popup(s: &SlashCompletion) -> (r: CompletionPopup)
    ensures
        r@ == slash_content(s@),
{
    let mut lines: Vec<Line> = Vec::new();
    assert(style::line_views(lines@) =~= Seq::<Seq<SpanView>>::empty());
    if s.matches.len() == 0 {
        style::add_line(&mut lines, Line::one("no matching commands", Tone::Muted));
        assert(style::line_views(lines@) =~= slash_content(s@).lines);
        return CompletionPopup { lines, bordered: false };
    }
    let end: usize = if s.matches.len() > SLASH_LIMIT {
        SLASH_LIMIT
    } else {
        s.matches.len()
    };
    let ghost goal = command_rows(s@, 0, end as int);
    let mut i: usize = 0;
    assert(goal =~= style::line_views(lines@) + command_rows(s@, 0, end as int));
    while i < end
        invariant
            i <= end <= s.matches@.len(),
            goal == style::line_views(lines@) + command_rows(s@, i as int, end as int),
        decreases end - i,
    {
        let ghost before = style::line_views(lines@);
        let line = command_line(&s.matches[i], i == s.selected);
        let ghost row = line@;
        assert(s@.matches[i as int] == s.matches@[i as int]@);
        style::add_line(&mut lines, line);
        assert(goal =~= before.push(row) + command_rows(s@, i + 1, end as int));
        i += 1;
    }
    assert(goal =~= style::line_views(lines@));
    CompletionPopup { lines, bordered: false }
}

/// The popup for files.
fn mention_popup(m: &Mention) -> (r: CompletionPopup)
    ensures
        r@ == mention_content(m@),
{
    let mut lines: Vec<Line> = Vec::new();
    assert(style::line_views(lines@) =~= Seq::<Seq<SpanView>>::empty());
    if m.matches.len() == 0 {
        style::add_line(&mut lines, Line::one("  no matching files", Tone::Muted));
        assert(style::line_views(lines@) =~= mention_content(m@).lines);
        return CompletionPopup { lines, bordered: true };
    }
    let end: usize = if m.matches.len() > MENTION_LIMIT {
        MENTION_LIMIT
    } else {
        m.matches.len()
    };
    let ghost goal = file_rows(m@, 0, end as int);
    let mut i: usize = 0;
    assert(goal =~= style::line_views(lines@) + file_rows(m@, 0, end as int));
    while i < end
        invariant
            i <= end <= m.matches@.len(),
            goal == style::line_views(lines@) + file_rows(m@, i as int, end as int),
        decreases end - i,
    {
        let ghost before = style::line_views(lines@);
        let t = approval_overlay::prefixed("  ", m.matches[i].as_str());
        let line = Line::one(&t, tone_of(i == m.selected, Tone::Plain));
        let ghost row = line@;
        assert(m@.matches[i as int] == m.matches@[i as int]@);
        style::add_line(&mut lines, line);
        assert(goal =~= before.push(row) + file_rows(m@, i + 1, end as int));
        i += 1;
    }
    assert(goal =~= style::line_views(lines@));
    CompletionPopup { lines, bordered: true }
}

impl ChatComposer {
    /// The popup below the draft.
    pub fn completion_popup_build(&self) -> (r: Option<CompletionPopup>)
        ensures
            opt_completion(r) == completion_of(self@.popups),
    {
        if let Some(s) = self.slash_popup() {
            return Some(slash_popup(s));
        }
        if let Some(m) = self.mention_popup() {
            return Some(mention_popup(m));
        }
        None
    }
}

impl CompletionPopup {
    /// A popup with the given lines.
    pub fn new(lines: Vec<Line>, bordered: bool) -> (r: Self)
        ensures
            r@ == (CompletionView { lines: style::line_views(lines@), bordered }),
    {
        CompletionPopup { lines, bordered }
    }

    /// How many rows the popup wants.
    pub fn desired_height(&self) -> (r: u16)
        ensures
            r == geometry::wrapped_rows(completion_height(self@)),
    {
        assert(style::line_views(self.lines@).len() == self.lines@.len());
        if self.bordered {
            approval_overlay::rows_with_border(self.lines.len())
        } else {
            geometry::wrap_rows(self.lines.len())
        }
    }
}

/// The popup of a draft is never higher than ten rows.
pub proof fn law_popup_is_bounded(p: PopupView)
    ensures
        completion_of(p) is Some ==> 1 <= completion_height(completion_of(p)->0) <= 10,
{
    if let Some(s) = p.slash() {
        command_rows_len(s, 0, at_most(s.matches.len(), SLASH_LIMIT));
    } else if let Some(m) = p.mention() {
        file_rows_len(m, 0, at_most(m.matches.len(), MENTION_LIMIT));
    }
}

/// Each command has a row.
proof fn command_rows_len(v: SlashView, i: int, end: int)
    requires
        0 <= i <= end <= v.matches.len(),
    ensures
        command_rows(v, i, end).len() == end - i,
    decreases end - i,
{
    if i < end {
        command_rows_len(v, i + 1, end);
    }
}

/// Each file has a row.
proof fn file_rows_len(v: MentionView, i: int, end: int)
    requires
        0 <= i <= end <= v.matches.len(),
    ensures
        file_rows(v, i, end).len() == end - i,
    decreases end - i,
{
    if i < end {
        file_rows_len(v, i + 1, end);
    }
}

} // verus!
