//! Styled text: spans that carry a tone, and lines made of them.

use crate::text;
use crate::width;
use vstd::prelude::*;

verus! {

/// How a span is painted.
#[derive(Debug, Clone, Copy, PartialEq, Eq, Structural)]
pub enum Tone {
    Plain,
    Dim,
    Bold,
    Accent,
    Italic,
    Muted,
    Cyan,
    Green,
    Red,
    Yellow,
    Magenta,
    White,
    YellowBold,
    CyanBold,
    WhiteBold,
    MutedBold,
    GreenBold,
    RedBold,
    /// The character under the cursor.
    Cursor,
}

/// The colors of tones.
#[derive(Debug, Clone, Copy, PartialEq, Eq, Structural)]
pub enum Color {
    /// The color of the terminal.
    Default,
    Cyan,
    Green,
    Red,
    Yellow,
    Magenta,
    White,
    DarkGray,
}

/// What a tone looks like.
#[derive(Debug, Clone, Copy, PartialEq, Eq, Structural)]
pub struct Paint {
    pub foreground: Color,
    pub background: Color,
    pub bold: bool,
    pub dim: bool,
    pub italic: bool,
}

/// A color on the background of the terminal.
pub open spec fn in_color(foreground: Color) -> Paint {
    Paint { foreground, background: Color::Default, bold: false, dim: false, italic: false }
}

/// A color on the background of the terminal, in bold.
pub open spec fn in_bold(foreground: Color) -> Paint {
    Paint { bold: true, ..in_color(foreground) }
}

/// What a tone looks like.
pub open spec fn paint_of(tone: Tone) -> Paint {
    match tone {
        Tone::Plain => in_color(Color::Default),
        Tone::Dim => Paint { dim: true, ..in_color(Color::Default) },
        Tone::Bold => in_bold(Color::Default),
        Tone::Accent => in_color(Color::Cyan),
        Tone::Italic => Paint { italic: true, ..in_color(Color::Default) },
        Tone::Muted => in_color(Color::DarkGray),
        Tone::Cyan => in_color(Color::Cyan),
        Tone::Green => in_color(Color::Green),
        Tone::Red => in_color(Color::Red),
        Tone::Yellow => in_color(Color::Yellow),
        Tone::Magenta => in_color(Color::Magenta),
        Tone::White => in_color(Color::White),
        Tone::YellowBold => in_bold(Color::Yellow),
        Tone::CyanBold => in_bold(Color::Cyan),
        Tone::WhiteBold => in_bold(Color::White),
        Tone::MutedBold => in_bold(Color::DarkGray),
        Tone::GreenBold => in_bold(Color::Green),
        Tone::RedBold => in_bold(Color::Red),
        Tone::Cursor => Paint { background: Color::DarkGray, ..in_color(Color::Default) },
    }
}

/// A color on the background of the terminal.
fn colored(foreground: Color) -> (r: Paint)
    ensures
        r == in_color(foreground),
{
    Paint { foreground, background: Color::Default, bold: false, dim: false, italic: false }
}

/// A color on the background of the terminal, in bold.
fn bold(foreground: Color) -> (r: Paint)
    ensures
        r == in_bold(foreground),
{
    Paint { foreground, background: Color::Default, bold: true, dim: false, italic: false }
}

impl Tone {
    /// What the tone looks like.
    pub fn paint(self) -> (r: Paint)
        ensures
            r == paint_of(self),
    {
        match self {
            Tone::Plain => colored(Color::Default),
            Tone::Dim => Paint { dim: true, ..colored(Color::Default) },
            Tone::Bold => bold(Color::Default),
            Tone::Accent => colored(Color::Cyan),
            Tone::Italic => Paint { italic: true, ..colored(Color::Default) },
            Tone::Muted => colored(Color::DarkGray),
            Tone::Cyan => colored(Color::Cyan),
            Tone::Green => colored(Color::Green),
            Tone::Red => colored(Color::Red),
            Tone::Yellow => colored(Color::Yellow),
            Tone::Magenta => colored(Color::Magenta),
            Tone::White => colored(Color::White),
            Tone::YellowBold => bold(Color::Yellow),
            Tone::CyanBold => bold(Color::Cyan),
            Tone::WhiteBold => bold(Color::White),
            Tone::MutedBold => bold(Color::DarkGray),
            Tone::GreenBold => bold(Color::Green),
            Tone::RedBold => bold(Color::Red),
            Tone::Cursor => Paint { background: Color::DarkGray, ..colored(Color::Default) },
        }
    }
}

/// A piece of text in one tone.
#[derive(Debug)]
pub struct Span {
    pub text: String,
    pub tone: Tone,
}

/// A piece of text in one tone.
#[verifier::ext_equal]
pub struct SpanView {
    pub text: Seq<char>,
    pub tone: Tone,
}

impl View for Span {
    type V = SpanView;

    open spec fn view(&self) -> SpanView {
        SpanView { text: self.text@, tone: self.tone }
    }
}

/// A line of spans.
#[derive(Debug)]
pub struct Line {
    pub spans: Vec<Span>,
}

/// What the spans hold.
pub open spec fn span_views(v: Seq<Span>) -> Seq<SpanView> {
    v.map_values(|s: Span| s@)
}

impl View for Line {
    type V = Seq<SpanView>;

    open spec fn view(&self) -> Seq<SpanView> {
        span_views(self.spans@)
    }
}

/// What the lines hold.
pub open spec fn line_views(v: Seq<Line>) -> Seq<Seq<SpanView>> {
    v.map_values(|l: Line| l@)
}

/// A span.
pub open spec fn span(t: Seq<char>, tone: Tone) -> SpanView {
    SpanView { text: t, tone }
}

impl Span {
    /// A span of the given text.
    pub fn new(s: &str, tone: Tone) -> (r: Self)
        ensures
            r@ == span(s@, tone),
    {
        Span { text: s.to_string(), tone }
    }

    /// A span that takes over the given text.
    pub fn of(text: String, tone: Tone) -> (r: Self)
        ensures
            r@ == span(text@, tone),
    {
        Span { text, tone }
    }

    /// The same span again.
    pub fn copy(&self) -> (r: Self)
        ensures
            r@ == self@,
    {
        Span { text: self.text.as_str().to_string(), tone: self.tone }
    }
}

impl Line {
    /// A line without text.
    pub fn empty() -> (r: Self)
        ensures
            r@ == Seq::<SpanView>::empty(),
    {
        let r = Line { spans: Vec::new() };
        assert(r@ =~= Seq::<SpanView>::empty());
        r
    }

    /// A line of one span.
    pub fn one(s: &str, tone: Tone) -> (r: Self)
        ensures
            r@ == seq![span(s@, tone)],
    {
        let mut r = Line::empty();
        r.add(Span::new(s, tone));
        assert(r@ =~= seq![span(s@, tone)]);
        r
    }

    /// Puts a span behind the line.
    pub fn add(&mut self, span: Span)
        ensures
            final(self)@ == old(self)@.push(span@),
    {
        let ghost before = self.spans@;
        self.spans.push(span);
        assert(span_views(self.spans@) =~= span_views(before).push(span@));
    }

    /// Puts text behind the line.
    pub fn push(&mut self, s: &str, tone: Tone)
        ensures
            final(self)@ == old(self)@.push(span(s@, tone)),
    {
        self.add(Span::new(s, tone));
    }

    /// The same line again.
    pub fn copy(&self) -> (r: Self)
        ensures
            r@ == self@,
    {
        let mut out = Line::empty();
        let mut i: usize = 0;
        assert(out@ =~= self@.take(0));
        while i < self.spans.len()
            invariant
                i <= self.spans@.len(),
                out@ == self@.take(i as int),
            decreases self.spans@.len() - i,
        {
            out.add(self.spans[i].copy());
            assert(self@.take(i + 1) =~= self@.take(i as int).push(self@[i as int]));
            i += 1;
        }
        assert(self@.take(self@.len() as int) =~= self@);
        out
    }
}

/// The text of a line without its tones.
pub open spec fn plain(spans: Seq<SpanView>) -> Seq<char>
    decreases spans.len(),
{
    if spans.len() == 0 {
        Seq::empty()
    } else {
        plain(spans.drop_last()) + spans.last().text
    }
}

/// Puts a line behind others.
pub proof fn line_views_push(v: Seq<Line>, line: Line)
    ensures
        line_views(v.push(line)) == line_views(v).push(line@),
{
    assert(line_views(v.push(line)) =~= line_views(v).push(line@));
}

/// Puts a line behind others.
pub fn add_line(lines: &mut Vec<Line>, line: Line)
    ensures
        line_views(final(lines)@) == line_views(old(lines)@).push(line@),
{
    proof {
        line_views_push(lines@, line);
    }
    lines.push(line);
}

impl Line {
    /// The text of the line without its tones.
    pub fn to_text(&self) -> (r: String)
        ensures
            r@ == plain(self@),
    {
        let mut out = String::new();
        let mut i: usize = 0;
        assert(self@.take(0) =~= Seq::<SpanView>::empty());
        assert(out@ =~= plain(self@.take(0)));
        while i < self.spans.len()
            invariant
                i <= self.spans@.len(),
                out@ == plain(self@.take(i as int)),
            decreases self.spans@.len() - i,
        {
            out.push_str(self.spans[i].text.as_str());
            assert(self@.take(i + 1).drop_last() =~= self@.take(i as int));
            i += 1;
        }
        assert(self@.take(self@.len() as int) =~= self@);
        out
    }
}

// ---------------------------------------------------------------------------
// Lines that are too long
// ---------------------------------------------------------------------------

/// The leading characters of a text whose widths add up to at most `room`,
/// counted on from the character at `i`.
pub open spec fn fitting(s: Seq<char>, i: int, room: int) -> int
    decreases s.len() - i,
{
    if i < 0 || i >= s.len() || width::char_columns(s[i]) > room {
        i
    } else {
        fitting(s, i + 1, room - width::char_columns(s[i]))
    }
}

/// The columns that the characters from `i` up to `end` take one by one.
pub open spec fn columns(s: Seq<char>, i: int, end: int) -> int
    decreases end - i,
{
    if i < 0 || i >= end || end > s.len() {
        0
    } else {
        width::char_columns(s[i]) + columns(s, i + 1, end)
    }
}

/// The spans from `k` on, cut to `room` columns, with an ellipsis where something
/// is left out.
pub open spec fn cut_spans(spans: Seq<SpanView>, k: int, room: int) -> Seq<SpanView>
    decreases spans.len() - k,
{
    if k < 0 || k >= spans.len() {
        Seq::empty()
    } else {
        let s = spans[k].text;
        let n = fitting(s, 0, room);
        if n < s.len() {
            seq![span(s.take(n) + "…"@, spans[k].tone)]
        } else {
            seq![spans[k]] + cut_spans(spans, k + 1, room - columns(s, 0, n))
        }
    }
}

/// A line that fits into `width` columns: the line itself where it fits, else its
/// beginning and an ellipsis.
pub open spec fn shortened(spans: Seq<SpanView>, width: int) -> Seq<SpanView> {
    if line_fits(spans, 0, width) {
        spans
    } else if width <= 0 {
        Seq::empty()
    } else {
        cut_spans(spans, 0, width - 1)
    }
}

/// Whether the spans from `k` on take at most `room` columns.
pub open spec fn line_fits(spans: Seq<SpanView>, k: int, room: int) -> bool
    decreases spans.len() - k,
{
    if k < 0 || k >= spans.len() {
        true
    } else {
        let s = spans[k].text;
        let n = fitting(s, 0, room);
        n >= s.len() && line_fits(spans, k + 1, room - columns(s, 0, n))
    }
}

/// How many leading characters fit, and how many columns are left behind them.
fn fit_chars(s: &Vec<char>, room: usize) -> (r: (usize, usize))
    ensures
        r.0 as int == fitting(s@, 0, room as int),
        r.0 <= s@.len(),
        r.1 as int == room - columns(s@, 0, r.0 as int),
{
    let mut i: usize = 0;
    let mut left: usize = room;
    while i < s.len()
        invariant
            i <= s@.len(),
            left as int == room - columns(s@, 0, i as int),
            fitting(s@, i as int, left as int) == fitting(s@, 0, room as int),
        decreases s@.len() - i,
    {
        let w: usize = width::char_width(s[i]);
        if w > left {
            return (i, left);
        }
        proof {
            columns_extend(s@, 0, i as int);
        }
        left = left - w;
        i += 1;
    }
    (i, left)
}

/// One more character adds its width.
proof fn columns_extend(s: Seq<char>, i: int, end: int)
    requires
        0 <= i <= end < s.len(),
    ensures
        columns(s, i, end + 1) == columns(s, i, end) + width::char_columns(s[end]),
    decreases end - i,
{
    if i < end {
        columns_extend(s, i + 1, end);
    } else {
        reveal_with_fuel(columns, 2);
    }
}

/// Cuts a line that is too long to the given number of columns.
pub fn truncate_line_with_ellipsis_if_overflow(line: Line, width: usize) -> (r: Line)
    ensures
        r@ == shortened(line@, width as int),
{
    let ghost all = line@;
    let mut left: usize = width;
    let mut k: usize = 0;
    let mut fits = true;
    while k < line.spans.len()
        invariant_except_break
            fits,
            line_fits(all, k as int, left as int) == line_fits(all, 0, width as int),
        invariant
            k <= line.spans@.len(),
            all == line@,
            left <= width,
        ensures
            fits == line_fits(all, 0, width as int),
        decreases line.spans@.len() - k,
    {
        let chars = text::chars_of(line.spans[k].text.as_str());
        assert(all[k as int].text == chars@);
        let (n, rest): (usize, usize) = fit_chars(&chars, left);
        if n < chars.len() {
            fits = false;
            break;
        }
        proof {
            columns_nonneg(chars@, 0, n as int);
        }
        left = rest;
        k += 1;
    }
    if fits {
        return line;
    }
    let mut out = Line::empty();
    if width == 0 {
        return out;
    }
    let mut left: usize = width - 1;
    let mut k: usize = 0;
    let ghost goal = cut_spans(all, 0, width - 1);
    assert(out@ + cut_spans(all, 0, width - 1) =~= goal);
    while k < line.spans.len()
        invariant
            k <= line.spans@.len(),
            all == line@,
            left < width,
            out@ + cut_spans(all, k as int, left as int) == goal,
            goal == shortened(all, width as int),
        decreases line.spans@.len() - k,
    {
        let chars = text::chars_of(line.spans[k].text.as_str());
        assert(all[k as int].text == chars@);
        let (n, rest): (usize, usize) = fit_chars(&chars, left);
        let ghost before = out@;
        if n < chars.len() {
            let mut cut = text::string_of_range(&chars, 0, n);
            assert(cut@ =~= chars@.take(n as int));
            cut.push_str("…");
            out.add(Span::of(cut, line.spans[k].tone));
            assert(out@ =~= before + cut_spans(all, k as int, left as int));
            return out;
        }
        proof {
            columns_nonneg(chars@, 0, n as int);
        }
        out.add(line.spans[k].copy());
        assert(before + cut_spans(all, k as int, left as int) =~= out@ + cut_spans(
            all,
            k + 1,
            rest as int,
        ));
        left = rest;
        k += 1;
    }
    assert(out@ + cut_spans(all, k as int, left as int) =~= out@);
    out
}

/// Widths add up to something that is not negative.
proof fn columns_nonneg(s: Seq<char>, i: int, end: int)
    ensures
        columns(s, i, end) >= 0,
    decreases end - i,
{
    if 0 <= i < end <= s.len() {
        columns_nonneg(s, i + 1, end);
    }
}

/// A line that is cut keeps its beginning: all spans that are left but the last
/// are the spans of the line, in order.
pub proof fn law_cut_keeps_beginning(spans: Seq<SpanView>, k: int, room: int)
    requires
        0 <= k <= spans.len(),
    ensures
        cut_spans(spans, k, room).len() <= spans.len() - k,
        forall|j: int|
            0 <= j < cut_spans(spans, k, room).len() - 1 ==> #[trigger] cut_spans(
                spans,
                k,
                room,
            )[j] == spans[k + j],
    decreases spans.len() - k,
{
    if k < spans.len() {
        let s = spans[k].text;
        let n = fitting(s, 0, room);
        if n >= s.len() {
            let rest = room - columns(s, 0, n);
            law_cut_keeps_beginning(spans, k + 1, rest);
            let tail = cut_spans(spans, k + 1, rest);
            assert forall|j: int| 0 <= j < cut_spans(spans, k, room).len() - 1 implies #[trigger] cut_spans(
                spans,
                k,
                room,
            )[j] == spans[k + j] by {
                if j > 0 {
                    assert(tail[j - 1] == spans[k + 1 + (j - 1)]);
                }
            }
        }
    }
}

} // verus!
