//! The row that tells what the focused agent is doing.

use crate::agent;
use crate::agent::AgentStatus;
use crate::clock;
use crate::geometry;
use crate::geometry::Rect;
use crate::style;
use crate::style::{Line, Span, SpanView, Tone};
use crate::text;
use crate::width;
use vstd::prelude::*;

verus! {

/// How many rows of details are shown.
pub const STATUS_DETAILS_DEFAULT_MAX_LINES: usize = 3;

/// After how many milliseconds the row moves on while the agent works.
pub const STATUS_FRAME_MS: u64 = 32;

/// What stands before the details.
pub const DETAILS_PREFIX: &'static str = "  └ ";

/// The row that tells what an agent is doing.
#[derive(Debug)]
pub struct StatusIndicatorWidget {
    pub status: AgentStatus,
    pub started_at: Option<u64>,
    pub details: Option<String>,
    pub details_max_lines: usize,
    pub inline_message: Option<String>,
}

/// The row that tells what an agent is doing.
#[verifier::ext_equal]
pub struct StatusView {
    pub status: AgentStatus,
    pub started_at: Option<u64>,
    pub details: Option<Seq<char>>,
    pub details_max_lines: int,
    pub inline_message: Option<Seq<char>>,
}

impl View for StatusIndicatorWidget {
    type V = StatusView;

    open spec fn view(&self) -> StatusView {
        StatusView {
            status: self.status,
            started_at: self.started_at,
            details: text::opt_view(self.details),
            details_max_lines: self.details_max_lines as int,
            inline_message: text::opt_view(self.inline_message),
        }
    }
}

/// What the row calls the work.
pub open spec fn header_text(status: AgentStatus) -> Seq<char> {
    match status {
        AgentStatus::Queued => "Queued"@,
        AgentStatus::Error => "Error"@,
        AgentStatus::RunningTool => "Running tool"@,
        AgentStatus::DebugMode => "Debugging"@,
        _ => "Working"@,
    }
}

/// Whether there is a row at all.
pub open spec fn is_visible(status: AgentStatus) -> bool {
    agent::is_running(status) || status == AgentStatus::Queued || status == AgentStatus::Error
}

/// A number with at least two digits.
pub open spec fn two_digits(n: nat) -> Seq<char> {
    if n < 10 {
        "0"@ + text::decimal_of(n)
    } else {
        text::decimal_of(n)
    }
}

/// A time in seconds, minutes and hours.
pub open spec fn elapsed_text(secs: nat) -> Seq<char> {
    if secs < 60 {
        text::decimal_of(secs) + "s"@
    } else if secs < 3600 {
        text::decimal_of(secs / 60) + "m "@ + two_digits(secs % 60) + "s"@
    } else {
        text::decimal_of(secs / 3600) + "h "@ + two_digits(secs % 3600 / 60) + "m "@ + two_digits(
            secs % 60,
        ) + "s"@
    }
}

/// A number with at least two digits.
fn two_digit_text(n: u64) -> (r: String)
    ensures
        r@ == two_digits(n as nat),
{
    if n < 10 {
        let mut out = "0".to_string();
        out.push_str(&text::decimal(n));
        out
    } else {
        text::decimal(n)
    }
}

/// A time in seconds, minutes and hours.
pub fn fmt_elapsed_compact(elapsed_secs: u64) -> (r: String)
    ensures
        r@ == elapsed_text(elapsed_secs as nat),
{
    if elapsed_secs < 60 {
        let mut out = text::decimal(elapsed_secs);
        out.push_str("s");
        return out;
    }
    if elapsed_secs < 3600 {
        let mut out = text::decimal(elapsed_secs / 60);
        out.push_str("m ");
        out.push_str(&two_digit_text(elapsed_secs % 60));
        out.push_str("s");
        return out;
    }
    let mut out = text::decimal(elapsed_secs / 3600);
    out.push_str("h ");
    out.push_str(&two_digit_text(elapsed_secs % 3600 / 60));
    out.push_str("m ");
    out.push_str(&two_digit_text(elapsed_secs % 60));
    out.push_str("s");
    out
}

/// Text without white space around it, unless nothing is left.
pub open spec fn kept(o: Option<Seq<char>>) -> Option<Seq<char>> {
    match o {
        Some(t) => if text::trimmed(t).len() == 0 {
            None
        } else {
            Some(text::trimmed(t))
        },
        None => None,
    }
}

/// Text without white space around it, unless nothing is left.
fn keep(o: Option<String>) -> (r: Option<String>)
    ensures
        text::opt_view(r) == kept(text::opt_view(o)),
{
    match o {
        Some(t) => {
            let cut = text::trim(t.as_str());
            if cut.as_str().is_empty() {
                None
            } else {
                Some(cut)
            }
        },
        None => None,
    }
}

/// How many seconds an agent has been at it.
pub open spec fn seconds_since(started_at: Option<u64>, now: u64) -> nat {
    match started_at {
        Some(t) => (clock::elapsed(now, t) / clock::NANOS_PER_SECOND) as nat,
        None => 0,
    }
}

/// How the rows of details end where there are too many: the last one is cut and
/// ends in an ellipsis.
pub open spec fn cut_row(row: Seq<SpanView>, room: int) -> Seq<SpanView> {
    if row.len() == 0 {
        row
    } else {
        let last = row.last().text;
        row.update(
            row.len() - 1,
            style::span(
                last.take(
                    if room < last.len() {
                        room
                    } else {
                        last.len() as int
                    },
                ) + "…"@,
                Tone::Dim,
            ),
        )
    }
}

/// How many characters stay of the last row of details.
pub open spec fn details_room(columns: u16) -> int {
    let room = columns - width::display_width(DETAILS_PREFIX@) - 1;
    if room > 0 {
        room
    } else {
        0
    }
}

/// The rows of details, where `wrapped` holds them all.
pub open spec fn detail_rows(v: StatusView, wrapped: Seq<Seq<SpanView>>, columns: u16) -> Seq<
    Seq<SpanView>,
> {
    if v.details is None || columns == 0 {
        Seq::empty()
    } else if wrapped.len() > v.details_max_lines {
        let top = wrapped.take(v.details_max_lines);
        if top.len() == 0 {
            top
        } else {
            top.update(top.len() - 1, cut_row(top.last(), details_room(columns)))
        }
    } else {
        wrapped
    }
}

/// What stands behind the header while the agent works.
pub open spec fn time_spans(status: AgentStatus, secs: nat) -> Seq<SpanView> {
    if agent::is_running(status) {
        seq![
            style::span(" "@, Tone::Plain),
            style::span("("@ + elapsed_text(secs) + " • "@, Tone::Dim),
            style::span("esc"@, Tone::Plain),
            style::span(" to interrupt)"@, Tone::Dim),
        ]
    } else {
        Seq::empty()
    }
}

/// What stands at the end of the row.
pub open spec fn message_spans(message: Option<Seq<char>>) -> Seq<SpanView> {
    match message {
        Some(m) => seq![style::span(" · "@, Tone::Dim), style::span(m, Tone::Dim)],
        None => Seq::empty(),
    }
}

/// What stands at the beginning of the row.
pub open spec fn indicator_spans(status: AgentStatus, indicator: Option<SpanView>) -> Seq<SpanView> {
    match indicator {
        Some(s) => if agent::is_running(status) {
            seq![s, style::span(" "@, Tone::Plain)]
        } else {
            Seq::empty()
        },
        None => Seq::empty(),
    }
}

/// The row before it is cut.
pub open spec fn status_row(
    v: StatusView,
    indicator: Option<SpanView>,
    header: Seq<SpanView>,
    secs: nat,
) -> Seq<SpanView> {
    indicator_spans(v.status, indicator) + header + time_spans(v.status, secs) + message_spans(
        v.inline_message,
    )
}

/// All rows that are painted: the row, cut to the columns that there are, and as
/// many rows of details as there is room for.
pub open spec fn status_rows(
    v: StatusView,
    indicator: Option<SpanView>,
    header: Seq<SpanView>,
    secs: nat,
    wrapped: Seq<Seq<SpanView>>,
    area: Rect,
) -> Seq<Seq<SpanView>> {
    if !is_visible(v.status) || area.width == 0 || area.height == 0 {
        Seq::empty()
    } else {
        let details = detail_rows(v, wrapped, area.width);
        let room = area.height - 1;
        seq![style::shortened(status_row(v, indicator, header, secs), area.width as int)]
            + details.take(
            if room < details.len() {
                room
            } else {
                details.len() as int
            },
        )
    }
}

/// How many rows are wanted.
pub open spec fn status_height(v: StatusView, wrapped: Seq<Seq<SpanView>>, columns: u16) -> u16 {
    if !is_visible(v.status) {
        0
    } else {
        geometry::plus(
            1,
            geometry::as_cells(detail_rows(v, wrapped, columns).len() as int),
        )
    }
}

/// What a span may hold.
pub open spec fn opt_span(o: Option<Span>) -> Option<SpanView> {
    match o {
        Some(s) => Some(s@),
        None => None,
    }
}

impl StatusIndicatorWidget {
    /// The row of an agent.
    pub fn new(status: AgentStatus, started_at: Option<u64>) -> (r: Self)
        ensures
            r@ == (StatusView {
                status,
                started_at,
                details: None,
                details_max_lines: STATUS_DETAILS_DEFAULT_MAX_LINES as int,
                inline_message: None,
            }),
    {
        StatusIndicatorWidget {
            status,
            started_at,
            details: None,
            details_max_lines: STATUS_DETAILS_DEFAULT_MAX_LINES,
            inline_message: None,
        }
    }

    /// The row with details below it and a message at its end.
    pub fn with_details(self, details: Option<String>, inline_message: Option<String>) -> (r: Self)
        ensures
            r@ == (StatusView {
                details: kept(text::opt_view(details)),
                details_max_lines: STATUS_DETAILS_DEFAULT_MAX_LINES as int,
                inline_message: kept(text::opt_view(inline_message)),
                ..self@
            }),
    {
        let mut out = self;
        out.update_details(details, STATUS_DETAILS_DEFAULT_MAX_LINES);
        out.update_inline_message(inline_message);
        out
    }

    /// Sets the details.
    pub fn update_details(&mut self, details: Option<String>, max_lines: usize)
        ensures
            final(self)@ == (StatusView {
                details: kept(text::opt_view(details)),
                details_max_lines: if max_lines == 0 {
                    1
                } else {
                    max_lines as int
                },
                ..old(self)@
            }),
    {
        self.details_max_lines = if max_lines == 0 {
            1
        } else {
            max_lines
        };
        self.details = keep(details);
    }

    /// Sets the message at the end.
    pub fn update_inline_message(&mut self, message: Option<String>)
        ensures
            final(self)@ == (StatusView {
                inline_message: kept(text::opt_view(message)),
                ..old(self)@
            }),
    {
        self.inline_message = keep(message);
    }

    /// Whether the agent works.
    pub fn running(&self) -> (r: bool)
        ensures
            r == agent::is_running(self@.status),
    {
        self.status.running()
    }

    /// Whether there is a row at all.
    pub fn visible(&self) -> (r: bool)
        ensures
            r == is_visible(self@.status),
    {
        self.running() || self.status == AgentStatus::Queued || self.status == AgentStatus::Error
    }

    /// What the row calls the work.
    pub fn header(&self) -> (r: &'static str)
        ensures
            r@ == header_text(self@.status),
    {
        match self.status {
            AgentStatus::Queued => "Queued",
            AgentStatus::Error => "Error",
            AgentStatus::RunningTool => "Running tool",
            AgentStatus::DebugMode => "Debugging",
            _ => "Working",
        }
    }

    /// How many seconds the agent has been at it.
    pub fn elapsed_seconds(&self, now: u64) -> (r: u64)
        ensures
            r as nat == seconds_since(self@.started_at, now),
    {
        match self.started_at {
            Some(t) => clock::since(now, t) / clock::NANOS_PER_SECOND,
            None => 0,
        }
    }

    /// After how many milliseconds the row is to be painted again.
    pub fn next_frame_in(&self, area: Rect) -> (r: Option<u64>)
        ensures
            r == (if agent::is_running(self@.status) && area.width > 0 && area.height > 0 {
                Some(STATUS_FRAME_MS)
            } else {
                None
            }),
    {
        if self.running() && !area.is_empty() {
            Some(STATUS_FRAME_MS)
        } else {
            None
        }
    }

    /// The rows of details, where `wrapped` holds them all.
    pub fn wrapped_details_lines(&self, wrapped: Vec<Line>, columns: u16) -> (r: Vec<Line>)
        ensures
            style::line_views(r@) == detail_rows(self@, style::line_views(wrapped@), columns),
    {
        let ghost all = style::line_views(wrapped@);
        if self.details.is_none() || columns == 0 {
            let out: Vec<Line> = Vec::new();
            assert(style::line_views(out@) =~= Seq::<Seq<SpanView>>::empty());
            return out;
        }
        let mut out = wrapped;
        if out.len() > self.details_max_lines {
            out.truncate(self.details_max_lines);
            assert(style::line_views(out@) =~= all.take(self.details_max_lines as int));
            if out.len() > 0 {
                let ghost top = style::line_views(out@);
                let used: usize = width::text_width(DETAILS_PREFIX);
                let room: usize = if (columns as usize) > used {
                    columns as usize - used - 1
                } else {
                    0
                };
                assert(room as int == details_room(columns));
                let at: usize = out.len() - 1;
                let cut = cut_line(&out[at], room);
                let ghost row = cut@;
                out.set(at, cut);
                assert(style::line_views(out@) =~= top.update(at as int, row));
            }
        }
        out
    }

    /// The row before it is cut, where `header` holds the painted header.
    fn row(&self, indicator: Option<Span>, header: Line, now: u64) -> (r: Line)
        ensures
            r@ == status_row(
                self@,
                opt_span(indicator),
                header@,
                seconds_since(self@.started_at, now),
            ),
    {
        let ghost head = header@;
        let ghost start = indicator_spans(self.status, opt_span(indicator));
        let ghost secs = seconds_since(self@.started_at, now);
        let running = self.running();
        let mut line = Line::empty();
        if let Some(s) = indicator {
            if running {
                line.add(s);
                line.push(" ", Tone::Plain);
            }
        }
        assert(line@ =~= start);
        append(&mut line, header);
        assert(line@ =~= start + head);
        if running {
            let mut time = "(".to_string();
            time.push_str(&fmt_elapsed_compact(self.elapsed_seconds(now)));
            time.push_str(" • ");
            line.push(" ", Tone::Plain);
            line.add(Span::of(time, Tone::Dim));
            line.push("esc", Tone::Plain);
            line.push(" to interrupt)", Tone::Dim);
        }
        assert(line@ =~= start + head + time_spans(self.status, secs));
        if let Some(m) = &self.inline_message {
            line.push(" · ", Tone::Dim);
            line.push(m.as_str(), Tone::Dim);
        }
        assert(line@ =~= start + head + time_spans(self.status, secs) + message_spans(
            self@.inline_message,
        ));
        line
    }

    /// The rows that are painted. `indicator` shows that the agent works, `header` is
    /// the painted header, and `wrapped` holds all rows of details.
    pub fn render(
        &self,
        area: Rect,
        indicator: Option<Span>,
        header: Line,
        wrapped: Vec<Line>,
        now: u64,
    ) -> (r: Vec<Line>)
        ensures
            style::line_views(r@) == status_rows(
                self@,
                opt_span(indicator),
                header@,
                seconds_since(self@.started_at, now),
                style::line_views(wrapped@),
                area,
            ),
    {
        let mut out: Vec<Line> = Vec::new();
        assert(style::line_views(out@) =~= Seq::<Seq<SpanView>>::empty());
        if !self.visible() || area.is_empty() {
            return out;
        }
        let first = style::truncate_line_with_ellipsis_if_overflow(
            self.row(indicator, header, now),
            area.width as usize,
        );
        let ghost top = first@;
        style::add_line(&mut out, first);
        assert(style::line_views(out@) =~= seq![top]);
        let ghost details = detail_rows(self@, style::line_views(wrapped@), area.width);
        let mut rows = self.wrapped_details_lines(wrapped, area.width);
        let room: usize = (area.height - 1) as usize;
        if rows.len() > room {
            rows.truncate(room);
        }
        let ghost end = if room < details.len() {
            room as int
        } else {
            details.len() as int
        };
        assert(style::line_views(rows@) =~= details.take(end));
        let ghost below = rows@;
        out.append(&mut rows);
        assert(style::line_views(out@) =~= seq![top] + style::line_views(below));
        out
    }

    /// How many rows are wanted, where `wrapped` holds all rows of details.
    pub fn desired_height(&self, wrapped: Vec<Line>, columns: u16) -> (r: u16)
        ensures
            r == status_height(self@, style::line_views(wrapped@), columns),
    {
        if !self.visible() {
            return 0;
        }
        let rows = self.wrapped_details_lines(wrapped, columns);
        assert(style::line_views(rows@).len() == rows@.len());
        geometry::add_cells(1, geometry::to_cells(rows.len()))
    }
}

/// A row whose last span is cut and ends in an ellipsis.
fn cut_line(line: &Line, room: usize) -> (r: Line)
    ensures
        r@ == cut_row(line@, room as int),
{
    let mut out = line.copy();
    assert(out@.len() == out.spans@.len());
    if out.spans.len() == 0 {
        return out;
    }
    let ghost before = out@;
    let at: usize = out.spans.len() - 1;
    let chars = text::chars_of(out.spans[at].text.as_str());
    assert(before.last().text == chars@);
    let end: usize = if room < chars.len() {
        room
    } else {
        chars.len()
    };
    let mut t = text::string_of_range(&chars, 0, end);
    assert(t@ =~= before.last().text.take(end as int));
    t.push_str("…");
    let s = Span::of(t, Tone::Dim);
    let ghost sv = s@;
    out.spans.set(at, s);
    assert(out@ =~= before.update(at as int, sv));
    out
}

/// Puts the spans of one line behind another.
fn append(line: &mut Line, more: Line)
    ensures
        final(line)@ == old(line)@ + more@,
{
    let ghost before = line@;
    let mut rest = more;
    let ghost added = rest@;
    line.spans.append(&mut rest.spans);
    assert(line@ =~= before + added);
}

/// Of the details no more rows are shown than the limit, and where some are left
/// out, what is shown ends in an ellipsis.
pub proof fn law_details_are_bounded(v: StatusView, wrapped: Seq<Seq<SpanView>>, columns: u16)
    requires
        v.details_max_lines > 0,
    ensures
        detail_rows(v, wrapped, columns).len() <= v.details_max_lines,
        v.details is Some && columns > 0 && wrapped.len() > v.details_max_lines && wrapped[
            v.details_max_lines - 1
        ].len() > 0 ==> text::ends(
            detail_rows(v, wrapped, columns).last().last().text,
            "…"@,
        ),
{
    if v.details is Some && columns > 0 && wrapped.len() > v.details_max_lines && wrapped[
    v.details_max_lines - 1].len() > 0 {
        let top = wrapped.take(v.details_max_lines);
        let room = details_room(columns);
        let last = top.last().last().text;
        let cut = last.take(
            if room < last.len() {
                room
            } else {
                last.len() as int
            },
        );
        reveal_strlit("…");
        assert(detail_rows(v, wrapped, columns).last().last().text == cut + "…"@);
        assert((cut + "…"@).skip(cut.len() as int) =~= "…"@);
    }
}

} // verus!
