//! How the composer is laid out: the rows of the draft, the footer below it and
//! the place of the cursor.

use crate::bottom_pane::chat_composer::{ChatComposer, ComposerView};
use crate::bottom_pane::history_search::HistorySearchStatus;
use crate::bottom_pane::visual_lines;
use crate::geometry;
use crate::geometry::Rect;
use crate::style;
use crate::style::{Line, Span, SpanView, Tone};
use crate::text;
use crate::width;
use vstd::prelude::*;

verus! {

/// The rows of the footer.
pub const FOOTER_HEIGHT: u16 = 1;

/// The most rows that the draft asks for.
pub const MAX_INPUT_LINES: usize = 8;

/// A row of the draft on the screen.
#[derive(Debug)]
pub struct ComposerRow {
    pub area: Rect,
    pub line: Line,
}

/// A row of the draft on the screen.
#[verifier::ext_equal]
pub struct RowView {
    pub area: Rect,
    pub line: Seq<SpanView>,
}

impl View for ComposerRow {
    type V = RowView;

    open spec fn view(&self) -> RowView {
        RowView { area: self.area, line: self.line@ }
    }
}

/// What the rows hold.
pub open spec fn row_views(v: Seq<ComposerRow>) -> Seq<RowView> {
    v.map_values(|r: ComposerRow| r@)
}

/// All that is to be painted: the surface under the draft, its rows, and the
/// footer.
#[derive(Debug)]
pub struct ComposerFrame {
    pub surface: Rect,
    pub rows: Vec<ComposerRow>,
    pub footer: Option<ComposerRow>,
}

/// All that is to be painted.
#[verifier::ext_equal]
pub struct FrameView {
    pub surface: Rect,
    pub rows: Seq<RowView>,
    pub footer: Option<RowView>,
}

impl View for ComposerFrame {
    type V = FrameView;

    open spec fn view(&self) -> FrameView {
        FrameView {
            surface: self.surface,
            rows: row_views(self.rows@),
            footer: match self.footer {
                Some(r) => Some(r@),
                None => None,
            },
        }
    }
}

// ---------------------------------------------------------------------------
// Sizes
// ---------------------------------------------------------------------------

/// The columns for the draft on a surface: all but two at either side, at least
/// one.
pub open spec fn input_columns(width: u16) -> u16 {
    geometry::greatest(geometry::minus(width, 4), 1)
}

/// The rows that the draft asks for.
pub open spec fn wanted_rows(s: Seq<char>, columns: int) -> int {
    let n = visual_lines::rows_of(s, columns).len() as int;
    if n < 1 {
        1
    } else if n > MAX_INPUT_LINES {
        MAX_INPUT_LINES as int
    } else {
        n
    }
}

/// The height of the surface: the rows and one row of padding above and below.
pub open spec fn surface_height(v: ComposerView, width: u16) -> u16 {
    (wanted_rows(v.draft.text, input_columns(width) as int) + 2) as u16
}

/// The surface, which leaves the last row to the footer.
pub open spec fn surface_area(area: Rect) -> Rect {
    Rect { height: geometry::minus(area.height, FOOTER_HEIGHT), ..area }
}

/// The footer, below the surface.
pub open spec fn footer_area(area: Rect) -> Rect {
    let h = geometry::minus(area.height, FOOTER_HEIGHT);
    Rect {
        x: area.x,
        y: geometry::plus(area.y, h),
        width: area.width,
        height: geometry::minus(area.height, h),
    }
}

// ---------------------------------------------------------------------------
// Rows
// ---------------------------------------------------------------------------

/// The rows of text that a surface can show, at least one.
pub open spec fn shown_rows(surface: Rect) -> int {
    if surface.height <= 3 {
        1
    } else {
        surface.height - 2
    }
}

/// All rows of text: those of the draft, or a placeholder.
pub open spec fn text_rows(v: ComposerView, columns: int) -> Seq<Seq<char>> {
    if v.draft.text.len() == 0 {
        seq!["Implement {feature}"@]
    } else {
        visual_lines::row_texts(v.draft.text, visual_lines::rows_of(v.draft.text, columns))
    }
}

/// The first row that is shown, so that the row of the cursor is the last one or
/// above.
pub open spec fn first_row(v: ComposerView, columns: int, shown: int) -> int {
    let over = visual_lines::cursor_line(v.draft.text, v.draft.cursor, columns) + 1 - shown;
    if over < 0 {
        0
    } else {
        over
    }
}

/// A row of the draft: the first one that is shown has the prompt, the others are
/// indented as far.
pub open spec fn row_line(v: ComposerView, k: int, s: Seq<char>) -> Seq<SpanView> {
    if k == 0 {
        seq![
            style::span("›"@, Tone::Bold),
            style::span(" "@, Tone::Plain),
            style::span(
                s,
                if v.draft.text.len() == 0 {
                    Tone::Dim
                } else {
                    Tone::Plain
                },
            ),
        ]
    } else {
        seq![style::span("  "@, Tone::Plain), style::span(s, Tone::Plain)]
    }
}

/// Where the row `k` of a surface stands.
pub open spec fn row_area(surface: Rect, k: int) -> Rect {
    Rect {
        x: (surface.x + 1) as u16,
        y: (surface.y + 1 + k) as u16,
        width: geometry::minus(surface.width, 2),
        height: 1,
    }
}

/// The rows from `k` on of those that are shown.
pub open spec fn painted_rows(
    v: ComposerView,
    surface: Rect,
    texts: Seq<Seq<char>>,
    first: int,
    k: int,
) -> Seq<RowView>
    decreases shown_rows(surface) - k,
{
    if k < 0 || k >= shown_rows(surface) || first + k >= texts.len() {
        Seq::empty()
    } else {
        seq![
            RowView { area: row_area(surface, k), line: row_line(v, k, texts[first + k]) },
        ] + painted_rows(v, surface, texts, first, k + 1)
    }
}

// ---------------------------------------------------------------------------
// The footer
// ---------------------------------------------------------------------------

/// What the footer says about an open search.
pub open spec fn search_hint(query: Seq<char>, status: HistorySearchStatus) -> Seq<SpanView> {
    seq![
        style::span(
            if status == HistorySearchStatus::NoMatch {
                "  failing reverse-i-search: "@
            } else {
                "  reverse-i-search: "@
            },
            Tone::Dim,
        ),
        style::span(query, Tone::Dim),
        style::span(
            match status {
                HistorySearchStatus::Searching => "  (searching)"@,
                HistorySearchStatus::NoMatch => "  no match"@,
                _ => "  Enter accept · Esc cancel"@,
            },
            Tone::Dim,
        ),
    ]
}

/// What the footer says: how the search stands, else the status line, else the
/// shortcuts.
pub open spec fn footer_hint(v: ComposerView) -> Seq<SpanView> {
    match v.search {
        Some(s) => search_hint(s.query, s.status),
        None => if !v.shortcuts_visible {
            match v.status_line {
                Some(l) => l,
                None => seq![style::span("  ? for shortcuts"@, Tone::Dim)],
            }
        } else if v.show_agent_picker {
            seq![
                style::span("  "@, Tone::Dim),
                style::span(v.focused_agent, Tone::Accent),
                style::span("  Tab switch agent   Enter send   @ files   /model"@, Tone::Dim),
            ]
        } else {
            seq![style::span("  Enter send   @ files   /model"@, Tone::Dim)]
        },
    }
}

/// All that is painted on an area.
pub open spec fn painted(v: ComposerView, area: Rect, with_footer: bool) -> FrameView {
    let surface = if with_footer {
        surface_area(area)
    } else {
        area
    };
    let footer = footer_area(area);
    let columns = input_columns(surface.width) as int;
    FrameView {
        surface,
        rows: painted_rows(
            v,
            surface,
            text_rows(v, columns),
            first_row(v, columns, shown_rows(surface)),
            0,
        ),
        footer: if !with_footer || footer.width == 0 || footer.height == 0 {
            None
        } else {
            Some(
                RowView {
                    area: footer,
                    line: style::shortened(footer_hint(v), footer.width as int),
                },
            )
        },
    }
}

/// The composer after it was laid out on a surface: vertical motions go by the
/// columns there.
pub open spec fn laid_out(v: ComposerView, surface_width: u16) -> ComposerView {
    ComposerView { input_width: input_columns(surface_width) as int, ..v }
}

// ---------------------------------------------------------------------------
// The cursor
// ---------------------------------------------------------------------------

/// The last row of the line before the cursor.
pub open spec fn tail_row(s: Seq<char>, cursor: int, columns: int) -> Seq<char> {
    let line = visual_lines::line_before(s, cursor);
    visual_lines::row_texts(line, visual_lines::rows_of(line, columns)).last()
}

/// The place of the cursor on a surface.
pub open spec fn cursor_place(v: ComposerView, surface: Rect) -> (u16, u16) {
    let columns = input_columns(surface.width) as int;
    let s = v.draft.text;
    let row = visual_lines::cursor_line(s, v.draft.cursor, columns);
    let total = visual_lines::rows_of(s, columns).len() as int;
    let over = row + 1 - shown_rows(surface);
    let first = if over < 0 {
        0
    } else if over > total - 1 {
        total - 1
    } else {
        over
    };
    let prompt = if row == 0 {
        (width::display_width("› "@) % 65536) as u16
    } else {
        2
    };
    let column = (width::display_width(tail_row(s, v.draft.cursor, columns)) % 65536) as u16;
    (
        geometry::least(
            geometry::plus(geometry::plus(geometry::plus(surface.x, 1), prompt), column),
            geometry::minus(geometry::plus(surface.x, surface.width), 1),
        ),
        geometry::plus(geometry::plus(surface.y, 1), geometry::as_cells(row - first)),
    )
}

/// The rows that are there, at least one.
fn row_count(v: &ChatComposer, columns: usize) -> (r: usize)
    ensures
        r as int == visual_lines::rows_of(v@.draft.text, columns as int).len(),
        r >= 1,
{
    let rows = visual_lines::visual_line_ranges(&v.draft.text, columns);
    assert(visual_lines::pairs(rows@).len() == rows@.len());
    rows.len()
}

/// The rows of text that a surface can show.
fn visible_rows(surface: Rect) -> (r: usize)
    ensures
        r as int == shown_rows(surface),
{
    if surface.height <= 3 {
        1
    } else {
        (surface.height - 2) as usize
    }
}

/// The columns for the draft on a surface.
fn usable_columns(width: u16) -> (r: usize)
    ensures
        r as int == input_columns(width) as int,
{
    geometry::max_cells(geometry::sub_cells(width, 4), 1) as usize
}

impl ChatComposer {
    /// The height that the surface asks for.
    pub fn input_desired_height(&self, width: u16) -> (r: u16)
        ensures
            r == surface_height(self@, width),
    {
        let n: usize = row_count(self, usable_columns(width));
        let rows: u16 = if n > MAX_INPUT_LINES {
            8
        } else {
            n as u16
        };
        rows + 2
    }

    /// The height that the composer asks for, with its footer.
    pub fn desired_height(&self, width: u16) -> (r: u16)
        ensures
            r == surface_height(self@, width) + FOOTER_HEIGHT,
    {
        let h: u16 = self.input_desired_height(width);
        proof {
            visual_lines::law_rows_cover(
                self@.draft.text,
                0,
                visual_lines::usable(input_columns(width) as int),
            );
        }
        h + FOOTER_HEIGHT
    }

    /// The surface and the footer of an area.
    pub fn layout_areas(&self, area: Rect) -> (r: (Rect, Rect))
        ensures
            r == (surface_area(area), footer_area(area)),
    {
        let h: u16 = geometry::sub_cells(area.height, FOOTER_HEIGHT);
        (
            Rect { x: area.x, y: area.y, width: area.width, height: h },
            Rect {
                x: area.x,
                y: geometry::add_cells(area.y, h),
                width: area.width,
                height: geometry::sub_cells(area.height, h),
            },
        )
    }

    /// Lays the composer out on an area with its footer.
    pub fn render(&mut self, area: Rect) -> (r: Option<ComposerFrame>)
        requires
            old(self)@.wf(),
            area.wf(),
        ensures
            match r {
                None => (area.width == 0 || area.height == 0) && final(self)@ == old(self)@,
                Some(f) => {
                    &&& area.width != 0 && area.height != 0
                    &&& f@ == painted(old(self)@, area, true)
                    &&& final(self)@ == laid_out(old(self)@, area.width)
                },
            },
            final(self)@.wf(),
    {
        self.render_with_footer(area, true)
    }

    /// Lays the composer out on an area without its footer.
    pub fn render_input_only(&mut self, area: Rect) -> (r: Option<ComposerFrame>)
        requires
            old(self)@.wf(),
            area.wf(),
        ensures
            match r {
                None => (area.width == 0 || area.height == 0) && final(self)@ == old(self)@,
                Some(f) => {
                    &&& area.width != 0 && area.height != 0
                    &&& f@ == painted(old(self)@, area, false)
                    &&& final(self)@ == laid_out(old(self)@, area.width)
                },
            },
            final(self)@.wf(),
    {
        self.render_with_footer(area, false)
    }

    /// Lays the composer out on an area.
    pub fn render_with_footer(&mut self, area: Rect, render_footer: bool) -> (r: Option<
        ComposerFrame,
    >)
        requires
            old(self)@.wf(),
            area.wf(),
        ensures
            match r {
                None => (area.width == 0 || area.height == 0) && final(self)@ == old(self)@,
                Some(f) => {
                    &&& area.width != 0 && area.height != 0
                    &&& f@ == painted(old(self)@, area, render_footer)
                    &&& final(self)@ == laid_out(old(self)@, area.width)
                },
            },
            final(self)@.wf(),
    {
        if area.is_empty() {
            return None;
        }
        let ghost v = self@;
        let (above, below): (Rect, Rect) = self.layout_areas(area);
        let surface = if render_footer {
            above
        } else {
            area
        };
        let columns: usize = usable_columns(surface.width);
        self.input_width = columns;
        let rows = self.input_rows(surface, columns);
        let footer = if !render_footer || below.is_empty() {
            None
        } else {
            let line = style::truncate_line_with_ellipsis_if_overflow(
                self.hint(),
                below.width as usize,
            );
            Some(ComposerRow { area: below, line })
        };
        proof {
            painted_rows_same(
                v,
                self@,
                surface,
                text_rows(v, columns as int),
                first_row(v, columns as int, shown_rows(surface)),
                0,
            );
        }
        let frame = ComposerFrame { surface, rows, footer };
        assert(frame@ =~= painted(v, area, render_footer));
        Some(frame)
    }

    /// The rows of the draft on a surface.
    fn input_rows(&self, surface: Rect, columns: usize) -> (r: Vec<ComposerRow>)
        requires
            self@.wf(),
            surface.x < u16::MAX,
            surface.y + (if surface.height == 0 {
                1
            } else {
                surface.height as int
            }) <= u16::MAX,
        ensures
            row_views(r@) == painted_rows(
                self@,
                surface,
                text_rows(self@, columns as int),
                first_row(self@, columns as int, shown_rows(surface)),
                0,
            ),
    {
        let texts = if self.draft.text.len() == 0 {
            let mut one: Vec<String> = Vec::new();
            one.push("Implement {feature}".to_string());
            assert(text::views(one@) =~= seq!["Implement {feature}"@]);
            one
        } else {
            visual_lines::wrap_input(&self.draft.text, columns)
        };
        let shown: usize = visible_rows(surface);
        let line: usize = visual_lines::cursor_visual_line(
            &self.draft.text,
            self.draft.cursor,
            columns,
        );
        let first: usize = if line < shown {
            0
        } else {
            line - shown + 1
        };
        let ghost all = text::views(texts@);
        let ghost goal = painted_rows(self@, surface, all, first as int, 0);
        let mut out: Vec<ComposerRow> = Vec::new();
        let mut k: usize = 0;
        assert(row_views(out@) + goal =~= goal);
        while k < shown && first < texts.len() && k < texts.len() - first
            invariant
                k <= shown,
                shown as int == shown_rows(surface),
                surface.x < u16::MAX,
                surface.y + (if surface.height == 0 {
                    1
                } else {
                    surface.height as int
                }) <= u16::MAX,
                all == text::views(texts@),
                goal == row_views(out@) + painted_rows(
                    self@,
                    surface,
                    all,
                    first as int,
                    k as int,
                ),
            decreases shown - k,
        {
            let line = self.input_row(k, &texts[first + k]);
            let area = Rect {
                x: surface.x + 1,
                y: surface.y + 1 + k as u16,
                width: geometry::sub_cells(surface.width, 2),
                height: 1,
            };
            let ghost before = out@;
            let row = ComposerRow { area, line };
            assert(row@ =~= RowView {
                area: row_area(surface, k as int),
                line: row_line(self@, k as int, all[first + k]),
            });
            out.push(row);
            assert(row_views(out@) =~= row_views(before).push(row@));
            assert(row_views(before) + painted_rows(self@, surface, all, first as int, k as int)
                =~= row_views(out@) + painted_rows(self@, surface, all, first as int, k + 1));
            k += 1;
        }
        assert(row_views(out@) + painted_rows(self@, surface, all, first as int, k as int)
            =~= row_views(out@));
        out
    }

    /// One row of the draft.
    fn input_row(&self, k: usize, s: &str) -> (r: Line)
        ensures
            r@ == row_line(self@, k as int, s@),
    {
        let mut line = Line::empty();
        if k == 0 {
            line.push("›", Tone::Bold);
            line.push(" ", Tone::Plain);
            if self.draft.text.len() == 0 {
                line.push(s, Tone::Dim);
            } else {
                line.push(s, Tone::Plain);
            }
        } else {
            line.push("  ", Tone::Plain);
            line.push(s, Tone::Plain);
        }
        assert(line@ =~= row_line(self@, k as int, s@));
        line
    }

    /// What the footer says.
    fn hint(&self) -> (r: Line)
        ensures
            r@ == footer_hint(self@),
    {
        let mut line = Line::empty();
        if let Some(session) = &self.history_search {
            let status = session.status();
            if status == HistorySearchStatus::NoMatch {
                line.push("  failing reverse-i-search: ", Tone::Dim);
            } else {
                line.push("  reverse-i-search: ", Tone::Dim);
            }
            line.add(Span::of(session.query(), Tone::Dim));
            match status {
                HistorySearchStatus::Searching => line.push("  (searching)", Tone::Dim),
                HistorySearchStatus::NoMatch => line.push("  no match", Tone::Dim),
                _ => line.push("  Enter accept · Esc cancel", Tone::Dim),
            }
        } else if !self.shortcuts_visible {
            match &self.status_line {
                Some(l) => {
                    return l.copy();
                },
                None => line.push("  ? for shortcuts", Tone::Dim),
            }
        } else if self.show_agent_picker {
            line.push("  ", Tone::Dim);
            line.push(&self.focused_agent, Tone::Accent);
            line.push("  Tab switch agent   Enter send   @ files   /model", Tone::Dim);
        } else {
            line.push("  Enter send   @ files   /model", Tone::Dim);
        }
        assert(line@ =~= footer_hint(self@));
        line
    }

    /// The place of the cursor on an area with a footer.
    pub fn cursor_pos(&mut self, area: Rect) -> (r: (u16, u16))
        requires
            old(self)@.wf(),
        ensures
            r == cursor_place(old(self)@, surface_area(area)),
            final(self)@ == laid_out(old(self)@, area.width),
            final(self)@.wf(),
    {
        let (surface, _): (Rect, Rect) = self.layout_areas(area);
        self.cursor_pos_in(surface)
    }

    /// The place of the cursor on a surface.
    pub fn cursor_pos_in(&mut self, surface: Rect) -> (r: (u16, u16))
        requires
            old(self)@.wf(),
        ensures
            r == cursor_place(old(self)@, surface),
            final(self)@ == laid_out(old(self)@, surface.width),
            final(self)@.wf(),
    {
        let columns: usize = usable_columns(surface.width);
        self.input_width = columns;
        let row: usize = visual_lines::cursor_visual_line(
            &self.draft.text,
            self.draft.cursor,
            columns,
        );
        let total: usize = row_count(self, columns);
        let shown: usize = visible_rows(surface);
        let over: usize = if row < shown {
            0
        } else {
            row - shown + 1
        };
        let first: usize = if over > total - 1 {
            total - 1
        } else {
            over
        };
        let prompt: u16 = if row == 0 {
            (width::text_width("› ") % 65536) as u16
        } else {
            2
        };
        let line = visual_lines::line_before_cursor(&self.draft.text, self.draft.cursor);
        let tail = visual_lines::wrap_input(&line, columns);
        proof {
            visual_lines::law_rows_cover(line@, 0, visual_lines::usable(columns as int));
        }
        assert(text::views(tail@).last() == tail@[tail@.len() - 1]@);
        let column: u16 = (width::text_width(&tail[tail.len() - 1]) % 65536) as u16;
        (
            geometry::min_cells(
                geometry::add_cells(
                    geometry::add_cells(geometry::add_cells(surface.x, 1), prompt),
                    column,
                ),
                geometry::sub_cells(geometry::add_cells(surface.x, surface.width), 1),
            ),
            geometry::add_cells(
                geometry::add_cells(surface.y, 1),
                geometry::to_cells(row - first),
            ),
        )
    }
}

/// Rows depend on the draft alone.
proof fn painted_rows_same(
    v: ComposerView,
    w: ComposerView,
    surface: Rect,
    texts: Seq<Seq<char>>,
    first: int,
    k: int,
)
    requires
        v.draft == w.draft,
    ensures
        painted_rows(v, surface, texts, first, k) == painted_rows(w, surface, texts, first, k),
    decreases shown_rows(surface) - k,
{
    if 0 <= k < shown_rows(surface) && first + k < texts.len() {
        painted_rows_same(v, w, surface, texts, first, k + 1);
    }
}

/// The surface and the footer share an area between them: the footer starts where
/// the surface ends, and both end where the area does.
pub proof fn law_layout_covers_area(area: Rect)
    requires
        area.wf(),
    ensures
        surface_area(area).y + surface_area(area).height == footer_area(area).y,
        footer_area(area).y + footer_area(area).height == area.y + area.height,
        area.height > 0 ==> footer_area(area).height == 1,
{
}

/// Rows are painted inside the surface, whenever it has room for a row and its
/// padding.
pub proof fn law_rows_inside_surface(
    v: ComposerView,
    surface: Rect,
    texts: Seq<Seq<char>>,
    first: int,
    k: int,
)
    requires
        surface.wf(),
        surface.height >= 3,
        surface.width >= 2,
        0 <= first,
        0 <= k,
    ensures
        forall|j: int|
            0 <= j < painted_rows(v, surface, texts, first, k).len() ==> {
                let a = (#[trigger] painted_rows(v, surface, texts, first, k)[j]).area;
                &&& surface.x < a.x && a.x + a.width < surface.x + surface.width
                &&& surface.y < a.y && a.y + a.height < surface.y + surface.height
            },
    decreases shown_rows(surface) - k,
{
    if k < shown_rows(surface) && first + k < texts.len() {
        law_rows_inside_surface(v, surface, texts, first, k + 1);
        let rows = painted_rows(v, surface, texts, first, k);
        let tail = painted_rows(v, surface, texts, first, k + 1);
        assert forall|j: int| 0 <= j < rows.len() implies {
            let a = (#[trigger] rows[j]).area;
            &&& surface.x < a.x && a.x + a.width < surface.x + surface.width
            &&& surface.y < a.y && a.y + a.height < surface.y + surface.height
        } by {
            if j > 0 {
                assert(rows[j] == tail[j - 1]);
            }
        }
    }
}

} // verus!
