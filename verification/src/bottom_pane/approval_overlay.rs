//! The popup that asks for the approval of a command.

use crate::agent;
use crate::app_state;
use crate::app_state::{ApprovalView, PendingApproval};
use crate::geometry;
use crate::geometry::Rect;
use crate::style;
use crate::style::{Line, SpanView, Tone};
use crate::text;
use vstd::prelude::*;

verus! {

/// The most columns of the popup.
pub const APPROVAL_WIDTH: u16 = 64;

/// A popup: where it stands, what is written in its border and what it holds.
#[derive(Debug)]
pub struct Popup {
    pub area: Rect,
    pub title: String,
    pub lines: Vec<Line>,
}

/// A popup.
#[verifier::ext_equal]
pub struct PopupContent {
    pub area: Rect,
    pub title: Seq<char>,
    pub lines: Seq<Seq<SpanView>>,
}

impl View for Popup {
    type V = PopupContent;

    open spec fn view(&self) -> PopupContent {
        PopupContent {
            area: self.area,
            title: self.title@,
            lines: style::line_views(self.lines@),
        }
    }
}

/// The popup that there may be.
pub open spec fn opt_popup(o: Option<Popup>) -> Option<PopupContent> {
    match o {
        Some(p) => Some(p@),
        None => None,
    }
}

/// The rows of texts in one tone, from `i` on.
pub open spec fn toned_rows(v: Seq<Seq<char>>, i: int, tone: Tone) -> Seq<Seq<SpanView>>
    decreases v.len() - i,
{
    if i < 0 || i >= v.len() {
        Seq::empty()
    } else {
        seq![seq![style::span("  "@ + v[i], tone)]] + toned_rows(v, i + 1, tone)
    }
}

/// The rows of a command from the line `i` on: a prompt stands before the first.
pub open spec fn command_rows(v: Seq<Seq<char>>, i: int) -> Seq<Seq<SpanView>>
    decreases v.len() - i,
{
    if i < 0 || i >= v.len() {
        Seq::empty()
    } else {
        seq![
            seq![
                style::span(
                    (if i == 0 {
                        "$ "@
                    } else {
                        "  "@
                    }) + v[i],
                    Tone::Magenta,
                ),
            ],
        ] + command_rows(v, i + 1)
    }
}

/// The row for what may be there.
pub open spec fn optional_row(o: Option<Seq<char>>, label: Seq<char>) -> Seq<Seq<SpanView>> {
    match o {
        Some(t) => seq![seq![style::span(label + t, Tone::Muted)]],
        None => Seq::empty(),
    }
}

/// The command as it is shown.
pub open spec fn shown_command(command: Seq<char>) -> Seq<char> {
    if command.len() == 0 {
        "(no command)"@
    } else {
        command
    }
}

/// The row of keys.
pub open spec fn key_row() -> Seq<SpanView> {
    seq![
        style::span("  "@, Tone::Plain),
        style::span("[y]"@, Tone::Green),
        style::span(" approve   "@, Tone::Plain),
        style::span("[a]"@, Tone::Green),
        style::span(" session   "@, Tone::Plain),
        style::span("[p]"@, Tone::Yellow),
        style::span(" save rule   "@, Tone::Plain),
        style::span("[d]"@, Tone::Red),
        style::span(" deny   "@, Tone::Plain),
        style::span("[c]/[n]/Esc"@, Tone::Muted),
        style::span(" cancel"@, Tone::Plain),
    ]
}

/// The row that tells how many more wait.
pub open spec fn more_rows(count: nat) -> Seq<Seq<SpanView>> {
    if count > 1 {
        seq![
            seq![
                style::span(
                    "  +"@ + text::decimal_of((count - 1) as nat) + " more pending"@,
                    Tone::Muted,
                ),
            ],
        ]
    } else {
        Seq::empty()
    }
}

/// The rows about one command.
pub open spec fn request_rows(a: ApprovalView) -> Seq<Seq<SpanView>> {
    seq![
        seq![
            style::span(
                " "@ + agent::agent_label(a.agent) + " agent wants to run a command "@,
                Tone::YellowBold,
            ),
        ],
        Seq::empty(),
    ] + toned_rows(a.summary, 0, Tone::Cyan) + optional_row(a.reason, "  reason: "@)
        + seq![Seq::empty()] + command_rows(text::lines_of(shown_command(a.command)), 0)
        + optional_row(a.cwd, "  cwd: "@) + seq![Seq::empty(), key_row()]
}

/// All rows of the popup: those about the first command, and how many more wait.
pub open spec fn approval_rows(v: Seq<ApprovalView>) -> Seq<Seq<SpanView>> {
    if v.len() == 0 {
        Seq::empty()
    } else {
        request_rows(v[0]) + more_rows(v.len())
    }
}

/// How many rows the popup wants.
pub open spec fn approval_height(v: Seq<ApprovalView>) -> u16 {
    if v.len() == 0 {
        0
    } else {
        geometry::wrapped_rows(approval_rows(v).len() as int + 2)
    }
}

/// How many columns a popup takes that wants `most` of them.
pub open spec fn popup_width(area: Rect, most: u16) -> u16 {
    geometry::greatest(geometry::least(most, geometry::minus(area.width, 4)), 1)
}

/// What is written in the border.
pub open spec fn approval_title(count: nat) -> Seq<char> {
    if count > 1 {
        " approval required (1/"@ + text::decimal_of(count) + ") "@
    } else {
        " approval required "@
    }
}

/// The popup, unless there is no room or nothing to ask.
pub open spec fn approval_popup(v: Seq<ApprovalView>, area: Rect) -> Option<PopupContent> {
    if area.width == 0 || area.height == 0 || v.len() == 0 {
        None
    } else {
        Some(
            PopupContent {
                area: geometry::placed(
                    area,
                    popup_width(area, APPROVAL_WIDTH),
                    geometry::least(approval_height(v), area.height),
                    2,
                ),
                title: approval_title(v.len()),
                lines: approval_rows(v),
            },
        )
    }
}

/// Two texts, one behind the other.
pub fn prefixed(prefix: &str, s: &str) -> (r: String)
    ensures
        r@ == prefix@ + s@,
{
    let mut out = prefix.to_string();
    out.push_str(s);
    out
}

/// How many columns a popup takes that wants `most` of them.
pub fn columns_of_popup(area: Rect, most: u16) -> (r: u16)
    ensures
        r == popup_width(area, most),
{
    geometry::max_cells(geometry::min_cells(most, geometry::sub_cells(area.width, 4)), 1)
}

/// Adds the rows of texts in one tone.
fn add_toned(lines: &mut Vec<Line>, v: &Vec<String>, tone: Tone)
    ensures
        style::line_views(final(lines)@) == style::line_views(old(lines)@) + toned_rows(
            text::views(v@),
            0,
            tone,
        ),
{
    let ghost texts = text::views(v@);
    let ghost goal = style::line_views(lines@) + toned_rows(texts, 0, tone);
    let mut i: usize = 0;
    while i < v.len()
        invariant
            i <= v@.len(),
            texts == text::views(v@),
            goal == style::line_views(lines@) + toned_rows(texts, i as int, tone),
        decreases v@.len() - i,
    {
        let ghost before = style::line_views(lines@);
        let t = prefixed("  ", v[i].as_str());
        style::add_line(lines, Line::one(&t, tone));
        assert(goal =~= before.push(seq![style::span("  "@ + texts[i as int], tone)])
            + toned_rows(texts, i + 1, tone));
        i += 1;
    }
    assert(toned_rows(texts, i as int, tone) =~= Seq::empty());
    assert(goal =~= style::line_views(lines@));
}

/// Adds the rows of a command.
fn add_command(lines: &mut Vec<Line>, v: &Vec<String>)
    ensures
        style::line_views(final(lines)@) == style::line_views(old(lines)@) + command_rows(
            text::views(v@),
            0,
        ),
{
    let ghost texts = text::views(v@);
    let ghost goal = style::line_views(lines@) + command_rows(texts, 0);
    let mut i: usize = 0;
    while i < v.len()
        invariant
            i <= v@.len(),
            texts == text::views(v@),
            goal == style::line_views(lines@) + command_rows(texts, i as int),
        decreases v@.len() - i,
    {
        let ghost before = style::line_views(lines@);
        let t = if i == 0 {
            prefixed("$ ", v[i].as_str())
        } else {
            prefixed("  ", v[i].as_str())
        };
        let ghost row = seq![style::span(t@, Tone::Magenta)];
        style::add_line(lines, Line::one(&t, Tone::Magenta));
        assert(command_rows(texts, i as int) == seq![row] + command_rows(texts, i + 1));
        assert(goal =~= before.push(row) + command_rows(texts, i + 1));
        i += 1;
    }
    assert(command_rows(texts, i as int) =~= Seq::empty());
    assert(goal =~= style::line_views(lines@));
}

/// Adds the row for what may be there.
fn add_optional(lines: &mut Vec<Line>, o: &Option<String>, label: &str)
    ensures
        style::line_views(final(lines)@) == style::line_views(old(lines)@) + optional_row(
            text::opt_view(*o),
            label@,
        ),
{
    let ghost before = style::line_views(lines@);
    if let Some(t) = o {
        let row = prefixed(label, t.as_str());
        style::add_line(lines, Line::one(&row, Tone::Muted));
        assert(style::line_views(lines@) =~= before + optional_row(text::opt_view(*o), label@));
    } else {
        assert(style::line_views(lines@) =~= before + optional_row(text::opt_view(*o), label@));
    }
}

/// The row of keys.
fn keys() -> (r: Line)
    ensures
        r@ == key_row(),
{
    let mut line = Line::empty();
    line.push("  ", Tone::Plain);
    line.push("[y]", Tone::Green);
    line.push(" approve   ", Tone::Plain);
    line.push("[a]", Tone::Green);
    line.push(" session   ", Tone::Plain);
    line.push("[p]", Tone::Yellow);
    line.push(" save rule   ", Tone::Plain);
    line.push("[d]", Tone::Red);
    line.push(" deny   ", Tone::Plain);
    line.push("[c]/[n]/Esc", Tone::Muted);
    line.push(" cancel", Tone::Plain);
    assert(line@ =~= key_row());
    line
}

/// The rows about one command.
fn request_lines(a: &PendingApproval) -> (r: Vec<Line>)
    ensures
        style::line_views(r@) == request_rows(a@),
{
    let mut lines: Vec<Line> = Vec::new();
    let mut heading = prefixed(" ", a.agent.label());
    heading.push_str(" agent wants to run a command ");
    style::add_line(&mut lines, Line::one(&heading, Tone::YellowBold));
    style::add_line(&mut lines, Line::empty());
    let ghost head = seq![
        seq![
            style::span(
                " "@ + agent::agent_label(a.agent) + " agent wants to run a command "@,
                Tone::YellowBold,
            ),
        ],
        Seq::empty(),
    ];
    assert(style::line_views(lines@) =~= head);
    add_toned(&mut lines, &a.summary, Tone::Cyan);
    add_optional(&mut lines, &a.reason, "  reason: ");
    let ghost upper = style::line_views(lines@);
    style::add_line(&mut lines, Line::empty());
    assert(style::line_views(lines@) =~= upper + seq![Seq::<SpanView>::empty()]);
    let command = if a.command.as_str().is_empty() {
        text::lines("(no command)")
    } else {
        text::lines(a.command.as_str())
    };
    add_command(&mut lines, &command);
    add_optional(&mut lines, &a.cwd, "  cwd: ");
    let ghost middle = style::line_views(lines@);
    style::add_line(&mut lines, Line::empty());
    style::add_line(&mut lines, keys());
    assert(style::line_views(lines@) =~= middle + seq![Seq::<SpanView>::empty(), key_row()]);
    lines
}

/// All rows of the popup.
pub fn lines(v: &Vec<PendingApproval>) -> (r: Vec<Line>)
    ensures
        style::line_views(r@) == approval_rows(app_state::approval_views(v@)),
{
    if v.len() == 0 {
        let out: Vec<Line> = Vec::new();
        assert(style::line_views(out@) =~= Seq::<Seq<SpanView>>::empty());
        return out;
    }
    let mut out = request_lines(&v[0]);
    let ghost upper = style::line_views(out@);
    if v.len() > 1 {
        let mut more = prefixed("  +", &text::decimal((v.len() - 1) as u64));
        more.push_str(" more pending");
        style::add_line(&mut out, Line::one(&more, Tone::Muted));
    }
    assert(style::line_views(out@) =~= upper + more_rows(v@.len()));
    out
}

/// How many rows the popup wants.
pub fn desired_height(v: &Vec<PendingApproval>) -> (r: u16)
    ensures
        r == approval_height(app_state::approval_views(v@)),
{
    if v.len() == 0 {
        return 0;
    }
    let rows = lines(v);
    assert(style::line_views(rows@).len() == rows@.len());
    rows_with_border(rows.len())
}

/// How many rows a popup takes with its border.
pub fn rows_with_border(n: usize) -> (r: u16)
    ensures
        r == geometry::wrapped_rows(n as int + 2),
{
    let rest: usize = n % 65536;
    geometry::wrap_rows(rest + 2)
}

/// The popup, unless there is no room or nothing to ask.
pub fn popup(v: &Vec<PendingApproval>, area: Rect) -> (r: Option<Popup>)
    requires
        area.wf(),
    ensures
        opt_popup(r) == approval_popup(app_state::approval_views(v@), area),
{
    if area.is_empty() || v.len() == 0 {
        return None;
    }
    let title = if v.len() > 1 {
        let mut t = prefixed(" approval required (1/", &text::decimal(v.len() as u64));
        t.push_str(") ");
        t
    } else {
        " approval required ".to_string()
    };
    let width: u16 = columns_of_popup(area, APPROVAL_WIDTH);
    let height: u16 = geometry::min_cells(desired_height(v), area.height);
    Some(Popup { area: geometry::place(area, width, height, 2), title, lines: lines(v) })
}

/// The command that is asked about is shown whole: each of its lines stands in the
/// popup behind the prompt or two spaces.
pub proof fn law_command_is_shown_whole(a: ApprovalView, k: int)
    requires
        0 <= k < text::lines_of(shown_command(a.command)).len(),
    ensures
        request_rows(a).contains(
            seq![
                style::span(
                    (if k == 0 {
                        "$ "@
                    } else {
                        "  "@
                    }) + text::lines_of(shown_command(a.command))[k],
                    Tone::Magenta,
                ),
            ],
        ),
{
    let ls = text::lines_of(shown_command(a.command));
    let row = seq![
        style::span(
            (if k == 0 {
                "$ "@
            } else {
                "  "@
            }) + ls[k],
            Tone::Magenta,
        ),
    ];
    command_row_at(ls, 0, k);
    let head = seq![
        seq![
            style::span(
                " "@ + agent::agent_label(a.agent) + " agent wants to run a command "@,
                Tone::YellowBold,
            ),
        ],
        Seq::empty(),
    ] + toned_rows(a.summary, 0, Tone::Cyan) + optional_row(a.reason, "  reason: "@)
        + seq![Seq::empty()];
    let tail = optional_row(a.cwd, "  cwd: "@) + seq![Seq::empty(), key_row()];
    assert(request_rows(a) =~= head + command_rows(ls, 0) + tail);
    assert(request_rows(a)[head.len() + k] == row);
}

/// Where the line `k` of a command stands among the rows from `i` on.
proof fn command_row_at(v: Seq<Seq<char>>, i: int, k: int)
    requires
        0 <= i <= k < v.len(),
    ensures
        command_rows(v, i).len() == v.len() - i,
        command_rows(v, i)[k - i] == seq![
            style::span(
                (if k == 0 {
                    "$ "@
                } else {
                    "  "@
                }) + v[k],
                Tone::Magenta,
            ),
        ],
    decreases k - i,
{
    command_rows_len(v, i);
    if i < k {
        command_row_at(v, i + 1, k);
    }
}

/// Each line of a command has a row.
proof fn command_rows_len(v: Seq<Seq<char>>, i: int)
    requires
        0 <= i <= v.len(),
    ensures
        command_rows(v, i).len() == v.len() - i,
    decreases v.len() - i,
{
    if i < v.len() {
        command_rows_len(v, i + 1);
    }
}

} // verus!
