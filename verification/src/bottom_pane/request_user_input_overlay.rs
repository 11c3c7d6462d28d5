//! The popup that asks the user a question.

use crate::agent;
use crate::bottom_pane::approval_overlay;
use crate::bottom_pane::approval_overlay::{Popup, PopupContent};
use crate::geometry;
use crate::geometry::Rect;
use crate::request_user_input::{Question, QuestionOption};
use crate::style;
use crate::style::{Line, Span, SpanView, Tone};
use crate::text;
use crate::user_input;
use crate::user_input::{OptionView, PendingInputView, PendingUserInput, QuestionView};
use vstd::prelude::*;

verus! {

/// The most columns of the popup.
pub const QUESTION_WIDTH: u16 = 76;

/// Text as it is shown: a secret shows a dot for each character.
pub open spec fn shown(s: Seq<char>, secret: bool) -> Seq<char> {
    if secret {
        Seq::new(s.len(), |i: int| '•')
    } else {
        s
    }
}

/// Text as it is shown.
pub fn masked(s: &str, secret: bool) -> (r: String)
    ensures
        r@ == shown(s@, secret),
{
    if !secret {
        return s.to_string();
    }
    let chars = text::chars_of(s);
    let mut out = String::new();
    let mut i: usize = 0;
    assert(out@ =~= shown(s@.take(0), true));
    while i < chars.len()
        invariant
            i <= chars@.len(),
            chars@ == s@,
            out@ == shown(s@.take(i as int), true),
        decreases chars@.len() - i,
    {
        out.push('•');
        assert(shown(s@.take(i + 1), true) =~= shown(s@.take(i as int), true).push('•'));
        i += 1;
    }
    assert(s@.take(s@.len() as int) =~= s@);
    out
}

/// The marker of a row.
pub open spec fn marker(selected: bool) -> Seq<char> {
    if selected {
        "  › "@
    } else {
        "    "@
    }
}

/// The tone of a row.
pub open spec fn row_tone(selected: bool) -> Tone {
    if selected {
        Tone::CyanBold
    } else {
        Tone::Plain
    }
}

/// The row of one offered answer.
pub open spec fn option_row(o: OptionView, selected: bool) -> Seq<SpanView> {
    seq![
        style::span(marker(selected) + o.label, row_tone(selected)),
        style::span(" — "@ + o.description, Tone::Muted),
    ]
}

/// The rows of the offered answers from `i` on.
pub open spec fn option_rows(v: Seq<OptionView>, i: int, selected: int) -> Seq<Seq<SpanView>>
    decreases v.len() - i,
{
    if i < 0 || i >= v.len() {
        Seq::empty()
    } else {
        seq![option_row(v[i], selected == i)] + option_rows(v, i + 1, selected)
    }
}

/// The row for an answer of the user's own.
pub open spec fn other_row(p: PendingInputView, q: QuestionView, selected: bool) -> Seq<SpanView> {
    seq![
        style::span(
            marker(selected) + "Other: "@ + shown(p.draft, q.is_secret),
            row_tone(selected),
        ),
    ]
}

/// The rows of the answers: those that are offered and an answer of the user's own,
/// or only the latter.
pub open spec fn answer_rows(p: PendingInputView, q: QuestionView) -> Seq<Seq<SpanView>> {
    match q.options {
        Some(options) => option_rows(options, 0, p.selected) + (if q.is_other {
            seq![other_row(p, q, p.selected == options.len())]
        } else {
            Seq::empty()
        }),
        None => seq![
            seq![style::span("  "@ + shown(p.draft, q.is_secret), Tone::White)],
        ],
    }
}

/// The row of keys.
pub open spec fn key_row() -> Seq<SpanView> {
    seq![
        style::span("  [↑/↓]"@, Tone::Cyan),
        style::span(" choose   "@, Tone::Plain),
        style::span("[Enter]"@, Tone::Green),
        style::span(" submit   "@, Tone::Plain),
        style::span("[Esc]"@, Tone::Red),
        style::span(" cancel"@, Tone::Plain),
    ]
}

/// The row that tells which of several questions it is.
pub open spec fn place_rows(p: PendingInputView) -> Seq<Seq<SpanView>> {
    if p.questions.len() > 1 {
        seq![
            seq![
                style::span(
                    "  question "@ + text::decimal_of((p.question_index + 1) as nat) + "/"@
                        + text::decimal_of(p.questions.len()) + " · "@ + agent::agent_label(
                        p.agent,
                    ) + " agent"@,
                    Tone::Muted,
                ),
            ],
        ]
    } else {
        Seq::empty()
    }
}

/// All rows about a question.
pub open spec fn question_rows(p: PendingInputView, q: QuestionView) -> Seq<Seq<SpanView>> {
    seq![
        seq![style::span(" "@ + q.header + " "@, Tone::CyanBold)],
        seq![style::span("  "@ + q.question, Tone::Plain)],
        Seq::empty(),
    ] + answer_rows(p, q) + seq![Seq::empty(), key_row()] + place_rows(p)
}

/// The question that is asked.
pub open spec fn current(v: Seq<PendingInputView>) -> Option<QuestionView> {
    if v.len() > 0 && 0 <= v[0].question_index < v[0].questions.len() {
        Some(v[0].questions[v[0].question_index])
    } else {
        None
    }
}

/// The popup, unless there is no question.
pub open spec fn question_popup(v: Seq<PendingInputView>, area: Rect) -> Option<PopupContent> {
    match current(v) {
        None => None,
        Some(q) => {
            let rows = question_rows(v[0], q);
            Some(
                PopupContent {
                    area: geometry::placed(
                        area,
                        approval_overlay::popup_width(area, QUESTION_WIDTH),
                        geometry::least(
                            geometry::wrapped_rows(rows.len() as int + 2),
                            geometry::minus(area.height, 4),
                        ),
                        3,
                    ),
                    title: " input required "@,
                    lines: rows,
                },
            )
        },
    }
}

/// The marker of a row.
fn mark(selected: bool) -> (r: &'static str)
    ensures
        r@ == marker(selected),
{
    if selected {
        "  › "
    } else {
        "    "
    }
}

/// The tone of a row.
fn tone_of(selected: bool) -> (r: Tone)
    ensures
        r == row_tone(selected),
{
    if selected {
        Tone::CyanBold
    } else {
        Tone::Plain
    }
}

/// The row of one offered answer.
fn option_line(o: &QuestionOption, selected: bool) -> (r: Line)
    ensures
        r@ == option_row(user_input::option_view(*o), selected),
{
    let mut line = Line::empty();
    let label = approval_overlay::prefixed(mark(selected), o.label.as_str());
    let description = approval_overlay::prefixed(" — ", o.description.as_str());
    line.add(Span::of(label, tone_of(selected)));
    line.add(Span::of(description, Tone::Muted));
    assert(line@ =~= option_row(user_input::option_view(*o), selected));
    line
}

/// Adds the rows of the offered answers.
fn add_options(lines: &mut Vec<Line>, v: &Vec<QuestionOption>, selected: usize)
    ensures
        style::line_views(final(lines)@) == style::line_views(old(lines)@) + option_rows(
            user_input::option_views(v@),
            0,
            selected as int,
        ),
{
    let ghost all = user_input::option_views(v@);
    let ghost goal = style::line_views(lines@) + option_rows(all, 0, selected as int);
    let mut i: usize = 0;
    while i < v.len()
        invariant
            i <= v@.len(),
            all == user_input::option_views(v@),
            goal == style::line_views(lines@) + option_rows(all, i as int, selected as int),
        decreases v@.len() - i,
    {
        let ghost before = style::line_views(lines@);
        let line = option_line(&v[i], selected == i);
        let ghost row = line@;
        style::add_line(lines, line);
        assert(all[i as int] == user_input::option_view(v@[i as int]));
        assert(goal =~= before.push(row) + option_rows(all, i + 1, selected as int));
        i += 1;
    }
    assert(goal =~= style::line_views(lines@));
}

/// Adds the rows of the answers.
fn add_answers(lines: &mut Vec<Line>, p: &PendingUserInput, q: &Question)
    ensures
        style::line_views(final(lines)@) == style::line_views(old(lines)@) + answer_rows(
            p@,
            user_input::question_view(*q),
        ),
{
    let ghost start = style::line_views(lines@);
    let ghost qv = user_input::question_view(*q);
    let draft = masked(p.draft.as_str(), q.is_secret);
    match &q.options {
        Some(options) => {
            assert(qv.options == Some(user_input::option_views(options@)));
            add_options(lines, options, p.selected);
            let ghost upper = style::line_views(lines@);
            if q.is_other {
                let selected = p.selected == options.len();
                let mut t = approval_overlay::prefixed(mark(selected), "Other: ");
                t.push_str(&draft);
                style::add_line(lines, Line::one(&t, tone_of(selected)));
                assert(style::line_views(lines@) =~= start + answer_rows(p@, qv));
            } else {
                assert(style::line_views(lines@) =~= start + answer_rows(p@, qv));
            }
        },
        None => {
            let t = approval_overlay::prefixed("  ", &draft);
            style::add_line(lines, Line::one(&t, Tone::White));
            assert(style::line_views(lines@) =~= start + answer_rows(p@, qv));
        },
    }
}

/// The row of keys.
fn keys() -> (r: Line)
    ensures
        r@ == key_row(),
{
    let mut line = Line::empty();
    line.push("  [↑/↓]", Tone::Cyan);
    line.push(" choose   ", Tone::Plain);
    line.push("[Enter]", Tone::Green);
    line.push(" submit   ", Tone::Plain);
    line.push("[Esc]", Tone::Red);
    line.push(" cancel", Tone::Plain);
    assert(line@ =~= key_row());
    line
}

/// The text that tells which of several questions it is.
fn place_text(p: &PendingUserInput) -> (r: String)
    requires
        p.question_index < p.questions@.len(),
    ensures
        r@ == "  question "@ + text::decimal_of((p.question_index + 1) as nat) + "/"@
            + text::decimal_of(p.questions@.len()) + " · "@ + agent::agent_label(p.agent)
            + " agent"@,
{
    let count: usize = p.questions.len();
    let mut t = approval_overlay::prefixed(
        "  question ",
        &text::decimal((p.question_index + 1) as u64),
    );
    t.push_str("/");
    t.push_str(&text::decimal(count as u64));
    t.push_str(" · ");
    t.push_str(p.agent.label());
    t.push_str(" agent");
    t
}

/// All rows about a question.
pub fn lines(p: &PendingUserInput, q: &Question) -> (r: Vec<Line>)
    requires
        p.question_index < p.questions@.len(),
    ensures
        style::line_views(r@) == question_rows(p@, user_input::question_view(*q)),
{
    let ghost qv = user_input::question_view(*q);
    let mut out: Vec<Line> = Vec::new();
    let mut heading = approval_overlay::prefixed(" ", q.header.as_str());
    heading.push_str(" ");
    style::add_line(&mut out, Line::one(&heading, Tone::CyanBold));
    let asked = approval_overlay::prefixed("  ", q.question.as_str());
    style::add_line(&mut out, Line::one(&asked, Tone::Plain));
    style::add_line(&mut out, Line::empty());
    let ghost head = seq![
        seq![style::span(" "@ + qv.header + " "@, Tone::CyanBold)],
        seq![style::span("  "@ + qv.question, Tone::Plain)],
        Seq::empty(),
    ];
    assert(style::line_views(out@) =~= head);
    add_answers(&mut out, p, q);
    let ghost upper = style::line_views(out@);
    style::add_line(&mut out, Line::empty());
    style::add_line(&mut out, keys());
    let ghost middle = style::line_views(out@);
    assert(middle =~= upper + seq![Seq::<SpanView>::empty(), key_row()]);
    if p.questions.len() > 1 {
        let t = place_text(p);
        style::add_line(&mut out, Line::one(&t, Tone::Muted));
        assert(style::line_views(out@) =~= middle + place_rows(p@));
    } else {
        assert(style::line_views(out@) =~= middle + place_rows(p@));
    }
    out
}

/// The popup for the first question that waits.
pub fn draw(pending: &Vec<PendingUserInput>, area: Rect) -> (r: Option<Popup>)
    requires
        area.wf(),
    ensures
        approval_overlay::opt_popup(r) == question_popup(
            user_input::pending_views(pending@),
            area,
        ),
{
    if pending.len() == 0 {
        return None;
    }
    let ghost all = user_input::pending_views(pending@);
    let p = &pending[0];
    assert(all[0] == p@);
    match p.question() {
        None => None,
        Some(q) => {
            assert(p@.questions[p@.question_index] == user_input::question_view(*q));
            let rows = lines(p, q);
            assert(style::line_views(rows@).len() == rows@.len());
            let width: u16 = approval_overlay::columns_of_popup(area, QUESTION_WIDTH);
            let height: u16 = geometry::min_cells(
                approval_overlay::rows_with_border(rows.len()),
                geometry::sub_cells(area.height, 4),
            );
            Some(
                Popup {
                    area: geometry::place(area, width, height, 3),
                    title: " input required ".to_string(),
                    lines: rows,
                },
            )
        },
    }
}

/// A secret does not show: what is drawn of it depends on nothing but its length.
pub proof fn law_secrets_do_not_show(p: PendingInputView, q: QuestionView, other: Seq<char>)
    requires
        q.is_secret,
        other.len() == p.draft.len(),
    ensures
        question_rows(PendingInputView { draft: other, ..p }, q) == question_rows(p, q),
{
    assert(shown(other, true) =~= shown(p.draft, true));
}

/// Each answer that is offered has its row, in order, with its name and what it means, and the
/// row that is chosen has the mark.
pub proof fn law_answers_have_their_rows(v: Seq<OptionView>, selected: int, k: int)
    requires
        0 <= k < v.len(),
    ensures
        option_rows(v, 0, selected).len() == v.len(),
        option_rows(v, 0, selected)[k] == option_row(v[k], selected == k),
        option_row(v[k], true)[0].text == "  › "@ + v[k].label,
        option_row(v[k], false)[0].text == "    "@ + v[k].label,
        option_row(v[k], false)[1].text == " — "@ + v[k].description,
{
    rows_from(v, 0, selected, k);
}

/// The rows of the answers from `i` on.
proof fn rows_from(v: Seq<OptionView>, i: int, selected: int, k: int)
    requires
        0 <= i <= v.len(),
    ensures
        option_rows(v, i, selected).len() == v.len() - i,
        i <= k < v.len() ==> option_rows(v, i, selected)[k - i] == option_row(v[k], selected == k),
    decreases v.len() - i,
{
    if i < v.len() {
        rows_from(v, i + 1, selected, k);
    }
}

} // verus!
