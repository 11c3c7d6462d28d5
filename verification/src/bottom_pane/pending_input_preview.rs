//! The preview of messages that wait until the agent is idle.

use crate::geometry;
use crate::style;
use crate::style::{Line, SpanView, Tone};
use crate::text;
use vstd::prelude::*;

verus! {

/// How many rows of one message are shown.
pub const PREVIEW_LINE_LIMIT: usize = 3;

/// The narrowest screen on which there is a preview.
pub const PREVIEW_MIN_WIDTH: u16 = 4;

/// The messages that wait.
#[derive(Debug)]
pub struct PendingInputPreview {
    pub queued_messages: Vec<String>,
}

/// Rows of one message, cut off behind the limit.
pub open spec fn limited(rows: Seq<Seq<SpanView>>) -> Seq<Seq<SpanView>> {
    if rows.len() > PREVIEW_LINE_LIMIT {
        rows.take(PREVIEW_LINE_LIMIT as int).push(seq![style::span("    …"@, Tone::Italic)])
    } else {
        rows
    }
}

/// The rows of the messages from `i` on, where `wrapped` holds the rows of each.
pub open spec fn message_rows(wrapped: Seq<Seq<Seq<SpanView>>>, i: int) -> Seq<Seq<SpanView>>
    decreases wrapped.len() - i,
{
    if i < 0 || i >= wrapped.len() {
        Seq::empty()
    } else {
        limited(wrapped[i]) + message_rows(wrapped, i + 1)
    }
}

/// The hint below the messages.
pub open spec fn edit_hint(mac: bool) -> Seq<char> {
    if mac {
        "    ⌥ + ↑ edit last queued message"@
    } else {
        "    alt + ↑ edit last queued message"@
    }
}

/// All rows of the preview. Without a message, or on a narrow screen, there are
/// none.
pub open spec fn preview_rows(
    count: nat,
    wrapped: Seq<Seq<Seq<SpanView>>>,
    width: u16,
    mac: bool,
) -> Seq<Seq<SpanView>> {
    if count == 0 || width < PREVIEW_MIN_WIDTH {
        Seq::empty()
    } else {
        seq![seq![style::span("• Queued follow-up inputs"@, Tone::Dim)]] + message_rows(wrapped, 0)
            + seq![seq![style::span(edit_hint(mac), Tone::Dim)]]
    }
}

/// What wrapped messages hold.
pub open spec fn wrapped_views(v: Seq<Vec<Line>>) -> Seq<Seq<Seq<SpanView>>> {
    v.map_values(|rows: Vec<Line>| style::line_views(rows@))
}

impl PendingInputPreview {
    /// A preview without messages.
    pub fn new() -> (r: Self)
        ensures
            r.queued_messages@.len() == 0,
            text::views(r.queued_messages@) == Seq::<Seq<char>>::empty(),
    {
        let r = PendingInputPreview { queued_messages: Vec::new() };
        assert(text::views(r.queued_messages@) =~= Seq::<Seq<char>>::empty());
        r
    }

    /// Sets the messages that wait.
    pub fn set_queued_messages(&mut self, queued_messages: Vec<String>)
        ensures
            final(self).queued_messages == queued_messages,
    {
        self.queued_messages = queued_messages;
    }

    /// The rows of the preview, given the rows that each message is wrapped into.
    pub fn lines(&self, wrapped: &Vec<Vec<Line>>, width: u16, mac: bool) -> (r: Vec<Line>)
        ensures
            style::line_views(r@) == preview_rows(
                self.queued_messages@.len(),
                wrapped_views(wrapped@),
                width,
                mac,
            ),
    {
        let mut out: Vec<Line> = Vec::new();
        assert(style::line_views(out@) =~= Seq::<Seq<SpanView>>::empty());
        if self.queued_messages.len() == 0 || width < PREVIEW_MIN_WIDTH {
            return out;
        }
        let ghost all = wrapped_views(wrapped@);
        let ghost head = seq![seq![style::span("• Queued follow-up inputs"@, Tone::Dim)]];
        let title = Line::one("• Queued follow-up inputs", Tone::Dim);
        out.push(title);
        assert(style::line_views(out@) =~= head);
        let mut i: usize = 0;
        let ghost goal = head + message_rows(all, 0);
        while i < wrapped.len()
            invariant
                i <= wrapped@.len(),
                all == wrapped_views(wrapped@),
                goal == style::line_views(out@) + message_rows(all, i as int),
            decreases wrapped@.len() - i,
        {
            let rows = &wrapped[i];
            let ghost before = style::line_views(out@);
            assert(all[i as int] == style::line_views(rows@));
            push_limited(&mut out, rows);
            assert(before + (limited(all[i as int]) + message_rows(all, i + 1)) =~= (before
                + limited(all[i as int])) + message_rows(all, i + 1));
            i += 1;
        }
        assert(style::line_views(out@) + message_rows(all, i as int) =~= style::line_views(out@));
        let ghost before = out@;
        let hint = if mac {
            Line::one("    ⌥ + ↑ edit last queued message", Tone::Dim)
        } else {
            Line::one("    alt + ↑ edit last queued message", Tone::Dim)
        };
        out.push(hint);
        proof {
            style::line_views_push(before, hint);
            assert(style::line_views(before).push(hint@) =~= style::line_views(before) + seq![
                hint@,
            ]);
        }
        out
    }

    /// The height of the preview.
    pub fn desired_height(&self, wrapped: &Vec<Vec<Line>>, width: u16, mac: bool) -> (r: u16)
        ensures
            r == geometry::as_cells(
                preview_rows(
                    self.queued_messages@.len(),
                    wrapped_views(wrapped@),
                    width,
                    mac,
                ).len() as int,
            ),
    {
        let rows = self.lines(wrapped, width, mac);
        assert(style::line_views(rows@).len() == rows@.len());
        geometry::to_cells(rows.len())
    }
}

/// Adds the rows of a message, cut off behind the limit.
fn push_limited(out: &mut Vec<Line>, rows: &Vec<Line>)
    ensures
        style::line_views(final(out)@) == style::line_views(old(out)@) + limited(
            style::line_views(rows@),
        ),
{
    let ghost before = style::line_views(out@);
    let ghost all = style::line_views(rows@);
    let n: usize = if rows.len() > PREVIEW_LINE_LIMIT {
        PREVIEW_LINE_LIMIT
    } else {
        rows.len()
    };
    let mut k: usize = 0;
    assert(before + all.take(0) =~= before);
    while k < n
        invariant
            k <= n <= rows@.len(),
            all == style::line_views(rows@),
            style::line_views(out@) == before + all.take(k as int),
        decreases n - k,
    {
        let row = rows[k].copy();
        let ghost sofar = out@;
        out.push(row);
        proof {
            style::line_views_push(sofar, row);
        }
        assert(row@ == all[k as int]);
        assert(before + all.take(k + 1) =~= (before + all.take(k as int)).push(all[k as int]));
        k += 1;
    }
    if rows.len() > PREVIEW_LINE_LIMIT {
        let more = Line::one("    …", Tone::Italic);
        let ghost sofar = out@;
        out.push(more);
        proof {
            style::line_views_push(sofar, more);
        }
        assert((before + all.take(3)).push(more@) =~= before + all.take(3).push(more@));
    } else {
        assert(all.take(n as int) =~= all);
    }
}

/// A preview shows no more than the limit of each message and one row that says
/// that there is more.
pub proof fn law_preview_is_bounded(wrapped: Seq<Seq<Seq<SpanView>>>, i: int)
    requires
        0 <= i <= wrapped.len(),
    ensures
        message_rows(wrapped, i).len() <= (wrapped.len() - i) * (PREVIEW_LINE_LIMIT + 1),
    decreases wrapped.len() - i,
{
    if i < wrapped.len() {
        law_preview_is_bounded(wrapped, i + 1);
        assert((wrapped.len() - i) * 4 == (wrapped.len() - (i + 1)) * 4 + 4);
    }
}

} // verus!
