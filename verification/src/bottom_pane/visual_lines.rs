//! The rows that a text takes on the screen.
//!
//! A row ends at a new line, or where the next character would not fit. A
//! character that is wider than the screen still gets a row.

use crate::text;
use crate::width;
use vstd::prelude::*;

verus! {

/// The end of the row that starts at `start`, scanned from `i` on, where the
/// characters before `i` take `used` columns.
pub open spec fn row_end(s: Seq<char>, start: int, i: int, used: int, columns: int) -> int
    decreases s.len() - i,
{
    if i < 0 || i >= s.len() {
        s.len() as int
    } else if s[i] == '\n' || (i != start && used + width::char_columns(s[i]) > columns) {
        i
    } else {
        row_end(s, start, i + 1, used + width::char_columns(s[i]), columns)
    }
}

/// A row ends behind its first character, unless that is a new line.
pub proof fn row_end_inside(s: Seq<char>, start: int, i: int, used: int, columns: int)
    requires
        0 <= start <= i <= s.len(),
    ensures
        i <= row_end(s, start, i, used, columns) <= s.len(),
        row_end(s, start, i, used, columns) < s.len() && s[row_end(s, start, i, used, columns)]
            != '\n' ==> start < row_end(s, start, i, used, columns),
    decreases s.len() - i,
{
    if i < s.len() && s[i] != '\n' && !(i != start && used + width::char_columns(s[i]) > columns) {
        row_end_inside(s, start, i + 1, used + width::char_columns(s[i]), columns);
    }
}

/// Where the row that starts at `start` ends.
pub open spec fn end_of_row(s: Seq<char>, start: int, columns: int) -> int {
    row_end(s, start, start, 0, columns)
}

/// The rows from `start` on: where each starts and ends.
pub open spec fn rows_from(s: Seq<char>, start: int, columns: int) -> Seq<(int, int)>
    decreases s.len() - start,
{
    if start < 0 || start >= s.len() {
        seq![(start, start)]
    } else {
        let end = end_of_row(s, start, columns);
        if end >= s.len() {
            seq![(start, end)]
        } else if s[end] == '\n' {
            proof {
                row_end_inside(s, start, start, 0, columns);
            }
            seq![(start, end)] + rows_from(s, end + 1, columns)
        } else {
            proof {
                row_end_inside(s, start, start, 0, columns);
            }
            seq![(start, end)] + rows_from(s, end, columns)
        }
    }
}

/// The number of columns that rows are wrapped at: at least one.
pub open spec fn usable(columns: int) -> int {
    if columns < 1 {
        1
    } else {
        columns
    }
}

/// The rows of a text.
pub open spec fn rows_of(s: Seq<char>, columns: int) -> Seq<(int, int)> {
    rows_from(s, 0, usable(columns))
}

/// Places as integers.
pub open spec fn pairs(v: Seq<(usize, usize)>) -> Seq<(int, int)> {
    v.map_values(|p: (usize, usize)| (p.0 as int, p.1 as int))
}

/// The rows of a text: where each starts and ends.
pub fn visual_line_ranges(s: &Vec<char>, columns: usize) -> (r: Vec<(usize, usize)>)
    ensures
        pairs(r@) == rows_of(s@, columns as int),
        r@.len() >= 1,
        forall|k: int| 0 <= k < r@.len() ==> (#[trigger] r@[k]).0 <= r@[k].1 <= s@.len(),
{
    let columns: usize = if columns < 1 {
        1
    } else {
        columns
    };
    let ghost goal = rows_from(s@, 0, columns as int);
    let mut ranges: Vec<(usize, usize)> = Vec::new();
    let mut start: usize = 0;
    let mut used: usize = 0;
    let mut i: usize = 0;
    assert(pairs(ranges@) + rows_from(s@, 0, columns as int) =~= goal);
    while i < s.len()
        invariant
            start <= i <= s@.len(),
            start == i ==> used == 0,
            used as int <= usize::MAX as int,
            goal == pairs(ranges@) + rows_from(s@, start as int, columns as int),
            row_end(s@, start as int, i as int, used as int, columns as int) == end_of_row(
                s@,
                start as int,
                columns as int,
            ),
            forall|k: int|
                0 <= k < ranges@.len() ==> (#[trigger] ranges@[k]).0 <= ranges@[k].1 <= s@.len(),
        decreases s@.len() - i,
    {
        let c = s[i];
        if c == '\n' {
            proof {
                step_row(s@, ranges@, start, i, columns as int, (i + 1) as int);
            }
            ranges.push((start, i));
            start = i + 1;
            used = 0;
        } else {
            let w: usize = width::char_width(c);
            if start != i && used as u128 + w as u128 > columns as u128 {
                proof {
                    step_row(s@, ranges@, start, i, columns as int, i as int);
                }
                ranges.push((start, i));
                start = i;
                used = 0;
            }
            if used as u128 + w as u128 > usize::MAX as u128 {
                assert(start == i);
            }
            used = used + w;
        }
        i += 1;
    }
    assert(pairs(ranges@.push((start, i))) =~= pairs(ranges@) + seq![(start as int, i as int)]);
    ranges.push((start, i));
    ranges
}

/// One finished row is taken from the rows that are still to come.
proof fn step_row(
    s: Seq<char>,
    ranges: Seq<(usize, usize)>,
    start: usize,
    end: usize,
    columns: int,
    next: int,
)
    requires
        start <= end < s.len(),
        end as int == end_of_row(s, start as int, columns),
        s[end as int] == '\n' ==> next == end + 1,
        s[end as int] != '\n' ==> next == end,
    ensures
        pairs(ranges) + rows_from(s, start as int, columns) == pairs(ranges.push((start, end)))
            + rows_from(s, next, columns),
{
    row_end_inside(s, start as int, start as int, 0, columns);
    assert(pairs(ranges.push((start, end))) =~= pairs(ranges) + seq![(start as int, end as int)]);
    assert(pairs(ranges) + rows_from(s, start as int, columns) =~= pairs(ranges.push((start, end)))
        + rows_from(s, next, columns));
}

// ---------------------------------------------------------------------------
// Rows and the cursor
// ---------------------------------------------------------------------------

/// Whether a cursor belongs to a row. Where a row was wrapped, the cursor behind
/// it belongs to the next row; before a new line it still belongs to this one.
pub open spec fn holds_cursor(rows: Seq<(int, int)>, k: int, cursor: int) -> bool {
    let (start, end) = rows[k];
    if start == end {
        cursor == start
    } else {
        &&& start <= cursor <= end
        &&& cursor < end || k + 1 >= rows.len() || rows[k + 1].0 != end
    }
}

/// The first row from `k` on that the cursor belongs to.
pub open spec fn cursor_row_from(rows: Seq<(int, int)>, k: int, cursor: int) -> Option<int>
    decreases rows.len() - k,
{
    if k < 0 || k >= rows.len() {
        None
    } else if holds_cursor(rows, k, cursor) {
        Some(k)
    } else {
        cursor_row_from(rows, k + 1, cursor)
    }
}

/// An index as an integer.
pub open spec fn index_of(o: Option<usize>) -> Option<int> {
    match o {
        Some(i) => Some(i as int),
        None => None,
    }
}

/// The row that the cursor belongs to.
pub fn current_visual_line(rows: &Vec<(usize, usize)>, cursor: usize) -> (r: Option<usize>)
    ensures
        index_of(r) == cursor_row_from(pairs(rows@), 0, cursor as int),
        r matches Some(k) ==> k < rows@.len() && holds_cursor(pairs(rows@), k as int, cursor as int),
{
    let mut k: usize = 0;
    while k < rows.len()
        invariant
            k <= rows@.len(),
            cursor_row_from(pairs(rows@), k as int, cursor as int) == cursor_row_from(
                pairs(rows@),
                0,
                cursor as int,
            ),
        decreases rows@.len() - k,
    {
        let (start, end): (usize, usize) = rows[k];
        assert(pairs(rows@)[k as int] == (start as int, end as int));
        let holds = if start == end {
            cursor == start
        } else if cursor < start || cursor > end {
            false
        } else if cursor < end || k + 1 >= rows.len() {
            true
        } else {
            assert(pairs(rows@)[k + 1].0 == rows@[k + 1].0);
            rows[k + 1].0 != end
        };
        if holds {
            return Some(k);
        }
        k += 1;
    }
    None
}

/// The place from `i` on, in a row that ends at `end`, at which the columns reach
/// `target`; the end of the row where they do not.
pub open spec fn column_place(s: Seq<char>, i: int, end: int, used: int, target: int) -> int
    decreases end - i,
{
    if i < 0 || i >= end {
        end
    } else {
        let more = used + width::char_columns(s[i]);
        if more > target {
            i
        } else if more == target {
            i + 1
        } else {
            column_place(s, i + 1, end, more, target)
        }
    }
}

/// The place in a row at a column.
pub fn visual_column_cursor(s: &Vec<char>, start: usize, end: usize, target: usize) -> (r: usize)
    requires
        start <= end <= s@.len(),
    ensures
        r as int == column_place(s@, start as int, end as int, 0, target as int),
        start <= r <= end,
{
    let mut i: usize = start;
    let mut used: usize = 0;
    while i < end
        invariant
            start <= i <= end <= s@.len(),
            used <= target,
            column_place(s@, i as int, end as int, used as int, target as int) == column_place(
                s@,
                start as int,
                end as int,
                0,
                target as int,
            ),
        decreases end - i,
    {
        let w: usize = width::char_width(s[i]);
        if w > target - used {
            return i;
        }
        used = used + w;
        if used == target {
            return i + 1;
        }
        i += 1;
    }
    end
}

/// How many new lines stand before the cursor.
pub open spec fn breaks_before(s: Seq<char>, n: int) -> int
    decreases n,
{
    if n <= 0 {
        0
    } else {
        breaks_before(s, n - 1) + if s[n - 1] == '\n' {
            1int
        } else {
            0int
        }
    }
}

/// The line before the cursor: what stands behind the last new line.
pub open spec fn line_before(s: Seq<char>, cursor: int) -> Seq<char> {
    s.subrange(crate::bottom_pane::draft::line_start(s, cursor), cursor)
}

/// The row of the cursor: the new lines before it, and the rows that the line
/// before it takes.
pub open spec fn cursor_line(s: Seq<char>, cursor: int, columns: int) -> int {
    breaks_before(s, cursor) + rows_of(line_before(s, cursor), columns).len() - 1
}

/// The line before the cursor.
pub fn line_before_cursor(s: &Vec<char>, cursor: usize) -> (r: Vec<char>)
    requires
        cursor <= s@.len(),
    ensures
        r@ == line_before(s@, cursor as int),
{
    let start: usize = crate::bottom_pane::draft::find_line_start(s, cursor);
    let mut out: Vec<char> = Vec::new();
    let mut i: usize = start;
    while i < cursor
        invariant
            start <= i <= cursor <= s@.len(),
            out@ == s@.subrange(start as int, i as int),
        decreases cursor - i,
    {
        out.push(s[i]);
        assert(s@.subrange(start as int, i + 1) =~= s@.subrange(start as int, i as int).push(
            s@[i as int],
        ));
        i += 1;
    }
    out
}

/// There are no more new lines than characters behind the start of the line.
proof fn breaks_bounded(s: Seq<char>, n: int)
    requires
        0 <= n <= s.len(),
    ensures
        0 <= breaks_before(s, n) <= crate::bottom_pane::draft::line_start(s, n) <= n,
    decreases n,
{
    if n > 0 {
        breaks_bounded(s, n - 1);
    }
}

/// There are no more rows than characters, but for one.
proof fn rows_bounded(s: Seq<char>, start: int, columns: int)
    requires
        0 <= start <= s.len(),
    ensures
        1 <= rows_from(s, start, columns).len() <= s.len() - start + 1,
    decreases s.len() - start,
{
    if start < s.len() {
        row_end_inside(s, start, start, 0, columns);
        let end = end_of_row(s, start, columns);
        if end < s.len() {
            if s[end] == '\n' {
                rows_bounded(s, end + 1, columns);
            } else {
                rows_bounded(s, end, columns);
            }
        }
    }
}

/// The row of the cursor.
pub fn cursor_visual_line(s: &Vec<char>, cursor: usize, columns: usize) -> (r: usize)
    requires
        cursor <= s@.len(),
    ensures
        r as int == cursor_line(s@, cursor as int, columns as int),
{
    let mut breaks: usize = 0;
    let mut i: usize = 0;
    while i < cursor
        invariant
            i <= cursor <= s@.len(),
            breaks as int == breaks_before(s@, i as int),
            breaks <= i,
        decreases cursor - i,
    {
        if s[i] == '\n' {
            breaks += 1;
        }
        i += 1;
    }
    let line = line_before_cursor(s, cursor);
    let rows = visual_line_ranges(&line, columns);
    proof {
        breaks_bounded(s@, cursor as int);
        rows_bounded(line@, 0, usable(columns as int));
        assert(pairs(rows@).len() == rows@.len());
    }
    breaks + (rows.len() - 1)
}

/// The texts of rows.
pub open spec fn row_texts(s: Seq<char>, rows: Seq<(int, int)>) -> Seq<Seq<char>> {
    Seq::new(rows.len(), |k: int| s.subrange(rows[k].0, rows[k].1))
}

/// A text wrapped into rows.
pub fn wrap_input(s: &Vec<char>, columns: usize) -> (r: Vec<String>)
    ensures
        text::views(r@) == row_texts(s@, rows_of(s@, columns as int)),
{
    let rows = visual_line_ranges(s, columns);
    let ghost all = row_texts(s@, pairs(rows@));
    let mut out: Vec<String> = Vec::new();
    let mut k: usize = 0;
    while k < rows.len()
        invariant
            k <= rows@.len(),
            all == row_texts(s@, pairs(rows@)),
            forall|j: int|
                0 <= j < rows@.len() ==> (#[trigger] rows@[j]).0 <= rows@[j].1 <= s@.len(),
            text::views(out@) =~= all.take(k as int),
        decreases rows@.len() - k,
    {
        let (start, end): (usize, usize) = rows[k];
        let row = text::string_of_range(s, start, end);
        let ghost before = out@;
        out.push(row);
        assert(text::views(out@) =~= text::views(before).push(row@));
        assert(all[k as int] == row@);
        assert(all.take(k + 1) =~= all.take(k as int).push(all[k as int]));
        k += 1;
    }
    assert(all.take(k as int) =~= all);
    out
}

// ---------------------------------------------------------------------------
// Laws
// ---------------------------------------------------------------------------

/// What stands between two rows: the new line that ends the first, or nothing.
pub open spec fn gap(s: Seq<char>, end: int) -> int {
    if 0 <= end < s.len() && s[end] == '\n' {
        1
    } else {
        0
    }
}

/// Rows leave nothing out: each begins where the one before it ends, or behind
/// the new line there, and the last one ends at the end of the text.
pub proof fn law_rows_cover(s: Seq<char>, start: int, columns: int)
    requires
        0 <= start <= s.len(),
    ensures
        ({
            let rows = rows_from(s, start, columns);
            &&& rows.len() >= 1
            &&& rows[0].0 == start
            &&& rows.last().1 == s.len()
            &&& forall|k: int|
                #![trigger rows[k]]
                0 <= k < rows.len() ==> rows[k].0 <= rows[k].1 <= s.len()
            &&& forall|k: int|
                #![trigger rows[k]]
                0 <= k < rows.len() - 1 ==> rows[k + 1].0 == rows[k].1 + gap(s, rows[k].1)
        }),
    decreases s.len() - start,
{
    if start < s.len() {
        row_end_inside(s, start, start, 0, columns);
        let end = end_of_row(s, start, columns);
        if end < s.len() {
            let next = if s[end] == '\n' {
                end + 1
            } else {
                end
            };
            law_rows_cover(s, next, columns);
            let tail = rows_from(s, next, columns);
            let rows = rows_from(s, start, columns);
            assert(rows =~= seq![(start, end)] + tail);
            assert(rows.last() == tail.last());
            assert forall|k: int|
                #![trigger rows[k]]
                0 <= k < rows.len() implies rows[k].0 <= rows[k].1 <= s.len() by {
                if k > 0 {
                    assert(rows[k] == tail[k - 1]);
                }
            }
            assert forall|k: int|
                #![trigger rows[k]]
                0 <= k < rows.len() - 1 implies rows[k + 1].0 == rows[k].1 + gap(s, rows[k].1) by {
                if k > 0 {
                    assert(rows[k] == tail[k - 1]);
                    assert(rows[k + 1] == tail[k]);
                } else {
                    assert(rows[1] == tail[0]);
                }
            }
        }
    }
}

/// A row fits the screen, unless its first character alone is too wide.
pub proof fn law_rows_fit(s: Seq<char>, start: int, columns: int)
    requires
        0 <= start <= s.len(),
        0 <= columns,
    ensures
        ({
            let end = end_of_row(s, start, columns);
            end <= start + 1 || crate::style::columns(s, start, end) <= columns
        }),
{
    row_fits(s, start, start, 0, columns);
}

/// The step of the law on rows that fit.
proof fn row_fits(s: Seq<char>, start: int, i: int, used: int, columns: int)
    requires
        0 <= start <= i <= s.len(),
        i <= start + 1 || used <= columns,
    ensures
        ({
            let end = row_end(s, start, i, used, columns);
            end <= i || end <= start + 1 || used + crate::style::columns(s, i, end) <= columns
        }),
    decreases s.len() - i,
{
    if i < s.len() && s[i] != '\n' && !(i != start && used + width::char_columns(s[i]) > columns) {
        row_fits(s, start, i + 1, used + width::char_columns(s[i]), columns);
        row_end_inside(s, start, i + 1, used + width::char_columns(s[i]), columns);
        reveal_with_fuel(crate::style::columns, 2);
    }
}

} // verus!
