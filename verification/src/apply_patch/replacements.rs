//! From the chunks of an update to the edits of a file, and from the edits to
//! the new lines.

use crate::apply_patch::engine;
use crate::apply_patch::engine::{ChunkView, UpdateFileChunk};
use crate::apply_patch::seek_sequence;
use crate::apply_patch::seek_sequence::Tolerance;
use crate::text;
use vstd::prelude::*;

verus! {

/// One edit: `old_len` lines from `start` on give way to `new_lines`.
pub struct Replacement {
    pub start: usize,
    pub old_len: usize,
    pub new_lines: Vec<String>,
}

/// The texts and places of an edit.
#[verifier::ext_equal]
pub struct Edit {
    pub start: int,
    pub old_len: int,
    pub new_lines: Seq<Seq<char>>,
}

impl View for Replacement {
    type V = Edit;

    open spec fn view(&self) -> Edit {
        Edit {
            start: self.start as int,
            old_len: self.old_len as int,
            new_lines: text::views(self.new_lines@),
        }
    }
}

/// The edits of a list of replacements.
pub open spec fn edits(rs: Seq<Replacement>) -> Seq<Edit> {
    Seq::new(rs.len(), |i: int| rs[i]@)
}

// ---------------------------------------------------------------------------
// Locating
// ---------------------------------------------------------------------------

/// Where lines go that replace nothing: the end of the file, but before an
/// empty last line.
pub open spec fn insertion_place(lines: Seq<Seq<char>>) -> int {
    if lines.len() > 0 && lines.last().len() == 0 {
        lines.len() - 1
    } else {
        lines.len() as int
    }
}

/// Lines without the last one where that is empty.
pub open spec fn without_blank_end(lines: Seq<Seq<char>>) -> Seq<Seq<char>> {
    if lines.len() > 0 && lines.last().len() == 0 {
        lines.drop_last()
    } else {
        lines
    }
}

/// What is said of a context line that is not in the file.
pub open spec fn missing_context(context: Seq<char>, path: Seq<char>) -> Seq<char> {
    "Failed to find context '"@ + context + "' in "@ + path
}

/// What is said of lines that are not in the file.
pub open spec fn missing_lines(old_lines: Seq<Seq<char>>, path: Seq<char>) -> Seq<char> {
    "Failed to find expected lines in "@ + path + ":\n"@ + text::joined(old_lines, "\n"@)
}

/// Where the search for a chunk begins: behind its context line, where it has
/// one, and else where the chunk before it left off.
pub open spec fn chunk_start(
    lines: Seq<Seq<char>>,
    path: Seq<char>,
    chunk: ChunkView,
    from: int,
) -> Result<int, Seq<char>> {
    match chunk.change_context {
        Some(context) => match seek_sequence::sought(lines, seq![context], from, false) {
            Some(i) => Ok(i + 1),
            None => Err(missing_context(context, path)),
        },
        None => Ok(from),
    }
}

/// The edit that a chunk stands for, and where the search for the next one
/// begins. An empty line at the end of the lines to find may be missing from
/// the file; then it is dropped from the new lines too.
pub open spec fn chunk_edit(
    lines: Seq<Seq<char>>,
    path: Seq<char>,
    chunk: ChunkView,
    from: int,
) -> Result<(Edit, int), Seq<char>> {
    match chunk_start(lines, path, chunk, from) {
        Err(message) => Err(message),
        Ok(start) => {
            let eof = chunk.is_end_of_file;
            if chunk.old_lines.len() == 0 {
                Ok(
                    (
                        Edit {
                            start: insertion_place(lines),
                            old_len: 0,
                            new_lines: chunk.new_lines,
                        },
                        start,
                    ),
                )
            } else {
                match seek_sequence::sought(lines, chunk.old_lines, start, eof) {
                    Some(i) => Ok(
                        (
                            Edit {
                                start: i,
                                old_len: chunk.old_lines.len() as int,
                                new_lines: chunk.new_lines,
                            },
                            i + chunk.old_lines.len(),
                        ),
                    ),
                    None => {
                        let shorter = without_blank_end(chunk.old_lines);
                        if shorter.len() == chunk.old_lines.len() {
                            Err(missing_lines(chunk.old_lines, path))
                        } else {
                            match seek_sequence::sought(lines, shorter, start, eof) {
                                Some(i) => Ok(
                                    (
                                        Edit {
                                            start: i,
                                            old_len: shorter.len() as int,
                                            new_lines: without_blank_end(chunk.new_lines),
                                        },
                                        i + shorter.len(),
                                    ),
                                ),
                                None => Err(missing_lines(chunk.old_lines, path)),
                            }
                        }
                    },
                }
            }
        },
    }
}

/// The edits of all chunks from `k` on, behind those of the chunks before.
pub open spec fn edits_from(
    lines: Seq<Seq<char>>,
    path: Seq<char>,
    chunks: Seq<ChunkView>,
    k: int,
    from: int,
    done: Seq<Edit>,
) -> Result<Seq<Edit>, Seq<char>>
    decreases chunks.len() - k,
{
    if k < 0 || k >= chunks.len() {
        Ok(done)
    } else {
        match chunk_edit(lines, path, chunks[k], from) {
            Ok((edit, next)) => edits_from(lines, path, chunks, k + 1, next, done.push(edit)),
            Err(message) => Err(message),
        }
    }
}

// ---------------------------------------------------------------------------
// Order
// ---------------------------------------------------------------------------

/// `sorted` with `e` put behind the last edit that does not start after it.
pub open spec fn placed(sorted: Seq<Edit>, e: Edit) -> Seq<Edit>
    decreases sorted.len(),
{
    if sorted.len() == 0 || sorted.last().start <= e.start {
        sorted.push(e)
    } else {
        placed(sorted.drop_last(), e).push(sorted.last())
    }
}

/// The edits in the order of their places; those at one place stay in the order
/// that they had.
pub open spec fn in_order(es: Seq<Edit>) -> Seq<Edit>
    decreases es.len(),
{
    if es.len() == 0 {
        Seq::empty()
    } else {
        placed(in_order(es.drop_last()), es.last())
    }
}

/// What is said of an edit that begins before the one before it ends.
pub open spec fn overlap_message(path: Seq<char>, start: int, end: int) -> Seq<char> {
    "Overlapping edit detected in "@ + path + " at line "@ + text::decimal_of(start as nat)
        + " (previous edit ended at line "@ + text::decimal_of(end as nat)
        + "); refusing to apply a corrupting patch"@
}

/// The first fault in the order of the edits from `k` on, where the edit before
/// ended at `cursor`.
pub open spec fn overlap_from(
    path: Seq<char>,
    es: Seq<Edit>,
    k: int,
    cursor: int,
) -> Option<Seq<char>>
    decreases es.len() - k,
{
    if k < 0 || k >= es.len() {
        None
    } else if es[k].start < cursor {
        Some(overlap_message(path, es[k].start, cursor))
    } else {
        overlap_from(path, es, k + 1, es[k].start + es[k].old_len)
    }
}

/// The edits that `chunks` make to a file of the given lines, in order, or why
/// they cannot be made.
pub open spec fn computed(
    lines: Seq<Seq<char>>,
    path: Seq<char>,
    chunks: Seq<ChunkView>,
) -> Result<Seq<Edit>, Seq<char>> {
    match edits_from(lines, path, chunks, 0, 0, Seq::empty()) {
        Err(message) => Err(message),
        Ok(es) => match overlap_from(path, in_order(es), 0, 0) {
            Some(message) => Err(message),
            None => Ok(in_order(es)),
        },
    }
}

/// Edits inside a file of `len` lines, one behind the other.
pub open spec fn separate(es: Seq<Edit>, len: int) -> bool {
    &&& forall|i: int|
        #![trigger es[i]]
        0 <= i < es.len() ==> 0 <= es[i].start && 0 <= es[i].old_len && es[i].start + es[i].old_len
            <= len
    &&& forall|i: int, j: int|
        #![trigger es[i], es[j]]
        0 <= i < j < es.len() ==> es[i].start + es[i].old_len <= es[j].start
}

/// Edits that stay inside a file of `len` lines.
pub open spec fn inside(es: Seq<Edit>, len: int) -> bool {
    forall|i: int|
        #![trigger es[i]]
        0 <= i < es.len() ==> 0 <= es[i].start && 0 <= es[i].old_len && es[i].start + es[i].old_len
            <= len
}

/// The text of computed replacements.
pub open spec fn computed_view(r: Result<Vec<Replacement>, String>) -> Result<
    Seq<Edit>,
    Seq<char>,
> {
    match r {
        Ok(v) => Ok(edits(v@)),
        Err(e) => Err(e@),
    }
}

/// Whether the last of some lines is empty.
fn ends_blank(lines: &[String]) -> (r: bool)
    ensures
        r == (lines@.len() > 0 && text::views(lines@).last().len() == 0),
{
    let n: usize = lines.len();
    if n == 0 {
        return false;
    }
    assert(text::views(lines@).last() == lines@[n - 1]@);
    lines[n - 1].as_str().is_empty()
}

/// Puts an edit among sorted ones, behind those at the same place.
fn place_edit(sorted: &mut Vec<Replacement>, e: Replacement)
    ensures
        edits(final(sorted)@) == placed(edits(old(sorted)@), e@),
    decreases old(sorted)@.len(),
{
    let ghost before = edits(sorted@);
    match sorted.pop() {
        None => {
            sorted.push(e);
            assert(edits(sorted@) =~= before.push(e@));
        },
        Some(last) => {
            assert(edits(sorted@) =~= before.drop_last());
            assert(before.last() == last@);
            if last.start <= e.start {
                sorted.push(last);
                sorted.push(e);
                assert(edits(sorted@) =~= before.push(e@));
            } else {
                place_edit(sorted, e);
                let ghost mid = edits(sorted@);
                sorted.push(last);
                assert(edits(sorted@) =~= mid.push(last@));
            }
        },
    }
}

/// Sorts edits by their places.
fn sort_edits(es: Vec<Replacement>) -> (r: Vec<Replacement>)
    ensures
        edits(r@) == in_order(edits(es@)),
    decreases es@.len(),
{
    let mut es = es;
    let ghost all = edits(es@);
    match es.pop() {
        None => {
            assert(edits(es@) =~= in_order(all));
            es
        },
        Some(last) => {
            assert(edits(es@) =~= all.drop_last());
            assert(all.last() == last@);
            let mut sorted = sort_edits(es);
            place_edit(&mut sorted, last);
            sorted
        },
    }
}

/// The edit of one chunk.
fn locate_chunk(
    lines: &Vec<String>,
    path: &str,
    chunk: &UpdateFileChunk,
    from: usize,
) -> (r: Result<(Replacement, usize), String>)
    requires
        from <= lines@.len(),
    ensures
        match r {
            Ok(p) => {
                &&& chunk_edit(text::views(lines@), path@, chunk@, from as int) == Ok::<
                    (Edit, int),
                    Seq<char>,
                >((p.0@, p.1 as int))
                &&& p.1 <= lines@.len()
                &&& p.0.start + p.0.old_len <= lines@.len()
            },
            Err(e) => chunk_edit(text::views(lines@), path@, chunk@, from as int) == Err::<
                (Edit, int),
                Seq<char>,
            >(e@),
        },
{
    let count: usize = lines.len();
    let ghost all = text::views(lines@);
    let ghost view = chunk@;
    assert(all.len() == count);
    let mut start: usize = from;
    if let Some(context) = &chunk.change_context {
        let mut one: Vec<String> = Vec::new();
        one.push(context.clone());
        assert(text::views(one@) =~= seq![context@]);
        match seek_sequence::seek_sequence(lines, &one, from, false) {
            Some(i) => {
                start = i + 1;
            },
            None => {
                let mut message = "Failed to find context '".to_owned();
                message.push_str(context);
                message.push_str("' in ");
                message.push_str(path);
                return Err(message);
            },
        }
    }
    assert(chunk_start(all, path@, view, from as int) == Ok::<int, Seq<char>>(start as int));
    if chunk.old_lines.len() == 0 {
        let at: usize = if ends_blank(lines) {
            lines.len() - 1
        } else {
            lines.len()
        };
        let edit = Replacement {
            start: at,
            old_len: 0,
            new_lines: text::copy_strings(&chunk.new_lines),
        };
        return Ok((edit, start));
    }
    if let Some(i) = seek_sequence::seek_sequence(
        lines,
        &chunk.old_lines,
        start,
        chunk.is_end_of_file,
    ) {
        let n: usize = chunk.old_lines.len();
        let edit = Replacement {
            start: i,
            old_len: n,
            new_lines: text::copy_strings(&chunk.new_lines),
        };
        return Ok((edit, i + n));
    }
    if ends_blank(&chunk.old_lines) {
        let n: usize = chunk.old_lines.len() - 1;
        let shorter = text::copy_range(&chunk.old_lines, 0, n);
        assert(text::views(shorter@) =~= without_blank_end(view.old_lines));
        if let Some(i) = seek_sequence::seek_sequence(
            lines,
            &shorter,
            start,
            chunk.is_end_of_file,
        ) {
            let m: usize = if ends_blank(&chunk.new_lines) {
                chunk.new_lines.len() - 1
            } else {
                chunk.new_lines.len()
            };
            let new_lines = text::copy_range(&chunk.new_lines, 0, m);
            assert(text::views(new_lines@) =~= without_blank_end(view.new_lines));
            let edit = Replacement { start: i, old_len: n, new_lines };
            return Ok((edit, i + n));
        }
    }
    let mut message = "Failed to find expected lines in ".to_owned();
    message.push_str(path);
    message.push_str(":\n");
    message.push_str(&text::join(&chunk.old_lines, "\n"));
    Err(message)
}

/// Finds the place of every chunk in a file and orders the edits. Edits that
/// overlap are refused.
pub fn compute_replacements(
    original_lines: &Vec<String>,
    path: &str,
    chunks: &Vec<UpdateFileChunk>,
) -> (r: Result<Vec<Replacement>, String>)
    ensures
        computed_view(r) == computed(
            text::views(original_lines@),
            path@,
            engine::chunk_views(chunks@),
        ),
        r matches Ok(v) ==> separate(edits(v@), original_lines@.len() as int),
{
    let count: usize = original_lines.len();
    let ghost lines = text::views(original_lines@);
    assert(lines.len() == count);
    let ghost cs = engine::chunk_views(chunks@);
    let mut found: Vec<Replacement> = Vec::new();
    assert(edits(found@) =~= Seq::<Edit>::empty());
    let mut line_index: usize = 0;
    let mut k: usize = 0;
    while k < chunks.len()
        invariant
            k <= chunks@.len(),
            line_index <= original_lines@.len() <= usize::MAX,
            lines == text::views(original_lines@),
            cs == engine::chunk_views(chunks@),
            inside(edits(found@), lines.len() as int),
            edits_from(lines, path@, cs, k as int, line_index as int, edits(found@)) == edits_from(
                lines,
                path@,
                cs,
                0,
                0,
                Seq::empty(),
            ),
        decreases chunks@.len() - k,
    {
        let ghost before = edits(found@);
        assert(cs[k as int] == chunks@[k as int]@);
        match locate_chunk(original_lines, path, &chunks[k], line_index) {
            Ok((edit, next)) => {
                found.push(edit);
                assert(edits(found@) =~= before.push(edit@));
                line_index = next;
            },
            Err(message) => return Err(message),
        }
        k += 1;
    }
    let ghost unsorted = edits(found@);
    let sorted = sort_edits(found);
    let ghost es = edits(sorted@);
    proof {
        in_order_keeps_inside(unsorted, lines.len() as int);
    }
    let mut cursor: usize = 0;
    let mut i: usize = 0;
    while i < sorted.len()
        invariant
            i <= sorted@.len(),
            cursor <= original_lines@.len() <= usize::MAX,
            lines == text::views(original_lines@),
            es == edits(sorted@),
            inside(es, lines.len() as int),
            es == in_order(unsorted),
            edits_from(lines, path@, cs, 0, 0, Seq::empty()) == Ok::<Seq<Edit>, Seq<char>>(
                unsorted,
            ),
            cs == engine::chunk_views(chunks@),
            overlap_from(path@, es, i as int, cursor as int) == overlap_from(path@, es, 0, 0),
            forall|a: int| #![trigger es[a]] 0 <= a < i ==> es[a].start + es[a].old_len <= cursor,
            forall|a: int, b: int|
                #![trigger es[a], es[b]]
                0 <= a < b < i ==> es[a].start + es[a].old_len <= es[b].start,
        decreases sorted@.len() - i,
    {
        assert(es[i as int] == sorted@[i as int]@);
        let start: usize = sorted[i].start;
        if start < cursor {
            let mut message = "Overlapping edit detected in ".to_owned();
            message.push_str(path);
            message.push_str(" at line ");
            message.push_str(&text::decimal(start as u64));
            message.push_str(" (previous edit ended at line ");
            message.push_str(&text::decimal(cursor as u64));
            message.push_str("); refusing to apply a corrupting patch");
            return Err(message);
        }
        cursor = start + sorted[i].old_len;
        i += 1;
    }
    Ok(sorted)
}

/// Placing an edit keeps all edits inside the file.
proof fn placed_keeps_inside(sorted: Seq<Edit>, e: Edit, len: int)
    requires
        inside(sorted, len),
        0 <= e.start,
        0 <= e.old_len,
        e.start + e.old_len <= len,
    ensures
        inside(placed(sorted, e), len),
    decreases sorted.len(),
{
    if sorted.len() > 0 {
        let front = sorted.drop_last();
        assert forall|i: int| #![trigger front[i]] 0 <= i < front.len() implies 0 <= front[i].start
            && 0 <= front[i].old_len && front[i].start + front[i].old_len <= len by {
            assert(front[i] == sorted[i]);
        }
        placed_keeps_inside(front, e, len);
        let last = sorted[sorted.len() - 1];
        assert(0 <= last.start && 0 <= last.old_len && last.start + last.old_len <= len);
    }
}

/// Sorting keeps all edits inside the file.
proof fn in_order_keeps_inside(es: Seq<Edit>, len: int)
    requires
        inside(es, len),
    ensures
        inside(in_order(es), len),
    decreases es.len(),
{
    if es.len() > 0 {
        let front = es.drop_last();
        assert forall|i: int| #![trigger front[i]] 0 <= i < front.len() implies 0 <= front[i].start
            && 0 <= front[i].old_len && front[i].start + front[i].old_len <= len by {
            assert(front[i] == es[i]);
        }
        in_order_keeps_inside(front, len);
        let last = es[es.len() - 1];
        assert(0 <= last.start);
        placed_keeps_inside(in_order(front), last, len);
    }
}

// ---------------------------------------------------------------------------
// Applying
// ---------------------------------------------------------------------------

/// The lines of a file from `cursor` on after the edits from `k` on: what lies
/// between the edits is kept, and the new lines stand in the place of the old.
pub open spec fn spliced_from(
    lines: Seq<Seq<char>>,
    es: Seq<Edit>,
    k: int,
    cursor: int,
) -> Seq<Seq<char>>
    decreases es.len() - k,
{
    if k < 0 || k >= es.len() {
        lines.skip(cursor)
    } else {
        lines.subrange(cursor, es[k].start) + es[k].new_lines + spliced_from(
            lines,
            es,
            k + 1,
            es[k].start + es[k].old_len,
        )
    }
}

/// The lines of a file after the given edits.
pub open spec fn spliced(lines: Seq<Seq<char>>, es: Seq<Edit>) -> Seq<Seq<char>> {
    spliced_from(lines, es, 0, 0)
}

/// Appends the strings of `from` from `lo` up to `hi` to `out`.
fn append_range(out: &mut Vec<String>, from: &Vec<String>, lo: usize, hi: usize)
    requires
        lo <= hi <= from@.len(),
    ensures
        text::views(final(out)@) == text::views(old(out)@) + text::views(from@).subrange(
            lo as int,
            hi as int,
        ),
{
    let mut i: usize = lo;
    let ghost start = text::views(out@);
    let ghost all = text::views(from@);
    assert(start + all.subrange(lo as int, lo as int) =~= start);
    while i < hi
        invariant
            lo <= i <= hi <= from@.len(),
            all == text::views(from@),
            text::views(out@) == start + all.subrange(lo as int, i as int),
        decreases hi - i,
    {
        let ghost before = text::views(out@);
        out.push(from[i].clone());
        assert(text::views(out@) =~= before.push(all[i as int]));
        assert(all.subrange(lo as int, i + 1) =~= all.subrange(lo as int, i as int).push(
            all[i as int],
        ));
        assert(text::views(out@) =~= start + all.subrange(lo as int, i + 1));
        i += 1;
    }
}

/// Makes edits that lie one behind the other.
pub fn apply_replacements(lines: &Vec<String>, replacements: &Vec<Replacement>) -> (r: Vec<String>)
    requires
        separate(edits(replacements@), lines@.len() as int),
    ensures
        text::views(r@) == spliced(text::views(lines@), edits(replacements@)),
{
    let count: usize = lines.len();
    let ghost all = text::views(lines@);
    assert(all.len() == count);
    let ghost es = edits(replacements@);
    let mut out: Vec<String> = Vec::new();
    let mut cursor: usize = 0;
    let mut k: usize = 0;
    assert(text::views(out@) + spliced(all, es) =~= spliced(all, es));
    while k < replacements.len()
        invariant
            k <= replacements@.len(),
            cursor <= lines@.len() <= usize::MAX,
            all == text::views(lines@),
            es == edits(replacements@),
            separate(es, lines@.len() as int),
            k < es.len() ==> cursor <= es[k as int].start,
            text::views(out@) + spliced_from(all, es, k as int, cursor as int) == spliced(all, es),
        decreases replacements@.len() - k,
    {
        let ghost before = text::views(out@);
        assert(es[k as int] == replacements@[k as int]@);
        let start: usize = replacements[k].start;
        let old_len: usize = replacements[k].old_len;
        append_range(&mut out, lines, cursor, start);
        append_range(&mut out, &replacements[k].new_lines, 0, replacements[k].new_lines.len());
        let ghost fresh = es[k as int].new_lines;
        assert(fresh.subrange(0, fresh.len() as int) =~= fresh);
        let ghost rest = spliced_from(all, es, k + 1, start + old_len);
        assert(before + (all.subrange(cursor as int, start as int) + fresh + rest) =~= (before
            + all.subrange(cursor as int, start as int)) + fresh + rest);
        proof {
            if k + 1 < es.len() {
                assert(es[k as int].start + es[k as int].old_len <= es[k + 1].start);
            }
        }
        cursor = start + old_len;
        k += 1;
    }
    let ghost before = text::views(out@);
    append_range(&mut out, lines, cursor, lines.len());
    assert(all.subrange(cursor as int, all.len() as int) =~= all.skip(cursor as int));
    out
}

// ---------------------------------------------------------------------------
// Whole files
// ---------------------------------------------------------------------------

/// The lines of a file, without the empty one behind a final line feed.
pub open spec fn file_lines(contents: Seq<char>) -> Seq<Seq<char>> {
    without_blank_end(text::pieces(contents, '\n'))
}

/// The contents of a file with the given lines: it ends with a line feed.
pub open spec fn file_contents(lines: Seq<Seq<char>>) -> Seq<char> {
    if lines.len() > 0 && lines.last().len() == 0 {
        text::joined(lines, "\n"@)
    } else {
        text::joined(lines.push(Seq::empty()), "\n"@)
    }
}

/// The contents of a file after an update, or why it cannot be made.
pub open spec fn updated(contents: Seq<char>, path: Seq<char>, chunks: Seq<ChunkView>) -> Result<
    Seq<char>,
    Seq<char>,
> {
    match computed(file_lines(contents), path, chunks) {
        Ok(es) => Ok(file_contents(spliced(file_lines(contents), es))),
        Err(message) => Err(message),
    }
}

/// The text in a result of strings.
pub open spec fn updated_view(r: Result<String, String>) -> Result<Seq<char>, Seq<char>> {
    match r {
        Ok(s) => Ok(s@),
        Err(e) => Err(e@),
    }
}

/// Makes an update of a file.
pub fn update_contents(contents: &str, path: &str, chunks: &Vec<UpdateFileChunk>) -> (r: Result<
    String,
    String,
>)
    ensures
        updated_view(r) == updated(contents@, path@, engine::chunk_views(chunks@)),
{
    let mut original = text::split_on(contents, '\n');
    if ends_blank(&original) {
        let ghost before = text::views(original@);
        let _ = original.pop();
        assert(text::views(original@) =~= before.drop_last());
    }
    assert(text::views(original@) == file_lines(contents@));
    match compute_replacements(&original, path, chunks) {
        Ok(replacements) => {
            let mut fresh = apply_replacements(&original, &replacements);
            if !ends_blank(&fresh) {
                let ghost before = text::views(fresh@);
                fresh.push(String::new());
                assert(text::views(fresh@) =~= before.push(Seq::empty()));
            }
            Ok(text::join(&fresh, "\n"))
        },
        Err(message) => Err(message),
    }
}

// ---------------------------------------------------------------------------
// Laws
// ---------------------------------------------------------------------------

/// Sorting gives edits in the order of their places.
pub proof fn law_in_order_sorted(es: Seq<Edit>)
    ensures
        forall|i: int, j: int|
            #![trigger in_order(es)[i], in_order(es)[j]]
            0 <= i <= j < in_order(es).len() ==> in_order(es)[i].start <= in_order(es)[j].start,
        in_order(es).to_multiset() == es.to_multiset(),
    decreases es.len(),
{
    if es.len() > 0 {
        broadcast use vstd::seq_lib::group_to_multiset_ensures;

        let front = es.drop_last();
        law_in_order_sorted(front);
        placed_sorted(in_order(front), es.last());
        assert(front.push(es.last()) =~= es);
        assert(front.push(es.last()).to_multiset() =~= front.to_multiset().insert(es.last()));
    } else {
        assert(in_order(es) =~= es);
    }
}

/// Placing an edit keeps the order and loses nothing.
proof fn placed_sorted(sorted: Seq<Edit>, e: Edit)
    requires
        forall|i: int, j: int|
            #![trigger sorted[i], sorted[j]]
            0 <= i <= j < sorted.len() ==> sorted[i].start <= sorted[j].start,
    ensures
        forall|i: int, j: int|
            #![trigger placed(sorted, e)[i], placed(sorted, e)[j]]
            0 <= i <= j < placed(sorted, e).len() ==> placed(sorted, e)[i].start <= placed(
                sorted,
                e,
            )[j].start,
        placed(sorted, e).to_multiset() == sorted.to_multiset().insert(e),
        forall|i: int|
            0 <= i < placed(sorted, e).len() ==> (sorted.contains(#[trigger] placed(sorted, e)[i])
                || placed(sorted, e)[i] == e),
    decreases sorted.len(),
{
    broadcast use vstd::seq_lib::group_to_multiset_ensures;

    let p = placed(sorted, e);
    if sorted.len() == 0 || sorted.last().start <= e.start {
        assert forall|i: int| 0 <= i < p.len() implies (sorted.contains(#[trigger] p[i]) || p[i]
            == e) by {
            if i < sorted.len() {
                assert(p[i] == sorted[i]);
            }
        }
        if sorted.len() > 0 {
            assert forall|i: int, j: int| #![trigger p[i], p[j]] 0 <= i <= j < p.len() implies p[i].start
                <= p[j].start by {
                if j == sorted.len() && i < sorted.len() {
                    assert(sorted[i].start <= sorted[sorted.len() - 1].start);
                }
            }
        }
    } else {
        let front = sorted.drop_last();
        placed_sorted(front, e);
        let q = placed(front, e);
        let last = sorted.last();
        assert(front.push(last) =~= sorted);
        assert(p =~= q.push(last));
        assert forall|i: int| 0 <= i < q.len() implies (#[trigger] q[i]).start <= last.start by {
            if front.contains(q[i]) {
                let k = choose|k: int| 0 <= k < front.len() && front[k] == q[i];
                assert(sorted[k].start <= sorted[sorted.len() - 1].start);
            }
        }
        assert forall|i: int| 0 <= i < p.len() implies (sorted.contains(#[trigger] p[i]) || p[i]
            == e) by {
            if i < q.len() {
                assert(p[i] == q[i]);
                if front.contains(q[i]) {
                    let k = choose|k: int| 0 <= k < front.len() && front[k] == q[i];
                    assert(sorted[k] == p[i]);
                }
            } else {
                assert(p[i] == sorted[sorted.len() - 1]);
            }
        }
        assert(p.to_multiset() =~= sorted.to_multiset().insert(e));
    }
}

/// Without edits a file keeps its lines.
pub proof fn law_no_edits_keep_lines(lines: Seq<Seq<char>>)
    ensures
        spliced(lines, Seq::empty()) == lines,
{
    assert(lines.skip(0) =~= lines);
}

/// Edits that put back what they take away leave the file as it is.
pub proof fn law_idle_edits_keep_lines(lines: Seq<Seq<char>>, es: Seq<Edit>)
    requires
        separate(es, lines.len() as int),
        forall|i: int|
            #![trigger es[i]]
            0 <= i < es.len() ==> es[i].new_lines == lines.subrange(
                es[i].start,
                es[i].start + es[i].old_len,
            ),
    ensures
        spliced(lines, es) == lines,
{
    idle_from(lines, es, 0, 0);
    assert(lines.skip(0) =~= lines);
}

/// The step of the law on idle edits.
proof fn idle_from(lines: Seq<Seq<char>>, es: Seq<Edit>, k: int, cursor: int)
    requires
        separate(es, lines.len() as int),
        0 <= k <= es.len(),
        0 <= cursor <= lines.len(),
        k < es.len() ==> cursor <= es[k].start,
        forall|i: int|
            #![trigger es[i]]
            0 <= i < es.len() ==> es[i].new_lines == lines.subrange(
                es[i].start,
                es[i].start + es[i].old_len,
            ),
    ensures
        spliced_from(lines, es, k, cursor) == lines.skip(cursor),
    decreases es.len() - k,
{
    if k < es.len() {
        let next = es[k].start + es[k].old_len;
        if k + 1 < es.len() {
            assert(next <= es[k + 1].start);
        }
        idle_from(lines, es, k + 1, next);
        assert(spliced_from(lines, es, k, cursor) =~= lines.skip(cursor));
    }
}

/// How many lines a file has after edits: those it had, without those taken away
/// and with those added.
pub proof fn law_spliced_length(lines: Seq<Seq<char>>, es: Seq<Edit>, k: int, cursor: int)
    requires
        separate(es, lines.len() as int),
        0 <= k <= es.len(),
        0 <= cursor <= lines.len(),
        k < es.len() ==> cursor <= es[k].start,
    ensures
        spliced_from(lines, es, k, cursor).len() == lines.len() - cursor + growth(es, k),
    decreases es.len() - k,
{
    if k < es.len() {
        let next = es[k].start + es[k].old_len;
        if k + 1 < es.len() {
            assert(next <= es[k + 1].start);
        }
        law_spliced_length(lines, es, k + 1, next);
    }
}

/// How many lines the edits from `k` on add, less those that they take away.
pub open spec fn growth(es: Seq<Edit>, k: int) -> int
    decreases es.len() - k,
{
    if k < 0 || k >= es.len() {
        0
    } else {
        es[k].new_lines.len() - es[k].old_len + growth(es, k + 1)
    }
}

/// Edits that pass the check for overlaps lie one behind the other.
pub proof fn law_computed_edits_are_separate(
    path: Seq<char>,
    es: Seq<Edit>,
    k: int,
    cursor: int,
    len: int,
)
    requires
        inside(es, len),
        0 <= k <= es.len(),
        overlap_from(path, es, k, cursor) is None,
    ensures
        forall|i: int| #![trigger es[i]] k <= i < es.len() ==> cursor <= es[i].start,
        forall|i: int, j: int|
            #![trigger es[i], es[j]]
            k <= i < j < es.len() ==> es[i].start + es[i].old_len <= es[j].start,
    decreases es.len() - k,
{
    if k < es.len() {
        law_computed_edits_are_separate(path, es, k + 1, es[k].start + es[k].old_len, len);
    }
}

/// A file written from lines is read back as those lines, with the empty line
/// that a final line feed leaves at the end dropped.
pub proof fn law_contents_read_back(lines: Seq<Seq<char>>)
    requires
        forall|i: int| 0 <= i < lines.len() ==> !(#[trigger] lines[i]).contains('\n'),
    ensures
        file_lines(file_contents(lines)) == without_blank_end(lines),
{
    reveal_strlit("\n");
    assert("\n"@ =~= seq!['\n']);
    if lines.len() > 0 && lines.last().len() == 0 {
        split_of_joined(lines);
    } else {
        let ls = lines.push(Seq::empty());
        assert forall|i: int| 0 <= i < ls.len() implies !(#[trigger] ls[i]).contains('\n') by {
            if i < lines.len() {
                assert(ls[i] == lines[i]);
            }
        }
        split_of_joined(ls);
        assert(ls.drop_last() =~= lines);
    }
}

/// Splitting joined lines gives them back.
proof fn split_of_joined(lines: Seq<Seq<char>>)
    requires
        lines.len() > 0,
        forall|i: int| 0 <= i < lines.len() ==> !(#[trigger] lines[i]).contains('\n'),
    ensures
        text::pieces(text::joined(lines, seq!['\n']), '\n') == lines,
    decreases lines.len(),
{
    text::law_split_undoes_join(lines, '\n');
}

/// Whether the search for the lines of a chunk begins at `start`: behind the first line
/// from `from` on that is taken for the context line, or at `from` without one.
pub open spec fn begins_search(
    lines: Seq<Seq<char>>,
    context: Option<Seq<char>>,
    from: int,
    start: int,
) -> bool {
    match context {
        None => start == from,
        Some(c) => seek_sequence::is_place_of(lines, seq![c], from, start - 1),
    }
}

/// Whether an edit puts the new lines of a chunk in the place of its old lines.
pub open spec fn is_edit_of(
    lines: Seq<Seq<char>>,
    chunk: ChunkView,
    start: int,
    e: Edit,
) -> bool {
    let n = chunk.old_lines.len() as int;
    if n == 0 {
        &&& e.old_len == 0
        &&& e.new_lines == chunk.new_lines
        &&& e.start == (if lines.len() > 0 && lines.last() == Seq::<char>::empty() {
            lines.len() - 1
        } else {
            lines.len() as int
        })
    } else if e.old_len == n {
        &&& e.new_lines == chunk.new_lines
        &&& seek_sequence::is_place_of(
            lines,
            chunk.old_lines,
            seek_sequence::first_place(lines, start, chunk.is_end_of_file, n),
            e.start,
        )
    } else {
        &&& e.old_len == n - 1
        &&& chunk.old_lines[n - 1] == Seq::<char>::empty()
        &&& seek_sequence::is_missing(lines, chunk.old_lines, start, chunk.is_end_of_file)
        &&& n > 1 ==> seek_sequence::is_place_of(
            lines,
            chunk.old_lines.take(n - 1),
            seek_sequence::first_place(lines, start, chunk.is_end_of_file, n - 1),
            e.start,
        )
        &&& n == 1 ==> e.start == start
        &&& e.new_lines == (if chunk.new_lines.len() > 0 && chunk.new_lines.last() == Seq::<
            char,
        >::empty() {
            chunk.new_lines.take(chunk.new_lines.len() - 1)
        } else {
            chunk.new_lines
        })
    }
}

/// A place from some line on is no line before it.
proof fn place_is_behind(lines: Seq<Seq<char>>, pattern: Seq<Seq<char>>, from: int, at: int)
    requires
        seek_sequence::is_place_of(lines, pattern, from, at),
    ensures
        from <= at,
        at + pattern.len() <= lines.len(),
{
    let t = choose|t: Tolerance|
        #[trigger] seek_sequence::is_first_match(lines, pattern, from, at, t) && forall|
            lesser: Tolerance,
        |
            seek_sequence::rank(lesser) < seek_sequence::rank(t)
                ==> #[trigger] seek_sequence::absent_from(lines, pattern, from, lesser);
    assert(seek_sequence::is_first_match(lines, pattern, from, at, t));
}

/// A chunk edits the lines that it names, behind its context line: the search for them
/// begins behind the first line that is taken for the context, and the next chunk goes on
/// behind them. It fails where the context line or the lines are nowhere.
pub proof fn law_chunks_edit_behind_their_context(
    lines: Seq<Seq<char>>,
    path: Seq<char>,
    chunk: ChunkView,
    from: int,
)
    requires
        0 <= from <= lines.len(),
    ensures
        match chunk_edit(lines, path, chunk, from) {
            Ok((e, next)) => exists|start: int| #[trigger]
                begins_search(lines, chunk.change_context, from, start) && {
                    &&& from <= start <= lines.len()
                    &&& chunk.change_context is Some ==> from < start
                    &&& is_edit_of(lines, chunk, start, e)
                    &&& chunk.old_lines.len() > 0 && !chunk.is_end_of_file ==> start <= e.start
                    &&& next == (if chunk.old_lines.len() == 0 {
                        start
                    } else {
                        e.start + e.old_len
                    })
                },
            Err(_) => {
                ||| chunk.change_context matches Some(c) && seek_sequence::is_missing(lines, seq![c], from, false)
                ||| exists|start: int| #[trigger]
                    begins_search(lines, chunk.change_context, from, start)
                        && chunk.old_lines.len() > 0 && seek_sequence::is_missing(
                        lines,
                        chunk.old_lines,
                        start,
                        chunk.is_end_of_file,
                    )
            },
        },
{
    let old = chunk.old_lines;
    let eof = chunk.is_end_of_file;
    let context = chunk.change_context;
    if let Some(c) = context {
        seek_sequence::law_lines_are_found_where_they_stand(lines, seq![c], from, false);
        match seek_sequence::sought(lines, seq![c], from, false) {
            Some(i) => place_is_behind(lines, seq![c], from, i),
            None => assert(seek_sequence::is_missing(lines, seq![c], from, false)),
        }
    }
    if let Ok(start) = chunk_start(lines, path, chunk, from) {
        assert(begins_search(lines, context, from, start));
        if old.len() > 0 {
            seek_sequence::law_lines_are_found_where_they_stand(lines, old, start, eof);
            match seek_sequence::sought(lines, old, start, eof) {
                Some(i) => {
                    let first = seek_sequence::first_place(lines, start, eof, old.len() as int);
                    place_is_behind(lines, old, first, i);
                    let e = chunk_edit(lines, path, chunk, from)->Ok_0.0;
                    assert(is_edit_of(lines, chunk, start, e));
                },
                None => {
                    assert(seek_sequence::is_missing(lines, old, start, eof));
                    shorter_edit(lines, path, chunk, from, start);
                },
            }
        } else {
            if lines.len() > 0 {
                assert((lines.last().len() == 0) == (lines.last() =~= Seq::<char>::empty()));
            }
            let e = chunk_edit(lines, path, chunk, from)->Ok_0.0;
            assert(is_edit_of(lines, chunk, start, e));
        }
    }
}

/// Lines that are nowhere may be found without the empty one at their end.
proof fn shorter_edit(
    lines: Seq<Seq<char>>,
    path: Seq<char>,
    chunk: ChunkView,
    from: int,
    start: int,
)
    requires
        0 <= start,
        chunk.old_lines.len() > 0,
        chunk_start(lines, path, chunk, from) == Ok::<int, Seq<char>>(start),
        seek_sequence::sought(lines, chunk.old_lines, start, chunk.is_end_of_file) is None,
        seek_sequence::is_missing(lines, chunk.old_lines, start, chunk.is_end_of_file),
    ensures
        chunk_edit(lines, path, chunk, from) matches Ok((e, next)) ==> {
            &&& is_edit_of(lines, chunk, start, e)
            &&& !chunk.is_end_of_file ==> start <= e.start
            &&& next == e.start + e.old_len
        },
{
    let old = chunk.old_lines;
    let eof = chunk.is_end_of_file;
    let shorter = without_blank_end(old);
    let fresh = chunk.new_lines;
    if shorter.len() < old.len() {
        assert(shorter =~= old.take(old.len() - 1));
        assert(old[old.len() - 1] =~= Seq::<char>::empty());
        if fresh.len() > 0 {
            assert((fresh.last().len() == 0) == (fresh.last() =~= Seq::<char>::empty()));
            assert(fresh.drop_last() =~= fresh.take(fresh.len() - 1));
        }
        if shorter.len() > 0 {
            seek_sequence::law_lines_are_found_where_they_stand(lines, shorter, start, eof);
            if let Some(i) = seek_sequence::sought(lines, shorter, start, eof) {
                let first = seek_sequence::first_place(lines, start, eof, shorter.len() as int);
                place_is_behind(lines, shorter, first, i);
            }
        }
    }
}

/// The lines that an edit of a chunk with a context line replaces lie strictly behind that
/// line: the first one, from where the search begins, that is taken for it.
pub proof fn law_edits_lie_behind_the_context_line(
    lines: Seq<Seq<char>>,
    path: Seq<char>,
    chunk: ChunkView,
    from: int,
    context: Seq<char>,
)
    requires
        0 <= from <= lines.len(),
        chunk.change_context == Some(context),
        chunk.old_lines.len() > 0,
        !chunk.is_end_of_file,
    ensures
        chunk_edit(lines, path, chunk, from) matches Ok(p) ==> exists|q: int| #[trigger]
            seek_sequence::is_place_of(lines, seq![context], from, q) && from <= q < p.0.start,
{
    law_chunks_edit_behind_their_context(lines, path, chunk, from);
    if let Ok(p) = chunk_edit(lines, path, chunk, from) {
        let start = choose|start: int| #[trigger]
            begins_search(lines, chunk.change_context, from, start) && from < start && start
                <= p.0.start;
        assert(seek_sequence::is_place_of(lines, seq![context], from, start - 1));
    }
}

/// Where the searches for chunks begin: the first at the start of the file, and each other
/// one where the chunk before it left off.
pub open spec fn follow_each_other(
    lines: Seq<Seq<char>>,
    path: Seq<char>,
    chunks: Seq<ChunkView>,
    es: Seq<Edit>,
    k: int,
    from: Seq<int>,
) -> bool {
    &&& from.len() == chunks.len() + 1
    &&& es.len() == chunks.len()
    &&& forall|i: int|
        k <= i < chunks.len() ==> chunk_edit(lines, path, #[trigger] chunks[i], from[i]) == Ok::<
            (Edit, int),
            Seq<char>,
        >((es[i], from[i + 1]))
}

/// The edits of chunks from `k` on follow each other.
proof fn edits_follow(
    lines: Seq<Seq<char>>,
    path: Seq<char>,
    chunks: Seq<ChunkView>,
    k: int,
    from: Seq<int>,
    done: Seq<Edit>,
) -> (all: Seq<int>)
    requires
        0 <= k <= chunks.len(),
        from.len() == k + 1,
        done.len() == k,
        edits_from(lines, path, chunks, k, from[k], done) is Ok,
        forall|i: int|
            0 <= i < k ==> chunk_edit(lines, path, #[trigger] chunks[i], from[i]) == Ok::<
                (Edit, int),
                Seq<char>,
            >((done[i], from[i + 1])),
    ensures
        follow_each_other(
            lines,
            path,
            chunks,
            edits_from(lines, path, chunks, k, from[k], done)->Ok_0,
            0,
            all,
        ),
        all[0] == from[0],
    decreases chunks.len() - k,
{
    if k < chunks.len() {
        let (e, next) = chunk_edit(lines, path, chunks[k], from[k])->Ok_0;
        edits_follow(lines, path, chunks, k + 1, from.push(next), done.push(e))
    } else {
        from
    }
}

/// Each chunk of an update has its edit, in order: the search for it begins where the chunk
/// before it left off, the first at the start of the file.
pub proof fn law_each_chunk_has_its_edit(
    lines: Seq<Seq<char>>,
    path: Seq<char>,
    chunks: Seq<ChunkView>,
)
    ensures
        computed(lines, path, chunks) matches Ok(sorted) ==> exists|es: Seq<Edit>, from: Seq<int>|
            #[trigger] follow_each_other(lines, path, chunks, es, 0, from) && from[0] == 0
                && sorted.to_multiset() == es.to_multiset() && forall|i: int, j: int|
                #![trigger sorted[i], sorted[j]]
                0 <= i <= j < sorted.len() ==> sorted[i].start <= sorted[j].start,
{
    if let Ok(sorted) = computed(lines, path, chunks) {
        let es = edits_from(lines, path, chunks, 0, 0, Seq::empty())->Ok_0;
        law_in_order_sorted(es);
        let from = edits_follow(lines, path, chunks, 0, seq![0int], Seq::empty());
        assert(follow_each_other(lines, path, chunks, es, 0, from));
    }
}

/// By how many lines the first `k` edits move what follows them.
pub open spec fn shift(es: Seq<Edit>, k: int) -> int
    decreases k,
{
    if k <= 0 {
        0
    } else {
        shift(es, k - 1) + es[k - 1].new_lines.len() - es[k - 1].old_len
    }
}

/// What lies behind the first edits of a file stands where they moved it.
proof fn spliced_parts(
    lines: Seq<Seq<char>>,
    es: Seq<Edit>,
    k: int,
    cursor: int,
    i: int,
    m: int,
)
    requires
        separate(es, lines.len() as int),
        0 <= k <= es.len(),
        0 <= cursor <= lines.len(),
        k < es.len() ==> cursor <= es[k].start,
        k <= m <= es.len(),
    ensures
        ({
            let rest = spliced_from(lines, es, k, cursor);
            let moved = shift(es, m) - shift(es, k) - cursor;
            &&& m < es.len() ==> {
                &&& 0 <= es[m].start + moved
                &&& es[m].start + moved + es[m].new_lines.len() <= rest.len()
                &&& rest.subrange(
                    es[m].start + moved,
                    es[m].start + moved + es[m].new_lines.len(),
                ) == es[m].new_lines
            }
            &&& cursor <= i < lines.len() && (m > k ==> es[m - 1].start + es[m - 1].old_len <= i)
                && (m < es.len() ==> i < es[m].start) ==> 0 <= i + moved < rest.len()
                && rest[i + moved] == lines[i]
        }),
    decreases es.len() - k,
{
    let rest = spliced_from(lines, es, k, cursor);
    if k < es.len() {
        let e = es[k];
        let next = e.start + e.old_len;
        let head = lines.subrange(cursor, e.start);
        if k + 1 < es.len() {
            assert(es[k].start + es[k].old_len <= es[k + 1].start);
        }
        let tail = spliced_from(lines, es, k + 1, next);
        if m == k {
            assert(rest.subrange(e.start - cursor, e.start - cursor + e.new_lines.len())
                =~= e.new_lines);
            if cursor <= i < e.start {
                assert(rest[i - cursor] == head[i - cursor]);
            }
        } else {
            spliced_parts(lines, es, k + 1, next, i, m);
            assert(shift(es, k + 1) == shift(es, k) + e.new_lines.len() - e.old_len);
            let off = e.start - cursor + e.new_lines.len();
            let moved = shift(es, m) - shift(es, k) - cursor;
            let later = shift(es, m) - shift(es, k + 1) - next;
            assert(moved == later + off);
            assert(rest =~= head + e.new_lines + tail);
            if m < es.len() {
                let a = es[m].start + later;
                let n = es[m].new_lines.len() as int;
                assert(rest.subrange(a + off, a + off + n) =~= tail.subrange(a, a + n));
            }
            if m > k + 1 {
                assert(es[k].start + es[k].old_len <= es[m - 1].start);
            }
            if next <= i < lines.len() && es[m - 1].start + es[m - 1].old_len <= i && (m < es.len()
                ==> i < es[m].start) {
                assert(rest[i + moved] == tail[i + later]);
            }
        }
    } else if cursor <= i < lines.len() {
        assert(rest[i - cursor] == lines[i]);
    }
}

/// What edits do to a file: the new lines of each stand where its old lines stood, moved by
/// what the edits before it added and took away, and each line that no edit takes away is
/// kept, between the same edits as before.
pub proof fn law_edits_replace_their_lines_only(
    lines: Seq<Seq<char>>,
    es: Seq<Edit>,
    k: int,
    i: int,
)
    requires
        separate(es, lines.len() as int),
        0 <= k <= es.len(),
    ensures
        spliced(lines, es).len() == lines.len() + shift(es, es.len() as int),
        k < es.len() ==> {
            let a = es[k].start + shift(es, k);
            let n = es[k].new_lines.len();
            &&& 0 <= a
            &&& a + n <= spliced(lines, es).len()
            &&& spliced(lines, es).subrange(a, a + n) == es[k].new_lines
        },
        0 <= i < lines.len() && (k > 0 ==> es[k - 1].start + es[k - 1].old_len <= i) && (k
            < es.len() ==> i < es[k].start) ==> {
            &&& 0 <= i + shift(es, k) < spliced(lines, es).len()
            &&& spliced(lines, es)[i + shift(es, k)] == lines[i]
        },
{
    if es.len() > 0 {
        assert(0 <= es[0].start);
    }
    spliced_parts(lines, es, 0, 0, i, k);
    law_spliced_length(lines, es, 0, 0);
    growth_is_shift(es, es.len() as int);
}

/// What edits add is what they move the end of the file by.
proof fn growth_is_shift(es: Seq<Edit>, k: int)
    requires
        0 <= k <= es.len(),
    ensures
        growth(es, 0) == shift(es, k) + growth(es, k),
    decreases k,
{
    if k > 0 {
        growth_is_shift(es, k - 1);
    }
}

/// An update of one chunk, read off the file: where `old` first stands behind the first line
/// that is the context line, or from the start on without one, it gives way to `new`, and all
/// other lines stay.
pub proof fn law_update_replaces_the_lines_it_names(
    lines: Seq<Seq<char>>,
    path: Seq<char>,
    context: Option<Seq<char>>,
    old: Seq<Seq<char>>,
    new: Seq<Seq<char>>,
    q: int,
    at: int,
)
    requires
        forall|i: int| 0 <= i < lines.len() ==> !(#[trigger] lines[i]).contains('\n'),
        forall|i: int| 0 <= i < new.len() ==> !(#[trigger] new[i]).contains('\n'),
        context is None ==> q == -1,
        context matches Some(c) ==> 0 <= q < lines.len() && lines[q] == c && forall|j: int|
            0 <= j < q ==> #[trigger] lines[j] != c,
        old.len() > 0,
        q < at,
        at + old.len() <= lines.len(),
        lines.subrange(at, at + old.len()) == old,
        forall|j: int| q < j < at ==> #[trigger] lines.subrange(j, j + old.len()) != old,
        ({
            let fresh = lines.take(at) + new + lines.skip(at + old.len());
            fresh.len() > 0 ==> fresh.last().len() > 0
        }),
    ensures
        updated(
            text::joined(lines.push(Seq::empty()), seq!['\n']),
            path,
            seq![
                ChunkView {
                    change_context: context,
                    old_lines: old,
                    new_lines: new,
                    is_end_of_file: false,
                },
            ],
        ) == Ok::<Seq<char>, Seq<char>>(
            text::joined(
                (lines.take(at) + new + lines.skip(at + old.len())).push(Seq::empty()),
                seq!['\n'],
            ),
        ),
{
    let chunk = ChunkView {
        change_context: context,
        old_lines: old,
        new_lines: new,
        is_end_of_file: false,
    };
    let e = Edit { start: at, old_len: old.len() as int, new_lines: new };
    let fresh = lines.take(at) + new + lines.skip(at + old.len());
    reveal_strlit("\n");
    assert("\n"@ =~= seq!['\n']);
    let ls = lines.push(Seq::empty());
    assert forall|i: int| 0 <= i < ls.len() implies !(#[trigger] ls[i]).contains('\n') by {
        if i < lines.len() {
            assert(ls[i] == lines[i]);
        }
    }
    text::law_split_undoes_join(ls, '\n');
    assert(ls.drop_last() =~= lines);
    let contents = text::joined(ls, seq!['\n']);
    assert(file_lines(contents) == lines);
    if let Some(c) = context {
        assert(lines.subrange(q, q + 1) =~= seq![c]);
        assert forall|j: int| 0 <= j < q implies #[trigger] lines.subrange(j, j + seq![c].len())
            != seq![c] by {
            assert(lines.subrange(j, j + 1)[0] == lines[j]);
            assert(seq![c][0] == c);
        }
        seek_sequence::law_exact_lines_are_found_first(lines, seq![c], 0, q);
    }
    seek_sequence::law_exact_lines_are_found_first(lines, old, q + 1, at);
    assert(chunk_edit(lines, path, chunk, 0) == Ok::<(Edit, int), Seq<char>>(
        (e, at + old.len()),
    ));
    reveal_with_fuel(edits_from, 2);
    let none = Seq::<Edit>::empty();
    assert(none.push(e) =~= seq![e]);
    assert(edits_from(lines, path, seq![chunk], 0, 0, none) == Ok::<Seq<Edit>, Seq<char>>(
        seq![e],
    ));
    assert(seq![e].drop_last() =~= none);
    reveal_with_fuel(in_order, 2);
    assert(in_order(seq![e]) =~= seq![e]);
    reveal_with_fuel(overlap_from, 2);
    reveal_with_fuel(spliced_from, 2);
    assert(spliced(lines, seq![e]) =~= fresh);
}

/// An update that only adds lines puts them at the end of the file, and one whose lines are
/// nowhere is refused.
pub proof fn law_lines_without_a_place(
    lines: Seq<Seq<char>>,
    path: Seq<char>,
    chunk: ChunkView,
)
    requires
        chunk.change_context is None,
    ensures
        chunk.old_lines.len() == 0 && (lines.len() > 0 ==> lines.last().len() > 0) ==> (computed(
            lines,
            path,
            seq![chunk],
        ) matches Ok(es) && spliced(lines, es) == lines + chunk.new_lines),
        chunk.old_lines.len() > 0 && chunk.old_lines.last().len() > 0 && seek_sequence::is_missing(
            lines,
            chunk.old_lines,
            0,
            chunk.is_end_of_file,
        ) ==> computed(lines, path, seq![chunk]) is Err,
{
    reveal_with_fuel(edits_from, 2);
    reveal_with_fuel(in_order, 2);
    reveal_with_fuel(overlap_from, 2);
    reveal_with_fuel(spliced_from, 2);
    let none = Seq::<Edit>::empty();
    if chunk.old_lines.len() == 0 && (lines.len() > 0 ==> lines.last().len() > 0) {
        let e = Edit { start: lines.len() as int, old_len: 0, new_lines: chunk.new_lines };
        assert(chunk_edit(lines, path, chunk, 0) == Ok::<(Edit, int), Seq<char>>((e, 0)));
        assert(none.push(e) =~= seq![e]);
        assert(seq![e].drop_last() =~= none);
        assert(in_order(seq![e]) =~= seq![e]);
        assert(spliced(lines, seq![e]) =~= lines + chunk.new_lines);
    }
    if chunk.old_lines.len() > 0 && chunk.old_lines.last().len() > 0 && seek_sequence::is_missing(
        lines,
        chunk.old_lines,
        0,
        chunk.is_end_of_file,
    ) {
        let old = chunk.old_lines;
        seek_sequence::law_lines_are_found_where_they_stand(lines, old, 0, chunk.is_end_of_file);
        if let Some(i) = seek_sequence::sought(lines, old, 0, chunk.is_end_of_file) {
            let from = seek_sequence::first_place(lines, 0, chunk.is_end_of_file, old.len() as int);
            let t = choose|t: Tolerance|
                #[trigger] seek_sequence::is_first_match(lines, old, from, i, t) && forall|
                    lesser: Tolerance,
                |
                    seek_sequence::rank(lesser) < seek_sequence::rank(t)
                        ==> #[trigger] seek_sequence::absent_from(lines, old, from, lesser);
            assert(seek_sequence::absent_from(lines, old, from, t));
            assert(seek_sequence::matches_at(lines, old, i, t));
        }
    }
}

} // verus!
