//! Patches to the notes of a manifest.

use crate::apply_patch::seek_sequence;
use crate::apply_patch::seek_sequence::Tolerance;
use crate::apply_patch::written;
use crate::apply_patch::written::SignedLine;
use crate::text;
use vstd::prelude::*;

verus! {

/// One change of the notes: the lines to find, those to put in their place, and
/// whether they stand at the very end.
#[derive(Debug)]
pub struct NotesPatchChunk {
    pub old_lines: Vec<String>,
    pub new_lines: Vec<String>,
    pub eof: bool,
}

/// One change of the notes.
#[verifier::ext_equal]
pub struct NotesChunk {
    pub old_lines: Seq<Seq<char>>,
    pub new_lines: Seq<Seq<char>>,
    pub eof: bool,
}

impl View for NotesPatchChunk {
    type V = NotesChunk;

    open spec fn view(&self) -> NotesChunk {
        NotesChunk {
            old_lines: text::views(self.old_lines@),
            new_lines: text::views(self.new_lines@),
            eof: self.eof,
        }
    }
}

/// The texts of some changes.
pub open spec fn notes_views(v: Seq<NotesPatchChunk>) -> Seq<NotesChunk> {
    Seq::new(v.len(), |i: int| v[i]@)
}

/// Whether a line opens a change.
pub open spec fn opens(line: Seq<char>) -> bool {
    line == "@@"@ || text::begins(line, "@@ "@)
}

/// Reads the lines of one change from `i` on, behind `chunk`, which holds
/// `parsed` lines. Gives the change and the place behind it.
pub open spec fn chunk_from(
    lines: Seq<Seq<char>>,
    i: int,
    chunk: NotesChunk,
    parsed: nat,
) -> Result<(NotesChunk, int), Seq<char>>
    decreases lines.len() - i,
{
    if i < 0 || i >= lines.len() || opens(lines[i]) {
        if parsed == 0 {
            Err("notes_patch must contain at least one change line"@)
        } else {
            Ok((chunk, i))
        }
    } else if lines[i] == "*** End of File"@ {
        Ok((NotesChunk { eof: true, ..chunk }, i + 1))
    } else {
        let line = lines[i];
        let body = line.skip(1);
        if line.len() > 0 && line[0] == ' ' {
            chunk_from(
                lines,
                i + 1,
                NotesChunk {
                    old_lines: chunk.old_lines.push(body),
                    new_lines: chunk.new_lines.push(body),
                    ..chunk
                },
                parsed + 1,
            )
        } else if line.len() > 0 && line[0] == '+' {
            chunk_from(
                lines,
                i + 1,
                NotesChunk { new_lines: chunk.new_lines.push(body), ..chunk },
                parsed + 1,
            )
        } else if line.len() > 0 && line[0] == '-' {
            chunk_from(
                lines,
                i + 1,
                NotesChunk { old_lines: chunk.old_lines.push(body), ..chunk },
                parsed + 1,
            )
        } else {
            Err("invalid notes_patch line: "@ + line)
        }
    }
}

/// A change without lines.
pub open spec fn empty_chunk() -> NotesChunk {
    NotesChunk { old_lines: Seq::empty(), new_lines: Seq::empty(), eof: false }
}

/// Where the lines of the change begin whose first line stands at `i`.
pub open spec fn body_start(lines: Seq<Seq<char>>, i: int) -> int {
    if opens(lines[i]) {
        i + 1
    } else {
        i
    }
}

/// Reading a change ends behind where it began.
pub proof fn chunk_advances(lines: Seq<Seq<char>>, i: int, chunk: NotesChunk, parsed: nat)
    requires
        0 <= i <= lines.len(),
    ensures
        chunk_from(lines, i, chunk, parsed) matches Ok(p) ==> i <= p.1 <= lines.len() && (parsed
            == 0 ==> i < p.1),
    decreases lines.len() - i,
{
    if i < lines.len() && !opens(lines[i]) && lines[i] != "*** End of File"@ {
        let line = lines[i];
        let body = line.skip(1);
        if line.len() > 0 {
            chunk_advances(
                lines,
                i + 1,
                NotesChunk {
                    old_lines: chunk.old_lines.push(body),
                    new_lines: chunk.new_lines.push(body),
                    ..chunk
                },
                parsed + 1,
            );
            chunk_advances(
                lines,
                i + 1,
                NotesChunk { new_lines: chunk.new_lines.push(body), ..chunk },
                parsed + 1,
            );
            chunk_advances(
                lines,
                i + 1,
                NotesChunk { old_lines: chunk.old_lines.push(body), ..chunk },
                parsed + 1,
            );
        }
    }
}

/// Reads the changes from line `i` on, behind those read so far.
pub open spec fn chunks_from(lines: Seq<Seq<char>>, i: int, done: Seq<NotesChunk>) -> Result<
    Seq<NotesChunk>,
    Seq<char>,
>
    decreases lines.len() - i,
{
    if i < 0 || i >= lines.len() {
        Ok(done)
    } else {
        match chunk_from(lines, body_start(lines, i), empty_chunk(), 0) {
            Err(message) => Err(message),
            Ok((chunk, next)) => {
                proof {
                    chunk_advances(lines, body_start(lines, i), empty_chunk(), 0);
                }
                chunks_from(lines, next, done.push(chunk))
            },
        }
    }
}

/// The changes of a patch to the notes.
pub open spec fn parsed_notes(patch: Seq<char>) -> Result<Seq<NotesChunk>, Seq<char>> {
    chunks_from(text::lines_of(patch), 0, Seq::empty())
}

/// Whether a line opens a change.
fn opens_chunk(line: &str) -> (r: bool)
    ensures
        r == opens(line@),
{
    text::same(line, "@@") || text::starts_with(line, "@@ ")
}

/// Reads one change from line `from` on.
fn parse_chunk(lines: &Vec<String>, from: usize) -> (r: Result<(NotesPatchChunk, usize), String>)
    requires
        from <= lines@.len(),
    ensures
        match r {
            Ok(p) => {
                &&& chunk_from(text::views(lines@), from as int, empty_chunk(), 0) == Ok::<
                    (NotesChunk, int),
                    Seq<char>,
                >((p.0@, p.1 as int))
                &&& from < p.1 <= lines@.len()
            },
            Err(e) => chunk_from(text::views(lines@), from as int, empty_chunk(), 0) == Err::<
                (NotesChunk, int),
                Seq<char>,
            >(e@),
        },
{
    let ghost all = text::views(lines@);
    proof {
        chunk_advances(all, from as int, empty_chunk(), 0);
    }
    let ghost whole = chunk_from(all, from as int, empty_chunk(), 0);
    let mut chunk = NotesPatchChunk { old_lines: Vec::new(), new_lines: Vec::new(), eof: false };
    assert(chunk@ =~= empty_chunk());
    let mut i: usize = from;
    while i < lines.len()
        invariant_except_break
            from <= i <= lines@.len(),
            all == text::views(lines@),
            whole == chunk_from(all, from as int, empty_chunk(), 0),
            chunk_from(all, i as int, chunk@, (i - from) as nat) == whole,
        ensures
            from <= i <= lines@.len(),
            all == text::views(lines@),
            chunk_from(all, i as int, chunk@, (i - from) as nat) == whole,
            i >= lines@.len() || opens(all[i as int]),
        decreases lines@.len() - i,
    {
        let line = lines[i].as_str();
        assert(all[i as int] == line@);
        if opens_chunk(line) {
            break ;
        }
        if text::same(line, "*** End of File") {
            let ghost was = chunk@;
            chunk.eof = true;
            assert(chunk@ == NotesChunk { eof: true, ..was });
            return Ok((chunk, i + 1));
        }
        let chars = text::chars_of(line);
        if chars.len() == 0 || (chars[0] != ' ' && chars[0] != '+' && chars[0] != '-') {
            let mut message = "invalid notes_patch line: ".to_owned();
            message.push_str(line);
            return Err(message);
        }
        let ghost was = chunk@;
        let body = text::string_of_range(&chars, 1, chars.len());
        assert(body@ =~= line@.skip(1));
        let ghost b = body@;
        if chars[0] == ' ' {
            chunk.old_lines.push(body.clone());
            chunk.new_lines.push(body);
            assert(chunk@ =~= NotesChunk {
                old_lines: was.old_lines.push(b),
                new_lines: was.new_lines.push(b),
                ..was
            });
        } else if chars[0] == '+' {
            chunk.new_lines.push(body);
            assert(chunk@ =~= NotesChunk { new_lines: was.new_lines.push(b), ..was });
        } else {
            chunk.old_lines.push(body);
            assert(chunk@ =~= NotesChunk { old_lines: was.old_lines.push(b), ..was });
        }
        i += 1;
    }
    if i == from {
        return Err("notes_patch must contain at least one change line".to_owned());
    }
    Ok((chunk, i))
}

/// The texts of parsed changes.
pub open spec fn parsed_view(r: Result<Vec<NotesPatchChunk>, String>) -> Result<
    Seq<NotesChunk>,
    Seq<char>,
> {
    match r {
        Ok(v) => Ok(notes_views(v@)),
        Err(e) => Err(e@),
    }
}

/// Parses a patch to the notes.
pub fn parse_notes_patch(patch: &str) -> (r: Result<Vec<NotesPatchChunk>, String>)
    ensures
        parsed_view(r) == parsed_notes(patch@),
{
    let lines = text::lines(patch);
    let ghost all = text::lines_of(patch@);
    let mut chunks: Vec<NotesPatchChunk> = Vec::new();
    assert(notes_views(chunks@) =~= Seq::<NotesChunk>::empty());
    let mut i: usize = 0;
    while i < lines.len()
        invariant
            i <= lines@.len(),
            all == text::views(lines@),
            all == text::lines_of(patch@),
            chunks_from(all, i as int, notes_views(chunks@)) == parsed_notes(patch@),
        decreases lines@.len() - i,
    {
        let ghost before = notes_views(chunks@);
        assert(all[i as int] == lines@[i as int]@);
        let from: usize = if opens_chunk(&lines[i]) {
            i + 1
        } else {
            i
        };
        match parse_chunk(&lines, from) {
            Ok((chunk, next)) => {
                chunks.push(chunk);
                assert(notes_views(chunks@) =~= before.push(chunk@));
                i = next;
            },
            Err(message) => return Err(message),
        }
    }
    Ok(chunks)
}

// ---------------------------------------------------------------------------
// Applying
// ---------------------------------------------------------------------------

/// The smaller of two numbers.
pub open spec fn least(a: int, b: int) -> int {
    if a < b {
        a
    } else {
        b
    }
}

/// Where `pattern` is taken to stand in the notes: exactly, or else without
/// regard to white space at the ends of lines. The search begins at `start`, but
/// no later than where the pattern can still stand.
pub open spec fn notes_sought(
    lines: Seq<Seq<char>>,
    pattern: Seq<Seq<char>>,
    start: int,
    eof: bool,
) -> Option<int> {
    let end = lines.len() - pattern.len();
    let from = if eof {
        end
    } else {
        least(start, end)
    };
    if pattern.len() == 0 {
        Some(least(start, lines.len() as int))
    } else if pattern.len() > lines.len() {
        None
    } else if seek_sequence::found(lines, pattern, from, Tolerance::Exact) is Some {
        seek_sequence::found(lines, pattern, from, Tolerance::Exact)
    } else {
        seek_sequence::found(lines, pattern, from, Tolerance::TrailingSpace)
    }
}

/// The lines of some notes; empty notes have none.
pub open spec fn notes_lines(notes: Seq<char>) -> Seq<Seq<char>> {
    if notes.len() == 0 {
        Seq::empty()
    } else {
        text::pieces(notes, '\n')
    }
}

/// The lines of the notes after one change, and where the search for the next
/// one begins.
pub open spec fn with_chunk(lines: Seq<Seq<char>>, cursor: int, chunk: NotesChunk) -> Option<
    (Seq<Seq<char>>, int),
> {
    let start = if chunk.old_lines.len() == 0 {
        Some(least(cursor, lines.len() as int))
    } else {
        notes_sought(lines, chunk.old_lines, cursor, chunk.eof)
    };
    match start {
        None => None,
        Some(at) => Some(
            (
                lines.take(at) + chunk.new_lines + lines.skip(at + chunk.old_lines.len()),
                at + chunk.new_lines.len(),
            ),
        ),
    }
}

/// The lines of the notes after the changes from `k` on.
pub open spec fn with_chunks(
    lines: Seq<Seq<char>>,
    cursor: int,
    chunks: Seq<NotesChunk>,
    k: int,
) -> Option<Seq<Seq<char>>>
    decreases chunks.len() - k,
{
    if k < 0 || k >= chunks.len() {
        Some(lines)
    } else {
        match with_chunk(lines, cursor, chunks[k]) {
            None => None,
            Some((next, at)) => with_chunks(next, at, chunks, k + 1),
        }
    }
}

/// The notes after a patch, or why it cannot be applied.
pub open spec fn patched_notes(current: Seq<char>, patch: Seq<char>) -> Result<
    Seq<char>,
    Seq<char>,
> {
    match parsed_notes(patch) {
        Err(message) => Err(message),
        Ok(chunks) => match with_chunks(notes_lines(current), 0, chunks, 0) {
            None => Err("notes_patch did not match current notes"@),
            Some(lines) => Ok(text::joined(lines, "\n"@)),
        },
    }
}

/// The lines of some notes.
pub fn split_lines(notes: &str) -> (r: Vec<String>)
    ensures
        text::views(r@) == notes_lines(notes@),
{
    if notes.is_empty() {
        let r: Vec<String> = Vec::new();
        assert(text::views(r@) =~= notes_lines(notes@));
        r
    } else {
        text::split_on(notes, '\n')
    }
}

/// The notes that have the given lines.
pub fn join_lines(lines: &Vec<String>) -> (r: String)
    ensures
        r@ == text::joined(text::views(lines@), "\n"@),
{
    text::join(lines, "\n")
}

/// Finds `pattern` in the notes.
pub fn seek_notes(lines: &Vec<String>, pattern: &Vec<String>, start: usize, eof: bool) -> (r:
    Option<usize>)
    ensures
        seek_sequence::place(r) == notes_sought(
            text::views(lines@),
            text::views(pattern@),
            start as int,
            eof,
        ),
        r matches Some(i) ==> i + pattern@.len() <= lines@.len(),
{
    if pattern.len() == 0 {
        return Some(
            if start < lines.len() {
                start
            } else {
                lines.len()
            },
        );
    }
    if pattern.len() > lines.len() {
        return None;
    }
    let end: usize = lines.len() - pattern.len();
    let from: usize = if eof || start >= end {
        end
    } else {
        start
    };
    if let Some(i) = seek_sequence::first_match(lines, pattern, from, Tolerance::Exact) {
        return Some(i);
    }
    seek_sequence::first_match(lines, pattern, from, Tolerance::TrailingSpace)
}

/// The lines `lines` with `count` of them from `at` on replaced by `fresh`.
fn splice(lines: &Vec<String>, at: usize, count: usize, fresh: &Vec<String>) -> (r: Vec<String>)
    requires
        at + count <= lines@.len(),
    ensures
        text::views(r@) == text::views(lines@).take(at as int) + text::views(fresh@) + text::views(
            lines@,
        ).skip(at + count),
{
    let n: usize = lines.len();
    let mut out = text::copy_range(lines, 0, at);
    let mut mid = text::copy_strings(fresh);
    let mut tail = text::copy_range(lines, at + count, n);
    let ghost a = text::views(out@);
    let ghost b = text::views(mid@);
    let ghost c = text::views(tail@);
    out.append(&mut mid);
    out.append(&mut tail);
    assert(text::views(out@) =~= a + b + c);
    assert(a =~= text::views(lines@).take(at as int));
    assert(c =~= text::views(lines@).skip(at + count));
    out
}

/// Applies a patch to the notes.
pub fn apply_notes_patch(current: &str, patch: &str) -> (r: Result<String, String>)
    ensures
        crate::file_tools::result_view(r) == patched_notes(current@, patch@),
{
    let chunks = match parse_notes_patch(patch) {
        Ok(chunks) => chunks,
        Err(message) => return Err(message),
    };
    let ghost cs = notes_views(chunks@);
    let mut lines = split_lines(current);
    let ghost result = with_chunks(notes_lines(current@), 0, cs, 0);
    let mut cursor: usize = 0;
    let mut k: usize = 0;
    while k < chunks.len()
        invariant
            k <= chunks@.len(),
            cs == notes_views(chunks@),
            parsed_notes(patch@) == Ok::<Seq<NotesChunk>, Seq<char>>(cs),
            result == with_chunks(notes_lines(current@), 0, cs, 0),
            with_chunks(text::views(lines@), cursor as int, cs, k as int) == result,
        decreases chunks@.len() - k,
    {
        assert(cs[k as int] == chunks@[k as int]@);
        let old_len: usize = chunks[k].old_lines.len();
        let at: usize = if old_len == 0 {
            if cursor < lines.len() {
                cursor
            } else {
                lines.len()
            }
        } else {
            match seek_notes(&lines, &chunks[k].old_lines, cursor, chunks[k].eof) {
                Some(at) => at,
                None => return Err("notes_patch did not match current notes".to_owned()),
            }
        };
        lines = splice(&lines, at, old_len, &chunks[k].new_lines);
        let total: usize = lines.len();
        assert(text::views(lines@).len() == total);
        cursor = at + chunks[k].new_lines.len();
        k += 1;
    }
    Ok(join_lines(&lines))
}

/// A patch without any line leaves the notes as they are.
pub proof fn law_empty_patch_keeps_notes(current: Seq<char>)
    ensures
        patched_notes(current, Seq::empty()) == Ok::<Seq<char>, Seq<char>>(current),
{
    let e = Seq::<char>::empty();
    assert(text::pieces(e, '\n') =~= seq![e]);
    assert(text::lines_of(e) =~= Seq::<Seq<char>>::empty());
    if current.len() == 0 {
        assert(text::joined(notes_lines(current), "\n"@) =~= current);
    } else {
        reveal_strlit("\n");
        assert("\n"@ =~= seq!['\n']);
        text::law_join_undoes_split(current, '\n');
    }
}

/// Whether lines are taken to stand at `at` in the notes: the first place from `from` on where
/// they stand exactly, or, where they do so nowhere, without regard to white space at the ends
/// of lines.
pub open spec fn is_notes_place(
    lines: Seq<Seq<char>>,
    pattern: Seq<Seq<char>>,
    from: int,
    at: int,
) -> bool {
    ||| seek_sequence::is_first_match(lines, pattern, from, at, Tolerance::Exact)
    ||| seek_sequence::absent_from(lines, pattern, from, Tolerance::Exact)
        && seek_sequence::is_first_match(lines, pattern, from, at, Tolerance::TrailingSpace)
}

/// Where the search for lines begins: where the change before left off, or earlier where they
/// could not stand any more; at the end of the notes, only the very last place counts.
pub open spec fn search_start(count: int, wanted: int, cursor: int, eof: bool) -> int {
    if eof || cursor > count - wanted {
        count - wanted
    } else {
        cursor
    }
}

/// A change to the notes puts its new lines in the place of its old lines and keeps all others.
/// Without old lines it puts them where the change before left off. The next change is looked
/// for behind the new lines. A change whose old lines are nowhere fails.
pub proof fn law_notes_change_where_the_lines_stand(
    lines: Seq<Seq<char>>,
    cursor: int,
    chunk: NotesChunk,
)
    requires
        0 <= cursor <= lines.len(),
    ensures
        ({
            let old = chunk.old_lines;
            let from = search_start(lines.len() as int, old.len() as int, cursor, chunk.eof);
            match with_chunk(lines, cursor, chunk) {
                Some((next, after)) => {
                    let at = after - chunk.new_lines.len();
                    &&& 0 <= at
                    &&& at + old.len() <= lines.len()
                    &&& old.len() == 0 ==> at == cursor
                    &&& old.len() > 0 ==> is_notes_place(lines, old, from, at)
                    &&& next == lines.take(at) + chunk.new_lines + lines.skip(at + old.len())
                },
                None => {
                    &&& old.len() > 0
                    &&& old.len() > lines.len() || (seek_sequence::absent_from(
                        lines,
                        old,
                        from,
                        Tolerance::Exact,
                    ) && seek_sequence::absent_from(lines, old, from, Tolerance::TrailingSpace))
                },
            }
        }),
{
    let old = chunk.old_lines;
    let from = search_start(lines.len() as int, old.len() as int, cursor, chunk.eof);
    if 0 < old.len() <= lines.len() {
        seek_sequence::found_is_first(lines, old, from, Tolerance::Exact);
        seek_sequence::found_is_first(lines, old, from, Tolerance::TrailingSpace);
    }
}

/// A change to the notes, as it is written.
pub struct NotesSource {
    pub lines: Seq<SignedLine>,
    pub eof: bool,
}

/// The lines of a change.
pub open spec fn written_change(c: NotesSource) -> Seq<Seq<char>> {
    let open = seq![seq!['@', '@']] + c.lines.map_values(|l: SignedLine| written::written_line(l));
    if c.eof {
        open.push("*** End of File"@)
    } else {
        open
    }
}

/// The lines of some changes.
pub open spec fn written_changes(cs: Seq<NotesSource>) -> Seq<Seq<char>>
    decreases cs.len(),
{
    if cs.len() == 0 {
        Seq::empty()
    } else {
        written_change(cs[0]) + written_changes(cs.drop_first())
    }
}

/// The change that is meant.
pub open spec fn meant_change(c: NotesSource) -> NotesChunk {
    NotesChunk {
        old_lines: written::old_lines(c.lines),
        new_lines: written::new_lines(c.lines),
        eof: c.eof,
    }
}

/// Whether a change can be written.
pub open spec fn is_change(c: NotesSource) -> bool {
    &&& c.lines.len() > 0
    &&& forall|i: int| 0 <= i < c.lines.len() ==> text::is_line((#[trigger] c.lines[i]).text)
}

/// The marks in a patch to the notes.
proof fn notes_marks()
    ensures
        "@@"@ == seq!['@', '@'],
        "@@ "@ == seq!['@', '@', ' '],
        "*** End of File"@.len() == 15,
        "*** End of File"@[0] == '*',
        text::is_line("*** End of File"@),
        !opens("*** End of File"@),
        opens(seq!['@', '@']),
{
    reveal_strlit("@@");
    reveal_strlit("@@ ");
    reveal_strlit("*** End of File");
    assert("@@"@ =~= seq!['@', '@']);
    assert("@@ "@ =~= seq!['@', '@', ' ']);
    let m = "*** End of File"@;
    assert forall|i: int| 0 <= i < m.len() implies m[i] != '\n' by {}
    if text::begins(m, "@@ "@) {
        assert(m.take(3)[0] == m[0]);
    }
}

/// A line of a change opens none and ends none.
proof fn signed_line_is_plain(l: SignedLine)
    requires
        text::is_line(l.text),
    ensures
        ({
            let line = written::written_line(l);
            &&& !opens(line)
            &&& line != "*** End of File"@
            &&& line.len() > 0
            &&& line[0] == written::sign_char(l.sign)
            &&& line.skip(1) == l.text
            &&& text::is_line(line)
        }),
{
    notes_marks();
    let line = written::written_line(l);
    assert(line.skip(1) =~= l.text);
    if text::begins(line, "@@ "@) {
        assert(line.take(3)[0] == line[0]);
    }
    if line.contains('\n') {
        let k = line.index_of('\n');
        assert(l.text[k - 1] == '\n');
        assert(l.text.contains('\n'));
    }
    if l.text.len() > 0 {
        assert(line.last() == l.text.last());
    }
}

/// The lines of a change from the `k`th on are read.
proof fn change_lines_are_read(all: Seq<Seq<char>>, i: int, c: NotesSource, k: int)
    requires
        is_change(c),
        0 <= i,
        0 <= k <= c.lines.len(),
        i + c.lines.len() <= all.len(),
        forall|j: int|
            0 <= j < c.lines.len() ==> #[trigger] all[i + j] == written::written_line(c.lines[j]),
    ensures
        ({
            let n = c.lines.len() as int;
            let upto = |m: int|
                NotesChunk {
                    old_lines: written::old_lines(c.lines.take(m)),
                    new_lines: written::new_lines(c.lines.take(m)),
                    eof: false,
                };
            chunk_from(all, i + k, upto(k), k as nat) == chunk_from(all, i + n, upto(n), n as nat)
        }),
    decreases c.lines.len() - k,
{
    if k < c.lines.len() {
        let l = c.lines[k];
        assert(all[i + k] == written::written_line(l));
        signed_line_is_plain(l);
        assert(c.lines.take(k + 1).drop_last() =~= c.lines.take(k));
        assert(c.lines.take(k + 1).last() == l);
        change_lines_are_read(all, i, c, k + 1);
    }
}

/// Changes are read as they are written.
proof fn changes_are_read(all: Seq<Seq<char>>, i: int, done: Seq<NotesChunk>, cs: Seq<NotesSource>)
    requires
        forall|k: int| 0 <= k < cs.len() ==> is_change(#[trigger] cs[k]),
        0 <= i,
        i + written_changes(cs).len() == all.len(),
        all.subrange(i, all.len() as int) == written_changes(cs),
    ensures
        chunks_from(all, i, done) == Ok::<Seq<NotesChunk>, Seq<char>>(
            done + cs.map_values(|c: NotesSource| meant_change(c)),
        ),
    decreases cs.len(),
{
    let f = |c: NotesSource| meant_change(c);
    notes_marks();
    if cs.len() == 0 {
        assert(done + cs.map_values(f) =~= done);
    } else {
        let c = cs[0];
        let first = written_change(c);
        let rest = cs.drop_first();
        let more = written_changes(rest);
        let whole = written_changes(cs);
        let part = all.subrange(i, all.len() as int);
        let n = c.lines.len() as int;
        assert(is_change(c));
        assert(part[0] == all[i]);
        assert(whole[0] == first[0]);
        assert(all[i] == seq!['@', '@']);
        assert forall|j: int| 0 <= j < n implies #[trigger] all[i + 1 + j]
            == written::written_line(c.lines[j]) by {
            assert(part[1 + j] == all[i + 1 + j]);
            assert(whole[1 + j] == first[1 + j]);
        }
        change_lines_are_read(all, i + 1, c, 0);
        assert(c.lines.take(0) =~= Seq::<SignedLine>::empty());
        assert(c.lines.take(n) =~= c.lines);
        assert(empty_chunk() =~= NotesChunk {
            old_lines: written::old_lines(c.lines.take(0)),
            new_lines: written::new_lines(c.lines.take(0)),
            eof: false,
        });
        let at = i + first.len();
        assert(all.subrange(at, all.len() as int) =~= part.skip(first.len() as int));
        assert(whole.skip(first.len() as int) =~= more);
        if c.eof {
            assert(part[n + 1] == all[i + n + 1]);
            assert(whole[n + 1] == first[n + 1]);
        } else if at < all.len() {
            assert(rest.len() > 0);
            assert(more[0] == written_change(rest[0])[0]);
            assert(all.subrange(at, all.len() as int)[0] == all[at]);
        }
        assert(chunk_from(all, i + 1, empty_chunk(), 0) == Ok::<(NotesChunk, int), Seq<char>>(
            (meant_change(c), at),
        ));
        assert forall|k: int| 0 <= k < rest.len() implies is_change(#[trigger] rest[k]) by {
            assert(is_change(cs[k + 1]));
        }
        changes_are_read(all, at, done.push(meant_change(c)), rest);
        assert(done.push(meant_change(c)) + rest.map_values(f) =~= done + cs.map_values(f));
    }
}

/// The lines of changes are lines.
proof fn change_lines_are_lines(cs: Seq<NotesSource>)
    requires
        forall|k: int| 0 <= k < cs.len() ==> is_change(#[trigger] cs[k]),
    ensures
        forall|i: int|
            0 <= i < written_changes(cs).len() ==> text::is_line(#[trigger] written_changes(cs)[i]),
    decreases cs.len(),
{
    notes_marks();
    if cs.len() > 0 {
        let first = written_change(cs[0]);
        let more = written_changes(cs.drop_first());
        assert(is_change(cs[0]));
        assert forall|k: int| 0 <= k < cs.drop_first().len() implies is_change(
            #[trigger] cs.drop_first()[k],
        ) by {
            assert(is_change(cs[k + 1]));
        }
        change_lines_are_lines(cs.drop_first());
        assert forall|i: int| 0 <= i < written_changes(cs).len() implies text::is_line(
            #[trigger] written_changes(cs)[i],
        ) by {
            if i >= first.len() {
                assert(text::is_line(more[i - first.len()]));
            } else if i == 0 {
                assert(!seq!['@', '@'].contains('\n'));
            } else if i <= cs[0].lines.len() {
                assert(text::is_line(cs[0].lines[i - 1].text));
                signed_line_is_plain(cs[0].lines[i - 1]);
            }
        }
    }
}

/// A patch to the notes is read as it is written: each change with its lines by their signs. A
/// line with a space is looked for and stays, one with a minus sign is looked for and taken
/// away, and one with a plus sign is put in.
pub proof fn law_notes_patches_are_read_as_written(cs: Seq<NotesSource>)
    requires
        cs.len() > 0,
        forall|k: int| 0 <= k < cs.len() ==> is_change(#[trigger] cs[k]),
    ensures
        parsed_notes(text::joined(written_changes(cs).push(Seq::empty()), seq!['\n'])) == Ok::<
            Seq<NotesChunk>,
            Seq<char>,
        >(cs.map_values(|c: NotesSource| meant_change(c))),
{
    let lines = written_changes(cs);
    change_lines_are_lines(cs);
    assert(lines.len() > 0) by {
        assert(written_change(cs[0]).len() > 0);
    }
    text::law_lines_are_read_back(lines);
    assert(lines.subrange(0, lines.len() as int) =~= lines);
    let none = Seq::<NotesChunk>::empty();
    changes_are_read(lines, 0, none, cs);
    let all = cs.map_values(|c: NotesSource| meant_change(c));
    assert(none + all =~= all);
}

/// A patch of one change, read off the notes: where its old lines first stand they give way to
/// its new lines, and all other lines stay.
pub proof fn law_notes_patch_replaces_the_lines_it_names(
    lines: Seq<Seq<char>>,
    change: NotesSource,
    at: int,
)
    requires
        lines.len() > 0,
        lines.len() > 1 || lines[0].len() > 0,
        forall|i: int| 0 <= i < lines.len() ==> !(#[trigger] lines[i]).contains('\n'),
        is_change(change),
        !change.eof,
        ({
            let old = written::old_lines(change.lines);
            &&& old.len() > 0
            &&& 0 <= at
            &&& at + old.len() <= lines.len()
            &&& lines.subrange(at, at + old.len()) == old
            &&& forall|j: int| 0 <= j < at ==> #[trigger] lines.subrange(j, j + old.len()) != old
        }),
    ensures
        patched_notes(
            text::joined(lines, seq!['\n']),
            text::joined(written_change(change).push(Seq::empty()), seq!['\n']),
        ) == Ok::<Seq<char>, Seq<char>>(
            text::joined(
                lines.take(at) + written::new_lines(change.lines) + lines.skip(
                    at + written::old_lines(change.lines).len(),
                ),
                seq!['\n'],
            ),
        ),
{
    let cs = seq![change];
    let chunk = meant_change(change);
    let old = chunk.old_lines;
    let notes = text::joined(lines, seq!['\n']);
    law_notes_patches_are_read_as_written(cs);
    assert(cs.drop_first() =~= Seq::<NotesSource>::empty());
    assert(written_changes(cs) =~= written_change(change)) by {
        reveal_with_fuel(written_changes, 2);
    }
    assert(cs.map_values(|c: NotesSource| meant_change(c)) =~= seq![chunk]);
    text::law_split_undoes_join(lines, '\n');
    assert(notes.len() > 0) by {
        if lines.len() > 1 {
            let front = text::joined(lines.drop_last(), seq!['\n']);
            assert(notes == front + seq!['\n'] + lines.last());
        }
    }
    reveal_strlit("\n");
    assert("\n"@ =~= seq!['\n']);
    seek_sequence::law_exact_lines_are_found_first(lines, old, 0, at);
    seek_sequence::found_is_first(lines, old, 0, Tolerance::Exact);
    assert(notes_sought(lines, old, 0, false) == Some(at)) by {
        let t = Tolerance::Exact;
        assert(seek_sequence::keys(lines, t) =~= lines);
        assert(seek_sequence::keys(old, t) =~= old);
        seek_sequence::law_first_at_is_first(lines, old, 0);
    }
    reveal_with_fuel(with_chunks, 2);
}

} // verus!
