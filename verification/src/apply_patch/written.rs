//! How patches are written, and that they are read as they are written.

use crate::apply_patch::engine;
use crate::apply_patch::engine::{
    ChunkStep, ChunkView, HunkView, ADD_FILE_MARKER, BEGIN_PATCH_MARKER, CHANGE_CONTEXT_MARKER,
    DELETE_FILE_MARKER, EMPTY_CHANGE_CONTEXT_MARKER, END_PATCH_MARKER, ENVIRONMENT_ID_MARKER,
    EOF_MARKER, MOVE_TO_MARKER, UPDATE_FILE_MARKER,
};
use crate::text;
use vstd::prelude::*;

verus! {

/// What happens to a line of an update.
pub enum Sign {
    /// It is there and stays.
    Keep,
    /// It is put in.
    Add,
    /// It is taken away.
    Drop,
}

/// A line of an update.
pub struct SignedLine {
    pub sign: Sign,
    pub text: Seq<char>,
}

/// One change of an update, as it is written.
pub struct ChunkSource {
    pub context: Option<Seq<char>>,
    pub lines: Seq<SignedLine>,
    pub eof: bool,
}

/// What is written for one file.
pub enum HunkSource {
    AddFile { path: Seq<char>, lines: Seq<Seq<char>> },
    DeleteFile { path: Seq<char> },
    UpdateFile { path: Seq<char>, move_path: Option<Seq<char>>, chunks: Seq<ChunkSource> },
}

// ---------------------------------------------------------------------------
// Writing
// ---------------------------------------------------------------------------

/// The character before a line of an update.
pub open spec fn sign_char(sign: Sign) -> char {
    match sign {
        Sign::Keep => ' ',
        Sign::Add => '+',
        Sign::Drop => '-',
    }
}

/// A line of an update, as it is written.
pub open spec fn written_line(l: SignedLine) -> Seq<char> {
    seq![sign_char(l.sign)] + l.text
}

/// The line that opens a change: two at signs, and the context line behind a space.
pub open spec fn written_context(context: Option<Seq<char>>) -> Seq<char> {
    match context {
        Some(c) => seq!['@', '@', ' '] + c,
        None => seq!['@', '@'],
    }
}

/// The lines of a change.
pub open spec fn written_chunk(c: ChunkSource) -> Seq<Seq<char>> {
    let open = seq![written_context(c.context)] + c.lines.map_values(
        |l: SignedLine| written_line(l),
    );
    if c.eof {
        open.push("*** End of File"@)
    } else {
        open
    }
}

/// The lines of some changes.
pub open spec fn written_chunks(cs: Seq<ChunkSource>) -> Seq<Seq<char>>
    decreases cs.len(),
{
    if cs.len() == 0 {
        Seq::empty()
    } else {
        written_chunk(cs[0]) + written_chunks(cs.drop_first())
    }
}

/// The lines for one file.
pub open spec fn written_hunk(h: HunkSource) -> Seq<Seq<char>> {
    match h {
        HunkSource::AddFile { path, lines } => seq!["*** Add File: "@ + path] + lines.map_values(
            |l: Seq<char>| seq!['+'] + l,
        ),
        HunkSource::DeleteFile { path } => seq!["*** Delete File: "@ + path],
        HunkSource::UpdateFile { path, move_path, chunks } => (match move_path {
            Some(to) => seq!["*** Update File: "@ + path, "*** Move to: "@ + to],
            None => seq!["*** Update File: "@ + path],
        }) + written_chunks(chunks),
    }
}

/// The lines for some files.
pub open spec fn written_hunks(hs: Seq<HunkSource>) -> Seq<Seq<char>>
    decreases hs.len(),
{
    if hs.len() == 0 {
        Seq::empty()
    } else {
        written_hunk(hs[0]) + written_hunks(hs.drop_first())
    }
}

/// A patch, as it is written.
pub open spec fn written_patch(hs: Seq<HunkSource>) -> Seq<char> {
    text::joined(
        seq!["*** Begin Patch"@] + written_hunks(hs).push("*** End Patch"@),
        seq!['\n'],
    )
}

// ---------------------------------------------------------------------------
// Meaning
// ---------------------------------------------------------------------------

/// The lines that a change looks for: those that are there, whether they stay or not.
pub open spec fn old_lines(lines: Seq<SignedLine>) -> Seq<Seq<char>>
    decreases lines.len(),
{
    if lines.len() == 0 {
        Seq::empty()
    } else if lines.last().sign is Add {
        old_lines(lines.drop_last())
    } else {
        old_lines(lines.drop_last()).push(lines.last().text)
    }
}

/// The lines that a change leaves: those that stay and those that are put in.
pub open spec fn new_lines(lines: Seq<SignedLine>) -> Seq<Seq<char>>
    decreases lines.len(),
{
    if lines.len() == 0 {
        Seq::empty()
    } else if lines.last().sign is Drop {
        new_lines(lines.drop_last())
    } else {
        new_lines(lines.drop_last()).push(lines.last().text)
    }
}

/// The change that is meant.
pub open spec fn meant_chunk(c: ChunkSource) -> ChunkView {
    ChunkView {
        change_context: c.context,
        old_lines: old_lines(c.lines),
        new_lines: new_lines(c.lines),
        is_end_of_file: c.eof,
    }
}

/// The contents of a file with the given lines, each with a line feed.
pub open spec fn contents_of_lines(lines: Seq<Seq<char>>) -> Seq<char>
    decreases lines.len(),
{
    if lines.len() == 0 {
        Seq::empty()
    } else {
        (contents_of_lines(lines.drop_last()) + lines.last()).push('\n')
    }
}

/// What is meant for one file.
pub open spec fn meant_hunk(h: HunkSource) -> HunkView {
    match h {
        HunkSource::AddFile { path, lines } => HunkView::AddFile {
            path,
            contents: contents_of_lines(lines),
        },
        HunkSource::DeleteFile { path } => HunkView::DeleteFile { path },
        HunkSource::UpdateFile { path, move_path, chunks } => HunkView::UpdateFile {
            path,
            move_path,
            chunks: chunks.map_values(|c: ChunkSource| meant_chunk(c)),
        },
    }
}

// ---------------------------------------------------------------------------
// What can be written
// ---------------------------------------------------------------------------

/// Whether a text can be a path in a patch: a line without white space around it.
pub open spec fn is_path(s: Seq<char>) -> bool {
    text::is_line(s) && s.len() > 0 && !text::is_white(s[0]) && !text::is_white(s.last())
}

/// Whether a change can be written: it has lines, and its context line does not end in white
/// space.
pub open spec fn is_chunk(c: ChunkSource) -> bool {
    &&& c.lines.len() > 0
    &&& forall|i: int| 0 <= i < c.lines.len() ==> text::is_line((#[trigger] c.lines[i]).text)
    &&& c.context matches Some(s) ==> text::is_line(s) && s.len() > 0 && !text::is_white(s.last())
}

/// Whether the lines for a file can be written.
pub open spec fn is_hunk(h: HunkSource) -> bool {
    match h {
        HunkSource::AddFile { path, lines } => is_path(path) && forall|i: int|
            0 <= i < lines.len() ==> text::is_line(#[trigger] lines[i]),
        HunkSource::DeleteFile { path } => is_path(path),
        HunkSource::UpdateFile { path, move_path, chunks } => {
            &&& is_path(path)
            &&& move_path matches Some(to) ==> is_path(to)
            &&& chunks.len() > 0
            &&& forall|i: int| 0 <= i < chunks.len() ==> is_chunk(#[trigger] chunks[i])
        },
    }
}

// ---------------------------------------------------------------------------
// Reading
// ---------------------------------------------------------------------------

/// The markers, as far as they differ.
proof fn markers()
    ensures
        BEGIN_PATCH_MARKER@ == "*** Begin Patch"@,
        END_PATCH_MARKER@ == "*** End Patch"@,
        EOF_MARKER@ == "*** End of File"@,
        ADD_FILE_MARKER@ == "*** Add File: "@,
        DELETE_FILE_MARKER@ == "*** Delete File: "@,
        UPDATE_FILE_MARKER@ == "*** Update File: "@,
        MOVE_TO_MARKER@ == "*** Move to: "@,
        CHANGE_CONTEXT_MARKER@ == seq!['@', '@', ' '],
        EMPTY_CHANGE_CONTEXT_MARKER@ == seq!['@', '@'],
        "***"@ == seq!['*', '*', '*'],
        ENVIRONMENT_ID_MARKER@.len() == 19,
        ENVIRONMENT_ID_MARKER@[4] == 'E',
        ENVIRONMENT_ID_MARKER@[6] == 'v',
        "*** Begin Patch"@.len() == 15,
        "*** Begin Patch"@[0] == '*',
        "*** Begin Patch"@[14] == 'h',
        !"*** Begin Patch"@.contains('\n'),
        "*** End Patch"@.len() == 13,
        "*** End Patch"@[0] == '*',
        "*** End Patch"@[1] == '*',
        "*** End Patch"@[2] == '*',
        "*** End Patch"@[4] == 'E',
        "*** End Patch"@[6] == 'd',
        "*** End Patch"@[8] == 'P',
        "*** End Patch"@[12] == 'h',
        !"*** End Patch"@.contains('\n'),
        "*** End of File"@.len() == 15,
        "*** End of File"@[0] == '*',
        "*** End of File"@[4] == 'E',
        "*** End of File"@[8] == 'o',
        "*** End of File"@[14] == 'e',
        !"*** End of File"@.contains('\n'),
        is_header("*** Add File: "@, 'A'),
        is_header("*** Delete File: "@, 'D'),
        is_header("*** Update File: "@, 'U'),
        is_header("*** Move to: "@, 'M'),
{
    reveal_strlit("*** Begin Patch");
    reveal_strlit("*** End Patch");
    reveal_strlit("*** End of File");
    reveal_strlit("*** Add File: ");
    reveal_strlit("*** Delete File: ");
    reveal_strlit("*** Update File: ");
    reveal_strlit("*** Move to: ");
    reveal_strlit("@@ ");
    reveal_strlit("@@");
    reveal_strlit("***");
    reveal_strlit("*** Environment ID:");
    assert("@@ "@ =~= seq!['@', '@', ' ']);
    assert("@@"@ =~= seq!['@', '@']);
    assert("***"@ =~= seq!['*', '*', '*']);
    assert forall|i: int| 0 <= i < 15 implies "*** Begin Patch"@[i] != '\n' by {}
    assert forall|i: int| 0 <= i < 13 implies "*** End Patch"@[i] != '\n' by {}
    assert forall|i: int| 0 <= i < 15 implies "*** End of File"@[i] != '\n' by {}
    assert forall|i: int| 0 <= i < "*** Add File: "@.len() implies "*** Add File: "@[i] != '\n' by {}
    assert forall|i: int| 0 <= i < "*** Delete File: "@.len() implies "*** Delete File: "@[i]
        != '\n' by {}
    assert forall|i: int| 0 <= i < "*** Update File: "@.len() implies "*** Update File: "@[i]
        != '\n' by {}
    assert forall|i: int| 0 <= i < "*** Move to: "@.len() implies "*** Move to: "@[i] != '\n' by {}
}

/// A marker before a path, known by its fifth character.
pub open spec fn is_header(marker: Seq<char>, c: char) -> bool {
    &&& marker.len() > 4
    &&& marker[0] == '*'
    &&& marker[1] == '*'
    &&& marker[2] == '*'
    &&& marker[4] == c
    &&& forall|i: int| 0 <= i < marker.len() ==> #[trigger] marker[i] != '\n'
}

/// What ends in no white space loses nothing at its end.
proof fn ends_solid(s: Seq<char>)
    requires
        s.len() > 0,
        !text::is_white(s.last()),
    ensures
        text::trimmed_end(s) == s,
        !text::is_white(s[0]) ==> text::trimmed(s) == s,
{
    if !text::is_white(s[0]) {
        assert(s.subrange(0, s.len() as int) =~= s);
        assert(text::is_core(s, s, 0));
        text::core_is_unique(s, s, 0);
    }
}

/// A line with a marker and a path is a line, and nothing is trimmed off it.
proof fn header_line(marker: Seq<char>, c: char, path: Seq<char>)
    requires
        is_header(marker, c),
        is_path(path),
    ensures
        ({
            let line = marker + path;
            &&& text::is_line(line)
            &&& text::trimmed_end(line) == line
            &&& text::trimmed(line) == line
            &&& text::begins(line, marker)
            &&& text::begins(line, "***"@)
            &&& line.skip(marker.len() as int) == path
            &&& text::trimmed(path) == path
            &&& line[4] == c
            &&& line.len() > marker.len()
        }),
{
    markers();
    let line = marker + path;
    assert(line.last() == path.last());
    ends_solid(line);
    ends_solid(path);
    assert(line.take(marker.len() as int) =~= marker);
    assert(line.take(3) =~= seq!['*', '*', '*']);
    assert(line.skip(marker.len() as int) =~= path);
    if line.contains('\n') {
        let k = line.index_of('\n');
        if k < marker.len() {
            assert(marker[k] == '\n');
        } else {
            assert(path[k - marker.len()] == '\n');
            assert(path.contains('\n'));
        }
    }
}

/// A line does not begin with a marker whose fifth character is another.
proof fn other_marker(line: Seq<char>, marker: Seq<char>)
    requires
        line.len() > 4,
        marker.len() > 4,
        line[4] != marker[4],
    ensures
        !text::begins(line, marker),
        line != marker,
{
    if text::begins(line, marker) {
        assert(line.take(marker.len() as int)[4] == line[4]);
    }
}

/// The change that is meant by the first lines.
pub open spec fn partly(c: ChunkSource, k: int) -> ChunkView {
    ChunkView {
        change_context: c.context,
        old_lines: old_lines(c.lines.take(k)),
        new_lines: new_lines(c.lines.take(k)),
        is_end_of_file: false,
    }
}

/// The line that opens a change is read.
proof fn context_is_read(done: Seq<ChunkView>, c: ChunkSource)
    requires
        is_chunk(c),
        done.len() > 0 ==> !engine::is_bare(done.last()),
    ensures
        engine::chunk_step(done, written_context(c.context)) == ChunkStep::Next(
            done.push(partly(c, 0)),
        ),
{
    markers();
    let line = written_context(c.context);
    assert(line[0] == '@' && line[1] == '@');
    assert(!text::is_white(line.last())) by {
        if let Some(s) = c.context {
            assert(line.last() == s.last());
        }
    }
    ends_solid(line);
    assert(!text::begins(line, "***"@)) by {
        if text::begins(line, "***"@) {
            assert(line.take(3)[0] == line[0]);
        }
    }
    match c.context {
        Some(s) => {
            assert(line.take(3) =~= seq!['@', '@', ' ']);
            assert(line.skip(3) =~= s);
        },
        None => {},
    }
    assert(c.lines.take(0) =~= Seq::<SignedLine>::empty());
    assert(engine::fresh_chunk(text::after_prefix(line, CHANGE_CONTEXT_MARKER@)) =~= partly(
        c,
        0,
    ));
}

/// A line of an update is read by its sign.
proof fn line_is_read(done: Seq<ChunkView>, c: ChunkSource, k: int)
    requires
        is_chunk(c),
        0 <= k < c.lines.len(),
    ensures
        engine::chunk_step(done.push(partly(c, k)), written_line(c.lines[k])) == ChunkStep::Next(
            done.push(partly(c, k + 1)),
        ),
{
    markers();
    let l = c.lines[k];
    let line = written_line(l);
    let chunks = done.push(partly(c, k));
    assert(line[0] == sign_char(l.sign));
    assert(line.skip(1) =~= l.text);
    text::law_trimming_takes_white_space_only(line);
    let update_line = text::trimmed_end(line);
    if update_line.len() > 0 {
        assert(update_line[0] == line[0]);
    }
    assert(!text::begins(update_line, "***"@)) by {
        if text::begins(update_line, "***"@) {
            assert(update_line.take(3)[0] == update_line[0]);
        }
    }
    assert(!text::begins(update_line, CHANGE_CONTEXT_MARKER@)) by {
        if text::begins(update_line, CHANGE_CONTEXT_MARKER@) {
            assert(update_line.take(3)[0] == update_line[0]);
        }
    }
    assert(update_line != EMPTY_CHANGE_CONTEXT_MARKER@);
    assert(c.lines.take(k + 1).drop_last() =~= c.lines.take(k));
    assert(c.lines.take(k + 1).last() == l);
    let none = Seq::<Seq<char>>::empty();
    let body = seq![l.text];
    let (a, b) = match l.sign {
        Sign::Keep => (body, body),
        Sign::Add => (none, body),
        Sign::Drop => (body, none),
    };
    let was = partly(c, k);
    let is = partly(c, k + 1);
    assert(was.old_lines + a =~= is.old_lines);
    assert(was.new_lines + b =~= is.new_lines);
    assert(engine::extended(engine::opened(chunks), a, b) =~= done.push(is));
}

/// Each line of a change leaves something.
proof fn lines_are_not_bare(lines: Seq<SignedLine>)
    requires
        lines.len() > 0,
    ensures
        old_lines(lines).len() + new_lines(lines).len() > 0,
{
}

/// The lines of a change from the `k`th on are read.
proof fn lines_are_read(
    all: Seq<Seq<char>>,
    i: int,
    done: Seq<ChunkView>,
    c: ChunkSource,
    k: int,
)
    requires
        is_chunk(c),
        0 <= i,
        i + c.lines.len() <= all.len(),
        0 <= k <= c.lines.len(),
        forall|j: int|
            0 <= j < c.lines.len() ==> #[trigger] all[i + j] == written_line(c.lines[j]),
    ensures
        engine::chunks_from(all, i + k, done.push(partly(c, k))) == engine::chunks_from(
            all,
            i + c.lines.len(),
            done.push(partly(c, c.lines.len() as int)),
        ),
    decreases c.lines.len() - k,
{
    if k < c.lines.len() {
        assert(all[i + k] == written_line(c.lines[k]));
        line_is_read(done, c, k);
        lines_are_read(all, i, done, c, k + 1);
    }
}

/// A change is read as it is written.
proof fn chunk_is_read(all: Seq<Seq<char>>, i: int, done: Seq<ChunkView>, c: ChunkSource)
    requires
        is_chunk(c),
        0 <= i,
        i + written_chunk(c).len() <= all.len(),
        all.subrange(i, i + written_chunk(c).len()) == written_chunk(c),
        done.len() > 0 ==> !engine::is_bare(done.last()),
    ensures
        engine::chunks_from(all, i, done) == engine::chunks_from(
            all,
            i + written_chunk(c).len(),
            done.push(meant_chunk(c)),
        ),
        !engine::is_bare(meant_chunk(c)),
{
    let part = all.subrange(i, i + written_chunk(c).len());
    let n = c.lines.len() as int;
    assert(part[0] == all[i]);
    context_is_read(done, c);
    assert forall|j: int| 0 <= j < n implies #[trigger] all[i + 1 + j] == written_line(
        c.lines[j],
    ) by {
        assert(part[1 + j] == all[i + 1 + j]);
    }
    lines_are_read(all, i + 1, done, c, 0);
    assert(c.lines.take(n) =~= c.lines);
    lines_are_not_bare(c.lines);
    let last = partly(c, n);
    let chunks = done.push(last);
    if c.eof {
        markers();
        assert(part[n + 1] == all[i + n + 1]);
        assert(all[i + n + 1] == "*** End of File"@);
        ends_solid("*** End of File"@);
        assert(chunks.update(
            chunks.len() - 1,
            ChunkView { is_end_of_file: true, ..chunks.last() },
        ) =~= done.push(meant_chunk(c)));
        assert(engine::chunk_step(chunks, all[i + n + 1]) == ChunkStep::Next(
            done.push(meant_chunk(c)),
        ));
    } else {
        assert(last =~= meant_chunk(c));
    }
}

/// Changes are read as they are written, up to a line that begins with three stars.
proof fn chunks_are_read(
    all: Seq<Seq<char>>,
    i: int,
    done: Seq<ChunkView>,
    cs: Seq<ChunkSource>,
)
    requires
        forall|k: int| 0 <= k < cs.len() ==> is_chunk(#[trigger] cs[k]),
        0 <= i,
        i + written_chunks(cs).len() < all.len(),
        all.subrange(i, i + written_chunks(cs).len()) == written_chunks(cs),
        done.len() > 0 ==> !engine::is_bare(done.last()),
        ({
            let next = all[i + written_chunks(cs).len()];
            text::begins(text::trimmed_end(next), "***"@) && text::trimmed_end(next)
                != EOF_MARKER@
        }),
    ensures
        engine::chunks_from(all, i, done) == Ok::<(Seq<ChunkView>, int), Seq<char>>(
            (
                done + cs.map_values(|c: ChunkSource| meant_chunk(c)),
                i + written_chunks(cs).len(),
            ),
        ),
    decreases cs.len(),
{
    let f = |c: ChunkSource| meant_chunk(c);
    if cs.len() == 0 {
        assert(done + cs.map_values(f) =~= done);
    } else {
        let first = written_chunk(cs[0]);
        let more = written_chunks(cs.drop_first());
        let whole = written_chunks(cs);
        assert(is_chunk(cs[0]));
        assert(all.subrange(i, i + first.len()) =~= whole.subrange(0, first.len() as int));
        assert(whole.subrange(0, first.len() as int) =~= first);
        chunk_is_read(all, i, done, cs[0]);
        let at = i + first.len();
        assert(all.subrange(at, at + more.len()) =~= all.subrange(i, i + whole.len()).skip(
            first.len() as int,
        ));
        assert(whole.skip(first.len() as int) =~= more);
        assert forall|k: int| 0 <= k < cs.drop_first().len() implies is_chunk(
            #[trigger] cs.drop_first()[k],
        ) by {
            assert(is_chunk(cs[k + 1]));
        }
        chunks_are_read(all, at, done.push(meant_chunk(cs[0])), cs.drop_first());
        assert(done.push(meant_chunk(cs[0])) + cs.drop_first().map_values(f) =~= done
            + cs.map_values(f));
    }
}

/// The lines of an added file are read.
proof fn body_is_read(all: Seq<Seq<char>>, i: int, lines: Seq<Seq<char>>, k: int)
    requires
        0 <= i,
        0 <= k <= lines.len(),
        i + lines.len() < all.len(),
        forall|j: int| 0 <= j < lines.len() ==> #[trigger] all[i + j] == seq!['+'] + lines[j],
        text::begins(all[i + lines.len()], "***"@),
    ensures
        engine::add_body_from(all, i + k, contents_of_lines(lines.take(k))) == Ok::<
            (Seq<char>, int),
            Seq<char>,
        >((contents_of_lines(lines), i + lines.len())),
    decreases lines.len() - k,
{
    markers();
    if k < lines.len() {
        let line = all[i + k];
        assert(line == seq!['+'] + lines[k]);
        assert(line.skip(1) =~= lines[k]);
        assert(line[0] == '+');
        assert(!text::begins(line, "***"@)) by {
            if text::begins(line, "***"@) {
                assert(line.take(3)[0] == line[0]);
            }
        }
        assert(lines.take(k + 1).drop_last() =~= lines.take(k));
        body_is_read(all, i, lines, k + 1);
    } else {
        assert(lines.take(k) =~= lines);
    }
}

/// What follows the lines for a file: a line that begins with three stars and is no mark of
/// the end of a file.
pub open spec fn is_next(line: Seq<char>) -> bool {
    &&& text::begins(line, "***"@)
    &&& text::begins(text::trimmed_end(line), "***"@)
    &&& text::trimmed_end(line) != EOF_MARKER@
}

/// The first line for a file, and the line at the end of a patch, follow what is before them.
proof fn next_lines(h: HunkSource)
    requires
        is_hunk(h),
    ensures
        is_next(written_hunk(h)[0]),
        is_next("*** End Patch"@),
        written_hunk(h).len() > 0,
        text::trimmed(written_hunk(h)[0]) != END_PATCH_MARKER@,
        !text::begins(text::trimmed(written_hunk(h)[0]), ENVIRONMENT_ID_MARKER@),
        text::trimmed("*** End Patch"@) == END_PATCH_MARKER@,
        !text::begins(text::trimmed("*** End Patch"@), ENVIRONMENT_ID_MARKER@),
{
    markers();
    let (marker, c, path) = match h {
        HunkSource::AddFile { path, .. } => ("*** Add File: "@, 'A', path),
        HunkSource::DeleteFile { path } => ("*** Delete File: "@, 'D', path),
        HunkSource::UpdateFile { path, .. } => ("*** Update File: "@, 'U', path),
    };
    header_line(marker, c, path);
    let line = marker + path;
    assert(written_hunk(h)[0] == line);
    other_marker(line, EOF_MARKER@);
    other_marker(line, END_PATCH_MARKER@);
    other_marker(line, ENVIRONMENT_ID_MARKER@);
    let end = "*** End Patch"@;
    ends_solid(end);
    assert(end.take(3) =~= seq!['*', '*', '*']);
    assert(end[8] != EOF_MARKER@[8]);
}

/// The lines for a file are read as they are written.
proof fn hunk_is_read(body: Seq<Seq<char>>, i: int, h: HunkSource)
    requires
        is_hunk(h),
        0 <= i,
        i + written_hunk(h).len() < body.len(),
        body.subrange(i, i + written_hunk(h).len()) == written_hunk(h),
        is_next(body[i + written_hunk(h).len()]),
    ensures
        engine::hunk_at(body, i) == Ok::<(HunkView, int), Seq<char>>(
            (meant_hunk(h), i + written_hunk(h).len()),
        ),
{
    markers();
    let part = body.subrange(i, i + written_hunk(h).len());
    assert(part.len() > 0) by {
        next_lines(h);
    }
    assert(part[0] == body[i]);
    match h {
        HunkSource::AddFile { path, lines } => {
            header_line("*** Add File: "@, 'A', path);
            assert forall|j: int| 0 <= j < lines.len() implies #[trigger] body[i + 1 + j]
                == seq!['+'] + lines[j] by {
                assert(part[1 + j] == body[i + 1 + j]);
            }
            body_is_read(body, i + 1, lines, 0);
            assert(lines.take(0) =~= Seq::<Seq<char>>::empty());
        },
        HunkSource::DeleteFile { path } => {
            header_line("*** Delete File: "@, 'D', path);
            other_marker(body[i], ADD_FILE_MARKER@);
        },
        HunkSource::UpdateFile { path, move_path, chunks } => {
            header_line("*** Update File: "@, 'U', path);
            other_marker(body[i], ADD_FILE_MARKER@);
            other_marker(body[i], DELETE_FILE_MARKER@);
            let cs = written_chunks(chunks);
            let none = Seq::<ChunkView>::empty();
            let all = chunks.map_values(|c: ChunkSource| meant_chunk(c));
            assert(none + all =~= all);
            match move_path {
                Some(to) => {
                    header_line("*** Move to: "@, 'M', to);
                    assert(part[1] == body[i + 1]);
                    assert(written_hunk(h)[1] == "*** Move to: "@ + to);
                    assert(body.subrange(i + 2, i + 2 + cs.len()) =~= part.skip(2));
                    assert(written_hunk(h).skip(2) =~= cs);
                    chunks_are_read(body, i + 2, none, chunks);
                },
                None => {
                    assert(part[1] == body[i + 1]) by {
                        assert(written_chunk(chunks[0]).len() > 0);
                    }
                    assert(written_hunk(h)[1] == cs[0]);
                    assert(cs[0] == written_context(chunks[0].context));
                    assert(body[i + 1][0] == '@');
                    assert(!text::begins(body[i + 1], MOVE_TO_MARKER@)) by {
                        if text::begins(body[i + 1], MOVE_TO_MARKER@) {
                            assert(body[i + 1].take(MOVE_TO_MARKER@.len() as int)[0]
                                == body[i + 1][0]);
                        }
                    }
                    assert(body.subrange(i + 1, i + 1 + cs.len()) =~= part.skip(1));
                    assert(written_hunk(h).skip(1) =~= cs);
                    chunks_are_read(body, i + 1, none, chunks);
                },
            }
        },
    }
}

/// The lines for some files are read as they are written, up to the end of the patch.
proof fn hunks_are_read(
    body: Seq<Seq<char>>,
    i: int,
    done: Seq<HunkView>,
    hs: Seq<HunkSource>,
)
    requires
        forall|k: int| 0 <= k < hs.len() ==> is_hunk(#[trigger] hs[k]),
        0 <= i,
        i + written_hunks(hs).len() < body.len(),
        body.subrange(i, i + written_hunks(hs).len()) == written_hunks(hs),
        body[i + written_hunks(hs).len()] == "*** End Patch"@,
    ensures
        engine::hunks_from(body, i, done) == Ok::<Seq<HunkView>, Seq<char>>(
            done + hs.map_values(|h: HunkSource| meant_hunk(h)),
        ),
    decreases hs.len(),
{
    let f = |h: HunkSource| meant_hunk(h);
    if hs.len() == 0 {
        markers();
        ends_solid("*** End Patch"@);
        assert(done + hs.map_values(f) =~= done);
    } else {
        let first = written_hunk(hs[0]);
        let rest = hs.drop_first();
        let more = written_hunks(rest);
        let whole = written_hunks(hs);
        assert(is_hunk(hs[0]));
        next_lines(hs[0]);
        assert(body.subrange(i, i + first.len()) =~= whole.subrange(0, first.len() as int));
        assert(whole.subrange(0, first.len() as int) =~= first);
        let at = i + first.len();
        assert(body.subrange(at, at + more.len()) =~= body.subrange(i, i + whole.len()).skip(
            first.len() as int,
        ));
        assert(whole.skip(first.len() as int) =~= more);
        assert(body[i] == first[0]) by {
            assert(body.subrange(i, i + first.len())[0] == body[i]);
        }
        assert(is_next(body[at])) by {
            if rest.len() > 0 {
                assert(is_hunk(hs[1]));
                assert(rest[0] == hs[1]);
                next_lines(rest[0]);
                assert(more[0] == written_hunk(rest[0])[0]);
                assert(body.subrange(at, at + more.len())[0] == body[at]);
            }
        }
        hunk_is_read(body, i, hs[0]);
        assert forall|k: int| 0 <= k < rest.len() implies is_hunk(#[trigger] rest[k]) by {
            assert(is_hunk(hs[k + 1]));
        }
        hunks_are_read(body, at, done.push(meant_hunk(hs[0])), rest);
        assert(done.push(meant_hunk(hs[0])) + rest.map_values(f) =~= done + hs.map_values(f));
    }
}

/// The lines of changes are lines.
proof fn chunk_lines_are_lines(cs: Seq<ChunkSource>)
    requires
        forall|k: int| 0 <= k < cs.len() ==> is_chunk(#[trigger] cs[k]),
    ensures
        forall|i: int|
            0 <= i < written_chunks(cs).len() ==> text::is_line(#[trigger] written_chunks(cs)[i]),
    decreases cs.len(),
{
    if cs.len() > 0 {
        let first = written_chunk(cs[0]);
        let more = written_chunks(cs.drop_first());
        assert(is_chunk(cs[0]));
        assert forall|k: int| 0 <= k < cs.drop_first().len() implies is_chunk(
            #[trigger] cs.drop_first()[k],
        ) by {
            assert(is_chunk(cs[k + 1]));
        }
        chunk_lines_are_lines(cs.drop_first());
        assert forall|i: int| 0 <= i < written_chunks(cs).len() implies text::is_line(
            #[trigger] written_chunks(cs)[i],
        ) by {
            if i >= first.len() {
                assert(text::is_line(more[i - first.len()]));
            } else if i == 0 {
                let line = written_context(cs[0].context);
                if let Some(s) = cs[0].context {
                    prefixed_line(seq!['@', '@', ' '], s);
                } else {
                    assert(!line.contains('\n'));
                }
            } else if i <= cs[0].lines.len() {
                let l = cs[0].lines[i - 1];
                assert(text::is_line(l.text));
                prefixed_line(seq![sign_char(l.sign)], l.text);
            } else {
                markers();
            }
        }
    }
}

/// A line with plain characters before it is a line.
proof fn prefixed_line(prefix: Seq<char>, s: Seq<char>)
    requires
        text::is_line(s),
        forall|i: int|
            0 <= i < prefix.len() ==> #[trigger] prefix[i] != '\n' && prefix[i] != '\r',
    ensures
        text::is_line(prefix + s),
{
    let line = prefix + s;
    if line.contains('\n') {
        let k = line.index_of('\n');
        if k < prefix.len() {
            assert(prefix[k] == '\n');
        } else {
            assert(s[k - prefix.len()] == '\n');
            assert(s.contains('\n'));
        }
    }
    if line.len() > 0 {
        if s.len() > 0 {
            assert(line.last() == s.last());
        } else {
            assert(line.last() == prefix[prefix.len() - 1]);
        }
    }
}

/// The lines for files are lines.
proof fn hunk_lines_are_lines(hs: Seq<HunkSource>)
    requires
        forall|k: int| 0 <= k < hs.len() ==> is_hunk(#[trigger] hs[k]),
    ensures
        forall|i: int|
            0 <= i < written_hunks(hs).len() ==> text::is_line(#[trigger] written_hunks(hs)[i]),
    decreases hs.len(),
{
    if hs.len() > 0 {
        let h = hs[0];
        let first = written_hunk(h);
        let more = written_hunks(hs.drop_first());
        assert(is_hunk(h));
        assert forall|k: int| 0 <= k < hs.drop_first().len() implies is_hunk(
            #[trigger] hs.drop_first()[k],
        ) by {
            assert(is_hunk(hs[k + 1]));
        }
        hunk_lines_are_lines(hs.drop_first());
        markers();
        assert forall|i: int| 0 <= i < first.len() implies text::is_line(#[trigger] first[i]) by {
            match h {
                HunkSource::AddFile { path, lines } => {
                    header_line("*** Add File: "@, 'A', path);
                    if i > 0 {
                        assert(text::is_line(lines[i - 1]));
                        prefixed_line(seq!['+'], lines[i - 1]);
                    }
                },
                HunkSource::DeleteFile { path } => {
                    header_line("*** Delete File: "@, 'D', path);
                },
                HunkSource::UpdateFile { path, move_path, chunks } => {
                    header_line("*** Update File: "@, 'U', path);
                    chunk_lines_are_lines(chunks);
                    let cs = written_chunks(chunks);
                    match move_path {
                        Some(to) => {
                            header_line("*** Move to: "@, 'M', to);
                            if i >= 2 {
                                assert(text::is_line(cs[i - 2]));
                            }
                        },
                        None => {
                            if i >= 1 {
                                assert(text::is_line(cs[i - 1]));
                            }
                        },
                    }
                },
            }
        }
        assert forall|i: int| 0 <= i < written_hunks(hs).len() implies text::is_line(
            #[trigger] written_hunks(hs)[i],
        ) by {
            if i < first.len() {
                assert(text::is_line(first[i]));
            } else {
                assert(text::is_line(more[i - first.len()]));
            }
        }
    }
}

/// Joined lines begin with the first and end with the last.
proof fn joined_ends(lines: Seq<Seq<char>>)
    requires
        lines.len() > 1,
        lines[0].len() > 0,
        lines.last().len() > 0,
    ensures
        ({
            let s = text::joined(lines, seq!['\n']);
            s.len() > 0 && s[0] == lines[0][0] && s.last() == lines.last().last()
        }),
    decreases lines.len(),
{
    let front = lines.drop_last();
    let base = text::joined(front, seq!['\n']);
    if front.len() > 1 {
        joined_begins(front);
    }
    assert(base.len() > 0 && base[0] == lines[0][0]);
}

/// Joined lines begin with the first.
proof fn joined_begins(lines: Seq<Seq<char>>)
    requires
        lines.len() > 0,
        lines[0].len() > 0,
    ensures
        text::joined(lines, seq!['\n']).len() > 0,
        text::joined(lines, seq!['\n'])[0] == lines[0][0],
    decreases lines.len(),
{
    if lines.len() > 1 {
        joined_begins(lines.drop_last());
    }
}

/// A patch is read as it is written: each file in order, with its lines by their signs. A line
/// with a space is looked for and stays, one with a minus sign is looked for and taken away, and
/// one with a plus sign is put in. The line behind two at signs is the context of the change.
pub proof fn law_patches_are_read_as_written(hs: Seq<HunkSource>)
    requires
        forall|k: int| 0 <= k < hs.len() ==> is_hunk(#[trigger] hs[k]),
    ensures
        engine::parsed(written_patch(hs)) == Ok::<Seq<HunkView>, Seq<char>>(
            hs.map_values(|h: HunkSource| meant_hunk(h)),
        ),
{
    markers();
    let inner = written_hunks(hs).push("*** End Patch"@);
    let lines = seq!["*** Begin Patch"@] + inner;
    let patch = written_patch(hs);
    hunk_lines_are_lines(hs);
    assert forall|i: int| 0 <= i < lines.len() implies text::is_line(#[trigger] lines[i]) by {
        if 0 < i <= written_hunks(hs).len() {
            assert(lines[i] == written_hunks(hs)[i - 1]);
        }
    }
    assert(lines[0] == "*** Begin Patch"@);
    assert(lines.last() == "*** End Patch"@);
    joined_ends(lines);
    ends_solid(patch);
    text::law_lines_are_read_back(lines);
    ends_solid("*** Begin Patch"@);
    ends_solid("*** End Patch"@);
    assert(engine::bounded(lines) == Ok::<Seq<Seq<char>>, Seq<char>>(lines));
    assert(lines.skip(1) =~= inner);
    let n = written_hunks(hs).len() as int;
    assert(inner.subrange(0, n) =~= written_hunks(hs));
    assert(engine::preamble(inner) == Ok::<int, Seq<char>>(0)) by {
        if hs.len() > 0 {
            assert(is_hunk(hs[0]));
            next_lines(hs[0]);
            assert(inner[0] == written_hunk(hs[0])[0]);
        } else {
            let end = "*** End Patch"@;
            assert(inner[0] == end);
            assert(end.len() < ENVIRONMENT_ID_MARKER@.len());
        }
    }
    let none = Seq::<HunkView>::empty();
    hunks_are_read(inner, 0, none, hs);
    let all = hs.map_values(|h: HunkSource| meant_hunk(h));
    assert(none + all =~= all);
}

} // verus!
