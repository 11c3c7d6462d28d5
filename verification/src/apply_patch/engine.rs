//! Parser, sequence matching and planning for the patch format.
//!
//! A patch is parsed into hunks. Every hunk is resolved, checked and computed
//! against what is on disk before anything is written, so that a patch with one
//! bad hunk changes nothing. What has to be done then is a list of actions.

use crate::text;
use vstd::prelude::*;

verus! {

pub const BEGIN_PATCH_MARKER: &'static str = "*** Begin Patch";

pub const END_PATCH_MARKER: &'static str = "*** End Patch";

pub const ENVIRONMENT_ID_MARKER: &'static str = "*** Environment ID:";

pub const ADD_FILE_MARKER: &'static str = "*** Add File: ";

pub const DELETE_FILE_MARKER: &'static str = "*** Delete File: ";

pub const UPDATE_FILE_MARKER: &'static str = "*** Update File: ";

pub const MOVE_TO_MARKER: &'static str = "*** Move to: ";

pub const EOF_MARKER: &'static str = "*** End of File";

pub const CHANGE_CONTEXT_MARKER: &'static str = "@@ ";

pub const EMPTY_CHANGE_CONTEXT_MARKER: &'static str = "@@";

// ---------------------------------------------------------------------------
// Hunks
// ---------------------------------------------------------------------------

/// One change of an update: the lines to find, those to put in their place, an
/// optional line to look for first, and whether the change is at the end of
/// the file.
#[derive(Debug, PartialEq, Clone)]
pub struct UpdateFileChunk {
    pub change_context: Option<String>,
    pub old_lines: Vec<String>,
    pub new_lines: Vec<String>,
    pub is_end_of_file: bool,
}

/// What a patch does to one file.
#[derive(Debug, Clone)]
pub enum Hunk {
    AddFile { path: String, contents: String },
    DeleteFile { path: String },
    UpdateFile { path: String, move_path: Option<String>, chunks: Vec<UpdateFileChunk> },
}

/// The texts of a chunk.
#[verifier::ext_equal]
pub struct ChunkView {
    pub change_context: Option<Seq<char>>,
    pub old_lines: Seq<Seq<char>>,
    pub new_lines: Seq<Seq<char>>,
    pub is_end_of_file: bool,
}

/// The texts of a hunk.
#[verifier::ext_equal]
pub enum HunkView {
    AddFile { path: Seq<char>, contents: Seq<char> },
    DeleteFile { path: Seq<char> },
    UpdateFile { path: Seq<char>, move_path: Option<Seq<char>>, chunks: Seq<ChunkView> },
}

impl View for UpdateFileChunk {
    type V = ChunkView;

    open spec fn view(&self) -> ChunkView {
        ChunkView {
            change_context: text::opt_view(self.change_context),
            old_lines: text::views(self.old_lines@),
            new_lines: text::views(self.new_lines@),
            is_end_of_file: self.is_end_of_file,
        }
    }
}

/// The texts of a list of chunks.
pub open spec fn chunk_views(chunks: Seq<UpdateFileChunk>) -> Seq<ChunkView> {
    Seq::new(chunks.len(), |i: int| chunks[i]@)
}

impl View for Hunk {
    type V = HunkView;

    open spec fn view(&self) -> HunkView {
        match self {
            Hunk::AddFile { path, contents } => HunkView::AddFile {
                path: path@,
                contents: contents@,
            },
            Hunk::DeleteFile { path } => HunkView::DeleteFile { path: path@ },
            Hunk::UpdateFile { path, move_path, chunks } => HunkView::UpdateFile {
                path: path@,
                move_path: text::opt_view(*move_path),
                chunks: chunk_views(chunks@),
            },
        }
    }
}

/// The texts of a list of hunks.
pub open spec fn hunk_views(hunks: Seq<Hunk>) -> Seq<HunkView> {
    Seq::new(hunks.len(), |i: int| hunks[i]@)
}

// ---------------------------------------------------------------------------
// Update chunks
// ---------------------------------------------------------------------------

/// A chunk that holds no lines yet.
pub open spec fn fresh_chunk(change_context: Option<Seq<char>>) -> ChunkView {
    ChunkView {
        change_context,
        old_lines: Seq::empty(),
        new_lines: Seq::empty(),
        is_end_of_file: false,
    }
}

/// Whether a chunk holds no lines.
pub open spec fn is_bare(chunk: ChunkView) -> bool {
    chunk.old_lines.len() == 0 && chunk.new_lines.len() == 0
}

/// `chunks` with a first chunk opened where there is none.
pub open spec fn opened(chunks: Seq<ChunkView>) -> Seq<ChunkView> {
    if chunks.len() == 0 {
        seq![fresh_chunk(None)]
    } else {
        chunks
    }
}

/// `chunks` with lines added at the end of the last one.
pub open spec fn extended(
    chunks: Seq<ChunkView>,
    old_lines: Seq<Seq<char>>,
    new_lines: Seq<Seq<char>>,
) -> Seq<ChunkView> {
    let c = chunks.last();
    chunks.update(
        chunks.len() - 1,
        ChunkView {
            old_lines: c.old_lines + old_lines,
            new_lines: c.new_lines + new_lines,
            ..c
        },
    )
}

/// What is said of a line that cannot stand in an update.
pub open spec fn unexpected_line(line: Seq<char>) -> Seq<char> {
    "Unexpected line found in update hunk: '"@ + line
        + "'. Every line should start with ' ' (context line), '+' (added line), or '-' (removed line)"@
}

/// What reading one line of an update leads to.
pub enum ChunkStep {
    /// The line belongs to what follows the update.
    Stop,
    /// The line cannot stand here.
    Fail(Seq<char>),
    /// The chunks with the line taken in.
    Next(Seq<ChunkView>),
}

/// Whether a line, without the white space at its end, opens a chunk.
pub open spec fn opens_chunk(line: Seq<char>) -> bool {
    line == EMPTY_CHANGE_CONTEXT_MARKER@ || text::begins(line, CHANGE_CONTEXT_MARKER@)
}

/// Reads one line of an update behind the chunks read so far.
pub open spec fn chunk_step(chunks: Seq<ChunkView>, line: Seq<char>) -> ChunkStep {
    let update_line = text::trimmed_end(line);
    let bare = chunks.len() > 0 && is_bare(chunks.last());
    let ended = chunks.len() > 0 && chunks.last().is_end_of_file;
    if update_line == EOF_MARKER@ {
        if bare {
            ChunkStep::Fail("Update hunk does not contain any lines"@)
        } else if chunks.len() == 0 {
            ChunkStep::Next(chunks)
        } else {
            ChunkStep::Next(
                chunks.update(
                    chunks.len() - 1,
                    ChunkView { is_end_of_file: true, ..chunks.last() },
                ),
            )
        }
    } else if text::begins(update_line, "***"@) {
        ChunkStep::Stop
    } else if ended && update_line.len() == 0 {
        ChunkStep::Next(chunks)
    } else if ended && !opens_chunk(update_line) {
        ChunkStep::Fail(
            "Expected update hunk to start with a @@ context marker, got: '"@ + line + "'"@,
        )
    } else if opens_chunk(update_line) {
        if bare {
            ChunkStep::Fail(unexpected_line(line))
        } else {
            ChunkStep::Next(
                chunks.push(fresh_chunk(text::after_prefix(update_line, CHANGE_CONTEXT_MARKER@))),
            )
        }
    } else if line.len() == 0 {
        let blank = seq![Seq::<char>::empty()];
        ChunkStep::Next(extended(opened(chunks), blank, blank))
    } else {
        let body = seq![line.skip(1)];
        let none = Seq::<Seq<char>>::empty();
        if line[0] == ' ' {
            ChunkStep::Next(extended(opened(chunks), body, body))
        } else if line[0] == '+' {
            ChunkStep::Next(extended(opened(chunks), none, body))
        } else if line[0] == '-' {
            ChunkStep::Next(extended(opened(chunks), body, none))
        } else {
            ChunkStep::Fail(unexpected_line(line))
        }
    }
}

/// Reads the lines of an update from `i` on, behind `chunks`. Gives all chunks
/// and where the first line stands that is not part of them.
pub open spec fn chunks_from(
    lines: Seq<Seq<char>>,
    i: int,
    chunks: Seq<ChunkView>,
) -> Result<(Seq<ChunkView>, int), Seq<char>>
    decreases lines.len() - i,
{
    if i < 0 || i >= lines.len() {
        Ok((chunks, i))
    } else {
        match chunk_step(chunks, lines[i]) {
            ChunkStep::Stop => Ok((chunks, i)),
            ChunkStep::Fail(message) => Err(message),
            ChunkStep::Next(next) => chunks_from(lines, i + 1, next),
        }
    }
}

/// Appends lines to the last chunk, opening one where there is none.
fn extend_last(
    chunks: &mut Vec<UpdateFileChunk>,
    old_line: Option<String>,
    new_line: Option<String>,
)
    ensures
        chunk_views(final(chunks)@) == extended(
            opened(chunk_views(old(chunks)@)),
            (if old_line is Some {
                seq![old_line->0@]
            } else {
                Seq::empty()
            }),
            (if new_line is Some {
                seq![new_line->0@]
            } else {
                Seq::empty()
            }),
        ),
{
    let ghost before = chunk_views(chunks@);
    let mut last = match chunks.pop() {
        Some(c) => c,
        None => UpdateFileChunk {
            change_context: None,
            old_lines: Vec::new(),
            new_lines: Vec::new(),
            is_end_of_file: false,
        },
    };
    let ghost start = last@;
    assert(start == opened(before).last());
    assert(chunk_views(chunks@) =~= opened(before).drop_last());
    let ghost mut old_added: Seq<Seq<char>> = Seq::empty();
    let ghost mut new_added: Seq<Seq<char>> = Seq::empty();
    if let Some(line) = old_line {
        proof {
            old_added = seq![line@];
        }
        last.old_lines.push(line);
    }
    if let Some(line) = new_line {
        proof {
            new_added = seq![line@];
        }
        last.new_lines.push(line);
    }
    assert(last@.old_lines =~= start.old_lines + old_added);
    assert(last@.new_lines =~= start.new_lines + new_added);
    chunks.push(last);
    assert(chunk_views(chunks@) =~= extended(opened(before), old_added, new_added));
}

/// What is said of a line that cannot stand in an update.
fn unexpected_line_error(line: &str) -> (r: String)
    ensures
        r@ == unexpected_line(line@),
{
    let mut message = "Unexpected line found in update hunk: '".to_owned();
    message.push_str(line);
    message.push_str(
        "'. Every line should start with ' ' (context line), '+' (added line), or '-' (removed line)",
    );
    message
}

/// Whether the last chunk read so far holds no lines.
fn last_is_bare(chunks: &Vec<UpdateFileChunk>) -> (r: bool)
    ensures
        r == (chunks@.len() > 0 && is_bare(chunk_views(chunks@).last())),
{
    let n: usize = chunks.len();
    n > 0 && chunks[n - 1].old_lines.len() == 0 && chunks[n - 1].new_lines.len() == 0
}

/// The texts of parsed chunks and the place behind them.
pub open spec fn chunks_view(
    r: Result<(Vec<UpdateFileChunk>, usize), String>,
) -> Result<(Seq<ChunkView>, int), Seq<char>> {
    match r {
        Ok((chunks, at)) => Ok((chunk_views(chunks@), at as int)),
        Err(e) => Err(e@),
    }
}

/// Parses the chunks of an update, which are separated by `@@` markers, from
/// line `from` on.
pub fn parse_update_chunks(lines: &Vec<String>, from: usize) -> (r: Result<
    (Vec<UpdateFileChunk>, usize),
    String,
>)
    requires
        from <= lines@.len(),
    ensures
        chunks_view(r) == chunks_from(text::views(lines@), from as int, Seq::empty()),
        r matches Ok(p) ==> from <= p.1 <= lines@.len(),
{
    let ghost all = text::views(lines@);
    let mut chunks: Vec<UpdateFileChunk> = Vec::new();
    assert(chunk_views(chunks@) =~= Seq::<ChunkView>::empty());
    let mut i: usize = from;
    while i < lines.len()
        invariant_except_break
            from <= i <= lines@.len(),
            all == text::views(lines@),
            chunks_from(all, i as int, chunk_views(chunks@)) == chunks_from(
                all,
                from as int,
                Seq::empty(),
            ),
        ensures
            from <= i <= lines@.len(),
            chunks_from(all, from as int, Seq::empty()) == Ok::<(Seq<ChunkView>, int), Seq<char>>(
                (chunk_views(chunks@), i as int),
            ),
        decreases lines@.len() - i,
    {
        let line = lines[i].as_str();
        let update_line = text::trim_end(line);
        let ghost before = chunk_views(chunks@);
        let ghost step = chunk_step(before, all[i as int]);
        assert(all[i as int] == line@);

        if text::same(&update_line, EOF_MARKER) {
            if last_is_bare(&chunks) {
                return Err("Update hunk does not contain any lines".to_owned());
            }
            match chunks.pop() {
                Some(mut last) => {
                    let ghost was = last@;
                    last.is_end_of_file = true;
                    assert(last@ == ChunkView { is_end_of_file: true, ..was });
                    chunks.push(last);
                    assert(chunk_views(chunks@) =~= before.update(before.len() - 1, last@));
                },
                None => {
                    assert(chunk_views(chunks@) =~= before);
                },
            }
            i += 1;
            continue ;
        }
        if text::starts_with(&update_line, "***") {
            break ;
        }
        let opens = text::same(&update_line, EMPTY_CHANGE_CONTEXT_MARKER) || text::starts_with(
            &update_line,
            CHANGE_CONTEXT_MARKER,
        );
        let n: usize = chunks.len();
        if n > 0 && chunks[n - 1].is_end_of_file {
            if update_line.as_str().is_empty() {
                i += 1;
                continue ;
            }
            if !opens {
                let mut message =
                    "Expected update hunk to start with a @@ context marker, got: '".to_owned();
                message.push_str(line);
                message.push_str("'");
                return Err(message);
            }
        }
        if opens {
            if last_is_bare(&chunks) {
                return Err(unexpected_line_error(line));
            }
            let context = text::strip_prefix(&update_line, CHANGE_CONTEXT_MARKER);
            let chunk = UpdateFileChunk {
                change_context: context,
                old_lines: Vec::new(),
                new_lines: Vec::new(),
                is_end_of_file: false,
            };
            assert(chunk@ =~= fresh_chunk(
                text::after_prefix(update_line@, CHANGE_CONTEXT_MARKER@),
            ));
            chunks.push(chunk);
            assert(chunk_views(chunks@) =~= before.push(chunk@));
            i += 1;
            continue ;
        }
        let chars = text::chars_of(line);
        if chars.len() == 0 {
            extend_last(&mut chunks, Some(String::new()), Some(String::new()));
            i += 1;
            continue ;
        }
        let body = text::string_of_range(&chars, 1, chars.len());
        assert(body@ =~= line@.skip(1));
        let first = chars[0];
        if first == ' ' {
            extend_last(&mut chunks, Some(body.clone()), Some(body));
        } else if first == '+' {
            extend_last(&mut chunks, None, Some(body));
        } else if first == '-' {
            extend_last(&mut chunks, Some(body), None);
        } else {
            return Err(unexpected_line_error(line));
        }
        i += 1;
    }
    Ok((chunks, i))
}

// ---------------------------------------------------------------------------
// Added files
// ---------------------------------------------------------------------------

/// What is said of a line that stands where a hunk should begin.
pub open spec fn invalid_header(line: Seq<char>) -> Seq<char> {
    "'"@ + text::trimmed(line)
        + "' is not a valid hunk header. Valid hunk headers: '*** Add File: {path}', '*** Delete File: {path}', '*** Update File: {path}'"@
}

/// Reads the lines of an added file from `i` on, behind the contents read so
/// far: each has a `+`, which is dropped, and ends with a line feed.
pub open spec fn add_body_from(lines: Seq<Seq<char>>, i: int, contents: Seq<char>) -> Result<
    (Seq<char>, int),
    Seq<char>,
>
    decreases lines.len() - i,
{
    if i < 0 || i >= lines.len() || text::begins(lines[i], "***"@) {
        Ok((contents, i))
    } else if lines[i].len() > 0 && lines[i][0] == '+' {
        add_body_from(lines, i + 1, (contents + lines[i].skip(1)).push('\n'))
    } else {
        Err(invalid_header(lines[i]))
    }
}

/// What is said of a line that stands where a hunk should begin.
fn invalid_header_error(line: &str) -> (r: String)
    ensures
        r@ == invalid_header(line@),
{
    let mut message = "'".to_owned();
    message.push_str(&text::trim(line));
    message.push_str(
        "' is not a valid hunk header. Valid hunk headers: '*** Add File: {path}', '*** Delete File: {path}', '*** Update File: {path}'",
    );
    message
}

/// The text of an added file and the place behind it.
pub open spec fn add_body_view(r: Result<(String, usize), String>) -> Result<
    (Seq<char>, int),
    Seq<char>,
> {
    match r {
        Ok((contents, at)) => Ok((contents@, at as int)),
        Err(e) => Err(e@),
    }
}

/// Collects the `+` lines of an added file from line `from` on. Any other line
/// before the next header is an error.
pub fn parse_add_body(lines: &Vec<String>, from: usize) -> (r: Result<(String, usize), String>)
    requires
        from <= lines@.len(),
    ensures
        add_body_view(r) == add_body_from(text::views(lines@), from as int, Seq::empty()),
        r matches Ok(p) ==> from <= p.1 <= lines@.len(),
{
    let ghost all = text::views(lines@);
    let mut out = String::new();
    let mut i: usize = from;
    while i < lines.len()
        invariant
            from <= i <= lines@.len(),
            all == text::views(lines@),
            add_body_from(all, i as int, out@) == add_body_from(all, from as int, Seq::empty()),
        decreases lines@.len() - i,
    {
        let line = lines[i].as_str();
        assert(all[i as int] == line@);
        if text::starts_with(line, "***") {
            return Ok((out, i));
        }
        let chars = text::chars_of(line);
        if chars.len() == 0 || chars[0] != '+' {
            return Err(invalid_header_error(line));
        }
        let rest = text::string_of_range(&chars, 1, chars.len());
        assert(rest@ =~= line@.skip(1));
        out.push_str(&rest);
        out.push('\n');
        i += 1;
    }
    Ok((out, i))
}

// ---------------------------------------------------------------------------
// Whole patches
// ---------------------------------------------------------------------------

/// What is wrong with the first and last line of a patch, if anything.
pub open spec fn boundary_error(lines: Seq<Seq<char>>) -> Option<Seq<char>> {
    if lines.len() > 0 && text::trimmed(lines[0]) != BEGIN_PATCH_MARKER@ {
        Some("The first line of the patch must be '*** Begin Patch'"@)
    } else if lines.len() > 0 && text::trimmed(lines.last()) == END_PATCH_MARKER@ {
        None
    } else {
        Some("The last line of the patch must be '*** End Patch'"@)
    }
}

/// Whether a patch is wrapped like a here-document.
pub open spec fn is_heredoc(lines: Seq<Seq<char>>) -> bool {
    &&& lines.len() >= 4
    &&& (lines[0] == "<<EOF"@ || lines[0] == "<<'EOF'"@ || lines[0] == "<<\"EOF\""@)
    &&& text::ends(lines.last(), "EOF"@)
}

/// The lines of a patch with its first and last marker: all of them, or those
/// inside a here-document. A fault is always that of the whole.
pub open spec fn bounded(lines: Seq<Seq<char>>) -> Result<Seq<Seq<char>>, Seq<char>> {
    match boundary_error(lines) {
        None => Ok(lines),
        Some(message) => {
            let inner = lines.subrange(1, lines.len() - 1);
            if is_heredoc(lines) && boundary_error(inner) is None {
                Ok(inner)
            } else {
                Err(message)
            }
        },
    }
}

/// Checks the first and last line of a patch.
fn check_start_and_end(lines: &[String]) -> (r: Result<(), String>)
    ensures
        r is Ok <==> boundary_error(text::views(lines@)) is None,
        r matches Err(e) ==> boundary_error(text::views(lines@)) == Some(e@),
{
    let n: usize = lines.len();
    if n == 0 {
        return Err("The last line of the patch must be '*** End Patch'".to_owned());
    }
    assert(text::views(lines@)[0] == lines@[0]@);
    assert(text::views(lines@).last() == lines@[n - 1]@);
    if !text::same(&text::trim(&lines[0]), BEGIN_PATCH_MARKER) {
        return Err("The first line of the patch must be '*** Begin Patch'".to_owned());
    }
    if text::same(&text::trim(&lines[n - 1]), END_PATCH_MARKER) {
        Ok(())
    } else {
        Err("The last line of the patch must be '*** End Patch'".to_owned())
    }
}

/// The texts of checked patch lines.
pub open spec fn lines_view(r: Result<Vec<String>, String>) -> Result<Seq<Seq<char>>, Seq<char>> {
    match r {
        Ok(v) => Ok(text::views(v@)),
        Err(e) => Err(e@),
    }
}

/// Checks the first and last line of a patch, and takes it out of a
/// here-document where it is wrapped in one.
pub fn check_patch_boundaries(lines: &Vec<String>) -> (r: Result<Vec<String>, String>)
    ensures
        lines_view(r) == bounded(text::views(lines@)),
        r matches Ok(v) ==> v@.len() >= 1,
{
    let ghost all = text::views(lines@);
    match check_start_and_end(lines) {
        Ok(()) => Ok(text::copy_strings(lines)),
        Err(strict) => {
            let n: usize = lines.len();
            if n < 4 {
                return Err(strict);
            }
            assert(all[0] == lines@[0]@);
            assert(all.last() == lines@[n - 1]@);
            let starts = text::same(&lines[0], "<<EOF") || text::same(&lines[0], "<<'EOF'")
                || text::same(&lines[0], "<<\"EOF\"");
            if starts && text::ends_with(&lines[n - 1], "EOF") {
                let inner = text::copy_range(lines, 1, n - 1);
                match check_start_and_end(&inner) {
                    Ok(()) => Ok(inner),
                    Err(_) => Err(strict),
                }
            } else {
                Err(strict)
            }
        },
    }
}

/// How many lines the optional environment line at the start of a patch body
/// takes, or what is wrong with it.
pub open spec fn preamble(body: Seq<Seq<char>>) -> Result<int, Seq<char>> {
    if body.len() > 0 && text::begins(text::trimmed(body[0]), ENVIRONMENT_ID_MARKER@) {
        let id = text::trimmed(body[0]).skip(ENVIRONMENT_ID_MARKER@.len() as int);
        if text::trimmed(id).len() == 0 {
            Err("apply_patch environment_id cannot be empty"@)
        } else if body.len() > 1 && text::begins(
            text::trimmed(body[1]),
            ENVIRONMENT_ID_MARKER@,
        ) {
            Err("apply_patch environment_id cannot be specified more than once"@)
        } else {
            Ok(1)
        }
    } else {
        Ok(0)
    }
}

/// The destination of a move that the line at `i` gives, and the place behind
/// it.
pub open spec fn move_at(body: Seq<Seq<char>>, i: int) -> (Option<Seq<char>>, int) {
    if 0 <= i < body.len() && text::begins(body[i], MOVE_TO_MARKER@) {
        (Some(text::trimmed(body[i].skip(MOVE_TO_MARKER@.len() as int))), i + 1)
    } else {
        (None, i)
    }
}

/// What is said of an update without any chunk.
pub open spec fn empty_update(path: Seq<char>) -> Seq<char> {
    "Update file hunk for path '"@ + path + "' is empty"@
}

/// The hunk whose header stands at `i`, and the place behind it.
pub open spec fn hunk_at(body: Seq<Seq<char>>, i: int) -> Result<(HunkView, int), Seq<char>> {
    let line = body[i];
    match text::after_prefix(line, ADD_FILE_MARKER@) {
        Some(path) => match add_body_from(body, i + 1, Seq::empty()) {
            Ok((contents, next)) => Ok(
                (HunkView::AddFile { path: text::trimmed(path), contents }, next),
            ),
            Err(message) => Err(message),
        },
        None => match text::after_prefix(line, DELETE_FILE_MARKER@) {
            Some(path) => Ok((HunkView::DeleteFile { path: text::trimmed(path) }, i + 1)),
            None => match text::after_prefix(line, UPDATE_FILE_MARKER@) {
                Some(path) => {
                    let (move_path, first) = move_at(body, i + 1);
                    match chunks_from(body, first, Seq::empty()) {
                        Ok((chunks, next)) => if chunks.len() == 0 {
                            Err(empty_update(text::trimmed(path)))
                        } else {
                            Ok(
                                (
                                    HunkView::UpdateFile {
                                        path: text::trimmed(path),
                                        move_path,
                                        chunks,
                                    },
                                    next,
                                ),
                            )
                        },
                        Err(message) => Err(message),
                    }
                },
                None => Err(invalid_header(line)),
            },
        },
    }
}

/// Reads the hunks of a patch body from `i` on, behind those read so far, up to
/// the end marker.
pub open spec fn hunks_from(body: Seq<Seq<char>>, i: int, hunks: Seq<HunkView>) -> Result<
    Seq<HunkView>,
    Seq<char>,
>
    decreases body.len() - i,
{
    if i < 0 || i >= body.len() {
        Err("The last line of the patch must be '*** End Patch'"@)
    } else if text::trimmed(body[i]) == END_PATCH_MARKER@ {
        Ok(hunks)
    } else {
        match hunk_at(body, i) {
            Ok((hunk, next)) => {
                proof {
                    law_hunk_advances(body, i);
                }
                hunks_from(body, next, hunks.push(hunk))
            },
            Err(message) => Err(message),
        }
    }
}

/// The hunks of a patch, or what is wrong with it.
pub open spec fn parsed(patch: Seq<char>) -> Result<Seq<HunkView>, Seq<char>> {
    match bounded(text::lines_of(text::trimmed(patch))) {
        Ok(inner) => {
            let body = inner.skip(1);
            match preamble(body) {
                Ok(start) => hunks_from(body, start, Seq::empty()),
                Err(message) => Err(message),
            }
        },
        Err(message) => Err(message),
    }
}

/// Reading an added file ends behind where it began.
proof fn add_body_advances(lines: Seq<Seq<char>>, i: int, contents: Seq<char>)
    requires
        0 <= i <= lines.len(),
    ensures
        add_body_from(lines, i, contents) matches Ok(p) ==> i <= p.1 <= lines.len(),
    decreases lines.len() - i,
{
    if i < lines.len() && !text::begins(lines[i], "***"@) && lines[i].len() > 0 && lines[i][0]
        == '+' {
        add_body_advances(lines, i + 1, (contents + lines[i].skip(1)).push('\n'));
    }
}

/// Reading chunks ends behind where it began.
proof fn chunks_advance(lines: Seq<Seq<char>>, i: int, chunks: Seq<ChunkView>)
    requires
        0 <= i <= lines.len(),
    ensures
        chunks_from(lines, i, chunks) matches Ok(p) ==> i <= p.1 <= lines.len(),
    decreases lines.len() - i,
{
    if i < lines.len() {
        if let ChunkStep::Next(next) = chunk_step(chunks, lines[i]) {
            chunks_advance(lines, i + 1, next);
        }
    }
}

/// A hunk takes at least its header, and no more lines than there are.
pub proof fn law_hunk_advances(body: Seq<Seq<char>>, i: int)
    requires
        0 <= i < body.len(),
    ensures
        hunk_at(body, i) matches Ok(p) ==> i < p.1 <= body.len(),
{
    add_body_advances(body, i + 1, Seq::empty());
    chunks_advance(body, i + 1, Seq::empty());
    if i + 2 <= body.len() {
        chunks_advance(body, i + 2, Seq::empty());
    }
}

/// The texts of parsed hunks.
pub open spec fn parse_view(r: Result<Vec<Hunk>, String>) -> Result<Seq<HunkView>, Seq<char>> {
    match r {
        Ok(v) => Ok(hunk_views(v@)),
        Err(e) => Err(e@),
    }
}

/// A parsed hunk and the place behind it.
pub open spec fn hunk_at_view(r: Result<(Hunk, usize), String>) -> Result<
    (HunkView, int),
    Seq<char>,
> {
    match r {
        Ok((h, at)) => Ok((h@, at as int)),
        Err(e) => Err(e@),
    }
}

/// Parses the hunk whose header stands at line `i` of a patch body.
fn parse_hunk(body: &Vec<String>, i: usize) -> (r: Result<(Hunk, usize), String>)
    requires
        i < body@.len(),
    ensures
        hunk_at_view(r) == hunk_at(text::views(body@), i as int),
        r matches Ok(p) ==> i < p.1 <= body@.len(),
{
    let ghost all = text::views(body@);
    let count: usize = body.len();
    let line = body[i].as_str();
    assert(i < count && all[i as int] == line@);
    proof {
        law_hunk_advances(all, i as int);
    }
    if let Some(path) = text::strip_prefix(line, ADD_FILE_MARKER) {
        return match parse_add_body(body, i + 1) {
            Ok((contents, next)) => Ok(
                (Hunk::AddFile { path: text::trim(&path), contents }, next),
            ),
            Err(message) => Err(message),
        };
    }
    if let Some(path) = text::strip_prefix(line, DELETE_FILE_MARKER) {
        return Ok((Hunk::DeleteFile { path: text::trim(&path) }, i + 1));
    }
    if let Some(path) = text::strip_prefix(line, UPDATE_FILE_MARKER) {
        let mut first: usize = i + 1;
        let mut move_path: Option<String> = None;
        if first < body.len() {
            assert(all[first as int] == body@[first as int]@);
            if let Some(dest) = text::strip_prefix(&body[first], MOVE_TO_MARKER) {
                move_path = Some(text::trim(&dest));
                first += 1;
            }
        }
        assert((text::opt_view(move_path), first as int) == move_at(all, i + 1));
        let name = text::trim(&path);
        return match parse_update_chunks(body, first) {
            Ok((chunks, next)) => {
                if chunks.len() == 0 {
                    let mut message = "Update file hunk for path '".to_owned();
                    message.push_str(&name);
                    message.push_str("' is empty");
                    Err(message)
                } else {
                    Ok((Hunk::UpdateFile { path: name, move_path, chunks }, next))
                }
            },
            Err(message) => Err(message),
        };
    }
    Err(invalid_header_error(line))
}

/// Reads the optional environment line of a patch body.
fn parse_preamble(body: &Vec<String>) -> (r: Result<usize, String>)
    ensures
        match r {
            Ok(n) => preamble(text::views(body@)) == Ok::<int, Seq<char>>(n as int) && n
                <= body@.len(),
            Err(e) => preamble(text::views(body@)) == Err::<int, Seq<char>>(e@),
        },
{
    let ghost all = text::views(body@);
    if body.len() == 0 {
        return Ok(0);
    }
    assert(all[0] == body@[0]@);
    match text::strip_prefix(&text::trim(&body[0]), ENVIRONMENT_ID_MARKER) {
        Some(rest) => {
            if text::trim(&rest).as_str().is_empty() {
                return Err("apply_patch environment_id cannot be empty".to_owned());
            }
            if body.len() > 1 {
                assert(all[1] == body@[1]@);
                if text::starts_with(&text::trim(&body[1]), ENVIRONMENT_ID_MARKER) {
                    return Err(
                        "apply_patch environment_id cannot be specified more than once".to_owned(),
                    );
                }
            }
            Ok(1)
        },
        None => Ok(0),
    }
}

/// Parses a patch into its hunks.
pub fn parse(patch: &str) -> (r: Result<Vec<Hunk>, String>)
    ensures
        parse_view(r) == parsed(patch@),
{
    let lines = text::lines(&text::trim(patch));
    let inner = match check_patch_boundaries(&lines) {
        Ok(inner) => inner,
        Err(message) => return Err(message),
    };
    let body = text::copy_range(&inner, 1, inner.len());
    let ghost all = text::views(body@);
    assert(all =~= text::views(inner@).skip(1));
    let start: usize = match parse_preamble(&body) {
        Ok(start) => start,
        Err(message) => return Err(message),
    };
    let mut hunks: Vec<Hunk> = Vec::new();
    assert(hunk_views(hunks@) =~= Seq::<HunkView>::empty());
    let mut i: usize = start;
    while i < body.len()
        invariant
            i <= body@.len(),
            all == text::views(body@),
            hunks_from(all, i as int, hunk_views(hunks@)) == parsed(patch@),
        decreases body@.len() - i,
    {
        let ghost before = hunk_views(hunks@);
        assert(all[i as int] == body@[i as int]@);
        if text::same(&text::trim(&body[i]), END_PATCH_MARKER) {
            return Ok(hunks);
        }
        match parse_hunk(&body, i) {
            Ok((hunk, next)) => {
                hunks.push(hunk);
                assert(hunk_views(hunks@) =~= before.push(hunk@));
                i = next;
            },
            Err(message) => return Err(message),
        }
    }
    Err("The last line of the patch must be '*** End Patch'".to_owned())
}

/// Whether lines stand between the two marks of a patch.
pub open spec fn is_marked(lines: Seq<Seq<char>>) -> bool {
    &&& lines.len() > 0
    &&& text::trimmed(lines[0]) == "*** Begin Patch"@
    &&& text::trimmed(lines.last()) == "*** End Patch"@
}

/// A patch is read only between its marks: where the text does not stand between them, neither
/// as a whole nor inside a here-document, it is refused.
pub proof fn law_patches_stand_between_their_marks(patch: Seq<char>)
    ensures
        ({
            let lines = text::lines_of(text::trimmed(patch));
            let inner = lines.subrange(1, lines.len() - 1);
            &&& parsed(patch) is Ok ==> is_marked(lines) || (lines.len() >= 4 && is_marked(inner))
            &&& is_marked(lines) ==> bounded(lines) == Ok::<Seq<Seq<char>>, Seq<char>>(lines)
        }),
{
}

/// A patch in a here-document is read as the patch in it.
pub proof fn law_here_documents_are_unwrapped(inner: Seq<Seq<char>>)
    requires
        is_marked(inner),
        inner.len() >= 2,
    ensures
        bounded(seq!["<<EOF"@] + inner + seq!["EOF"@]) == Ok::<Seq<Seq<char>>, Seq<char>>(inner),
        bounded(seq!["<<'EOF'"@] + inner + seq!["EOF"@]) == Ok::<Seq<Seq<char>>, Seq<char>>(inner),
        bounded(seq!["<<\"EOF\""@] + inner + seq!["EOF"@]) == Ok::<Seq<Seq<char>>, Seq<char>>(inner),
{
    reveal_strlit("<<EOF");
    reveal_strlit("<<'EOF'");
    reveal_strlit("<<\"EOF\"");
    reveal_strlit("EOF");
    reveal_strlit("*** Begin Patch");
    text::law_ascii_white_space('<');
    unwrapped("<<EOF"@, inner);
    unwrapped("<<'EOF'"@, inner);
    unwrapped("<<\"EOF\""@, inner);
}

/// A patch behind the first line of a here-document.
proof fn unwrapped(first: Seq<char>, inner: Seq<Seq<char>>)
    requires
        is_marked(inner),
        inner.len() >= 2,
        first == "<<EOF"@ || first == "<<'EOF'"@ || first == "<<\"EOF\""@,
        first.len() > 0,
        first[0] == '<',
        !text::is_white('<'),
        "EOF"@.len() == 3,
        "*** Begin Patch"@.len() == 15,
        "*** Begin Patch"@[0] == '*',
    ensures
        bounded(seq![first] + inner + seq!["EOF"@]) == Ok::<Seq<Seq<char>>, Seq<char>>(inner),
{
    let lines = seq![first] + inner + seq!["EOF"@];
    assert(lines[0] == first);
    assert(lines.last() == "EOF"@);
    assert(lines.subrange(1, lines.len() - 1) =~= inner);
    assert("EOF"@.skip(0) =~= "EOF"@);
    text::law_trimming_takes_white_space_only(first);
    let a = choose|a: int| #[trigger] text::is_core(first, text::trimmed(first), a);
    assert(text::is_core(first, text::trimmed(first), a));
    let t = text::trimmed(first);
    if t.len() > 0 {
        assert(a == 0) by {
            if a > 0 {
                assert(text::is_white(first[0]));
            }
        }
        assert(t[0] == first.subrange(a, a + t.len())[0]);
    }
}

/// A line of an update that has none of the signs, opens no chunk and ends no update is refused.
/// So is a chunk without lines before the next one.
pub proof fn law_unsigned_lines_are_refused(
    chunks: Seq<ChunkView>,
    line: Seq<char>,
    context: Seq<char>,
)
    ensures
        line.len() > 0 && line[0] != ' ' && line[0] != '+' && line[0] != '-' && line[0] != '@'
            && line[0] != '*' && !text::is_white(line[0]) ==> chunk_step(chunks, line) is Fail,
        chunks.len() > 0 && chunks.last().old_lines.len() == 0 && chunks.last().new_lines.len() == 0
            && !chunks.last().is_end_of_file && context.len() > 0 && !text::is_white(context.last())
            ==> chunk_step(chunks, "@@ "@ + context) is Fail,
{
    reveal_strlit("*** End of File");
    reveal_strlit("***");
    reveal_strlit("@@");
    reveal_strlit("@@ ");
    let u = text::trimmed_end(line);
    if line.len() > 0 && !text::is_white(line[0]) {
        text::law_trimming_takes_white_space_only(line);
        if u.len() == 0 {
            assert(text::is_white(line[0]));
        }
        assert(u[0] == line.take(u.len() as int)[0]);
        if text::begins(u, "***"@) {
            assert(u.take(3)[0] == u[0]);
        }
        if text::begins(u, "@@ "@) {
            assert(u.take(3)[0] == u[0]);
        }
    }
    let at = "@@ "@ + context;
    if context.len() > 0 && !text::is_white(context.last()) {
        assert(at.last() == context.last());
        assert(text::trimmed_end(at) == at);
        assert(at[0] == '@');
        assert(at.take(3) =~= "@@ "@);
        if text::begins(at, "***"@) {
            assert(at.take(3)[0] == at[0]);
        }
        assert(at != "*** End of File"@) by {
            assert("*** End of File"@[0] == '*');
        }
    }
}

/// A line among those of an added file that has no plus sign, and begins no other hunk, is
/// refused.
pub proof fn law_added_lines_need_a_plus(lines: Seq<Seq<char>>, i: int, contents: Seq<char>)
    requires
        0 <= i < lines.len(),
        lines[i].len() == 0 || (lines[i][0] != '+' && lines[i][0] != '*'),
    ensures
        add_body_from(lines, i, contents) is Err,
{
    reveal_strlit("***");
    if text::begins(lines[i], "***"@) {
        assert(lines[i].take(3)[0] == lines[i][0]);
    }
}

/// A line that begins no hunk is refused where one should begin.
pub proof fn law_hunks_begin_with_their_marks(body: Seq<Seq<char>>, i: int)
    requires
        0 <= i < body.len(),
    ensures
        !text::begins(body[i], "*** Add File: "@) && !text::begins(body[i], "*** Delete File: "@)
            && !text::begins(body[i], "*** Update File: "@) ==> hunk_at(body, i) is Err,
        hunk_at(body, i) matches Ok(found) ==> match found.0 {
            HunkView::AddFile { path, .. } => text::begins(body[i], "*** Add File: "@) && path
                == text::trimmed(body[i].skip(14)),
            HunkView::DeleteFile { path } => text::begins(body[i], "*** Delete File: "@) && path
                == text::trimmed(body[i].skip(17)),
            HunkView::UpdateFile { path, chunks, .. } => {
                &&& text::begins(body[i], "*** Update File: "@)
                &&& path == text::trimmed(body[i].skip(17))
                &&& chunks.len() > 0
            },
        },
{
    reveal_strlit("*** Add File: ");
    reveal_strlit("*** Delete File: ");
    reveal_strlit("*** Update File: ");
}

/// A line that names the environment may stand before the hunks, once, and has to name one.
pub proof fn law_environment_is_named_once(body: Seq<Seq<char>>)
    ensures
        body.len() > 0 && text::begins(text::trimmed(body[0]), "*** Environment ID:"@) ==> {
            let id = text::trimmed(text::trimmed(body[0]).skip(19));
            let again = body.len() > 1 && text::begins(
                text::trimmed(body[1]),
                "*** Environment ID:"@,
            );
            &&& id.len() == 0 || again ==> preamble(body) is Err
            &&& id.len() > 0 && !again ==> preamble(body) == Ok::<int, Seq<char>>(1)
        },
        body.len() == 0 || !text::begins(text::trimmed(body[0]), "*** Environment ID:"@)
            ==> preamble(body) == Ok::<int, Seq<char>>(0),
{
    reveal_strlit("*** Environment ID:");
}

} // verus!
