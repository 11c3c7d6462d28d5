//! The `list_dir` tool: a directory listing in pages, down to a given depth.
//!
//! The directories are read one after the other, level by level. Which one is
//! next, what is kept of each, and what is shown in the end is decided here.

use crate::file_tools;
use crate::codex_shell::Platform;
use crate::file_tools::{FsCtx, FsView};
use crate::order;
use crate::text;
use vstd::prelude::*;

verus! {

/// The longest name that is shown, in bytes.
pub const MAX_ENTRY_LENGTH: usize = 500;

/// By how many spaces each level is indented.
pub const INDENTATION_SPACES: usize = 2;

// ---------------------------------------------------------------------------
// Entries
// ---------------------------------------------------------------------------

/// What a directory entry is.
#[derive(Clone, Copy, Debug, PartialEq, Eq, Structural)]
pub enum DirEntryKind {
    Directory,
    File,
    Symlink,
    Other,
}

/// A directory entry as it is read.
#[derive(Debug)]
pub struct RawEntry {
    pub name: String,
    pub kind: DirEntryKind,
}

/// A directory entry as it is shown: the path that it is sorted by, its name,
/// how deep it lies, and what it is.
#[derive(Debug)]
pub struct DirEntry {
    pub name: String,
    pub display_name: String,
    pub depth: usize,
    pub kind: DirEntryKind,
}

/// A directory entry as it is read.
pub struct RawView {
    pub name: Seq<char>,
    pub kind: DirEntryKind,
}

/// A directory entry as it is shown.
#[verifier::ext_equal]
pub struct EntryView {
    pub name: Seq<char>,
    pub display_name: Seq<char>,
    pub depth: nat,
    pub kind: DirEntryKind,
}

impl View for RawEntry {
    type V = RawView;

    open spec fn view(&self) -> RawView {
        RawView { name: self.name@, kind: self.kind }
    }
}

impl View for DirEntry {
    type V = EntryView;

    open spec fn view(&self) -> EntryView {
        EntryView {
            name: self.name@,
            display_name: self.display_name@,
            depth: self.depth as nat,
            kind: self.kind,
        }
    }
}

/// The texts of entries as they are read.
pub open spec fn raw_views(v: Seq<RawEntry>) -> Seq<RawView> {
    Seq::new(v.len(), |i: int| v[i]@)
}

/// The texts of entries as they are shown.
pub open spec fn entry_views(v: Seq<DirEntry>) -> Seq<EntryView> {
    Seq::new(v.len(), |i: int| v[i]@)
}

/// The name under which a path is sorted: with slashes, and cut off if too long.
pub open spec fn entry_name(path: Seq<char>) -> Seq<char> {
    text::clipped(text::replaced(path, '\\', '/'), MAX_ENTRY_LENGTH as nat)
}

/// The name that is shown, cut off if too long.
pub open spec fn entry_component(name: Seq<char>) -> Seq<char> {
    text::clipped(name, MAX_ENTRY_LENGTH as nat)
}

/// The mark behind the name of an entry.
pub open spec fn marker(kind: DirEntryKind) -> Seq<char> {
    match kind {
        DirEntryKind::Directory => seq!['/'],
        DirEntryKind::Symlink => seq!['@'],
        DirEntryKind::Other => seq!['?'],
        DirEntryKind::File => Seq::empty(),
    }
}

/// The line that shows an entry.
pub open spec fn entry_line(e: EntryView) -> Seq<char> {
    text::spaces(INDENTATION_SPACES as nat * e.depth) + e.display_name + marker(e.kind)
}

/// The name under which a path is sorted.
pub fn format_entry_name(path: &str) -> (r: String)
    ensures
        r@ == entry_name(path@),
{
    let normalized = text::replace_char(path, '\\', '/');
    text::truncate_at_char_boundary(&normalized, MAX_ENTRY_LENGTH)
}

/// The name that is shown.
pub fn format_entry_component(name: &str) -> (r: String)
    ensures
        r@ == entry_component(name@),
{
    text::truncate_at_char_boundary(name, MAX_ENTRY_LENGTH)
}

/// The line that shows an entry.
pub fn format_entry_line(entry: &DirEntry) -> (r: String)
    ensures
        r@ == entry_line(entry@),
{
    let mut out = String::new();
    let mut i: usize = 0;
    while i < entry.depth
        invariant
            i <= entry.depth,
            out@ == text::spaces(2 * i as nat),
        decreases entry.depth - i,
    {
        out.push(' ');
        out.push(' ');
        assert(out@ =~= text::spaces(2 * (i + 1) as nat));
        i += 1;
    }
    out.push_str(&entry.display_name);
    match entry.kind {
        DirEntryKind::Directory => out.push('/'),
        DirEntryKind::Symlink => out.push('@'),
        DirEntryKind::Other => out.push('?'),
        DirEntryKind::File => {},
    }
    assert(out@ =~= entry_line(entry@));
    out
}

// ---------------------------------------------------------------------------
// Collecting
// ---------------------------------------------------------------------------

/// A directory that is still to be read: its path below the listed one, and how
/// many levels are still wanted, its own included.
#[derive(Debug)]
pub struct PendingDir {
    pub prefix: String,
    pub depth: usize,
}

/// A directory that is still to be read.
#[verifier::ext_equal]
pub struct PendingView {
    pub prefix: Seq<char>,
    pub depth: nat,
}

impl View for PendingDir {
    type V = PendingView;

    open spec fn view(&self) -> PendingView {
        PendingView { prefix: self.prefix@, depth: self.depth as nat }
    }
}

/// The texts of the directories still to be read.
pub open spec fn pending_views(v: Seq<PendingDir>) -> Seq<PendingView> {
    Seq::new(v.len(), |i: int| v[i]@)
}

/// A listing in the making: the directories still to be read, in order, and the
/// entries found so far.
#[derive(Debug)]
pub struct Lister {
    pub platform: Platform,
    pub queue: Vec<PendingDir>,
    pub entries: Vec<DirEntry>,
}

/// A listing in the making.
#[verifier::ext_equal]
pub struct ListerView {
    pub platform: Platform,
    pub queue: Seq<PendingView>,
    pub entries: Seq<EntryView>,
}

impl View for Lister {
    type V = ListerView;

    open spec fn view(&self) -> ListerView {
        ListerView {
            platform: self.platform,
            queue: pending_views(self.queue@),
            entries: entry_views(self.entries@),
        }
    }
}

/// The path of an entry below the listed directory.
pub open spec fn relative(p: Platform, prefix: Seq<char>, name: Seq<char>) -> Seq<char> {
    if prefix.len() == 0 {
        name
    } else {
        file_tools::path_joined(p, prefix, name)
    }
}

/// How an entry of the directory at `prefix` is shown.
pub open spec fn shown(p: Platform, prefix: Seq<char>, raw: RawView) -> EntryView {
    EntryView {
        name: entry_name(relative(p, prefix, raw.name)),
        display_name: entry_component(raw.name),
        depth: file_tools::components_of(p, prefix).len(),
        kind: raw.kind,
    }
}

/// The names under which the entries of a directory are sorted.
pub open spec fn sort_keys(p: Platform, prefix: Seq<char>, raw: Seq<RawView>) -> Seq<Seq<char>> {
    Seq::new(raw.len(), |i: int| entry_name(relative(p, prefix, raw[i].name)))
}

/// The state after the first `k` entries of a directory, in the given order,
/// have been taken in: each is shown, and a directory is read later where more
/// levels are wanted.
pub open spec fn with_entries(
    state: ListerView,
    dir: PendingView,
    raw: Seq<RawView>,
    at: Seq<int>,
    k: int,
) -> ListerView
    decreases k,
{
    if k <= 0 {
        state
    } else {
        let before = with_entries(state, dir, raw, at, k - 1);
        let e = raw[at[k - 1]];
        ListerView {
            queue: if e.kind == DirEntryKind::Directory && dir.depth > 1 {
                before.queue.push(
                    PendingView {
                        prefix: relative(state.platform, dir.prefix, e.name),
                        depth: (dir.depth - 1) as nat,
                    },
                )
            } else {
                before.queue
            },
            entries: before.entries.push(shown(state.platform, dir.prefix, e)),
            ..before
        }
    }
}

/// The state after the first directory still to be read has been read.
pub open spec fn after_reading(state: ListerView, raw: Seq<RawView>) -> ListerView {
    let dir = state.queue[0];
    let rest = ListerView { queue: state.queue.drop_first(), ..state };
    with_entries(
        rest,
        dir,
        raw,
        order::order_of(sort_keys(state.platform, dir.prefix, raw)),
        raw.len() as int,
    )
}

// ---------------------------------------------------------------------------
// Pages
// ---------------------------------------------------------------------------

/// The names of some entries.
pub open spec fn entry_names(es: Seq<EntryView>) -> Seq<Seq<char>> {
    Seq::new(es.len(), |i: int| es[i].name)
}

/// The lines of the entries at the given places from `from` up to `to`.
pub open spec fn lines_between(es: Seq<EntryView>, at: Seq<int>, from: int, to: int) -> Seq<
    Seq<char>,
> {
    Seq::new((to - from) as nat, |i: int| entry_line(es[at[from + i]]))
}

/// One page of a listing: at most `limit` lines from the entry `offset` on,
/// which counts from 1, and a note where more follow. Without entries the page
/// is empty.
pub open spec fn page(es: Seq<EntryView>, offset: int, limit: int) -> Result<
    Seq<Seq<char>>,
    Seq<char>,
> {
    let at = order::order_of(entry_names(es));
    let start = offset - 1;
    if es.len() == 0 {
        Ok(Seq::empty())
    } else if start >= es.len() {
        Err("offset exceeds directory entry count"@)
    } else {
        let count = if limit < es.len() - start {
            limit
        } else {
            es.len() - start
        };
        let lines = lines_between(es, at, start, start + count);
        if start + count < es.len() {
            Ok(
                lines.push(
                    "More than "@ + text::decimal_of(count as nat) + " entries found"@,
                ),
            )
        } else {
            Ok(lines)
        }
    }
}

/// The texts of a page.
pub open spec fn page_view(r: Result<Vec<String>, String>) -> Result<Seq<Seq<char>>, Seq<char>> {
    match r {
        Ok(v) => Ok(text::views(v@)),
        Err(e) => Err(e@),
    }
}

impl Lister {
    /// A listing that goes down `depth` levels, with nothing read yet.
    pub fn new(platform: Platform, depth: usize) -> (r: Self)
        ensures
            r@ == (ListerView {
                platform,
                queue: seq![PendingView { prefix: Seq::empty(), depth: depth as nat }],
                entries: Seq::empty(),
            }),
    {
        let mut queue: Vec<PendingDir> = Vec::new();
        let first = PendingDir { prefix: String::new(), depth };
        queue.push(first);
        let r = Lister { platform, queue, entries: Vec::new() };
        assert(r@ =~= ListerView {
            platform,
            queue: seq![PendingView { prefix: Seq::empty(), depth: depth as nat }],
            entries: Seq::empty(),
        });
        r
    }

    /// The directory to read next, by its path below the listed one.
    pub fn next_dir(&self) -> (r: Option<String>)
        ensures
            text::opt_view(r) == (if self@.queue.len() == 0 {
                None::<Seq<char>>
            } else {
                Some(self@.queue[0].prefix)
            }),
    {
        if self.queue.len() == 0 {
            None
        } else {
            assert(self@.queue[0] == self.queue@[0]@);
            Some(self.queue[0].prefix.clone())
        }
    }

    /// Takes in the entries of the directory that was to be read next.
    pub fn collect_entries(&mut self, raw: Vec<RawEntry>)
        requires
            old(self)@.queue.len() > 0,
        ensures
            final(self)@ == after_reading(old(self)@, raw_views(raw@)),
    {
        let ghost start = self@;
        let dir = self.queue.remove(0);
        let ghost d = start.queue[0];
        assert(d == dir@);
        let ghost rest = ListerView { queue: start.queue.drop_first(), ..start };
        let p = self.platform;
        assert(pending_views(self.queue@) =~= start.queue.drop_first());
        assert(self@ =~= rest);
        let ghost rs = raw_views(raw@);
        let mut keys: Vec<String> = Vec::new();
        let mut i: usize = 0;
        while i < raw.len()
            invariant
                i <= raw@.len(),
                rs == raw_views(raw@),
                d == dir@,
                text::views(keys@) == sort_keys(p, d.prefix, rs).take(i as int),
            decreases raw@.len() - i,
        {
            let ghost before = text::views(keys@);
            assert(rs[i as int] == raw@[i as int]@);
            let rel = relative_path(p, &dir.prefix, &raw[i].name);
            let key = format_entry_name(&rel);
            keys.push(key);
            assert(text::views(keys@) =~= before.push(key@));
            assert(sort_keys(p, d.prefix, rs).take(i + 1) =~= sort_keys(p, d.prefix, rs).take(
                i as int,
            ).push(key@));
            i += 1;
        }
        assert(sort_keys(p, d.prefix, rs).take(rs.len() as int) =~= sort_keys(p, d.prefix, rs));
        assert(keys@.len() == text::views(keys@).len());
        let sorted = order::sort_indices(&keys);
        let ghost at = order::order_of(sort_keys(p, d.prefix, rs));
        let level: usize = file_tools::components(p, &dir.prefix).len();
        assert(level == file_tools::components_of(p, d.prefix).len());
        let mut k: usize = 0;
        while k < sorted.len()
            invariant
                k <= sorted@.len(),
                sorted@.len() == raw@.len(),
                keys@.len() == raw@.len(),
                rs == raw_views(raw@),
                d == dir@,
                level == file_tools::components_of(p, d.prefix).len(),
                at == order::places(sorted@),
                order::all_below(sorted@, keys@.len() as int),
                text::views(keys@) == sort_keys(p, d.prefix, rs),
                rest.platform == p,
                self@ == with_entries(rest, d, rs, at, k as int),
            decreases sorted@.len() - k,
        {
            let ghost before = self@;
            let j: usize = sorted[k];
            assert(j < keys@.len());
            assert(at[k as int] == j as int);
            assert(rs[j as int] == raw@[j as int]@);
            assert(sort_keys(p, d.prefix, rs)[j as int] == keys@[j as int]@) by {
                assert(text::views(keys@)[j as int] == keys@[j as int]@);
            }
            let kind = raw[j].kind;
            let entry = DirEntry {
                name: keys[j].clone(),
                display_name: format_entry_component(&raw[j].name),
                depth: level,
                kind,
            };
            assert(entry@ == shown(p, d.prefix, rs[j as int]));
            if kind == DirEntryKind::Directory && dir.depth > 1 {
                let next = PendingDir {
                    prefix: relative_path(p, &dir.prefix, &raw[j].name),
                    depth: dir.depth - 1,
                };
                self.queue.push(next);
                assert(pending_views(self.queue@) =~= before.queue.push(next@));
            }
            self.entries.push(entry);
            assert(entry_views(self.entries@) =~= before.entries.push(entry@));
            k += 1;
            assert(self@ =~= with_entries(rest, d, rs, at, k as int));
        }
    }

    /// One page of the listing.
    pub fn list_dir_slice(&self, offset: usize, limit: usize) -> (r: Result<Vec<String>, String>)
        requires
            offset > 0,
        ensures
            page_view(r) == page(self@.entries, offset as int, limit as int),
    {
        let ghost es = self@.entries;
        let n: usize = self.entries.len();
        let mut out: Vec<String> = Vec::new();
        assert(text::views(out@) =~= Seq::<Seq<char>>::empty());
        if n == 0 {
            return Ok(out);
        }
        let mut keys: Vec<String> = Vec::new();
        let mut i: usize = 0;
        while i < n
            invariant
                i <= n == self.entries@.len(),
                es == entry_views(self.entries@),
                text::views(keys@) == entry_names(es).take(i as int),
            decreases n - i,
        {
            let ghost before = text::views(keys@);
            assert(es[i as int] == self.entries@[i as int]@);
            keys.push(self.entries[i].name.clone());
            assert(text::views(keys@) =~= before.push(es[i as int].name));
            assert(entry_names(es).take(i + 1) =~= entry_names(es).take(i as int).push(
                es[i as int].name,
            ));
            i += 1;
        }
        assert(entry_names(es).take(n as int) =~= entry_names(es));
        assert(keys@.len() == text::views(keys@).len());
        let sorted = order::sort_indices(&keys);
        let ghost at = order::order_of(entry_names(es));
        let start: usize = offset - 1;
        if start >= n {
            return Err("offset exceeds directory entry count".to_owned());
        }
        let count: usize = if limit < n - start {
            limit
        } else {
            n - start
        };
        let mut k: usize = 0;
        while k < count
            invariant
                k <= count,
                start + count <= n == self.entries@.len(),
                sorted@.len() == n,
                keys@.len() == n,
                es == entry_views(self.entries@),
                at == order::places(sorted@),
                order::all_below(sorted@, keys@.len() as int),
                text::views(out@) == lines_between(es, at, start as int, start + k),
            decreases count - k,
        {
            let ghost before = text::views(out@);
            let j: usize = sorted[start + k];
            assert(j < n);
            assert(at[start + k] == j as int);
            assert(es[j as int] == self.entries@[j as int]@);
            let line = format_entry_line(&self.entries[j]);
            out.push(line);
            assert(text::views(out@) =~= before.push(line@));
            assert(lines_between(es, at, start as int, start + k + 1) =~= lines_between(
                es,
                at,
                start as int,
                start + k,
            ).push(line@));
            k += 1;
        }
        if start + count < n {
            let ghost before = text::views(out@);
            let mut note = "More than ".to_owned();
            note.push_str(&text::decimal(count as u64));
            note.push_str(" entries found");
            out.push(note);
            assert(text::views(out@) =~= before.push(note@));
        }
        Ok(out)
    }
}

/// The path of an entry below the listed directory.
fn relative_path(p: Platform, prefix: &str, name: &str) -> (r: String)
    ensures
        r@ == relative(p, prefix@, name@),
{
    if prefix.is_empty() {
        name.to_owned()
    } else {
        file_tools::join_path(p, prefix, name)
    }
}

// ---------------------------------------------------------------------------
// The tool
// ---------------------------------------------------------------------------

/// The tool that lists directories.
pub struct ListDirTool {
    pub ctx: FsCtx,
}

/// What is wrong with the numbers of a call, if anything.
pub open spec fn args_fault(offset: int, limit: int, depth: int) -> Option<Seq<char>> {
    if offset == 0 {
        Some("offset must be a 1-indexed entry number"@)
    } else if limit == 0 {
        Some("limit must be greater than zero"@)
    } else if depth == 0 {
        Some("depth must be greater than zero"@)
    } else {
        None
    }
}

/// The directory that a call lists, or why it is refused.
pub open spec fn listed_dir(
    path: Option<Seq<char>>,
    fs: FsView,
    offset: int,
    limit: int,
    depth: int,
) -> Result<Seq<char>, Seq<char>> {
    match path {
        None => Err("path is required"@),
        Some(p) => match args_fault(offset, limit, depth) {
            Some(fault) => Err(fault),
            None => file_tools::resolution(fs.platform, p, fs.workspace),
        },
    }
}

/// A number of a call, or what it is when it is not given.
pub fn number_or(given: Option<u64>, default: u64) -> (r: u64)
    ensures
        r == (match given {
            Some(n) => n,
            None => default,
        }),
{
    match given {
        Some(n) => n,
        None => default,
    }
}

impl ListDirTool {
    /// A tool for the given context.
    pub fn new(ctx: FsCtx) -> (r: Self)
        ensures
            r.ctx == ctx,
    {
        ListDirTool { ctx }
    }

    /// A tool for the given context.
    pub fn make(ctx: FsCtx) -> (r: Self)
        ensures
            r.ctx == ctx,
    {
        ListDirTool::new(ctx)
    }

    /// The name of the tool.
    pub fn name(&self) -> (r: &'static str)
        ensures
            r@ == "list_dir"@,
    {
        "list_dir"
    }

    /// The directory that a call lists. Without numbers a call shows 25 entries
    /// from the first on, two levels deep.
    pub fn call(
        &self,
        path: &Option<String>,
        offset: Option<u64>,
        limit: Option<u64>,
        depth: Option<u64>,
    ) -> (r: Result<String, String>)
        ensures
            file_tools::result_view(r) == listed_dir(
                text::opt_view(*path),
                self.ctx@,
                (match offset {
                    Some(n) => n as int,
                    None => 1,
                }),
                (match limit {
                    Some(n) => n as int,
                    None => 25,
                }),
                (match depth {
                    Some(n) => n as int,
                    None => 2,
                }),
            ),
    {
        let path = match path {
            Some(p) => p,
            None => return Err("path is required".to_owned()),
        };
        if number_or(offset, 1) == 0 {
            return Err("offset must be a 1-indexed entry number".to_owned());
        }
        if number_or(limit, 25) == 0 {
            return Err("limit must be greater than zero".to_owned());
        }
        if number_or(depth, 2) == 0 {
            return Err("depth must be greater than zero".to_owned());
        }
        file_tools::resolve_within(self.ctx.platform, path, &self.ctx.workspace)
    }

    /// The text that shows a page of the listing of a directory.
    pub fn render(&self, resolved: &str, entries: &Vec<String>) -> (r: String)
        ensures
            r@ == text::joined(
                seq!["Absolute path: "@ + resolved@] + text::views(entries@),
                "\n"@,
            ),
    {
        let mut head = "Absolute path: ".to_owned();
        head.push_str(resolved);
        let mut out: Vec<String> = Vec::new();
        out.push(head);
        let mut rest = text::copy_strings(entries);
        out.append(&mut rest);
        assert(text::views(out@) =~= seq!["Absolute path: "@ + resolved@] + text::views(entries@));
        text::join(&out, "\n")
    }
}

// ---------------------------------------------------------------------------
// Laws
// ---------------------------------------------------------------------------

/// A page never shows more entries than asked for, and a note at most.
pub proof fn law_page_is_bounded(es: Seq<EntryView>, offset: int, limit: int)
    requires
        offset > 0,
        limit > 0,
    ensures
        page(es, offset, limit) matches Ok(lines) ==> lines.len() <= limit + 1,
        page(es, offset, limit) is Err <==> es.len() > 0 && offset > es.len(),
{
}

/// Reading a directory adds one entry for each that it holds and asks for no
/// directory beyond the wanted depth.
pub proof fn law_reading_adds_entries(
    state: ListerView,
    dir: PendingView,
    raw: Seq<RawView>,
    at: Seq<int>,
    k: int,
)
    requires
        0 <= k,
    ensures
        with_entries(state, dir, raw, at, k).entries.len() == state.entries.len() + k,
        dir.depth <= 1 ==> with_entries(state, dir, raw, at, k).queue == state.queue,
    decreases k,
{
    if k > 0 {
        law_reading_adds_entries(state, dir, raw, at, k - 1);
    }
}

/// How many entries a page shows.
pub open spec fn page_size(es: Seq<EntryView>, offset: int, limit: int) -> int {
    if limit < es.len() - offset + 1 {
        limit
    } else {
        es.len() - offset + 1
    }
}

/// The lines of a page that show entries: all but the note.
pub open spec fn shown_lines(es: Seq<EntryView>, offset: int, limit: int) -> Seq<Seq<char>> {
    page(es, offset, limit)->Ok_0.take(page_size(es, offset, limit))
}

/// A page shows the entries from its offset on, sorted by name: its line `i` is that of the
/// entry `offset - 1 + i` places behind the first. Where entries follow that it does not show,
/// it ends with a note, and only there.
pub proof fn law_page_shows_entries_from_its_offset(
    es: Seq<EntryView>,
    offset: int,
    limit: int,
    i: int,
)
    requires
        1 <= offset <= es.len(),
        0 < limit,
    ensures
        page(es, offset, limit) is Ok,
        ({
            let lines = page(es, offset, limit)->Ok_0;
            let at = order::order_of(entry_names(es));
            let n = page_size(es, offset, limit);
            &&& 0 < n <= limit
            &&& lines.len() == (if offset - 1 + n < es.len() {
                n + 1
            } else {
                n
            })
            &&& 0 <= i < n ==> 0 <= at[offset - 1 + i] < es.len() && lines[i] == entry_line(
                es[at[offset - 1 + i]],
            )
            &&& offset - 1 + n < es.len() ==> lines.last() == "More than "@ + text::decimal_of(
                n as nat,
            ) + " entries found"@
        }),
{
    order::order_has_each_place(entry_names(es));
}

/// A page and the one that begins where it ends show together what one page over both shows.
pub proof fn law_pages_continue_each_other(
    es: Seq<EntryView>,
    offset: int,
    first: int,
    second: int,
)
    requires
        1 <= offset,
        0 < first,
        0 < second,
        offset + first <= es.len(),
    ensures
        page(es, offset, first) is Ok,
        page(es, offset + first, second) is Ok,
        page(es, offset, first + second) is Ok,
        shown_lines(es, offset, first) + shown_lines(es, offset + first, second) == shown_lines(
            es,
            offset,
            first + second,
        ),
{
    let a = shown_lines(es, offset, first);
    let b = shown_lines(es, offset + first, second);
    let c = shown_lines(es, offset, first + second);
    assert(page_size(es, offset, first) == first);
    assert(a.len() == first);
    assert(b.len() == page_size(es, offset + first, second));
    assert(c.len() == page_size(es, offset, first + second));
    assert(a + b =~= c);
}

/// How many entries there are from `offset` on.
pub open spec fn entries_left(es: Seq<EntryView>, offset: int) -> int {
    if offset > es.len() {
        0
    } else {
        es.len() - offset + 1
    }
}

/// The entries that the pages from `offset` on show, one page after the other.
pub open spec fn paged(es: Seq<EntryView>, offset: int, limit: int) -> Seq<Seq<char>>
    decreases entries_left(es, offset),
{
    if offset > es.len() || limit <= 0 {
        Seq::empty()
    } else {
        shown_lines(es, offset, limit) + paged(es, offset + limit, limit)
    }
}

/// The pages from an offset on show the entries from there on.
proof fn paged_is_rest(es: Seq<EntryView>, offset: int, limit: int)
    requires
        1 <= offset,
        0 < limit,
    ensures
        paged(es, offset, limit).len() == entries_left(es, offset),
        forall|i: int|
            0 <= i < paged(es, offset, limit).len() ==> #[trigger] paged(es, offset, limit)[i]
                == entry_line(es[order::order_of(entry_names(es))[offset - 1 + i]]),
    decreases entries_left(es, offset),
{
    if offset <= es.len() {
        paged_is_rest(es, offset + limit, limit);
        let n = page_size(es, offset, limit);
        let here = shown_lines(es, offset, limit);
        let rest = paged(es, offset + limit, limit);
        assert(here.len() == n);
        assert forall|i: int| 0 <= i < paged(es, offset, limit).len() implies #[trigger] paged(
            es,
            offset,
            limit,
        )[i] == entry_line(es[order::order_of(entry_names(es))[offset - 1 + i]]) by {
            if i >= n {
                assert(paged(es, offset, limit)[i] == rest[i - n]);
            }
        }
    }
}

/// Going through a listing page by page shows each entry exactly once, sorted by name,
/// whatever the size of the pages.
pub proof fn law_pages_show_each_entry_once(es: Seq<EntryView>, limit: int)
    requires
        0 < limit,
    ensures
        paged(es, 1, limit).len() == es.len(),
        exists|at: Seq<int>| #[trigger] shows_in_order(es, at) && forall|i: int|
            0 <= i < es.len() ==> #[trigger] paged(es, 1, limit)[i] == entry_line(es[at[i]]),
{
    let at = order::order_of(entry_names(es));
    order::order_has_each_place(entry_names(es));
    paged_is_rest(es, 1, limit);
    assert forall|i: int, j: int| 0 <= i < j < es.len() implies order::lex_le(
        es[#[trigger] at[i]].name,
        es[#[trigger] at[j]].name,
    ) by {
        assert(entry_names(es)[at[i]] == es[at[i]].name);
        assert(entry_names(es)[at[j]] == es[at[j]].name);
    }
    assert(shows_in_order(es, at));
}

/// Whether places name each entry once, in the order of the names.
pub open spec fn shows_in_order(es: Seq<EntryView>, at: Seq<int>) -> bool {
    &&& at.len() == es.len()
    &&& forall|i: int| 0 <= i < es.len() ==> 0 <= #[trigger] at[i] < es.len()
    &&& forall|i: int, j: int| 0 <= i < j < es.len() ==> #[trigger] at[i] != #[trigger] at[j]
    &&& forall|i: int, j: int|
        0 <= i < j < es.len() ==> order::lex_le(
            es[#[trigger] at[i]].name,
            es[#[trigger] at[j]].name,
        )
}

/// The line of an entry: two spaces for each level above it, its name, and behind it a slash
/// for a directory, an at sign for a link, a question mark for what is neither, and nothing
/// for a file.
pub proof fn law_entry_lines_show_name_and_kind(e: EntryView)
    ensures
        ({
            let line = entry_line(e);
            let n = 2 * e.depth as int;
            let end = n + e.display_name.len();
            &&& forall|i: int| 0 <= i < n ==> #[trigger] line[i] == ' '
            &&& line.subrange(n, end) == e.display_name
            &&& e.kind == DirEntryKind::File ==> line.len() == end
            &&& e.kind != DirEntryKind::File ==> line.len() == end + 1
            &&& e.kind == DirEntryKind::Directory ==> line.last() == '/'
            &&& e.kind == DirEntryKind::Symlink ==> line.last() == '@'
            &&& e.kind == DirEntryKind::Other ==> line.last() == '?'
        }),
{
    let n = 2 * e.depth as int;
    assert(entry_line(e).subrange(n, n + e.display_name.len()) =~= e.display_name);
}

/// The entries of a directory are added behind those found before, each shown below the path
/// of the directory; the order of the directories still to be read stays.
proof fn entries_are_added(
    state: ListerView,
    dir: PendingView,
    raw: Seq<RawView>,
    at: Seq<int>,
    k: int,
)
    requires
        0 <= k <= at.len(),
        forall|i: int| 0 <= i < at.len() ==> 0 <= #[trigger] at[i] < raw.len(),
    ensures
        ({
            let after = with_entries(state, dir, raw, at, k);
            &&& after.platform == state.platform
            &&& after.entries.len() == state.entries.len() + k
            &&& after.entries.take(state.entries.len() as int) == state.entries
            &&& forall|i: int|
                0 <= i < k ==> after.entries[state.entries.len() + i] == shown(
                    state.platform,
                    dir.prefix,
                    raw[#[trigger] at[i]],
                )
            &&& state.queue.len() <= after.queue.len()
            &&& after.queue.take(state.queue.len() as int) == state.queue
            &&& forall|i: int|
                0 <= i < k && raw[#[trigger] at[i]].kind == DirEntryKind::Directory && dir.depth
                    > 1 ==> is_pending(
                    after.queue,
                    state.queue.len() as int,
                    relative(state.platform, dir.prefix, raw[at[i]].name),
                    (dir.depth - 1) as nat,
                )
            &&& forall|j: int|
                state.queue.len() <= j < after.queue.len() ==> comes_from_dir(
                    state.platform,
                    dir,
                    raw,
                    #[trigger] after.queue[j],
                )
        }),
    decreases k,
{
    if k > 0 {
        entries_are_added(state, dir, raw, at, k - 1);
        let before = with_entries(state, dir, raw, at, k - 1);
        let after = with_entries(state, dir, raw, at, k);
        let e = raw[at[k - 1]];
        assert(0 <= at[k - 1] < raw.len());
        assert(after.entries.take(state.entries.len() as int) =~= before.entries.take(
            state.entries.len() as int,
        ));
        assert(after.queue.take(state.queue.len() as int) =~= before.queue.take(
            state.queue.len() as int,
        ));
        assert forall|i: int| 0 <= i < k implies after.entries[state.entries.len() + i] == shown(
            state.platform,
            dir.prefix,
            raw[#[trigger] at[i]],
        ) by {
            if i < k - 1 {
                assert(before.entries[state.entries.len() + i] == shown(
                    state.platform,
                    dir.prefix,
                    raw[at[i]],
                ));
            }
        }
        assert forall|j: int| state.queue.len() <= j < after.queue.len() implies comes_from_dir(
            state.platform,
            dir,
            raw,
            #[trigger] after.queue[j],
        ) by {
            if j < before.queue.len() {
                assert(after.queue[j] == before.queue[j]);
            } else {
                assert(raw[at[k - 1]] == e);
            }
        }
        assert forall|i: int|
            0 <= i < k && raw[#[trigger] at[i]].kind == DirEntryKind::Directory && dir.depth
                > 1 implies is_pending(
            after.queue,
            state.queue.len() as int,
            relative(state.platform, dir.prefix, raw[at[i]].name),
            (dir.depth - 1) as nat,
        ) by {
            let prefix = relative(state.platform, dir.prefix, raw[at[i]].name);
            let depth = (dir.depth - 1) as nat;
            let from = state.queue.len() as int;
            if i < k - 1 {
                assert(is_pending(before.queue, from, prefix, depth));
                let j = choose|j: int|
                    from <= j < before.queue.len() && (#[trigger] before.queue[j]).prefix
                        == prefix && before.queue[j].depth == depth;
                assert(after.queue[j] == before.queue[j]);
            } else {
                assert(after.queue[before.queue.len() as int].prefix == prefix);
            }
        }
    } else {
        assert(state.entries.take(state.entries.len() as int) =~= state.entries);
        assert(state.queue.take(state.queue.len() as int) =~= state.queue);
    }
}

/// Whether a directory waits to be read, at `from` or behind it, with a number of levels.
pub open spec fn is_pending(
    queue: Seq<PendingView>,
    from: int,
    prefix: Seq<char>,
    depth: nat,
) -> bool {
    exists|j: int|
        from <= j < queue.len() && (#[trigger] queue[j]).prefix == prefix && queue[j].depth
            == depth
}

/// Whether what waits to be read is a directory among the entries, one level further down.
pub open spec fn comes_from_dir(
    p: Platform,
    dir: PendingView,
    raw: Seq<RawView>,
    next: PendingView,
) -> bool {
    exists|i: int|
        0 <= i < raw.len() && (#[trigger] raw[i]).kind == DirEntryKind::Directory && dir.depth > 1
            && next.depth == dir.depth - 1 && next.prefix == relative(p, dir.prefix, raw[i].name)
}

/// Whether an entry is listed behind the first `from`, under the path below the listed
/// directory, by its name, at the depth of its directory.
pub open spec fn is_listed(
    es: Seq<EntryView>,
    from: int,
    p: Platform,
    prefix: Seq<char>,
    e: RawView,
) -> bool {
    exists|j: int|
        from <= j < es.len() && (#[trigger] es[j]).kind == e.kind && es[j].name == entry_name(
            relative(p, prefix, e.name),
        ) && es[j].display_name == entry_component(e.name) && es[j].depth
            == file_tools::components_of(p, prefix).len()
}

/// Reading a directory lists each of its entries, and nothing else, behind those found before.
/// Each directory among them is read later, behind those that waited before, where more levels
/// are wanted; no other entry is.
pub proof fn law_every_entry_is_listed(state: ListerView, raw: Seq<RawView>, i: int)
    requires
        state.queue.len() > 0,
    ensures
        ({
            let dir = state.queue[0];
            let after = after_reading(state, raw);
            let n = state.entries.len() as int;
            let waiting = state.queue.len() - 1;
            &&& after.entries.len() == n + raw.len()
            &&& after.entries.take(n) == state.entries
            &&& 0 <= i < raw.len() ==> is_listed(
                after.entries,
                n,
                state.platform,
                dir.prefix,
                raw[i],
            )
            &&& waiting <= after.queue.len()
            &&& after.queue.take(waiting) == state.queue.skip(1)
            &&& 0 <= i < raw.len() && raw[i].kind == DirEntryKind::Directory && dir.depth > 1
                ==> is_pending(
                after.queue,
                waiting,
                relative(state.platform, dir.prefix, raw[i].name),
                (dir.depth - 1) as nat,
            )
            &&& forall|j: int|
                waiting <= j < after.queue.len() ==> comes_from_dir(
                    state.platform,
                    dir,
                    raw,
                    #[trigger] after.queue[j],
                )
        }),
{
    let dir = state.queue[0];
    let rest = ListerView { queue: state.queue.drop_first(), ..state };
    let keys = sort_keys(state.platform, dir.prefix, raw);
    let at = order::order_of(keys);
    order::order_has_each_place(keys);
    entries_are_added(rest, dir, raw, at, raw.len() as int);
    let after = after_reading(state, raw);
    let n = state.entries.len() as int;
    assert(state.queue.skip(1) =~= state.queue.drop_first());
    if 0 <= i < raw.len() {
        assert(at.contains(i));
        let k = choose|k: int| 0 <= k < at.len() && at[k] == i;
        assert(after.entries[n + k] == shown(state.platform, dir.prefix, raw[at[k]]));
    }
}

/// The path of an entry in the listed directory itself is its name; below it, it is the path
/// of its directory with the name behind it.
pub proof fn law_entries_lie_in_their_directory(p: Platform, prefix: Seq<char>, name: Seq<char>)
    requires
        file_tools::is_name(p, name),
        file_tools::is_settled(p, prefix),
    ensures
        file_tools::components_of(p, relative(p, prefix, name)) == file_tools::components_of(
            p,
            prefix,
        ).push(name),
{
    file_tools::name_alone(p, name);
    if prefix.len() > 0 {
        file_tools::name_joined(p, prefix, name);
    } else {
        let e = Seq::<char>::empty();
        assert(prefix =~= e);
        file_tools::no_components(p);
        assert(file_tools::components_of(p, prefix).push(name) =~= seq![name]);
    }
}

/// A call without a path, or with a zero where entries or levels are counted, is refused, and
/// any other is about what its path leads to in the workspace.
pub proof fn law_calls_count_from_one(
    path: Option<Seq<char>>,
    fs: FsView,
    offset: int,
    limit: int,
    depth: int,
)
    ensures
        path is None || offset == 0 || limit == 0 || depth == 0 ==> listed_dir(
            path,
            fs,
            offset,
            limit,
            depth,
        ) is Err,
        path is Some && offset > 0 && limit > 0 && depth > 0 ==> listed_dir(
            path,
            fs,
            offset,
            limit,
            depth,
        ) == file_tools::resolution(fs.platform, path->0, fs.workspace),
{
}

} // verus!
