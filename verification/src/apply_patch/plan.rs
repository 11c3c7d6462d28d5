//! Planning a patch: every hunk is resolved, checked and computed against what
//! is on disk, and the outcome is a list of changes with the actions that make
//! them and the files to save first. Nothing here touches the disk.

use crate::apply_patch::engine;
use crate::apply_patch::engine::{ChunkView, Hunk, HunkView};
use crate::apply_patch::replacements;
use crate::codex_shell::Platform;
use crate::file_tools;
use crate::file_tools::{FsCtx, FsView};
use crate::text;
use vstd::prelude::*;

verus! {

// ---------------------------------------------------------------------------
// What is on disk
// ---------------------------------------------------------------------------

/// What a path names, links not followed.
#[derive(Debug)]
pub enum FileKind {
    File,
    Dir,
    Symlink,
    Other,
    Missing,
    /// The path could not be looked up; the text says why.
    Unreadable(String),
}

/// What is known of one path: what it names, and the text that reading it gives
/// or the fault that reading it meets.
#[derive(Debug)]
pub struct FileFact {
    pub path: String,
    pub kind: FileKind,
    pub contents: Result<String, String>,
}

/// What a path names.
pub enum KindView {
    File,
    Dir,
    Symlink,
    Other,
    Missing,
    Unreadable(Seq<char>),
}

/// What is known of one path.
pub struct FactView {
    pub path: Seq<char>,
    pub kind: KindView,
    pub contents: Result<Seq<char>, Seq<char>>,
}

impl View for FileKind {
    type V = KindView;

    open spec fn view(&self) -> KindView {
        match self {
            FileKind::File => KindView::File,
            FileKind::Dir => KindView::Dir,
            FileKind::Symlink => KindView::Symlink,
            FileKind::Other => KindView::Other,
            FileKind::Missing => KindView::Missing,
            FileKind::Unreadable(e) => KindView::Unreadable(e@),
        }
    }
}

impl View for FileFact {
    type V = FactView;

    open spec fn view(&self) -> FactView {
        FactView {
            path: self.path@,
            kind: self.kind@,
            contents: file_tools::result_view(self.contents),
        }
    }
}

/// All that is known of the disk.
pub open spec fn fact_views(disk: Seq<FileFact>) -> Seq<FactView> {
    Seq::new(disk.len(), |i: int| disk[i]@)
}

/// The first fact on `path` from `i` on.
pub open spec fn fact_from(disk: Seq<FactView>, path: Seq<char>, i: int) -> Option<FactView>
    decreases disk.len() - i,
{
    if i < 0 || i >= disk.len() {
        None
    } else if disk[i].path == path {
        Some(disk[i])
    } else {
        fact_from(disk, path, i + 1)
    }
}

/// What `path` names. A path of which nothing is known names nothing.
pub open spec fn kind_of(disk: Seq<FactView>, path: Seq<char>) -> KindView {
    match fact_from(disk, path, 0) {
        Some(fact) => fact.kind,
        None => KindView::Missing,
    }
}

/// What reading `path` gives.
pub open spec fn contents_of(disk: Seq<FactView>, path: Seq<char>) -> Result<
    Seq<char>,
    Seq<char>,
> {
    match fact_from(disk, path, 0) {
        Some(fact) => fact.contents,
        None => Err("No such file or directory (os error 2)"@),
    }
}

/// Where the first fact on `path` stands.
fn find_fact(disk: &Vec<FileFact>, path: &str) -> (r: Option<usize>)
    ensures
        match r {
            Some(i) => i < disk@.len() && fact_from(fact_views(disk@), path@, 0) == Some(
                disk@[i as int]@,
            ),
            None => fact_from(fact_views(disk@), path@, 0) is None,
        },
{
    let ghost all = fact_views(disk@);
    let mut i: usize = 0;
    while i < disk.len()
        invariant
            i <= disk@.len(),
            all == fact_views(disk@),
            fact_from(all, path@, i as int) == fact_from(all, path@, 0),
        decreases disk@.len() - i,
    {
        assert(all[i as int] == disk@[i as int]@);
        if text::same(&disk[i].path, path) {
            return Some(i);
        }
        i += 1;
    }
    None
}

/// Whether `path` names a directory.
fn is_dir(disk: &Vec<FileFact>, path: &str) -> (r: bool)
    ensures
        r == (kind_of(fact_views(disk@), path@) is Dir),
{
    match find_fact(disk, path) {
        Some(i) => match &disk[i].kind {
            FileKind::Dir => true,
            _ => false,
        },
        None => false,
    }
}

/// Whether looking `path` up fails.
fn is_absent(disk: &Vec<FileFact>, path: &str) -> (r: bool)
    ensures
        r == (kind_of(fact_views(disk@), path@) is Missing || kind_of(
            fact_views(disk@),
            path@,
        ) is Unreadable),
{
    match find_fact(disk, path) {
        Some(i) => match &disk[i].kind {
            FileKind::Missing => true,
            FileKind::Unreadable(_) => true,
            _ => false,
        },
        None => true,
    }
}

/// What reading `path` gives.
fn read_contents(disk: &Vec<FileFact>, path: &str) -> (r: Result<String, String>)
    ensures
        file_tools::result_view(r) == contents_of(fact_views(disk@), path@),
{
    match find_fact(disk, path) {
        Some(i) => match &disk[i].contents {
            Ok(s) => Ok(s.clone()),
            Err(e) => Err(e.clone()),
        },
        None => Err("No such file or directory (os error 2)".to_owned()),
    }
}

// ---------------------------------------------------------------------------
// Changes
// ---------------------------------------------------------------------------

/// A change that has passed all checks and waits to be made.
#[derive(Debug)]
pub enum PreparedChange {
    Add { path: String, contents: String },
    Delete { path: String },
    Update { path: String, contents: String },
    Move { from: String, to: String, contents: String },
}

/// The texts of a change.
#[verifier::ext_equal]
pub enum ChangeView {
    Add { path: Seq<char>, contents: Seq<char> },
    Delete { path: Seq<char> },
    Update { path: Seq<char>, contents: Seq<char> },
    Move { from: Seq<char>, to: Seq<char>, contents: Seq<char> },
}

impl View for PreparedChange {
    type V = ChangeView;

    open spec fn view(&self) -> ChangeView {
        match self {
            PreparedChange::Add { path, contents } => ChangeView::Add {
                path: path@,
                contents: contents@,
            },
            PreparedChange::Delete { path } => ChangeView::Delete { path: path@ },
            PreparedChange::Update { path, contents } => ChangeView::Update {
                path: path@,
                contents: contents@,
            },
            PreparedChange::Move { from, to, contents } => ChangeView::Move {
                from: from@,
                to: to@,
                contents: contents@,
            },
        }
    }
}

/// The texts of a list of changes.
pub open spec fn change_views(changes: Seq<PreparedChange>) -> Seq<ChangeView> {
    Seq::new(changes.len(), |i: int| changes[i]@)
}

/// The paths that a change touches.
pub open spec fn paths_of(change: ChangeView) -> Seq<Seq<char>> {
    match change {
        ChangeView::Add { path, contents } => seq![path],
        ChangeView::Delete { path } => seq![path],
        ChangeView::Update { path, contents } => seq![path],
        ChangeView::Move { from, to, contents } => seq![from, to],
    }
}

/// The contents that a change leaves at its target; a deletion leaves none.
pub open spec fn pending_of(change: ChangeView) -> Option<Seq<char>> {
    match change {
        ChangeView::Add { path, contents } => Some(contents),
        ChangeView::Delete { path } => None,
        ChangeView::Update { path, contents } => Some(contents),
        ChangeView::Move { from, to, contents } => Some(contents),
    }
}

/// A change with other contents.
pub open spec fn with_contents(change: ChangeView, fresh: Seq<char>) -> ChangeView {
    match change {
        ChangeView::Add { path, contents } => ChangeView::Add { path, contents: fresh },
        ChangeView::Delete { path } => change,
        ChangeView::Update { path, contents } => ChangeView::Update { path, contents: fresh },
        ChangeView::Move { from, to, contents } => ChangeView::Move { from, to, contents: fresh },
    }
}

/// Whether a change leaves a file at `target`. The source of a move and a
/// deleted file are not left.
pub open spec fn lands_at(change: ChangeView, target: Seq<char>) -> bool {
    match change {
        ChangeView::Add { path, contents } => path == target,
        ChangeView::Delete { path } => false,
        ChangeView::Update { path, contents } => path == target,
        ChangeView::Move { from, to, contents } => to == target,
    }
}

/// The latest change that leaves a file at `target`.
pub open spec fn latest_at(changes: Seq<ChangeView>, target: Seq<char>) -> Option<int>
    decreases changes.len(),
{
    if changes.len() == 0 {
        None
    } else if lands_at(changes.last(), target) {
        Some(changes.len() - 1)
    } else {
        latest_at(changes.drop_last(), target)
    }
}

impl PreparedChange {
    /// The paths that the change touches.
    pub fn paths(&self) -> (r: Vec<String>)
        ensures
            text::views(r@) == paths_of(self@),
    {
        let mut out: Vec<String> = Vec::new();
        match self {
            PreparedChange::Add { path, .. } => {
                out.push(path.clone());
            },
            PreparedChange::Delete { path } => {
                out.push(path.clone());
            },
            PreparedChange::Update { path, .. } => {
                out.push(path.clone());
            },
            PreparedChange::Move { from, to, .. } => {
                out.push(from.clone());
                out.push(to.clone());
            },
        }
        assert(text::views(out@) =~= paths_of(self@));
        out
    }

    /// The contents that the change will leave at its target.
    pub fn pending_contents(&self) -> (r: Option<String>)
        ensures
            text::opt_view(r) == pending_of(self@),
    {
        match self {
            PreparedChange::Add { contents, .. } => Some(contents.clone()),
            PreparedChange::Update { contents, .. } => Some(contents.clone()),
            PreparedChange::Move { contents, .. } => Some(contents.clone()),
            PreparedChange::Delete { .. } => None,
        }
    }

    /// The change with other contents.
    pub fn set_pending_contents(self, new_contents: String) -> (r: PreparedChange)
        ensures
            r@ == with_contents(self@, new_contents@),
    {
        match self {
            PreparedChange::Add { path, contents: _ } => PreparedChange::Add {
                path,
                contents: new_contents,
            },
            PreparedChange::Update { path, contents: _ } => PreparedChange::Update {
                path,
                contents: new_contents,
            },
            PreparedChange::Move { from, to, contents: _ } => PreparedChange::Move {
                from,
                to,
                contents: new_contents,
            },
            PreparedChange::Delete { path } => PreparedChange::Delete { path },
        }
    }

    /// Whether the change leaves a file at `target`.
    fn leaves(&self, target: &str) -> (r: bool)
        ensures
            r == lands_at(self@, target@),
    {
        match self {
            PreparedChange::Add { path, .. } => text::same(path, target),
            PreparedChange::Update { path, .. } => text::same(path, target),
            PreparedChange::Move { to, .. } => text::same(to, target),
            PreparedChange::Delete { .. } => false,
        }
    }
}

/// The latest change that leaves a file at `target`.
pub fn find_pending_for_path(changes: &Vec<PreparedChange>, target: &str) -> (r: Option<usize>)
    ensures
        match r {
            Some(i) => latest_at(change_views(changes@), target@) == Some(i as int) && i
                < changes@.len() && lands_at(changes@[i as int]@, target@),
            None => latest_at(change_views(changes@), target@) is None,
        },
{
    let ghost all = change_views(changes@);
    let mut n: usize = changes.len();
    assert(all.take(n as int) =~= all);
    while n > 0
        invariant
            n <= changes@.len(),
            all == change_views(changes@),
            latest_at(all.take(n as int), target@) == latest_at(all, target@),
        decreases n,
    {
        assert(all.take(n as int).last() == changes@[n - 1]@);
        assert(all.take(n as int).drop_last() =~= all.take(n - 1));
        if changes[n - 1].leaves(target) {
            return Some(n - 1);
        }
        n -= 1;
    }
    None
}

// ---------------------------------------------------------------------------
// Checking hunks
// ---------------------------------------------------------------------------

/// Where a hunk may write for `path`: the path resolved in the workspace, if
/// writing there is allowed.
pub open spec fn target_of(
    path: Seq<char>,
    fs: FsView,
) -> Result<Seq<char>, Seq<char>> {
    match file_tools::resolution(fs.platform, path, fs.workspace) {
        Err(message) => Err(message),
        Ok(target) => match file_tools::write_permission(fs, target) {
            Err(message) => Err(message),
            Ok(_) => Ok(target),
        },
    }
}

/// What is said of a path that names a directory.
pub open spec fn directory_message(path: Seq<char>) -> Seq<char> {
    path + " is a directory"@
}

/// As `target_of`, for a file that is to be put there: it must not name a
/// directory.
pub open spec fn file_target(
    path: Seq<char>,
    fs: FsView,
    disk: Seq<FactView>,
) -> Result<Seq<char>, Seq<char>> {
    match target_of(path, fs) {
        Err(message) => Err(message),
        Ok(target) => if kind_of(disk, target) is Dir {
            Err(directory_message(target))
        } else {
            Ok(target)
        },
    }
}

/// Where a move from `from` to `path` leads. A file cannot be moved onto itself.
pub open spec fn move_target(
    from: Seq<char>,
    path: Seq<char>,
    fs: FsView,
    disk: Seq<FactView>,
) -> Result<Seq<char>, Seq<char>> {
    match target_of(path, fs) {
        Err(message) => Err(message),
        Ok(target) => if target == from {
            Err("cannot move "@ + from + " onto itself"@)
        } else if kind_of(disk, target) is Dir {
            Err(directory_message(target))
        } else {
            Ok(target)
        },
    }
}

/// The text that an update of `target` starts from: what the changes so far
/// leave there, or else what is on disk.
pub open spec fn base_of(
    changes: Seq<ChangeView>,
    target: Seq<char>,
    disk: Seq<FactView>,
) -> Result<Seq<char>, Seq<char>> {
    match latest_at(changes, target) {
        Some(i) => Ok(pending_of(changes[i])->0),
        None => contents_of(disk, target),
    }
}

/// `changes` with the new contents of an updated file at `target`: folded into
/// the change that already leaves the file there, or as a change of its own.
pub open spec fn with_update(
    changes: Seq<ChangeView>,
    target: Seq<char>,
    contents: Seq<char>,
) -> Seq<ChangeView> {
    match latest_at(changes, target) {
        Some(i) => changes.update(i, with_contents(changes[i], contents)),
        None => changes.push(ChangeView::Update { path: target, contents }),
    }
}

/// `changes` with an updated file moved from `from` to `to`.
pub open spec fn with_move(
    changes: Seq<ChangeView>,
    from: Seq<char>,
    to: Seq<char>,
    contents: Seq<char>,
) -> Seq<ChangeView> {
    let moved = ChangeView::Move { from, to, contents };
    match latest_at(changes, from) {
        Some(i) => changes.update(i, with_contents(changes[i], contents)).push(moved),
        None => changes.push(moved),
    }
}

/// The changes after one more hunk, or why the hunk is refused.
pub open spec fn with_hunk(
    hunk: HunkView,
    fs: FsView,
    disk: Seq<FactView>,
    changes: Seq<ChangeView>,
) -> Result<Seq<ChangeView>, Seq<char>> {
    match hunk {
        HunkView::AddFile { path, contents } => match file_target(
            path,
            fs,
            disk,
        ) {
            Err(message) => Err(message),
            Ok(target) => Ok(changes.push(ChangeView::Add { path: target, contents })),
        },
        HunkView::DeleteFile { path } => match file_target(path, fs, disk) {
            Err(message) => Err(message),
            Ok(target) => if kind_of(disk, target) is Missing || kind_of(
                disk,
                target,
            ) is Unreadable {
                Err("Failed to delete file "@ + target + ": not found"@)
            } else {
                Ok(changes.push(ChangeView::Delete { path: target }))
            },
        },
        HunkView::UpdateFile { path, move_path, chunks } => match target_of(
            path,
            fs,
        ) {
            Err(message) => Err(message),
            Ok(target) => match base_of(changes, target, disk) {
                Err(message) => Err(message),
                Ok(base) => match replacements::updated(base, target, chunks) {
                    Err(message) => Err(message),
                    Ok(contents) => match move_path {
                        None => Ok(with_update(changes, target, contents)),
                        Some(dest) => match move_target(
                            target,
                            dest,
                            fs,
                            disk,
                        ) {
                            Err(message) => Err(message),
                            Ok(to) => Ok(with_move(changes, target, to, contents)),
                        },
                    },
                },
            },
        },
    }
}

/// The changes of all hunks from `i` on, behind those of the hunks before.
pub open spec fn prepared_from(
    hunks: Seq<HunkView>,
    i: int,
    fs: FsView,
    disk: Seq<FactView>,
    changes: Seq<ChangeView>,
) -> Result<Seq<ChangeView>, Seq<char>>
    decreases hunks.len() - i,
{
    if i < 0 || i >= hunks.len() {
        Ok(changes)
    } else {
        match with_hunk(hunks[i], fs, disk, changes) {
            Err(message) => Err(message),
            Ok(next) => prepared_from(hunks, i + 1, fs, disk, next),
        }
    }
}

/// Resolves a path that a hunk is to write.
fn writable_target(path: &str, ctx: &FsCtx) -> (r: Result<String, String>)
    ensures
        file_tools::result_view(r) == target_of(
            path@,
            ctx@,
        ),
{
    match file_tools::resolve_within(ctx.platform, path, &ctx.workspace) {
        Err(message) => Err(message),
        Ok(target) => match ctx.assert_write_allowed(&target) {
            Err(message) => Err(message),
            Ok(()) => Ok(target),
        },
    }
}

/// What is said of a path that names a directory.
fn directory_error(path: &str) -> (r: String)
    ensures
        r@ == directory_message(path@),
{
    let mut message = path.to_owned();
    message.push_str(" is a directory");
    message
}

/// Resolves a path that a hunk is to put a file at.
fn writable_file(path: &str, ctx: &FsCtx, disk: &Vec<FileFact>) -> (r: Result<String, String>)
    ensures
        file_tools::result_view(r) == file_target(
            path@,
            ctx@,
            fact_views(disk@),
        ),
{
    match writable_target(path, ctx) {
        Err(message) => Err(message),
        Ok(target) => {
            if is_dir(disk, &target) {
                Err(directory_error(&target))
            } else {
                Ok(target)
            }
        },
    }
}

/// Resolves the destination of a move.
fn movable_to(from: &str, path: &str, ctx: &FsCtx, disk: &Vec<FileFact>) -> (r: Result<
    String,
    String,
>)
    ensures
        file_tools::result_view(r) == move_target(
            from@,
            path@,
            ctx@,
            fact_views(disk@),
        ),
{
    match writable_target(path, ctx) {
        Err(message) => Err(message),
        Ok(target) => {
            if text::same(&target, from) {
                let mut message = "cannot move ".to_owned();
                message.push_str(from);
                message.push_str(" onto itself");
                Err(message)
            } else if is_dir(disk, &target) {
                Err(directory_error(&target))
            } else {
                Ok(target)
            }
        },
    }
}

/// Puts new contents into the change at `at`.
fn fold_contents(changes: &mut Vec<PreparedChange>, at: usize, contents: String)
    requires
        at < old(changes)@.len(),
    ensures
        change_views(final(changes)@) == change_views(old(changes)@).update(
            at as int,
            with_contents(old(changes)@[at as int]@, contents@),
        ),
{
    let ghost before = change_views(changes@);
    let ghost all = changes@;
    let change = changes.remove(at);
    let ghost fresh = with_contents(change@, contents@);
    changes.insert(at, change.set_pending_contents(contents));
    assert(change_views(changes@) =~= before.update(at as int, fresh));
}

/// Checks one hunk and adds its changes.
fn prepare_hunk(
    hunk: &Hunk,
    ctx: &FsCtx,
    disk: &Vec<FileFact>,
    changes: &mut Vec<PreparedChange>,
) -> (r: Result<(), String>)
    ensures
        match r {
            Ok(_) => with_hunk(
                hunk@,
                ctx@,
                fact_views(disk@),
                change_views(old(changes)@),
            ) == Ok::<Seq<ChangeView>, Seq<char>>(change_views(final(changes)@)),
            Err(e) => with_hunk(
                hunk@,
                ctx@,
                fact_views(disk@),
                change_views(old(changes)@),
            ) == Err::<Seq<ChangeView>, Seq<char>>(e@),
        },
{
    let ghost before = change_views(changes@);
    match hunk {
        Hunk::AddFile { path, contents } => {
            let target = match writable_file(path, ctx, disk) {
                Ok(target) => target,
                Err(message) => return Err(message),
            };
            let change = PreparedChange::Add { path: target, contents: contents.clone() };
            changes.push(change);
            assert(change_views(changes@) =~= before.push(change@));
            Ok(())
        },
        Hunk::DeleteFile { path } => {
            let target = match writable_file(path, ctx, disk) {
                Ok(target) => target,
                Err(message) => return Err(message),
            };
            if is_absent(disk, &target) {
                let mut message = "Failed to delete file ".to_owned();
                message.push_str(&target);
                message.push_str(": not found");
                return Err(message);
            }
            let change = PreparedChange::Delete { path: target };
            changes.push(change);
            assert(change_views(changes@) =~= before.push(change@));
            Ok(())
        },
        Hunk::UpdateFile { path, move_path, chunks } => {
            let target = match writable_target(path, ctx) {
                Ok(target) => target,
                Err(message) => return Err(message),
            };
            let existing = find_pending_for_path(changes, &target);
            let base = match existing {
                Some(i) => {
                    assert(before[i as int] == changes@[i as int]@);
                    match changes[i].pending_contents() {
                        Some(contents) => contents,
                        None => String::new(),
                    }
                },
                None => match read_contents(disk, &target) {
                    Ok(contents) => contents,
                    Err(message) => return Err(message),
                },
            };
            assert(base_of(before, target@, fact_views(disk@)) == Ok::<Seq<char>, Seq<char>>(
                base@,
            ));
            let contents = match replacements::update_contents(&base, &target, chunks) {
                Ok(contents) => contents,
                Err(message) => return Err(message),
            };
            match move_path {
                None => {
                    match existing {
                        Some(i) => {
                            fold_contents(changes, i, contents);
                        },
                        None => {
                            let change = PreparedChange::Update { path: target, contents };
                            changes.push(change);
                            assert(change_views(changes@) =~= before.push(change@));
                        },
                    }
                    Ok(())
                },
                Some(dest) => {
                    let to = match movable_to(&target, dest, ctx, disk) {
                        Ok(to) => to,
                        Err(message) => return Err(message),
                    };
                    if let Some(i) = existing {
                        fold_contents(changes, i, contents.clone());
                    }
                    let ghost folded = change_views(changes@);
                    let change = PreparedChange::Move { from: target, to, contents };
                    changes.push(change);
                    assert(change_views(changes@) =~= folded.push(change@));
                    Ok(())
                },
            }
        },
    }
}

/// The texts of prepared changes.
pub open spec fn prepared_view(r: Result<Vec<PreparedChange>, String>) -> Result<
    Seq<ChangeView>,
    Seq<char>,
> {
    match r {
        Ok(v) => Ok(change_views(v@)),
        Err(e) => Err(e@),
    }
}

/// Checks all hunks, each against the changes of those before it.
pub fn prepare(hunks: &Vec<Hunk>, ctx: &FsCtx, disk: &Vec<FileFact>) -> (r: Result<
    Vec<PreparedChange>,
    String,
>)
    ensures
        prepared_view(r) == prepared_from(
            engine::hunk_views(hunks@),
            0,
            ctx@,
            fact_views(disk@),
            Seq::empty(),
        ),
{
    let ghost hs = engine::hunk_views(hunks@);
    let ghost fs = ctx@;
    let ghost ds = fact_views(disk@);
    let mut changes: Vec<PreparedChange> = Vec::new();
    assert(change_views(changes@) =~= Seq::<ChangeView>::empty());
    let mut i: usize = 0;
    while i < hunks.len()
        invariant
            i <= hunks@.len(),
            hs == engine::hunk_views(hunks@),
            fs == ctx@,
            ds == fact_views(disk@),
            prepared_from(hs, i as int, fs, ds, change_views(changes@)) == prepared_from(
                hs,
                0,
                fs,
                ds,
                Seq::empty(),
            ),
        decreases hunks@.len() - i,
    {
        assert(hs[i as int] == hunks@[i as int]@);
        match prepare_hunk(&hunks[i], ctx, disk, &mut changes) {
            Ok(()) => {},
            Err(message) => return Err(message),
        }
        i += 1;
    }
    Ok(changes)
}

// ---------------------------------------------------------------------------
// Backups
// ---------------------------------------------------------------------------

/// A file to save before the changes are made, and whether there is one.
#[derive(Debug)]
pub struct Backup {
    pub path: String,
    pub existed: bool,
}

/// A file to save.
#[verifier::ext_equal]
pub struct BackupView {
    pub path: Seq<char>,
    pub existed: bool,
}

impl View for Backup {
    type V = BackupView;

    open spec fn view(&self) -> BackupView {
        BackupView { path: self.path@, existed: self.existed }
    }
}

/// The texts of a list of backups.
pub open spec fn backup_views(backups: Seq<Backup>) -> Seq<BackupView> {
    Seq::new(backups.len(), |i: int| backups[i]@)
}

/// The paths that some changes touch, in order.
pub open spec fn all_paths(changes: Seq<ChangeView>) -> Seq<Seq<char>>
    decreases changes.len(),
{
    if changes.len() == 0 {
        Seq::empty()
    } else {
        all_paths(changes.drop_last()) + paths_of(changes.last())
    }
}

/// Whether the file at `path` has to be saved, or why it cannot be changed.
pub open spec fn backup_of(disk: Seq<FactView>, path: Seq<char>) -> Result<bool, Seq<char>> {
    match kind_of(disk, path) {
        KindView::File => Ok(true),
        KindView::Symlink => Err("refusing to modify symlink "@ + path),
        KindView::Dir => Err(path + " is not a regular file"@),
        KindView::Other => Err(path + " is not a regular file"@),
        KindView::Missing => Ok(false),
        KindView::Unreadable(e) => Err("reading "@ + path + ": "@ + e),
    }
}

/// Whether one of the backups is for `path`.
pub open spec fn saved(backups: Seq<BackupView>, path: Seq<char>) -> bool {
    exists|i: int| 0 <= i < backups.len() && (#[trigger] backups[i]).path == path
}

/// The backups for the paths from `i` on, behind those for the paths before.
/// Each path is saved once.
pub open spec fn backups_from(
    disk: Seq<FactView>,
    paths: Seq<Seq<char>>,
    i: int,
    done: Seq<BackupView>,
) -> Result<Seq<BackupView>, Seq<char>>
    decreases paths.len() - i,
{
    if i < 0 || i >= paths.len() {
        Ok(done)
    } else if saved(done, paths[i]) {
        backups_from(disk, paths, i + 1, done)
    } else {
        match backup_of(disk, paths[i]) {
            Err(message) => Err(message),
            Ok(existed) => backups_from(
                disk,
                paths,
                i + 1,
                done.push(BackupView { path: paths[i], existed }),
            ),
        }
    }
}

/// Whether the file at `path` has to be saved.
fn check_backup(disk: &Vec<FileFact>, path: &str) -> (r: Result<bool, String>)
    ensures
        match r {
            Ok(b) => backup_of(fact_views(disk@), path@) == Ok::<bool, Seq<char>>(b),
            Err(e) => backup_of(fact_views(disk@), path@) == Err::<bool, Seq<char>>(e@),
        },
{
    match find_fact(disk, path) {
        None => Ok(false),
        Some(i) => match &disk[i].kind {
            FileKind::File => Ok(true),
            FileKind::Missing => Ok(false),
            FileKind::Symlink => {
                let mut message = "refusing to modify symlink ".to_owned();
                message.push_str(path);
                Err(message)
            },
            FileKind::Dir => {
                let mut message = path.to_owned();
                message.push_str(" is not a regular file");
                Err(message)
            },
            FileKind::Other => {
                let mut message = path.to_owned();
                message.push_str(" is not a regular file");
                Err(message)
            },
            FileKind::Unreadable(e) => {
                let mut message = "reading ".to_owned();
                message.push_str(path);
                message.push_str(": ");
                message.push_str(e);
                Err(message)
            },
        },
    }
}

/// Whether one of the backups is for `path`.
fn is_saved(backups: &Vec<Backup>, path: &str) -> (r: bool)
    ensures
        r == saved(backup_views(backups@), path@),
{
    let ghost all = backup_views(backups@);
    let mut i: usize = 0;
    while i < backups.len()
        invariant
            i <= backups@.len(),
            all == backup_views(backups@),
            forall|k: int| 0 <= k < i ==> (#[trigger] all[k]).path != path@,
        decreases backups@.len() - i,
    {
        assert(all[i as int] == backups@[i as int]@);
        if text::same(&backups[i].path, path) {
            return true;
        }
        i += 1;
    }
    false
}

/// The paths that some changes touch, in order.
fn collect_paths(changes: &Vec<PreparedChange>) -> (r: Vec<String>)
    ensures
        text::views(r@) == all_paths(change_views(changes@)),
{
    let ghost all = change_views(changes@);
    let mut out: Vec<String> = Vec::new();
    let mut i: usize = 0;
    assert(text::views(out@) =~= all_paths(all.take(0)));
    while i < changes.len()
        invariant
            i <= changes@.len(),
            all == change_views(changes@),
            text::views(out@) == all_paths(all.take(i as int)),
        decreases changes@.len() - i,
    {
        let ghost before = text::views(out@);
        let mut more = changes[i].paths();
        let ghost added = text::views(more@);
        out.append(&mut more);
        assert(text::views(out@) =~= before + added);
        assert(all.take(i + 1).drop_last() =~= all.take(i as int));
        assert(all.take(i + 1).last() == changes@[i as int]@);
        i += 1;
    }
    assert(all.take(all.len() as int) =~= all);
    out
}

/// What to save before the given changes are made.
pub fn plan_backups(changes: &Vec<PreparedChange>, disk: &Vec<FileFact>) -> (r: Result<
    Vec<Backup>,
    String,
>)
    ensures
        match r {
            Ok(v) => backups_from(
                fact_views(disk@),
                all_paths(change_views(changes@)),
                0,
                Seq::empty(),
            ) == Ok::<Seq<BackupView>, Seq<char>>(backup_views(v@)),
            Err(e) => backups_from(
                fact_views(disk@),
                all_paths(change_views(changes@)),
                0,
                Seq::empty(),
            ) == Err::<Seq<BackupView>, Seq<char>>(e@),
        },
{
    let paths = collect_paths(changes);
    let ghost ps = all_paths(change_views(changes@));
    let ghost ds = fact_views(disk@);
    let mut backups: Vec<Backup> = Vec::new();
    assert(backup_views(backups@) =~= Seq::<BackupView>::empty());
    let mut i: usize = 0;
    while i < paths.len()
        invariant
            i <= paths@.len(),
            ps == text::views(paths@),
            ds == fact_views(disk@),
            ps == all_paths(change_views(changes@)),
            backups_from(ds, ps, i as int, backup_views(backups@)) == backups_from(
                ds,
                ps,
                0,
                Seq::empty(),
            ),
        decreases paths@.len() - i,
    {
        let ghost before = backup_views(backups@);
        assert(ps[i as int] == paths@[i as int]@);
        if !is_saved(&backups, &paths[i]) {
            match check_backup(disk, &paths[i]) {
                Ok(existed) => {
                    let backup = Backup { path: paths[i].clone(), existed };
                    backups.push(backup);
                    assert(backup_views(backups@) =~= before.push(backup@));
                },
                Err(message) => return Err(message),
            }
        }
        i += 1;
    }
    Ok(backups)
}

// ---------------------------------------------------------------------------
// Actions
// ---------------------------------------------------------------------------

/// One step on disk.
#[derive(Debug)]
pub enum FsAction {
    Write { path: String, contents: String },
    Remove { path: String },
}

/// One step on disk.
#[verifier::ext_equal]
pub enum ActionView {
    Write { path: Seq<char>, contents: Seq<char> },
    Remove { path: Seq<char> },
}

impl View for FsAction {
    type V = ActionView;

    open spec fn view(&self) -> ActionView {
        match self {
            FsAction::Write { path, contents } => ActionView::Write {
                path: path@,
                contents: contents@,
            },
            FsAction::Remove { path } => ActionView::Remove { path: path@ },
        }
    }
}

/// The texts of a list of actions.
pub open spec fn action_views(actions: Seq<FsAction>) -> Seq<ActionView> {
    Seq::new(actions.len(), |i: int| actions[i]@)
}

/// The steps that make one change. A moved file is written before the old one
/// is removed.
pub open spec fn actions_of(change: ChangeView) -> Seq<ActionView> {
    match change {
        ChangeView::Add { path, contents } => seq![ActionView::Write { path, contents }],
        ChangeView::Delete { path } => seq![ActionView::Remove { path }],
        ChangeView::Update { path, contents } => seq![ActionView::Write { path, contents }],
        ChangeView::Move { from, to, contents } => seq![
            ActionView::Write { path: to, contents },
            ActionView::Remove { path: from },
        ],
    }
}

/// The steps that make all changes, in order.
pub open spec fn all_actions(changes: Seq<ChangeView>) -> Seq<ActionView>
    decreases changes.len(),
{
    if changes.len() == 0 {
        Seq::empty()
    } else {
        all_actions(changes.drop_last()) + actions_of(changes.last())
    }
}

/// The steps that make some changes, in order.
pub fn plan_actions(changes: &Vec<PreparedChange>) -> (r: Vec<FsAction>)
    ensures
        action_views(r@) == all_actions(change_views(changes@)),
{
    let ghost all = change_views(changes@);
    let mut out: Vec<FsAction> = Vec::new();
    let mut i: usize = 0;
    assert(action_views(out@) =~= all_actions(all.take(0)));
    while i < changes.len()
        invariant
            i <= changes@.len(),
            all == change_views(changes@),
            action_views(out@) == all_actions(all.take(i as int)),
        decreases changes@.len() - i,
    {
        let ghost before = action_views(out@);
        match &changes[i] {
            PreparedChange::Add { path, contents } => {
                out.push(FsAction::Write { path: path.clone(), contents: contents.clone() });
            },
            PreparedChange::Delete { path } => {
                out.push(FsAction::Remove { path: path.clone() });
            },
            PreparedChange::Update { path, contents } => {
                out.push(FsAction::Write { path: path.clone(), contents: contents.clone() });
            },
            PreparedChange::Move { from, to, contents } => {
                out.push(FsAction::Write { path: to.clone(), contents: contents.clone() });
                out.push(FsAction::Remove { path: from.clone() });
            },
        }
        assert(action_views(out@) =~= before + actions_of(changes@[i as int]@));
        assert(all.take(i + 1).drop_last() =~= all.take(i as int));
        assert(all.take(i + 1).last() == changes@[i as int]@);
        i += 1;
    }
    assert(all.take(all.len() as int) =~= all);
    out
}

/// A patch that has passed all checks: its changes, the files to save first, and
/// the steps to take.
#[derive(Debug)]
pub struct Plan {
    pub changes: Vec<PreparedChange>,
    pub backups: Vec<Backup>,
    pub actions: Vec<FsAction>,
}

/// The texts of a plan.
pub struct PlanView {
    pub changes: Seq<ChangeView>,
    pub backups: Seq<BackupView>,
    pub actions: Seq<ActionView>,
}

impl View for Plan {
    type V = PlanView;

    open spec fn view(&self) -> PlanView {
        PlanView {
            changes: change_views(self.changes@),
            backups: backup_views(self.backups@),
            actions: action_views(self.actions@),
        }
    }
}

/// What a patch does in a workspace, or why it is refused.
pub open spec fn planned(
    patch: Seq<char>,
    fs: FsView,
    disk: Seq<FactView>,
) -> Result<PlanView, Seq<char>> {
    match engine::parsed(patch) {
        Err(message) => Err(message),
        Ok(hunks) => if hunks.len() == 0 {
            Err("No files were modified."@)
        } else {
            match prepared_from(hunks, 0, fs, disk, Seq::empty()) {
                Err(message) => Err(message),
                Ok(changes) => match backups_from(disk, all_paths(changes), 0, Seq::empty()) {
                    Err(message) => Err(message),
                    Ok(backups) => Ok(
                        PlanView { changes, backups, actions: all_actions(changes) },
                    ),
                },
            }
        },
    }
}

/// The texts of a planned patch.
pub open spec fn plan_view(r: Result<Plan, String>) -> Result<PlanView, Seq<char>> {
    match r {
        Ok(plan) => Ok(plan@),
        Err(e) => Err(e@),
    }
}

/// Parses a patch and checks all of it against the disk. The plan is there only
/// if every hunk passes.
pub fn apply(patch: &str, ctx: &FsCtx, disk: &Vec<FileFact>) -> (r: Result<Plan, String>)
    ensures
        plan_view(r) == planned(
            patch@,
            ctx@,
            fact_views(disk@),
        ),
{
    let hunks = match engine::parse(patch) {
        Ok(hunks) => hunks,
        Err(message) => return Err(message),
    };
    if hunks.len() == 0 {
        return Err("No files were modified.".to_owned());
    }
    let changes = match prepare(&hunks, ctx, disk) {
        Ok(changes) => changes,
        Err(message) => return Err(message),
    };
    let backups = match plan_backups(&changes, disk) {
        Ok(backups) => backups,
        Err(message) => return Err(message),
    };
    let actions = plan_actions(&changes);
    Ok(Plan { changes, backups, actions })
}

/// The paths that a patch names, as far as they resolve: what has to be known of
/// the disk before the patch can be checked.
pub open spec fn named_paths(hunks: Seq<HunkView>, fs: FsView) -> Seq<Seq<char>>
    decreases hunks.len(),
{
    if hunks.len() == 0 {
        Seq::empty()
    } else {
        named_paths(hunks.drop_last(), fs) + hunk_paths(hunks.last(), fs)
    }
}

/// The path that `path` resolves to, if it does.
pub open spec fn resolved_path(path: Seq<char>, fs: FsView) -> Seq<Seq<char>> {
    match file_tools::resolution(fs.platform, path, fs.workspace) {
        Ok(target) => seq![target],
        Err(_) => Seq::empty(),
    }
}

/// The paths that one hunk names, as far as they resolve.
pub open spec fn hunk_paths(hunk: HunkView, fs: FsView) -> Seq<Seq<char>> {
    match hunk {
        HunkView::AddFile { path, contents } => resolved_path(path, fs),
        HunkView::DeleteFile { path } => resolved_path(path, fs),
        HunkView::UpdateFile { path, move_path, chunks } => match move_path {
            Some(dest) => resolved_path(path, fs) + resolved_path(dest, fs),
            None => resolved_path(path, fs),
        },
    }
}

/// Appends what `path` resolves to.
fn push_resolved(out: &mut Vec<String>, path: &str, ctx: &FsCtx)
    ensures
        text::views(final(out)@) == text::views(old(out)@) + resolved_path(path@, ctx@),
{
    let ghost before = text::views(out@);
    match file_tools::resolve_within(ctx.platform, path, &ctx.workspace) {
        Ok(target) => {
            out.push(target);
            assert(text::views(out@) =~= before + seq![target@]);
        },
        Err(_) => {
            assert(text::views(out@) =~= before + Seq::<Seq<char>>::empty());
        },
    }
}

/// The paths whose facts `apply` looks at.
pub fn paths_to_inspect(hunks: &Vec<Hunk>, ctx: &FsCtx) -> (r: Vec<String>)
    ensures
        text::views(r@) == named_paths(engine::hunk_views(hunks@), ctx@),
{
    let ghost all = engine::hunk_views(hunks@);
    let ghost fs = ctx@;
    let mut out: Vec<String> = Vec::new();
    let mut i: usize = 0;
    assert(text::views(out@) =~= named_paths(all.take(0), fs));
    while i < hunks.len()
        invariant
            i <= hunks@.len(),
            all == engine::hunk_views(hunks@),
            fs == ctx@,
            text::views(out@) == named_paths(all.take(i as int), fs),
        decreases hunks@.len() - i,
    {
        let ghost before = text::views(out@);
        match &hunks[i] {
            Hunk::AddFile { path, .. } => push_resolved(&mut out, path, ctx),
            Hunk::DeleteFile { path } => push_resolved(&mut out, path, ctx),
            Hunk::UpdateFile { path, move_path, .. } => {
                push_resolved(&mut out, path, ctx);
                if let Some(dest) = move_path {
                    push_resolved(&mut out, dest, ctx);
                }
            },
        }
        assert(text::views(out@) =~= before + hunk_paths(hunks@[i as int]@, fs));
        assert(all.take(i + 1).drop_last() =~= all.take(i as int));
        assert(all.take(i + 1).last() == hunks@[i as int]@);
        i += 1;
    }
    assert(all.take(all.len() as int) =~= all);
    out
}

// ---------------------------------------------------------------------------
// Guarded writes and rollback
// ---------------------------------------------------------------------------

/// The directory that holds `path`. The root, a prefix and the empty path have none.
pub open spec fn parent_of(p: Platform, path: Seq<char>) -> Option<Seq<char>> {
    let comps = file_tools::components_of(p, path);
    if comps.len() == 0 || comps.last() == file_tools::root_component(p) || (comps.len() == 1
        && file_tools::prefix_len(p, path) > 0) {
        None
    } else {
        Some(file_tools::rendered(p, comps.drop_last()))
    }
}

/// The directory that holds `path`.
pub fn parent_path(p: Platform, path: &str) -> (r: Option<String>)
    ensures
        text::opt_view(r) == parent_of(p, path@),
{
    let mut comps = file_tools::components(p, path);
    let ghost cs = file_tools::components_of(p, path@);
    let n: usize = comps.len();
    if n == 0 {
        return None;
    }
    assert(cs.last() == comps@[n - 1]@);
    if file_tools::is_root(p, &comps[n - 1]) || (n == 1 && file_tools::prefix_length(p, path)
        > 0) {
        return None;
    }
    let _ = comps.pop();
    assert(text::views(comps@) =~= cs.drop_last());
    let r = file_tools::render(p, &comps, 0);
    assert(cs.drop_last().skip(0) =~= cs.drop_last());
    Some(r)
}

/// Whether a file may be written right now: the path and the directory that
/// holds it are allowed, and so is the place where that directory really is
/// once links are followed.
pub open spec fn secure_permission(
    ctx: FsCtx,
    followed: FsCtx,
    path: Seq<char>,
    real_parent: Seq<char>,
) -> Result<(), Seq<char>> {
    match ctx.permission(path) {
        Err(message) => Err(message),
        Ok(_) => match parent_of(ctx.platform, path) {
            None => Ok(()),
            Some(parent) => match ctx.permission(parent) {
                Err(message) => Err(message),
                Ok(_) => followed.permission(real_parent),
            },
        },
    }
}

/// Checks a write again just before it is made. `followed` is the context with links
/// followed, and `real_parent` the directory that holds `path` with links
/// followed, so that a link inside the writable directory cannot lead a write
/// out of it.
pub fn secure_write(ctx: &FsCtx, followed: &FsCtx, path: &str, real_parent: &str) -> (r: Result<
    (),
    String,
>)
    ensures
        file_tools::unit_view(r) == secure_permission(*ctx, *followed, path@, real_parent@),
{
    match ctx.assert_write_allowed(path) {
        Err(message) => Err(message),
        Ok(()) => match parent_path(ctx.platform, path) {
            None => Ok(()),
            Some(parent) => match ctx.assert_write_allowed(&parent) {
                Err(message) => Err(message),
                Ok(()) => followed.assert_write_allowed(real_parent),
            },
        },
    }
}

/// What has to be done to put a saved file back.
#[derive(Debug, Clone, Copy, PartialEq, Eq, Structural)]
pub enum RestoreStep {
    /// Write the saved contents.
    WriteBack,
    /// Remove the file that was not there before.
    Remove,
    /// Nothing: there was no file, and there is none.
    Leave,
}

/// How to put back what was at `path`, where `kind` is what is there now.
pub open spec fn restoring(path: Seq<char>, existed: bool, kind: KindView) -> Result<
    RestoreStep,
    Seq<char>,
> {
    if existed {
        Ok(RestoreStep::WriteBack)
    } else {
        match kind {
            KindView::File => Ok(RestoreStep::Remove),
            KindView::Symlink => Ok(RestoreStep::Remove),
            KindView::Missing => Ok(RestoreStep::Leave),
            KindView::Dir => Err("cannot remove non-file "@ + path),
            KindView::Other => Err("cannot remove non-file "@ + path),
            KindView::Unreadable(e) => Err(e),
        }
    }
}

/// How to put a saved file back.
pub fn restore_backup(backup: &Backup, kind: &FileKind) -> (r: Result<RestoreStep, String>)
    ensures
        match r {
            Ok(step) => restoring(backup.path@, backup.existed, kind@) == Ok::<
                RestoreStep,
                Seq<char>,
            >(step),
            Err(e) => restoring(backup.path@, backup.existed, kind@) == Err::<
                RestoreStep,
                Seq<char>,
            >(e@),
        },
{
    if backup.existed {
        return Ok(RestoreStep::WriteBack);
    }
    match kind {
        FileKind::File => Ok(RestoreStep::Remove),
        FileKind::Symlink => Ok(RestoreStep::Remove),
        FileKind::Missing => Ok(RestoreStep::Leave),
        FileKind::Unreadable(e) => Err(e.clone()),
        FileKind::Dir => {
            let mut message = "cannot remove non-file ".to_owned();
            message.push_str(&backup.path);
            Err(message)
        },
        FileKind::Other => {
            let mut message = "cannot remove non-file ".to_owned();
            message.push_str(&backup.path);
            Err(message)
        },
    }
}

/// What is reported of a patch that failed half way: the fault, and the fault of
/// putting the files back if that failed too.
pub fn failure_message(fault: &str, restore_fault: &Option<String>) -> (r: String)
    ensures
        r@ == (match *restore_fault {
            Some(e) => fault@ + "; rollback failed: "@ + e@,
            None => fault@,
        }),
{
    let mut message = fault.to_owned();
    if let Some(e) = restore_fault {
        message.push_str("; rollback failed: ");
        message.push_str(e);
    }
    message
}

// ---------------------------------------------------------------------------
// Laws
// ---------------------------------------------------------------------------

/// Whether all paths that some changes touch may be written.
pub open spec fn all_allowed(
    changes: Seq<ChangeView>,
    fs: FsView,
) -> bool {
    forall|i: int, k: int|
        #![trigger paths_of(changes[i])[k]]
        0 <= i < changes.len() && 0 <= k < paths_of(changes[i]).len() ==> {
            &&& file_tools::write_permission(
                fs,
                paths_of(changes[i])[k],
            ) is Ok
            &&& file_tools::within(fs.platform, paths_of(changes[i])[k], fs.workspace)
        }
}

/// The latest change at a target is one of the changes and leaves a file there.
proof fn latest_at_lands(changes: Seq<ChangeView>, target: Seq<char>)
    ensures
        latest_at(changes, target) matches Some(i) ==> 0 <= i < changes.len() && lands_at(
            changes[i],
            target,
        ),
    decreases changes.len(),
{
    if changes.len() > 0 && !lands_at(changes.last(), target) {
        latest_at_lands(changes.drop_last(), target);
    }
}

/// Adding an allowed change keeps all changes allowed.
proof fn push_keeps_allowed(
    changes: Seq<ChangeView>,
    change: ChangeView,
    fs: FsView,
)
    requires
        all_allowed(changes, fs),
        all_allowed(seq![change], fs),
    ensures
        all_allowed(changes.push(change), fs),
{
    let more = changes.push(change);
    assert forall|i: int, k: int|
        #![trigger paths_of(more[i])[k]]
        0 <= i < more.len() && 0 <= k < paths_of(more[i]).len() implies {
        &&& file_tools::write_permission(fs, paths_of(more[i])[k]) is Ok
        &&& file_tools::within(fs.platform, paths_of(more[i])[k], fs.workspace)
    } by {
        if i < changes.len() {
            assert(paths_of(changes[i])[k] == paths_of(more[i])[k]);
        } else {
            assert(paths_of(seq![change][0])[k] == paths_of(more[i])[k]);
        }
    }
}

/// Other contents touch no other paths.
proof fn update_keeps_allowed(
    changes: Seq<ChangeView>,
    at: int,
    contents: Seq<char>,
    fs: FsView,
)
    requires
        all_allowed(changes, fs),
        0 <= at < changes.len(),
    ensures
        all_allowed(
            changes.update(at, with_contents(changes[at], contents)),
            fs,
        ),
{
    let fresh = changes.update(at, with_contents(changes[at], contents));
    assert forall|i: int, k: int|
        #![trigger paths_of(fresh[i])[k]]
        0 <= i < fresh.len() && 0 <= k < paths_of(fresh[i]).len() implies {
        &&& file_tools::write_permission(fs, paths_of(fresh[i])[k]) is Ok
        &&& file_tools::within(fs.platform, paths_of(fresh[i])[k], fs.workspace)
    } by {
        assert(paths_of(changes[i])[k] == paths_of(fresh[i])[k]);
    }
}

/// A hunk that passes touches only paths that may be written.
#[verifier::spinoff_prover]
#[verifier::rlimit(50)]
proof fn hunk_keeps_allowed(
    hunk: HunkView,
    fs: FsView,
    disk: Seq<FactView>,
    changes: Seq<ChangeView>,
)
    requires
        all_allowed(changes, fs),
    ensures
        with_hunk(hunk, fs, disk, changes) matches Ok(next) ==> all_allowed(
            next,
            fs,
        ),
{
    match hunk {
        HunkView::AddFile { path, contents } => {
            if let Ok(target) = file_target(path, fs, disk) {
                push_keeps_allowed(
                    changes,
                    ChangeView::Add { path: target, contents },
                    fs,
                );
            }
        },
        HunkView::DeleteFile { path } => {
            if let Ok(target) = file_target(path, fs, disk) {
                push_keeps_allowed(
                    changes,
                    ChangeView::Delete { path: target },
                    fs,
                );
            }
        },
        HunkView::UpdateFile { path, move_path, chunks } => {
            if let Ok(target) = target_of(path, fs) {
                latest_at_lands(changes, target);
                if let Ok(base) = base_of(changes, target, disk) {
                    if let Ok(contents) = replacements::updated(base, target, chunks) {
                        let folded = match latest_at(changes, target) {
                            Some(i) => {
                                update_keeps_allowed(changes, i, contents, fs);
                                changes.update(i, with_contents(changes[i], contents))
                            },
                            None => changes,
                        };
                        match move_path {
                            None => {
                                if latest_at(changes, target) is None {
                                    push_keeps_allowed(
                                        changes,
                                        ChangeView::Update { path: target, contents },
                                        fs,
                                    );
                                }
                            },
                            Some(dest) => {
                                if let Ok(to) = move_target(
                                    target,
                                    dest,
                                    fs,
                                    disk,
                                ) {
                                    push_keeps_allowed(
                                        folded,
                                        ChangeView::Move { from: target, to, contents },
                                        fs,
                                    );
                                }
                            },
                        }
                    }
                }
            }
        },
    }
}

/// Every path that a prepared patch touches lies inside the workspace and may be
/// written.
pub proof fn law_prepared_paths_are_allowed(
    hunks: Seq<HunkView>,
    i: int,
    fs: FsView,
    disk: Seq<FactView>,
    changes: Seq<ChangeView>,
)
    requires
        all_allowed(changes, fs),
    ensures
        prepared_from(hunks, i, fs, disk, changes) matches Ok(done)
            ==> all_allowed(done, fs),
    decreases hunks.len() - i,
{
    if 0 <= i < hunks.len() {
        hunk_keeps_allowed(hunks[i], fs, disk, changes);
        if let Ok(next) = with_hunk(hunks[i], fs, disk, changes) {
            law_prepared_paths_are_allowed(hunks, i + 1, fs, disk, next);
        }
    }
}

/// A patch that is accepted changes only files inside the workspace and under
/// the writable directory, and none in the metadata directory.
pub proof fn law_accepted_patch_is_confined(
    patch: Seq<char>,
    fs: FsView,
    disk: Seq<FactView>,
)
    ensures
        planned(patch, fs, disk) matches Ok(plan) ==> all_allowed(
            plan.changes,
            fs,
        ),
{
    if let Ok(hunks) = engine::parsed(patch) {
        law_prepared_paths_are_allowed(hunks, 0, fs, disk, Seq::empty());
    }
}

/// A second update of a file starts from what the first one leaves, so that both
/// take effect.
pub proof fn law_updates_chain(
    changes: Seq<ChangeView>,
    target: Seq<char>,
    first: Seq<char>,
    disk: Seq<FactView>,
)
    ensures
        base_of(with_update(changes, target, first), target, disk) == Ok::<Seq<char>, Seq<char>>(
            first,
        ),
        base_of(
            changes.push(ChangeView::Add { path: target, contents: first }),
            target,
            disk,
        ) == Ok::<Seq<char>, Seq<char>>(first),
{
    latest_at_lands(changes, target);
    match latest_at(changes, target) {
        Some(i) => {
            latest_after_fold(changes, target, i, first);
        },
        None => {},
    }
}

/// New contents do not change which change is the latest at a target.
proof fn latest_after_fold(
    changes: Seq<ChangeView>,
    target: Seq<char>,
    at: int,
    contents: Seq<char>,
)
    requires
        latest_at(changes, target) == Some(at),
        0 <= at < changes.len(),
    ensures
        latest_at(changes.update(at, with_contents(changes[at], contents)), target) == Some(at),
    decreases changes.len(),
{
    let fresh = changes.update(at, with_contents(changes[at], contents));
    if at < changes.len() - 1 {
        latest_after_fold(changes.drop_last(), target, at, contents);
        assert(fresh.drop_last() =~= changes.drop_last().update(
            at,
            with_contents(changes.drop_last()[at], contents),
        ));
    } else if !lands_at(changes.last(), target) {
        latest_at_lands(changes.drop_last(), target);
    }
}

/// The files of a disk after one step.
pub open spec fn after_action(
    files: Map<Seq<char>, Seq<char>>,
    action: ActionView,
) -> Map<Seq<char>, Seq<char>> {
    match action {
        ActionView::Write { path, contents } => files.insert(path, contents),
        ActionView::Remove { path } => files.remove(path),
    }
}

/// The files of a disk after some steps.
pub open spec fn after_actions(
    files: Map<Seq<char>, Seq<char>>,
    actions: Seq<ActionView>,
) -> Map<Seq<char>, Seq<char>>
    decreases actions.len(),
{
    if actions.len() == 0 {
        files
    } else {
        after_action(after_actions(files, actions.drop_last()), actions.last())
    }
}

/// The path that a step touches.
pub open spec fn action_path(action: ActionView) -> Seq<char> {
    match action {
        ActionView::Write { path, contents } => path,
        ActionView::Remove { path } => path,
    }
}

/// The files of a disk with all saved ones put back as they were in `original`.
pub open spec fn after_restore(
    files: Map<Seq<char>, Seq<char>>,
    original: Map<Seq<char>, Seq<char>>,
    backups: Seq<BackupView>,
) -> Map<Seq<char>, Seq<char>> {
    Map::new(
        |p: Seq<char>| if saved(backups, p) {
            original.dom().contains(p)
        } else {
            files.dom().contains(p)
        },
        |p: Seq<char>| if saved(backups, p) {
            original[p]
        } else {
            files[p]
        },
    )
}

/// Steps leave paths alone that they do not touch.
proof fn actions_leave_others(
    files: Map<Seq<char>, Seq<char>>,
    actions: Seq<ActionView>,
    p: Seq<char>,
)
    requires
        forall|i: int| 0 <= i < actions.len() ==> action_path(#[trigger] actions[i]) != p,
    ensures
        after_actions(files, actions).dom().contains(p) == files.dom().contains(p),
        files.dom().contains(p) ==> after_actions(files, actions)[p] == files[p],
    decreases actions.len(),
{
    if actions.len() > 0 {
        let front = actions.drop_last();
        assert forall|i: int| 0 <= i < front.len() implies action_path(#[trigger] front[i])
            != p by {
            assert(front[i] == actions[i]);
        }
        actions_leave_others(files, front, p);
        assert(action_path(actions[actions.len() - 1]) != p);
    }
}

/// Every path that the steps touch is one of those of the changes.
proof fn actions_touch_paths(changes: Seq<ChangeView>, i: int)
    requires
        0 <= i < all_actions(changes).len(),
    ensures
        all_paths(changes).contains(action_path(all_actions(changes)[i])),
    decreases changes.len(),
{
    let front = changes.drop_last();
    let before = all_actions(front);
    let p = action_path(all_actions(changes)[i]);
    if i < before.len() {
        actions_touch_paths(front, i);
        let k = choose|k: int| 0 <= k < all_paths(front).len() && all_paths(front)[k] == p;
        assert(all_paths(changes)[k] == p);
    } else {
        let j = i - before.len();
        let last = changes.last();
        assert(all_actions(changes)[i] == actions_of(last)[j]);
        let n = all_paths(front).len();
        match last {
            ChangeView::Move { from, to, contents } => {
                if j == 0 {
                    assert(all_paths(changes)[n as int + 1] == p);
                } else {
                    assert(all_paths(changes)[n as int] == p);
                }
            },
            _ => {
                assert(all_paths(changes)[n as int] == p);
            },
        }
    }
}

/// Every path is saved.
proof fn backups_cover(
    disk: Seq<FactView>,
    paths: Seq<Seq<char>>,
    i: int,
    done: Seq<BackupView>,
    p: Seq<char>,
)
    requires
        0 <= i <= paths.len(),
        backups_from(disk, paths, i, done) is Ok,
        saved(done, p) || exists|k: int| i <= k < paths.len() && paths[k] == p,
    ensures
        saved(backups_from(disk, paths, i, done)->Ok_0, p),
    decreases paths.len() - i,
{
    if i < paths.len() {
        if saved(done, paths[i]) {
            backups_cover(disk, paths, i + 1, done, p);
        } else {
            let existed = backup_of(disk, paths[i])->Ok_0;
            let next = done.push(BackupView { path: paths[i], existed });
            assert(next[done.len() as int].path == paths[i]);
            if saved(done, p) {
                let k = choose|k: int| 0 <= k < done.len() && (#[trigger] done[k]).path == p;
                assert(next[k].path == p);
            }
            backups_cover(disk, paths, i + 1, next, p);
        }
    }
}

/// The steps of all changes up to a place, and of those behind it.
proof fn actions_split(changes: Seq<ChangeView>, k: int)
    requires
        0 <= k <= changes.len(),
    ensures
        all_actions(changes) == all_actions(changes.take(k)) + all_actions(changes.skip(k)),
    decreases changes.len(),
{
    if k == changes.len() {
        assert(changes.take(k) =~= changes);
        assert(changes.skip(k) =~= Seq::<ChangeView>::empty());
        assert(all_actions(changes) + Seq::<ActionView>::empty() =~= all_actions(changes));
    } else {
        let front = changes.drop_last();
        actions_split(front, k);
        assert(front.take(k) =~= changes.take(k));
        assert(front.skip(k) =~= changes.skip(k).drop_last());
        assert(changes.skip(k).last() == changes.last());
        assert(all_actions(changes) =~= all_actions(changes.take(k)) + all_actions(
            changes.skip(k),
        ));
    }
}

/// Steps that are taken one after the other.
proof fn actions_follow(
    files: Map<Seq<char>, Seq<char>>,
    a: Seq<ActionView>,
    b: Seq<ActionView>,
)
    ensures
        after_actions(files, a + b) == after_actions(after_actions(files, a), b),
    decreases b.len(),
{
    if b.len() == 0 {
        assert(a + b =~= a);
    } else {
        assert((a + b).drop_last() =~= a + b.drop_last());
        assert((a + b).last() == b.last());
        actions_follow(files, a, b.drop_last());
    }
}

/// Changes leave paths alone that they do not name.
proof fn changes_leave_others(
    files: Map<Seq<char>, Seq<char>>,
    changes: Seq<ChangeView>,
    p: Seq<char>,
)
    requires
        !all_paths(changes).contains(p),
    ensures
        after_actions(files, all_actions(changes)).dom().contains(p) == files.dom().contains(p),
        files.dom().contains(p) ==> after_actions(files, all_actions(changes))[p] == files[p],
{
    let steps = all_actions(changes);
    assert forall|i: int| 0 <= i < steps.len() implies action_path(#[trigger] steps[i]) != p by {
        actions_touch_paths(changes, i);
    }
    actions_leave_others(files, steps, p);
}

/// A patch does what it says: once all its steps are taken, each file is as the last
/// change to it left it. An added, updated or moved file holds its contents, a deleted
/// one is gone, and a moved one is gone from where it was. Files that no change names
/// are as they were.
pub proof fn law_changes_take_effect(
    changes: Seq<ChangeView>,
    original: Map<Seq<char>, Seq<char>>,
    k: int,
    p: Seq<char>,
)
    requires
        0 <= k < changes.len(),
        !all_paths(changes.skip(k + 1)).contains(p),
    ensures
        ({
            let files = after_actions(original, all_actions(changes));
            match changes[k] {
                ChangeView::Add { path, contents } => p == path ==> files.dom().contains(p)
                    && files[p] == contents,
                ChangeView::Update { path, contents } => p == path ==> files.dom().contains(p)
                    && files[p] == contents,
                ChangeView::Delete { path } => p == path ==> !files.dom().contains(p),
                ChangeView::Move { from, to, contents } => {
                    &&& p == from ==> !files.dom().contains(p)
                    &&& p == to && from != to ==> files.dom().contains(p) && files[p] == contents
                },
            }
        }),
        !all_paths(changes).contains(p) ==> {
            let files = after_actions(original, all_actions(changes));
            &&& files.dom().contains(p) == original.dom().contains(p)
            &&& original.dom().contains(p) ==> files[p] == original[p]
        },
{
    let upto = changes.take(k + 1);
    let rest = changes.skip(k + 1);
    actions_split(changes, k + 1);
    actions_follow(original, all_actions(upto), all_actions(rest));
    let mid = after_actions(original, all_actions(upto));
    changes_leave_others(mid, rest, p);
    assert(upto.last() == changes[k]);
    let earlier = after_actions(original, all_actions(upto.drop_last()));
    actions_follow(original, all_actions(upto.drop_last()), actions_of(changes[k]));
    match changes[k] {
        ChangeView::Move { from, to, contents } => {
            let steps = actions_of(changes[k]);
            assert(steps.drop_last() =~= seq![ActionView::Write { path: to, contents }]);
            assert(steps.drop_last().drop_last() =~= Seq::<ActionView>::empty());
            let first = after_actions(earlier, steps.drop_last());
            assert(steps.drop_last().last() == ActionView::Write { path: to, contents });
            assert(after_actions(earlier, steps.drop_last().drop_last()) == earlier);
            assert(first == earlier.insert(to, contents));
            assert(steps.last() == ActionView::Remove { path: from });
            assert(mid == first.remove(from));
        },
        _ => {
            let steps = actions_of(changes[k]);
            assert(steps.drop_last() =~= Seq::<ActionView>::empty());
        },
    }
    if !all_paths(changes).contains(p) {
        changes_leave_others(original, changes, p);
    }
}

/// However many of its steps were taken, putting the saved files back leaves the
/// disk as it was before the patch.
pub proof fn law_rollback_restores(
    patch: Seq<char>,
    fs: FsView,
    disk: Seq<FactView>,
    original: Map<Seq<char>, Seq<char>>,
    taken: int,
)
    requires
        planned(patch, fs, disk) is Ok,
        0 <= taken <= planned(patch, fs, disk)->Ok_0.actions.len(),
    ensures
        ({
            let plan = planned(patch, fs, disk)->Ok_0;
            after_restore(
                after_actions(original, plan.actions.take(taken)),
                original,
                plan.backups,
            ) == original
        }),
{
    let plan = planned(patch, fs, disk)->Ok_0;
    let steps = plan.actions.take(taken);
    let files = after_actions(original, steps);
    let back = after_restore(files, original, plan.backups);
    assert forall|p: Seq<char>| back.dom().contains(p) == original.dom().contains(p) && (
    original.dom().contains(p) ==> #[trigger] back[p] == original[p]) by {
        if !saved(plan.backups, p) {
            assert forall|i: int| 0 <= i < steps.len() implies action_path(#[trigger] steps[i])
                != p by {
                assert(steps[i] == plan.actions[i]);
                actions_touch_paths(plan.changes, i);
                let paths = all_paths(plan.changes);
                let q = action_path(plan.actions[i]);
                let k = choose|k: int| 0 <= k < paths.len() && paths[k] == q;
                assert(paths[k] == q);
                backups_cover(disk, paths, 0, Seq::empty(), q);
            }
            actions_leave_others(original, steps, p);
        }
    }
    assert forall|p: Seq<char>| #[trigger] back.dom().contains(p) == original.dom().contains(
        p,
    ) by {
        assert(back[p] == back[p]);
    }
    assert(back =~= original);
}

/// Where a hunk leads: what its path resolves to, if that lies in the workspace and may be
/// written.
pub open spec fn leads_to(path: Seq<char>, fs: FsView, target: Seq<char>) -> bool {
    &&& file_tools::resolution(fs.platform, path, fs.workspace) == Ok::<Seq<char>, Seq<char>>(
        target,
    )
    &&& file_tools::write_permission(fs, target) is Ok
}

/// What each hunk of a patch comes to: an added file is added at the place that its path leads
/// to, with its contents; a deleted one is deleted there; an updated one gets what its chunks
/// make of what is there, and with a new path it is moved. What is there is what the hunks
/// before left, or else what is on disk. A hunk whose path leads out of the workspace, or where
/// nothing may be written, is refused.
pub proof fn law_hunks_come_to_their_changes(
    hunk: HunkView,
    fs: FsView,
    disk: Seq<FactView>,
    changes: Seq<ChangeView>,
    target: Seq<char>,
    base: Seq<char>,
    fresh: Seq<char>,
)
    ensures
        match hunk {
            HunkView::AddFile { path, contents } => {
                &&& leads_to(path, fs, target) && !(kind_of(disk, target) is Dir) ==> with_hunk(
                    hunk,
                    fs,
                    disk,
                    changes,
                ) == Ok::<Seq<ChangeView>, Seq<char>>(
                    changes.push(ChangeView::Add { path: target, contents }),
                )
                &&& (forall|t: Seq<char>| !#[trigger] leads_to(path, fs, t)) ==> with_hunk(
                    hunk,
                    fs,
                    disk,
                    changes,
                ) is Err
            },
            HunkView::DeleteFile { path } => {
                &&& leads_to(path, fs, target) && kind_of(disk, target) is File ==> with_hunk(
                    hunk,
                    fs,
                    disk,
                    changes,
                ) == Ok::<Seq<ChangeView>, Seq<char>>(
                    changes.push(ChangeView::Delete { path: target }),
                )
                &&& leads_to(path, fs, target) && kind_of(disk, target) is Missing ==> with_hunk(
                    hunk,
                    fs,
                    disk,
                    changes,
                ) is Err
                &&& (forall|t: Seq<char>| !#[trigger] leads_to(path, fs, t)) ==> with_hunk(
                    hunk,
                    fs,
                    disk,
                    changes,
                ) is Err
            },
            HunkView::UpdateFile { path, move_path, chunks } => {
                &&& leads_to(path, fs, target) && base_of(changes, target, disk) == Ok::<
                    Seq<char>,
                    Seq<char>,
                >(base) && replacements::updated(base, target, chunks) == Ok::<
                    Seq<char>,
                    Seq<char>,
                >(fresh) && move_path is None ==> (with_hunk(hunk, fs, disk, changes) matches Ok(
                    next,
                ) && base_of(next, target, disk) == Ok::<Seq<char>, Seq<char>>(fresh))
                &&& leads_to(path, fs, target) && base_of(changes, target, disk) == Ok::<
                    Seq<char>,
                    Seq<char>,
                >(base) && replacements::updated(base, target, chunks) is Err ==> with_hunk(
                    hunk,
                    fs,
                    disk,
                    changes,
                ) is Err
                &&& leads_to(path, fs, target) && base_of(changes, target, disk) is Err
                    ==> with_hunk(hunk, fs, disk, changes) is Err
                &&& (forall|t: Seq<char>| !#[trigger] leads_to(path, fs, t)) ==> with_hunk(
                    hunk,
                    fs,
                    disk,
                    changes,
                ) is Err
            },
        },
{
    let path = match hunk {
        HunkView::AddFile { path, .. } => path,
        HunkView::DeleteFile { path } => path,
        HunkView::UpdateFile { path, .. } => path,
    };
    if let Ok(t) = target_of(path, fs) {
        assert(leads_to(path, fs, t));
    }
    law_updates_chain(changes, target, fresh, disk);
}

/// A moved file comes with what its chunks make of it: the move is the last change, from where
/// the path leads to where the new path leads, and never onto itself.
pub proof fn law_moves_carry_the_update(
    path: Seq<char>,
    to: Seq<char>,
    chunks: Seq<ChunkView>,
    fs: FsView,
    disk: Seq<FactView>,
    changes: Seq<ChangeView>,
)
    ensures
        with_hunk(
            HunkView::UpdateFile { path, move_path: Some(to), chunks },
            fs,
            disk,
            changes,
        ) matches Ok(next) ==> {
            &&& next.len() == changes.len() + 1
            &&& next.last() matches ChangeView::Move { from, to: there, contents }
            &&& leads_to(path, fs, from)
            &&& leads_to(to, fs, there)
            &&& from != there
            &&& !(kind_of(disk, there) is Dir)
            &&& base_of(changes, from, disk) matches Ok(base)
            &&& replacements::updated(base, from, chunks) == Ok::<Seq<char>, Seq<char>>(contents)
        },
{
    if let Ok(target) = target_of(path, fs) {
        latest_at_lands(changes, target);
    }
}

/// Without a change at it, a file is updated from what is on disk.
pub proof fn law_updates_start_from_the_disk(
    changes: Seq<ChangeView>,
    target: Seq<char>,
    disk: Seq<FactView>,
    i: int,
)
    requires
        forall|k: int|
            0 <= k < changes.len() ==> !all_paths(seq![#[trigger] changes[k]]).contains(target),
        0 <= i < disk.len(),
        disk[i].path == target,
        forall|k: int| 0 <= k < i ==> (#[trigger] disk[k]).path != target,
    ensures
        base_of(changes, target, disk) == disk[i].contents,
        kind_of(disk, target) == disk[i].kind,
{
    untouched_has_no_change(changes, target);
    fact_is_first(disk, target, 0, i);
}

/// What no change names, no change leaves.
proof fn untouched_has_no_change(changes: Seq<ChangeView>, target: Seq<char>)
    requires
        forall|k: int|
            0 <= k < changes.len() ==> !all_paths(seq![#[trigger] changes[k]]).contains(target),
    ensures
        latest_at(changes, target) is None,
    decreases changes.len(),
{
    if changes.len() > 0 {
        let front = changes.drop_last();
        assert forall|k: int| 0 <= k < front.len() implies !all_paths(
            seq![#[trigger] front[k]],
        ).contains(target) by {
            assert(front[k] == changes[k]);
        }
        untouched_has_no_change(front, target);
        let last = changes[changes.len() - 1];
        let one = seq![last];
        assert(!all_paths(one).contains(target));
        assert(one.drop_last() =~= Seq::<ChangeView>::empty());
        assert(all_paths(one) =~= paths_of(last)) by {
            assert(one.last() == last);
            assert(all_paths(one.drop_last()) =~= Seq::<Seq<char>>::empty());
        }
        if lands_at(last, target) {
            match last {
                ChangeView::Move { from, to, contents } => {
                    assert(paths_of(last)[1] == target);
                },
                _ => {
                    assert(paths_of(last)[0] == target);
                },
            }
            assert(paths_of(last).contains(target));
        }
    }
}

/// The first fact on a path is the one that counts.
proof fn fact_is_first(disk: Seq<FactView>, path: Seq<char>, from: int, i: int)
    requires
        0 <= from <= i < disk.len(),
        disk[i].path == path,
        forall|k: int| from <= k < i ==> (#[trigger] disk[k]).path != path,
    ensures
        fact_from(disk, path, from) == Some(disk[i]),
    decreases i - from,
{
    if from < i {
        assert(disk[from].path != path);
        fact_is_first(disk, path, from + 1, i);
    }
}

/// A patch is taken hunk by hunk, in order, and as a whole or not at all: its changes are those
/// that the hunks come to one after the other, and where one of them is refused, nothing is
/// done.
pub proof fn law_patches_are_taken_whole(
    patch: Seq<char>,
    fs: FsView,
    disk: Seq<FactView>,
)
    ensures
        planned(patch, fs, disk) matches Ok(plan) ==> {
            &&& engine::parsed(patch) matches Ok(hunks)
            &&& hunks.len() > 0
            &&& exists|steps: Seq<Seq<ChangeView>>| #[trigger]
                are_steps(hunks, fs, disk, steps) && steps.last() == plan.changes
        },
{
    if let Ok(plan) = planned(patch, fs, disk) {
        let hunks = engine::parsed(patch)->Ok_0;
        let steps = steps_of(hunks, 0, fs, disk, seq![Seq::<ChangeView>::empty()]);
        assert(are_steps(hunks, fs, disk, steps));
    }
}

/// Whether each of some lists of changes comes from the one before it by the next hunk, the
/// first being empty.
pub open spec fn are_steps(
    hunks: Seq<HunkView>,
    fs: FsView,
    disk: Seq<FactView>,
    steps: Seq<Seq<ChangeView>>,
) -> bool {
    &&& steps.len() == hunks.len() + 1
    &&& steps[0] == Seq::<ChangeView>::empty()
    &&& forall|i: int|
        0 <= i < hunks.len() ==> with_hunk(#[trigger] hunks[i], fs, disk, steps[i]) == Ok::<
            Seq<ChangeView>,
            Seq<char>,
        >(steps[i + 1])
}

/// The changes after each hunk.
proof fn steps_of(
    hunks: Seq<HunkView>,
    i: int,
    fs: FsView,
    disk: Seq<FactView>,
    done: Seq<Seq<ChangeView>>,
) -> (all: Seq<Seq<ChangeView>>)
    requires
        0 <= i <= hunks.len(),
        done.len() == i + 1,
        done[0] == Seq::<ChangeView>::empty(),
        prepared_from(hunks, i, fs, disk, done[i]) is Ok,
        forall|k: int|
            0 <= k < i ==> with_hunk(#[trigger] hunks[k], fs, disk, done[k]) == Ok::<
                Seq<ChangeView>,
                Seq<char>,
            >(done[k + 1]),
    ensures
        are_steps(hunks, fs, disk, all),
        Ok::<Seq<ChangeView>, Seq<char>>(all.last()) == prepared_from(
            hunks,
            i,
            fs,
            disk,
            done[i],
        ),
    decreases hunks.len() - i,
{
    if i < hunks.len() {
        let next = with_hunk(hunks[i], fs, disk, done[i])->Ok_0;
        steps_of(hunks, i + 1, fs, disk, done.push(next))
    } else {
        done
    }
}

/// A file may be written only where its path is allowed, and the place where its directory
/// really is.
pub proof fn law_links_lead_no_write_astray(
    ctx: FsCtx,
    followed: FsCtx,
    path: Seq<char>,
    real_parent: Seq<char>,
)
    ensures
        secure_permission(ctx, followed, path, real_parent) is Ok ==> {
            &&& file_tools::write_permission(ctx@, path) is Ok
            &&& parent_of(ctx.platform, path) matches Some(parent)
                ==> file_tools::write_permission(ctx@, parent) is Ok
                && file_tools::write_permission(followed@, real_parent) is Ok
        },
{
}

} // verus!
