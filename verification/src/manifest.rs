//! Manifests: which files an agent has in its directory, with editable
//! descriptions and notes.
//!
//! The list of files follows the disk; descriptions are kept for files that are
//! still there. Reading and writing the disk and the clock are left to the
//! caller.

use crate::agent;
use crate::agent::AgentType;
use crate::codex_shell::Platform;
use crate::diff_render;
use crate::file_tools;
use crate::json;
use crate::json::{ArgValue, ArgValueView, ArgView, Json, JsonView, Shape, ShapeView};
use crate::order;
use crate::text;
use vstd::prelude::*;

pub mod disk;
pub mod notes;
pub mod updates;

verus! {

// ---------------------------------------------------------------------------
// Records
// ---------------------------------------------------------------------------

/// One file of a manifest.
#[derive(Debug, Clone, PartialEq, Eq)]
pub struct ManifestFile {
    pub path: String,
    pub description: String,
    pub description_updated_at: Option<String>,
    pub file_updated_at: Option<String>,
}

/// The manifest of an agent.
#[derive(Debug, Clone, PartialEq, Eq)]
pub struct AgentManifest {
    pub agent_type: String,
    pub updated_at: String,
    pub files: Vec<ManifestFile>,
    pub notes: String,
    pub notes_updated_at: Option<String>,
}

/// One file of a manifest.
#[verifier::ext_equal]
pub struct FileView {
    pub path: Seq<char>,
    pub description: Seq<char>,
    pub description_updated_at: Option<Seq<char>>,
    pub file_updated_at: Option<Seq<char>>,
}

/// The manifest of an agent.
#[verifier::ext_equal]
pub struct ManifestView {
    pub agent_type: Seq<char>,
    pub updated_at: Seq<char>,
    pub files: Seq<FileView>,
    pub notes: Seq<char>,
    pub notes_updated_at: Option<Seq<char>>,
}

impl View for ManifestFile {
    type V = FileView;

    open spec fn view(&self) -> FileView {
        FileView {
            path: self.path@,
            description: self.description@,
            description_updated_at: text::opt_view(self.description_updated_at),
            file_updated_at: text::opt_view(self.file_updated_at),
        }
    }
}

/// The texts of some files.
pub open spec fn file_views(v: Seq<ManifestFile>) -> Seq<FileView> {
    Seq::new(v.len(), |i: int| v[i]@)
}

impl View for AgentManifest {
    type V = ManifestView;

    open spec fn view(&self) -> ManifestView {
        ManifestView {
            agent_type: self.agent_type@,
            updated_at: self.updated_at@,
            files: file_views(self.files@),
            notes: self.notes@,
            notes_updated_at: text::opt_view(self.notes_updated_at),
        }
    }
}

impl Default for ManifestFile {
    /// A file without a path and without a description.
    fn default() -> (r: Self)
        ensures
            r@ == (FileView {
                path: Seq::empty(),
                description: Seq::empty(),
                description_updated_at: None,
                file_updated_at: None,
            }),
    {
        ManifestFile {
            path: String::new(),
            description: String::new(),
            description_updated_at: None,
            file_updated_at: None,
        }
    }
}

impl ManifestFile {
    /// The same record again.
    pub fn copy(&self) -> (r: Self)
        ensures
            r@ == self@,
    {
        ManifestFile {
            path: self.path.clone(),
            description: self.description.clone(),
            description_updated_at: text::copy_opt(&self.description_updated_at),
            file_updated_at: text::copy_opt(&self.file_updated_at),
        }
    }
}

impl AgentManifest {
    /// The same manifest again.
    pub fn copy(&self) -> (r: Self)
        ensures
            r@ == self@,
    {
        let mut files: Vec<ManifestFile> = Vec::new();
        let mut i: usize = 0;
        let ghost all = file_views(self.files@);
        while i < self.files.len()
            invariant
                i <= self.files@.len(),
                all == file_views(self.files@),
                file_views(files@) == all.take(i as int),
            decreases self.files@.len() - i,
        {
            let ghost before = file_views(files@);
            assert(all[i as int] == self.files@[i as int]@);
            let f = self.files[i].copy();
            files.push(f);
            assert(file_views(files@) =~= before.push(f@));
            assert(all.take(i + 1) =~= all.take(i as int).push(f@));
            i += 1;
        }
        assert(all.take(all.len() as int) =~= all);
        AgentManifest {
            agent_type: self.agent_type.clone(),
            updated_at: self.updated_at.clone(),
            files,
            notes: self.notes.clone(),
            notes_updated_at: text::copy_opt(&self.notes_updated_at),
        }
    }
}

// ---------------------------------------------------------------------------
// What belongs into a manifest
// ---------------------------------------------------------------------------

/// The directory whose files an agent has in its manifest.
pub open spec fn manifest_dir(agent: AgentType) -> Seq<char> {
    match agent {
        AgentType::Main => "Outline"@,
        AgentType::DataAnalysis => "Data/Processed"@,
        AgentType::Plotting => "Plots"@,
        AgentType::Theory => "Theory"@,
        AgentType::Report => "Report"@,
    }
}

/// Directories that are passed over.
pub open spec fn ignored_dir(name: Seq<char>) -> bool {
    name == ".git"@ || name == "__pycache__"@ || name == ".autoreport"@ || name == "target"@
}

/// Files that are passed over: leftovers of editors and of typesetting.
pub open spec fn ignored_file(name: Seq<char>) -> bool {
    ||| name == ".DS_Store"@
    ||| name == "Thumbs.db"@
    ||| text::ends(name, "~"@)
    ||| text::ends(name, ".tmp"@)
    ||| text::ends(name, ".bak"@)
    ||| text::ends(name, ".swp"@)
    ||| text::ends(name, ".swo"@)
    ||| text::ends(name, ".aux"@)
    ||| text::ends(name, ".log"@)
    ||| text::ends(name, ".out"@)
    ||| text::ends(name, ".toc"@)
    ||| text::ends(name, ".lof"@)
    ||| text::ends(name, ".lot"@)
    ||| text::ends(name, ".fls"@)
    ||| text::ends(name, ".fdb_latexmk"@)
    ||| text::ends(name, ".synctex.gz"@)
    ||| text::ends(name, ".bbl"@)
    ||| text::ends(name, ".blg"@)
    ||| text::ends(name, ".bcf"@)
    ||| text::ends(name, ".dvi"@)
    ||| text::ends(name, ".ps"@)
    ||| text::ends(name, ".idx"@)
    ||| text::ends(name, ".ilg"@)
    ||| text::ends(name, ".ind"@)
    ||| text::ends(name, ".nav"@)
    ||| text::ends(name, ".snm"@)
    ||| text::ends(name, ".vrb"@)
}

/// The directory whose files an agent has in its manifest.
pub fn manifest_dirs(agent: AgentType) -> (r: &'static str)
    ensures
        r@ == manifest_dir(agent),
{
    match agent {
        AgentType::Main => "Outline",
        AgentType::DataAnalysis => "Data/Processed",
        AgentType::Plotting => "Plots",
        AgentType::Theory => "Theory",
        AgentType::Report => "Report",
    }
}

/// Whether a directory is passed over.
pub fn should_ignore_dir(name: &str) -> (r: bool)
    ensures
        r == ignored_dir(name@),
{
    text::same(name, ".git") || text::same(name, "__pycache__") || text::same(name, ".autoreport")
        || text::same(name, "target")
}

/// Whether a file is passed over.
pub fn should_ignore_file(name: &str) -> (r: bool)
    ensures
        r == ignored_file(name@),
{
    text::same(name, ".DS_Store") || text::same(name, "Thumbs.db") || text::ends_with(name, "~")
        || text::ends_with(name, ".tmp") || text::ends_with(name, ".bak") || text::ends_with(
        name,
        ".swp",
    ) || text::ends_with(name, ".swo") || text::ends_with(name, ".aux") || text::ends_with(
        name,
        ".log",
    ) || text::ends_with(name, ".out") || text::ends_with(name, ".toc") || text::ends_with(
        name,
        ".lof",
    ) || text::ends_with(name, ".lot") || text::ends_with(name, ".fls") || text::ends_with(
        name,
        ".fdb_latexmk",
    ) || text::ends_with(name, ".synctex.gz") || text::ends_with(name, ".bbl") || text::ends_with(
        name,
        ".blg",
    ) || text::ends_with(name, ".bcf") || text::ends_with(name, ".dvi") || text::ends_with(
        name,
        ".ps",
    ) || text::ends_with(name, ".idx") || text::ends_with(name, ".ilg") || text::ends_with(
        name,
        ".ind",
    ) || text::ends_with(name, ".nav") || text::ends_with(name, ".snm") || text::ends_with(
        name,
        ".vrb",
    )
}

// ---------------------------------------------------------------------------
// Scanning
// ---------------------------------------------------------------------------

/// How deep a scan goes.
pub const MAX_DEPTH: usize = 16;

/// How many files a scan finds at most.
pub const MAX_ENTRIES: usize = 50_000;

/// What an entry of a scanned directory is, links not followed.
#[derive(Debug, Clone, Copy, PartialEq, Eq, Structural)]
pub enum ScanKind {
    Dir,
    File,
    Symlink,
    /// It could not be looked up.
    Unreadable,
}

/// An entry of a scanned directory: its name, what it is, when it was changed,
/// and what it holds if it is a directory that could be read.
#[derive(Debug)]
pub struct ScanNode {
    pub name: String,
    pub kind: ScanKind,
    pub updated_at: Option<String>,
    pub children: Vec<ScanNode>,
}

/// The names of some entries.
pub open spec fn node_names(nodes: Seq<ScanNode>) -> Seq<Seq<char>> {
    Seq::new(nodes.len(), |i: int| nodes[i].name@)
}

/// The record of a file that is found at `path`, by its path below the
/// workspace.
pub open spec fn found_file(
    p: Platform,
    workspace: Seq<char>,
    path: Seq<char>,
    updated_at: Option<Seq<char>>,
) -> Option<FileView> {
    match file_tools::stripped(p, path, workspace) {
        None => None,
        Some(rel) => Some(
            FileView {
                path: text::replaced(rel, '\\', '/'),
                description: Seq::empty(),
                description_updated_at: None,
                file_updated_at: updated_at,
            },
        ),
    }
}

/// The files found in the directory at `dir` and below it, behind those found
/// before. A scan stops at a depth and at a number of files.
pub open spec fn walked(
    p: Platform,
    workspace: Seq<char>,
    dir: Seq<char>,
    nodes: Seq<ScanNode>,
    depth: nat,
    done: Seq<FileView>,
) -> Seq<FileView>
    decreases MAX_DEPTH + 1 - depth, 1nat, 0nat,
{
    if depth > MAX_DEPTH || done.len() >= MAX_ENTRIES {
        done
    } else {
        walked_from(p, workspace, dir, nodes, order::order_of(node_names(nodes)), 0, depth, done)
    }
}

/// As `walked`, for the entries at the given places from `k` on.
pub open spec fn walked_from(
    p: Platform,
    workspace: Seq<char>,
    dir: Seq<char>,
    nodes: Seq<ScanNode>,
    at: Seq<int>,
    k: int,
    depth: nat,
    done: Seq<FileView>,
) -> Seq<FileView>
    decreases MAX_DEPTH + 1 - depth, 0nat, at.len() - k,
{
    if k < 0 || k >= at.len() || done.len() >= MAX_ENTRIES || depth > MAX_DEPTH {
        done
    } else {
        let node = nodes[at[k]];
        let path = file_tools::path_joined(p, dir, node.name@);
        let next = match node.kind {
            ScanKind::Unreadable => done,
            ScanKind::Symlink => done,
            ScanKind::Dir => if ignored_dir(node.name@) {
                done
            } else {
                walked(p, workspace, path, node.children@, depth + 1, done)
            },
            ScanKind::File => if ignored_file(node.name@) {
                done
            } else {
                match found_file(p, workspace, path, text::opt_view(node.updated_at)) {
                    Some(f) => done.push(f),
                    None => done,
                }
            },
        };
        walked_from(p, workspace, dir, nodes, at, k + 1, depth, next)
    }
}

/// Appends the files found in the directory at `dir` and below it.
pub fn walk_dir_bounded(
    p: Platform,
    workspace: &str,
    dir: &str,
    nodes: &Vec<ScanNode>,
    depth: usize,
    out: &mut Vec<ManifestFile>,
)
    requires
        depth <= MAX_DEPTH + 1,
    ensures
        file_views(final(out)@) == walked(
            p,
            workspace@,
            dir@,
            nodes@,
            depth as nat,
            file_views(old(out)@),
        ),
    decreases MAX_DEPTH + 1 - depth,
{
    let ghost start = file_views(out@);
    if depth > MAX_DEPTH || out.len() >= MAX_ENTRIES {
        return ;
    }
    let mut names: Vec<String> = Vec::new();
    let mut i: usize = 0;
    while i < nodes.len()
        invariant
            i <= nodes@.len(),
            text::views(names@) == node_names(nodes@).take(i as int),
        decreases nodes@.len() - i,
    {
        let ghost before = text::views(names@);
        names.push(nodes[i].name.clone());
        assert(text::views(names@) =~= before.push(nodes@[i as int].name@));
        assert(node_names(nodes@).take(i + 1) =~= node_names(nodes@).take(i as int).push(
            nodes@[i as int].name@,
        ));
        i += 1;
    }
    assert(node_names(nodes@).take(nodes@.len() as int) =~= node_names(nodes@));
    assert(names@.len() == text::views(names@).len());
    let sorted = order::sort_indices(&names);
    let ghost at = order::order_of(node_names(nodes@));
    let ghost whole = walked(p, workspace@, dir@, nodes@, depth as nat, start);
    let mut k: usize = 0;
    while k < sorted.len()
        invariant
            k <= sorted@.len(),
            sorted@.len() == nodes@.len(),
            names@.len() == nodes@.len(),
            depth <= MAX_DEPTH,
            whole == walked(p, workspace@, dir@, nodes@, depth as nat, file_views(old(out)@)),
            at == order::places(sorted@),
            order::all_below(sorted@, names@.len() as int),
            walked_from(
                p,
                workspace@,
                dir@,
                nodes@,
                at,
                k as int,
                depth as nat,
                file_views(out@),
            ) == whole,
        decreases sorted@.len() - k,
    {
        if out.len() >= MAX_ENTRIES {
            return ;
        }
        let ghost before = file_views(out@);
        let j: usize = sorted[k];
        assert(j < names@.len());
        assert(at[k as int] == j as int);
        let path = file_tools::join_path(p, dir, &nodes[j].name);
        match nodes[j].kind {
            ScanKind::Unreadable => {},
            ScanKind::Symlink => {},
            ScanKind::Dir => {
                if !should_ignore_dir(&nodes[j].name) {
                    walk_dir_bounded(p, workspace, &path, &nodes[j].children, depth + 1, out);
                }
            },
            ScanKind::File => {
                if !should_ignore_file(&nodes[j].name) {
                    if let Some(rel) = file_tools::strip_base(p, &path, workspace) {
                        let f = ManifestFile {
                            path: text::replace_char(&rel, '\\', '/'),
                            description: String::new(),
                            description_updated_at: None,
                            file_updated_at: text::copy_opt(&nodes[j].updated_at),
                        };
                        out.push(f);
                        assert(file_views(out@) =~= before.push(f@));
                    }
                }
            },
        }
        k += 1;
    }
}

/// The paths of some files.
pub open spec fn file_paths(fs: Seq<FileView>) -> Seq<Seq<char>> {
    Seq::new(fs.len(), |i: int| fs[i].path)
}

/// Files in the order of their paths.
pub open spec fn by_path(fs: Seq<FileView>) -> Seq<FileView> {
    order::order_of(file_paths(fs)).map_values(|i: int| fs[i])
}

/// Sorts files by their paths.
pub fn sort_files(files: &Vec<ManifestFile>) -> (r: Vec<ManifestFile>)
    ensures
        file_views(r@) == by_path(file_views(files@)),
{
    let ghost all = file_views(files@);
    let mut paths: Vec<String> = Vec::new();
    let mut i: usize = 0;
    while i < files.len()
        invariant
            i <= files@.len(),
            all == file_views(files@),
            text::views(paths@) == file_paths(all).take(i as int),
        decreases files@.len() - i,
    {
        let ghost before = text::views(paths@);
        assert(all[i as int] == files@[i as int]@);
        paths.push(files[i].path.clone());
        assert(text::views(paths@) =~= before.push(all[i as int].path));
        assert(file_paths(all).take(i + 1) =~= file_paths(all).take(i as int).push(
            all[i as int].path,
        ));
        i += 1;
    }
    assert(file_paths(all).take(all.len() as int) =~= file_paths(all));
    assert(paths@.len() == text::views(paths@).len());
    let sorted = order::sort_indices(&paths);
    let ghost at = order::order_of(file_paths(all));
    let ghost whole = by_path(all);
    let mut out: Vec<ManifestFile> = Vec::new();
    let mut k: usize = 0;
    while k < sorted.len()
        invariant
            k <= sorted@.len(),
            sorted@.len() == files@.len(),
            paths@.len() == files@.len(),
            all == file_views(files@),
            at == order::places(sorted@),
            whole == at.map_values(|i: int| all[i]),
            order::all_below(sorted@, paths@.len() as int),
            file_views(out@) == whole.take(k as int),
        decreases sorted@.len() - k,
    {
        let ghost before = file_views(out@);
        let j: usize = sorted[k];
        assert(j < paths@.len());
        assert(at[k as int] == j as int);
        assert(all[j as int] == files@[j as int]@);
        let f = files[j].copy();
        out.push(f);
        assert(file_views(out@) =~= before.push(f@));
        assert(whole[k as int] == f@);
        assert(whole.take(k + 1) =~= whole.take(k as int).push(f@));
        k += 1;
    }
    assert(whole.take(whole.len() as int) =~= whole);
    out
}

/// What a directory holds, if there is one.
pub open spec fn tree_view(dir: Option<Vec<ScanNode>>) -> Option<Seq<ScanNode>> {
    match dir {
        Some(v) => Some(v@),
        None => None,
    }
}

/// The files that a scan of the directory of an agent finds. A directory that is
/// missing, or is a link, has none.
pub open spec fn scanned(
    p: Platform,
    workspace: Seq<char>,
    agent: AgentType,
    dir: Option<Seq<ScanNode>>,
) -> Seq<FileView> {
    match dir {
        None => by_path(Seq::empty()),
        Some(nodes) => by_path(
            walked(
                p,
                workspace,
                file_tools::path_joined(p, workspace, manifest_dir(agent)),
                nodes,
                0,
                Seq::empty(),
            ),
        ),
    }
}

// ---------------------------------------------------------------------------
// Following the disk
// ---------------------------------------------------------------------------

/// The last record with the given path.
pub open spec fn last_record(fs: Seq<FileView>, path: Seq<char>) -> Option<FileView>
    decreases fs.len(),
{
    if fs.len() == 0 {
        None
    } else if fs.last().path == path {
        Some(fs.last())
    } else {
        last_record(fs.drop_last(), path)
    }
}

/// A file that is on disk with the description that it had.
pub open spec fn described(known: Seq<FileView>, f: FileView) -> FileView {
    match last_record(known, f.path) {
        Some(prev) => FileView {
            path: f.path,
            description: prev.description,
            description_updated_at: prev.description_updated_at,
            file_updated_at: f.file_updated_at,
        },
        None => f,
    }
}

/// A manifest with the files that are on disk: descriptions are kept, and files
/// that are gone are dropped.
pub open spec fn synced(m: ManifestView, actual: Seq<FileView>) -> ManifestView {
    ManifestView { files: actual.map_values(|f: FileView| described(m.files, f)), ..m }
}

/// Where the last record with the given path stands.
fn find_last(files: &Vec<ManifestFile>, path: &str) -> (r: Option<usize>)
    ensures
        match r {
            Some(i) => i < files@.len() && last_record(file_views(files@), path@) == Some(
                files@[i as int]@,
            ) && last_index(file_views(files@), path@) == Some(i as int),
            None => last_record(file_views(files@), path@) is None && last_index(
                file_views(files@),
                path@,
            ) is None,
        },
{
    let ghost all = file_views(files@);
    let mut n: usize = files.len();
    assert(all.take(n as int) =~= all);
    while n > 0
        invariant
            n <= files@.len(),
            all == file_views(files@),
            last_record(all.take(n as int), path@) == last_record(all, path@),
            last_index(all.take(n as int), path@) == last_index(all, path@),
        decreases n,
    {
        assert(all.take(n as int).last() == files@[n - 1]@);
        assert(all.take(n as int).drop_last() =~= all.take(n - 1));
        if text::same(&files[n - 1].path, path) {
            return Some(n - 1);
        }
        n -= 1;
    }
    None
}

/// Where the last record with the given path stands.
pub open spec fn last_index(fs: Seq<FileView>, path: Seq<char>) -> Option<int>
    decreases fs.len(),
{
    if fs.len() == 0 {
        None
    } else if fs.last().path == path {
        Some(fs.len() - 1)
    } else {
        last_index(fs.drop_last(), path)
    }
}

/// Brings a manifest up to date with the files that are on disk.
pub fn sync_with_filesystem(manifest: AgentManifest, actual: &Vec<ManifestFile>) -> (r:
    AgentManifest)
    ensures
        r@ == synced(manifest@, file_views(actual@)),
{
    let ghost known = file_views(manifest.files@);
    let ghost all = file_views(actual@);
    let ghost whole = all.map_values(|f: FileView| described(known, f));
    let mut files: Vec<ManifestFile> = Vec::new();
    let mut i: usize = 0;
    while i < actual.len()
        invariant
            i <= actual@.len(),
            known == file_views(manifest.files@),
            all == file_views(actual@),
            whole == all.map_values(|f: FileView| described(known, f)),
            file_views(files@) == whole.take(i as int),
        decreases actual@.len() - i,
    {
        let ghost before = file_views(files@);
        assert(all[i as int] == actual@[i as int]@);
        let f = match find_last(&manifest.files, &actual[i].path) {
            Some(j) => ManifestFile {
                path: actual[i].path.clone(),
                description: manifest.files[j].description.clone(),
                description_updated_at: text::copy_opt(&manifest.files[j].description_updated_at),
                file_updated_at: text::copy_opt(&actual[i].file_updated_at),
            },
            None => actual[i].copy(),
        };
        assert(f@ == whole[i as int]);
        files.push(f);
        assert(file_views(files@) =~= before.push(f@));
        assert(whole.take(i + 1) =~= whole.take(i as int).push(f@));
        i += 1;
    }
    assert(whole.take(whole.len() as int) =~= whole);
    AgentManifest {
        agent_type: manifest.agent_type,
        updated_at: manifest.updated_at,
        files,
        notes: manifest.notes,
        notes_updated_at: manifest.notes_updated_at,
    }
}

// ---------------------------------------------------------------------------
// The store
// ---------------------------------------------------------------------------

/// A manifest that was loaded or saved before.
#[derive(Debug)]
pub struct CachedManifest {
    pub agent: AgentType,
    pub manifest: AgentManifest,
}

/// The manifests of a workspace: where it is, where the manifests are kept, and
/// those that are held in memory.
#[derive(Debug)]
pub struct ManifestStore {
    pub workspace: String,
    pub platform: Platform,
    pub dir: String,
    pub cache: Vec<CachedManifest>,
}

/// A manifest that has nothing in it.
pub open spec fn blank_manifest(agent: AgentType, now: Seq<char>) -> ManifestView {
    ManifestView {
        agent_type: agent::agent_name(agent),
        updated_at: now,
        files: Seq::empty(),
        notes: Seq::empty(),
        notes_updated_at: None,
    }
}

/// The manifest of an agent among those held in memory, from `i` on.
pub open spec fn cached_from(cache: Seq<CachedManifest>, agent: AgentType, i: int) -> Option<
    ManifestView,
>
    decreases cache.len() - i,
{
    if i < 0 || i >= cache.len() {
        None
    } else if cache[i].agent == agent {
        Some(cache[i].manifest@)
    } else {
        cached_from(cache, agent, i + 1)
    }
}

/// A manifest as it is saved: under the name of its agent, with the time, and
/// with its files in order.
pub open spec fn saved_manifest(agent: AgentType, m: ManifestView, now: Seq<char>) -> ManifestView {
    ManifestView {
        agent_type: agent::agent_name(agent),
        updated_at: now,
        files: by_path(m.files),
        ..m
    }
}

/// The path of a file below the workspace, as a manifest has it.
pub open spec fn relative_path(p: Platform, workspace: Seq<char>, path: Seq<char>) -> Option<
    Seq<char>,
> {
    match file_tools::resolution(p, path, workspace) {
        Err(_) => None,
        Ok(target) => match file_tools::stripped(p, target, workspace) {
            None => None,
            Some(rel) => if rel.len() == 0 {
                None
            } else {
                Some(text::replaced(rel, '\\', '/'))
            },
        },
    }
}

/// The first record with the given path from `i` on.
pub open spec fn first_index(fs: Seq<FileView>, path: Seq<char>, i: int) -> Option<int>
    decreases fs.len() - i,
{
    if i < 0 || i >= fs.len() {
        None
    } else if fs[i].path == path {
        Some(i)
    } else {
        first_index(fs, path, i + 1)
    }
}

/// A manifest in which the file at `path` was changed at the given time. A file
/// that is not in it is added.
pub open spec fn recorded(m: ManifestView, path: Seq<char>, at: Seq<char>) -> ManifestView {
    match first_index(m.files, path, 0) {
        Some(i) => ManifestView {
            files: m.files.update(i, FileView { file_updated_at: Some(at), ..m.files[i] }),
            ..m
        },
        None => ManifestView {
            files: m.files.push(
                FileView {
                    path,
                    description: Seq::empty(),
                    description_updated_at: None,
                    file_updated_at: Some(at),
                },
            ),
            ..m
        },
    }
}

impl ManifestStore {
    /// The store of a workspace, under a directory for state.
    pub fn new(platform: Platform, workspace: &str, state_dir: &str) -> (r: Self)
        ensures
            r.platform == platform,
            r.workspace@ == workspace@,
            r.dir@ == file_tools::path_joined(platform, state_dir@, "manifests"@),
            r.cache@.len() == 0,
    {
        ManifestStore {
            workspace: workspace.to_owned(),
            platform,
            dir: file_tools::join_path(platform, state_dir, "manifests"),
            cache: Vec::new(),
        }
    }

    /// The file that holds the manifest of an agent.
    pub fn path_for(&self, agent: AgentType) -> (r: String)
        ensures
            r@ == file_tools::path_joined(
                self.platform,
                self.dir@,
                agent::agent_name(agent) + ".json"@),
    {
        let mut name = agent.as_str().to_owned();
        name.push_str(".json");
        file_tools::join_path(self.platform, &self.dir, &name)
    }

    /// The manifest of an agent that has none yet.
    pub fn default_manifest(agent: AgentType, now: &str) -> (r: AgentManifest)
        ensures
            r@ == blank_manifest(agent, now@),
    {
        let r = AgentManifest {
            agent_type: agent.as_str().to_owned(),
            updated_at: now.to_owned(),
            files: Vec::new(),
            notes: String::new(),
            notes_updated_at: None,
        };
        assert(r@ =~= blank_manifest(agent, now@));
        r
    }

    /// The files that are on disk for an agent, where `dir` is what its
    /// directory holds if there is one.
    pub fn scan_manifest_files(&self, agent: AgentType, dir: &Option<Vec<ScanNode>>) -> (r: Vec<
        ManifestFile,
    >)
        ensures
            file_views(r@) == scanned(
                self.platform,
                self.workspace@,
                agent,
                tree_view(*dir),
            ),
    {
        let mut out: Vec<ManifestFile> = Vec::new();
        assert(file_views(out@) =~= Seq::<FileView>::empty());
        if let Some(nodes) = dir {
            let path = file_tools::join_path(
                self.platform,
                &self.workspace,
                manifest_dirs(agent),
            );
            walk_dir_bounded(self.platform, &self.workspace, &path, nodes, 0, &mut out);
        }
        sort_files(&out)
    }

    /// The path of a file below the workspace.
    pub fn normalize_rel(&self, path: &str) -> (r: Option<String>)
        ensures
            text::opt_view(r) == relative_path(self.platform, self.workspace@, path@),
    {
        match file_tools::resolve_within(self.platform, path, &self.workspace) {
            Err(_) => None,
            Ok(target) => match file_tools::strip_base(
                self.platform,
                &target,
                &self.workspace,
            ) {
                None => None,
                Some(rel) => {
                    if rel.as_str().is_empty() {
                        None
                    } else {
                        Some(text::replace_char(&rel, '\\', '/'))
                    }
                },
            },
        }
    }

    /// Where the manifest of an agent is held in memory.
    fn find_cached(&self, agent: AgentType) -> (r: Option<usize>)
        ensures
            match r {
                Some(i) => i < self.cache@.len() && self.cache@[i as int].agent == agent
                    && cached_from(self.cache@, agent, 0) == Some(
                    self.cache@[i as int].manifest@,
                ) && forall|k: int| 0 <= k < i ==> (#[trigger] self.cache@[k]).agent != agent,
                None => cached_from(self.cache@, agent, 0) is None && forall|k: int|
                    0 <= k < self.cache@.len() ==> (#[trigger] self.cache@[k]).agent != agent,
            },
    {
        let mut i: usize = 0;
        while i < self.cache.len()
            invariant
                i <= self.cache@.len(),
                cached_from(self.cache@, agent, i as int) == cached_from(self.cache@, agent, 0),
                forall|k: int| 0 <= k < i ==> (#[trigger] self.cache@[k]).agent != agent,
            decreases self.cache@.len() - i,
        {
            if self.cache[i].agent == agent {
                return Some(i);
            }
            i += 1;
        }
        None
    }

    /// Holds a manifest in memory.
    fn remember(&mut self, agent: AgentType, manifest: AgentManifest)
        ensures
            final(self).workspace == old(self).workspace,
            final(self).platform == old(self).platform,
            final(self).dir == old(self).dir,
            cached_from(final(self).cache@, agent, 0) == Some(manifest@),
            forall|other: AgentType|
                other != agent ==> cached_from(final(self).cache@, other, 0) == cached_from(
                    old(self).cache@,
                    other,
                    0,
                ),
    {
        let ghost before = self.cache@;
        let ghost view = manifest@;
        match self.find_cached(agent) {
            Some(i) => {
                let _ = self.cache.remove(i);
                let entry = CachedManifest { agent, manifest };
                self.cache.insert(i, entry);
                proof {
                    assert(self.cache@ =~= before.update(i as int, entry));
                    cached_at(self.cache@, agent, i as int);
                    assert forall|other: AgentType| other != agent implies cached_from(
                        self.cache@,
                        other,
                        0,
                    ) == cached_from(before, other, 0) by {
                        cached_same(before, self.cache@, other, 0);
                    }
                }
            },
            None => {
                let entry = CachedManifest { agent, manifest };
                self.cache.push(entry);
                proof {
                    cached_at(self.cache@, agent, before.len() as int);
                    assert forall|other: AgentType| other != agent implies cached_from(
                        self.cache@,
                        other,
                        0,
                    ) == cached_from(before, other, 0) by {
                        cached_pushed(before, entry, other, 0);
                    }
                }
            },
        }
    }

    /// The manifest of an agent, brought up to date with the files that are on
    /// disk. It is the one held in memory, else the one that was read from disk,
    /// else an empty one; what was not in memory is held from now on. `dir` is what
    /// the directory of the agent holds, if there is one.
    pub fn load(
        &mut self,
        agent: AgentType,
        from_disk: Option<AgentManifest>,
        dir: &Option<Vec<ScanNode>>,
        now: &str,
    ) -> (r: AgentManifest)
        ensures
            final(self).workspace == old(self).workspace,
            final(self).platform == old(self).platform,
            final(self).dir == old(self).dir,
            r@ == synced(
                (match cached_from(old(self).cache@, agent, 0) {
                    Some(m) => m,
                    None => match from_disk {
                        Some(m) => m@,
                        None => blank_manifest(agent, now@),
                    },
                }),
                scanned(old(self).platform, old(self).workspace@, agent, tree_view(*dir)),
            ),
            cached_from(old(self).cache@, agent, 0) is Some ==> final(self).cache@ == old(
                self,
            ).cache@,
            cached_from(old(self).cache@, agent, 0) is None ==> cached_from(
                final(self).cache@,
                agent,
                0,
            ) == Some(r@),
            forall|other: AgentType|
                other != agent ==> cached_from(final(self).cache@, other, 0) == cached_from(
                    old(self).cache@,
                    other,
                    0,
                ),
    {
        let actual = self.scan_manifest_files(agent, dir);
        if let Some(i) = self.find_cached(agent) {
            let held = self.cache[i].manifest.copy();
            return sync_with_filesystem(held, &actual);
        }
        let base = match from_disk {
            Some(m) => m,
            None => Self::default_manifest(agent, now),
        };
        let loaded = sync_with_filesystem(base, &actual);
        let held = loaded.copy();
        self.remember(agent, held);
        loaded
    }

    /// Brings a manifest into the form in which it is saved, holds it in memory,
    /// and gives it back to be written to disk.
    pub fn save(&mut self, agent: AgentType, manifest: AgentManifest, now: &str) -> (r:
        AgentManifest)
        ensures
            final(self).workspace == old(self).workspace,
            final(self).platform == old(self).platform,
            final(self).dir == old(self).dir,
            r@ == saved_manifest(agent, manifest@, now@),
            cached_from(final(self).cache@, agent, 0) == Some(r@),
            forall|other: AgentType|
                other != agent ==> cached_from(final(self).cache@, other, 0) == cached_from(
                    old(self).cache@,
                    other,
                    0,
                ),
    {
        let files = sort_files(&manifest.files);
        let saved = AgentManifest {
            agent_type: agent.as_str().to_owned(),
            updated_at: now.to_owned(),
            files,
            notes: manifest.notes,
            notes_updated_at: manifest.notes_updated_at,
        };
        let held = saved.copy();
        self.remember(agent, held);
        saved
    }

    /// Records a change of a file in a loaded manifest. A path outside the
    /// workspace, or the workspace itself, is not recorded. The time is that of
    /// the file, or else the present.
    pub fn record(
        &mut self,
        agent: AgentType,
        path: &str,
        loaded: AgentManifest,
        file_time: &Option<String>,
        now: &str,
    ) -> (r: Option<AgentManifest>)
        ensures
            final(self).workspace == old(self).workspace,
            final(self).platform == old(self).platform,
            final(self).dir == old(self).dir,
            match relative_path(old(self).platform, old(self).workspace@, path@) {
                None => r is None && final(self).cache@ == old(self).cache@,
                Some(rel) => {
                    let at = match *file_time {
                        Some(t) => t@,
                        None => now@,
                    };
                    &&& r is Some
                    &&& r->0@ == saved_manifest(agent, recorded(loaded@, rel, at), now@)
                    &&& cached_from(final(self).cache@, agent, 0) == Some(r->0@)
                    &&& forall|other: AgentType|
                        other != agent ==> cached_from(final(self).cache@, other, 0) == cached_from(
                            old(self).cache@,
                            other,
                            0,
                        )
                },
            },
    {
        let rel = match self.normalize_rel(path) {
            Some(rel) => rel,
            None => return None,
        };
        let at = match file_time {
            Some(t) => t.clone(),
            None => now.to_owned(),
        };
        let ghost start = loaded@;
        let ghost target = recorded(start, rel@, at@);
        let mut manifest = loaded;
        let ghost fs = start.files;
        let n: usize = manifest.files.len();
        let mut i: usize = 0;
        while i < n && !text::same(&manifest.files[i].path, &rel)
            invariant
                i <= n == manifest.files@.len(),
                manifest@ == start,
                fs == start.files,
                first_index(fs, rel@, i as int) == first_index(fs, rel@, 0),
            decreases n - i,
        {
            assert(fs[i as int] == manifest.files@[i as int]@);
            i += 1;
        }
        if i < n {
            assert(fs[i as int] == manifest.files@[i as int]@);
            let mut f = manifest.files.remove(i);
            let ghost was = f@;
            f.file_updated_at = Some(at);
            assert(f@ =~= FileView { file_updated_at: Some(at@), ..was });
            manifest.files.insert(i, f);
            assert(file_views(manifest.files@) =~= fs.update(i as int, f@));
        } else {
            let f = ManifestFile {
                path: rel,
                description: String::new(),
                description_updated_at: None,
                file_updated_at: Some(at),
            };
            manifest.files.push(f);
            assert(file_views(manifest.files@) =~= fs.push(f@));
        }
        assert(manifest@ =~= target);
        Some(self.save(agent, manifest, now))
    }
}

/// A manifest that stands behind none of its agent is the one held.
proof fn cached_at(cache: Seq<CachedManifest>, agent: AgentType, i: int)
    requires
        0 <= i < cache.len(),
        cache[i].agent == agent,
        forall|k: int| 0 <= k < i ==> (#[trigger] cache[k]).agent != agent,
    ensures
        cached_from(cache, agent, 0) == Some(cache[i].manifest@),
{
    cached_at_from(cache, agent, i, 0);
}

/// The step of `cached_at`.
proof fn cached_at_from(cache: Seq<CachedManifest>, agent: AgentType, i: int, j: int)
    requires
        0 <= j <= i < cache.len(),
        cache[i].agent == agent,
        forall|k: int| 0 <= k < i ==> (#[trigger] cache[k]).agent != agent,
    ensures
        cached_from(cache, agent, j) == Some(cache[i].manifest@),
    decreases i - j,
{
    if j < i {
        cached_at_from(cache, agent, i, j + 1);
    }
}

/// A replaced manifest of one agent does not change those of others.
proof fn cached_same(a: Seq<CachedManifest>, b: Seq<CachedManifest>, other: AgentType, j: int)
    requires
        0 <= j,
        a.len() == b.len(),
        forall|k: int|
            #![trigger a[k]]
            #![trigger b[k]]
            0 <= k < a.len() ==> a[k] == b[k] || (a[k].agent != other && b[k].agent != other),
    ensures
        cached_from(a, other, j) == cached_from(b, other, j),
    decreases a.len() - j,
{
    if j < a.len() {
        assert(a[j] == b[j] || (a[j].agent != other && b[j].agent != other));
        cached_same(a, b, other, j + 1);
    }
}

/// An added manifest of one agent does not change those of others.
proof fn cached_pushed(
    cache: Seq<CachedManifest>,
    entry: CachedManifest,
    other: AgentType,
    j: int,
)
    requires
        0 <= j <= cache.len(),
        entry.agent != other,
    ensures
        cached_from(cache.push(entry), other, j) == cached_from(cache, other, j),
    decreases cache.len() - j,
{
    reveal_with_fuel(cached_from, 2);
    if j < cache.len() {
        assert(cache.push(entry)[j] == cache[j]);
        cached_pushed(cache, entry, other, j + 1);
    }
}

// ---------------------------------------------------------------------------
// The tool
// ---------------------------------------------------------------------------

/// The text that an argument stands for: what it holds if it is a JSON string,
/// and else itself, unless it is some other JSON value.
pub open spec fn text_argument(raw: Seq<char>, json: Option<JsonView>) -> Option<Seq<char>> {
    match json {
        None => Some(raw),
        Some(j) => match j.shape {
            ShapeView::Plain(ArgValueView::Text(s)) => Some(s),
            _ => None,
        },
    }
}

/// The text that an argument stands for, given what it is as JSON.
pub fn choose_text(raw: &str, json: Option<Json>) -> (r: Option<String>)
    ensures
        text::opt_view(r) == text_argument(raw@, json::opt_json(json)),
{
    match json {
        None => Some(raw.to_owned()),
        Some(j) => match j.shape {
            Shape::Plain(ArgValue::Text(s)) => Some(s),
            _ => None,
        },
    }
}

/// The text that an argument stands for.
pub fn parse_optional_text(raw: &str) -> (r: Option<String>)
    ensures
        text::opt_view(r) == text_argument(raw@, json::json_of(raw@)),
{
    choose_text(raw, json::read_json(raw))
}

/// What a call says of one file. Anything that is no text is not there.
#[derive(Debug)]
pub struct FileRecord {
    pub path: Option<String>,
    pub description_old: Option<String>,
    pub description_new: Option<String>,
}

/// What a call says of one file.
pub struct RecordView {
    pub path: Option<Seq<char>>,
    pub description_old: Option<Seq<char>>,
    pub description_new: Option<Seq<char>>,
}

impl View for FileRecord {
    type V = RecordView;

    open spec fn view(&self) -> RecordView {
        RecordView {
            path: text::opt_view(self.path),
            description_old: text::opt_view(self.description_old),
            description_new: text::opt_view(self.description_new),
        }
    }
}

/// The texts of some records.
pub open spec fn record_views(v: Seq<FileRecord>) -> Seq<RecordView> {
    Seq::new(v.len(), |i: int| v[i]@)
}

/// What the members of an object say of a file.
pub open spec fn record_of(row: Seq<ArgView>) -> RecordView {
    RecordView {
        path: json::text_named(row, "path"@),
        description_old: json::text_named(row, "description_old"@),
        description_new: json::text_named(row, "description_new"@),
    }
}

/// The records of a JSON value: one for each element of a list, and none if it is
/// anything else.
pub open spec fn records_of(json: Option<JsonView>) -> Seq<RecordView> {
    match json {
        Some(j) => match j.shape {
            ShapeView::List(rows) => rows.map_values(|row: Seq<ArgView>| record_of(row)),
            _ => Seq::empty(),
        },
        None => Seq::empty(),
    }
}

/// The records of a JSON value.
pub fn choose_records(json: &Option<Json>) -> (r: Vec<FileRecord>)
    ensures
        record_views(r@) == records_of(json::opt_json(*json)),
{
    let mut out: Vec<FileRecord> = Vec::new();
    if let Some(j) = json {
        if let Shape::List(rows) = &j.shape {
            let mut i: usize = 0;
            while i < rows.len()
                invariant
                    i <= rows@.len(),
                    out@.len() == i,
                    forall|k: int| 0 <= k < i ==> (#[trigger] out@[k])@ == record_of(
                        json::arg_views(rows@[k]@),
                    ),
                decreases rows@.len() - i,
            {
                let row = &rows[i];
                out.push(
                    FileRecord {
                        path: json::find_text(row, "path"),
                        description_old: json::find_text(row, "description_old"),
                        description_new: json::find_text(row, "description_new"),
                    },
                );
                i += 1;
            }
        }
    }
    assert(record_views(out@) =~= records_of(json::opt_json(*json)));
    out
}

/// The records that a text holds as JSON.
pub fn parse_records(raw: &str) -> (r: Vec<FileRecord>)
    ensures
        record_views(r@) == records_of(json::json_of(raw@)),
{
    choose_records(&json::read_json(raw))
}

/// A path with two descriptions: the old and the new one of a change, or the
/// expected and the actual one of a mismatch.
#[derive(Debug)]
pub struct DescriptionPair {
    pub path: String,
    pub first: String,
    pub second: String,
}

/// A path with two descriptions.
#[verifier::ext_equal]
pub struct PairView {
    pub path: Seq<char>,
    pub first: Seq<char>,
    pub second: Seq<char>,
}

impl View for DescriptionPair {
    type V = PairView;

    open spec fn view(&self) -> PairView {
        PairView { path: self.path@, first: self.first@, second: self.second@ }
    }
}

/// The texts of some pairs.
pub open spec fn pair_views(v: Seq<DescriptionPair>) -> Seq<PairView> {
    Seq::new(v.len(), |i: int| v[i]@)
}

/// The files of a manifest while descriptions are edited, and what is reported
/// of that.
#[verifier::ext_equal]
pub struct EditState {
    pub files: Seq<FileView>,
    pub not_found: Seq<Seq<char>>,
    pub changes: Seq<PairView>,
    pub mismatches: Seq<PairView>,
}

/// Edits one description. A record without a path says nothing; a path that is
/// not in the manifest is reported; a description is changed only from the one
/// that the record expects.
pub open spec fn with_record(s: EditState, rec: RecordView, now: Seq<char>) -> EditState {
    match rec.path {
        None => s,
        Some(raw) => {
            let path = text::trimmed(raw);
            if path.len() == 0 {
                s
            } else {
                match last_index(s.files, path) {
                    None => EditState { not_found: s.not_found.push(path), ..s },
                    Some(i) => match rec.description_new {
                        None => s,
                        Some(fresh) => {
                            let current = s.files[i].description;
                            let expected = match rec.description_old {
                                Some(d) => d,
                                None => current,
                            };
                            if expected != current {
                                EditState {
                                    mismatches: s.mismatches.push(
                                        PairView { path, first: expected, second: current },
                                    ),
                                    ..s
                                }
                            } else if fresh != current {
                                EditState {
                                    files: s.files.update(
                                        i,
                                        FileView {
                                            description: fresh,
                                            description_updated_at: Some(now),
                                            ..s.files[i]
                                        },
                                    ),
                                    changes: s.changes.push(
                                        PairView { path, first: current, second: fresh },
                                    ),
                                    ..s
                                }
                            } else {
                                s
                            }
                        },
                    },
                }
            }
        },
    }
}

/// The state after the first `k` records.
pub open spec fn with_records(s: EditState, recs: Seq<RecordView>, k: int, now: Seq<char>) -> EditState
    decreases k,
{
    if k <= 0 {
        s
    } else {
        with_record(with_records(s, recs, k - 1, now), recs[k - 1], now)
    }
}

/// The notes after an update, and their diff; blank patches change nothing.
pub open spec fn edited_notes(current: Seq<char>, patch: Option<Seq<char>>) -> Result<
    Seq<char>,
    Seq<char>,
> {
    match patch {
        None => Ok(current),
        Some(p) => if text::trimmed(p).len() == 0 {
            Ok(current)
        } else {
            match notes::patched_notes(current, p) {
                Ok(s) => Ok(s),
                Err(e) => Err("failed to apply notes_patch: "@ + e),
            }
        },
    }
}

/// What an update of a manifest leaves.
#[verifier::ext_equal]
pub struct UpdateView {
    pub manifest: ManifestView,
    pub not_found: Seq<Seq<char>>,
    pub changes: Seq<PairView>,
    pub mismatches: Seq<PairView>,
    pub notes_diff: Option<Seq<char>>,
}

/// A manifest after an update, with what is reported of it.
pub open spec fn updated_manifest(
    m: ManifestView,
    recs: Seq<RecordView>,
    patch: Option<Seq<char>>,
    now: Seq<char>,
) -> Result<UpdateView, Seq<char>> {
    let start = EditState {
        files: m.files,
        not_found: Seq::empty(),
        changes: Seq::empty(),
        mismatches: Seq::empty(),
    };
    let s = with_records(start, recs, recs.len() as int, now);
    match edited_notes(m.notes, patch) {
        Err(message) => Err(message),
        Ok(fresh) => Ok(
            UpdateView {
                manifest: ManifestView {
                    files: s.files,
                    notes: fresh,
                    notes_updated_at: if fresh != m.notes {
                        Some(now)
                    } else {
                        m.notes_updated_at
                    },
                    ..m
                },
                not_found: s.not_found,
                changes: s.changes,
                mismatches: s.mismatches,
                notes_diff: diff_render::diff_of(m.notes, fresh),
            },
        ),
    }
}

/// What an update of a manifest leaves.
#[derive(Debug)]
pub struct ManifestUpdate {
    pub manifest: AgentManifest,
    pub not_found: Vec<String>,
    pub description_changes: Vec<DescriptionPair>,
    pub description_mismatches: Vec<DescriptionPair>,
    pub notes_diff: Option<String>,
}

impl View for ManifestUpdate {
    type V = UpdateView;

    open spec fn view(&self) -> UpdateView {
        UpdateView {
            manifest: self.manifest@,
            not_found: text::views(self.not_found@),
            changes: pair_views(self.description_changes@),
            mismatches: pair_views(self.description_mismatches@),
            notes_diff: text::opt_view(self.notes_diff),
        }
    }
}

/// The view of an update.
pub open spec fn update_view(r: Result<ManifestUpdate, String>) -> Result<UpdateView, Seq<char>> {
    match r {
        Ok(u) => Ok(u@),
        Err(e) => Err(e@),
    }
}

/// What a call of the tool wants.
#[derive(Debug, Clone, Copy, PartialEq, Eq, Structural)]
pub enum ManifestAction {
    /// Show the manifest of the given agent.
    Read(AgentType),
    /// Change the own manifest.
    Update,
}

/// What a call wants, or why it is refused. Without an action it reads, without
/// an agent it is about the own manifest, and only that can be changed.
pub open spec fn wanted_action(own: AgentType, action: Option<Seq<char>>, target: AgentType) -> Result<
    ManifestAction,
    Seq<char>,
> {
    let name = match action {
        Some(a) => a,
        None => "read"@,
    };
    if name == "read"@ {
        Ok(ManifestAction::Read(target))
    } else if name != "update"@ {
        Err("unknown action '"@ + name + "'"@)
    } else if target != own {
        Err(
            "cannot update other agent's manifest; you can only update "@ + agent::agent_name(own),
        )
    } else {
        Ok(ManifestAction::Update)
    }
}

/// The tool that reads and changes manifests.
pub struct ManifestTool {
    pub agent: AgentType,
}

impl ManifestTool {
    /// A tool for the given agent.
    pub fn new(agent: AgentType) -> (r: Self)
        ensures
            r.agent == agent,
    {
        ManifestTool { agent }
    }

    /// The name of the tool.
    pub fn name(&self) -> (r: &'static str)
        ensures
            r@ == "manifest"@,
    {
        "manifest"
    }

    /// What a call wants.
    pub fn call(&self, action: &Option<String>, target: AgentType) -> (r: Result<
        ManifestAction,
        String,
    >)
        ensures
            match r {
                Ok(a) => wanted_action(self.agent, text::opt_view(*action), target) == Ok::<
                    ManifestAction,
                    Seq<char>,
                >(a),
                Err(e) => wanted_action(self.agent, text::opt_view(*action), target) == Err::<
                    ManifestAction,
                    Seq<char>,
                >(e@),
            },
    {
        let name = match action {
            Some(a) => a.clone(),
            None => "read".to_owned(),
        };
        if text::same(&name, "read") {
            return Ok(ManifestAction::Read(target));
        }
        if !text::same(&name, "update") {
            let mut message = "unknown action '".to_owned();
            message.push_str(&name);
            message.push_str("'");
            return Err(message);
        }
        if target != self.agent {
            let mut message =
                "cannot update other agent's manifest; you can only update ".to_owned();
            message.push_str(self.agent.as_str());
            return Err(message);
        }
        Ok(ManifestAction::Update)
    }

    /// Changes descriptions and notes of a manifest.
    pub fn update(
        &self,
        manifest: AgentManifest,
        records: &Vec<FileRecord>,
        notes_patch: &Option<String>,
        now: &str,
    ) -> (r: Result<ManifestUpdate, String>)
        ensures
            update_view(r) == updated_manifest(
                manifest@,
                record_views(records@),
                text::opt_view(*notes_patch),
                now@,
            ),
    {
        let ghost m = manifest@;
        let ghost recs = record_views(records@);
        let ghost start = EditState {
            files: m.files,
            not_found: Seq::empty(),
            changes: Seq::empty(),
            mismatches: Seq::empty(),
        };
        let mut files = manifest.files;
        let mut not_found: Vec<String> = Vec::new();
        let mut changes: Vec<DescriptionPair> = Vec::new();
        let mut mismatches: Vec<DescriptionPair> = Vec::new();
        let mut k: usize = 0;
        assert(edit_state(files@, not_found@, changes@, mismatches@) =~= start);
        while k < records.len()
            invariant
                k <= records@.len(),
                recs == record_views(records@),
                edit_state(files@, not_found@, changes@, mismatches@) == with_records(
                    start,
                    recs,
                    k as int,
                    now@,
                ),
            decreases records@.len() - k,
        {
            assert(recs[k as int] == records@[k as int]@);
            edit_description(
                &records[k],
                now,
                &mut files,
                &mut not_found,
                &mut changes,
                &mut mismatches,
            );
            k += 1;
        }
        let current = manifest.notes;
        let fresh = match notes_patch {
            None => current.clone(),
            Some(p) => {
                if text::trim(p).as_str().is_empty() {
                    current.clone()
                } else {
                    match notes::apply_notes_patch(&current, p) {
                        Ok(s) => s,
                        Err(e) => {
                            let mut message = "failed to apply notes_patch: ".to_owned();
                            message.push_str(&e);
                            return Err(message);
                        },
                    }
                }
            },
        };
        let notes_diff = diff_render::diff_if_changed(&current, &fresh);
        let notes_updated_at = if text::same(&fresh, &current) {
            manifest.notes_updated_at
        } else {
            Some(now.to_owned())
        };
        Ok(
            ManifestUpdate {
                manifest: AgentManifest {
                    agent_type: manifest.agent_type,
                    updated_at: manifest.updated_at,
                    files,
                    notes: fresh,
                    notes_updated_at,
                },
                not_found,
                description_changes: changes,
                description_mismatches: mismatches,
                notes_diff,
            },
        )
    }
}

/// The state while descriptions are edited.
pub open spec fn edit_state(
    files: Seq<ManifestFile>,
    not_found: Seq<String>,
    changes: Seq<DescriptionPair>,
    mismatches: Seq<DescriptionPair>,
) -> EditState {
    EditState {
        files: file_views(files),
        not_found: text::views(not_found),
        changes: pair_views(changes),
        mismatches: pair_views(mismatches),
    }
}

/// Edits one description.
fn edit_description(
    record: &FileRecord,
    now: &str,
    files: &mut Vec<ManifestFile>,
    not_found: &mut Vec<String>,
    changes: &mut Vec<DescriptionPair>,
    mismatches: &mut Vec<DescriptionPair>,
)
    ensures
        edit_state(final(files)@, final(not_found)@, final(changes)@, final(mismatches)@)
            == with_record(
            edit_state(old(files)@, old(not_found)@, old(changes)@, old(mismatches)@),
            record@,
            now@,
        ),
{
    let ghost s = edit_state(files@, not_found@, changes@, mismatches@);
    let path = match &record.path {
        Some(raw) => text::trim(raw),
        None => return ,
    };
    if path.as_str().is_empty() {
        return ;
    }
    let i: usize = match find_last(files, &path) {
        Some(i) => i,
        None => {
            not_found.push(path);
            assert(text::views(not_found@) =~= s.not_found.push(path@));
            return ;
        },
    };
    let fresh = match &record.description_new {
        Some(d) => d.clone(),
        None => return ,
    };
    assert(s.files[i as int] == files@[i as int]@);
    let current = files[i].description.clone();
    let expected = match &record.description_old {
        Some(d) => d.clone(),
        None => current.clone(),
    };
    if !text::same(&expected, &current) {
        let pair = DescriptionPair { path, first: expected, second: current };
        mismatches.push(pair);
        assert(pair_views(mismatches@) =~= s.mismatches.push(pair@));
        return ;
    }
    if !text::same(&fresh, &current) {
        let mut f = files.remove(i);
        let ghost was = f@;
        f.description = fresh.clone();
        f.description_updated_at = Some(now.to_owned());
        assert(f@ =~= FileView {
            description: fresh@,
            description_updated_at: Some(now@),
            ..was
        });
        files.insert(i, f);
        assert(file_views(files@) =~= s.files.update(i as int, f@));
        let pair = DescriptionPair { path, first: current, second: fresh };
        changes.push(pair);
        assert(pair_views(changes@) =~= s.changes.push(pair@));
    }
}

// ---------------------------------------------------------------------------
// Laws
// ---------------------------------------------------------------------------

/// The files of a manifest that is brought up to date are exactly those on disk.
pub proof fn law_sync_follows_disk(m: ManifestView, actual: Seq<FileView>)
    ensures
        file_paths(synced(m, actual).files) == file_paths(actual),
        synced(m, actual).notes == m.notes,
{
    assert(file_paths(synced(m, actual).files) =~= file_paths(actual));
}

/// Bringing a manifest up to date again with the same files changes nothing more
/// where no path occurs twice.
pub proof fn law_sync_is_stable(m: ManifestView, actual: Seq<FileView>)
    requires
        forall|i: int, j: int|
            0 <= i < j < actual.len() ==> (#[trigger] actual[i]).path != (#[trigger] actual[j]).path,
    ensures
        synced(synced(m, actual), actual) == synced(m, actual),
{
    let once = synced(m, actual);
    let twice = synced(once, actual);
    assert forall|i: int| 0 <= i < actual.len() implies twice.files[i] == once.files[i] by {
        last_record_unique(once.files, actual[i].path, i);
    }
    assert(twice.files =~= once.files);
}

/// A record whose path occurs once is found.
proof fn last_record_unique(fs: Seq<FileView>, path: Seq<char>, i: int)
    requires
        0 <= i < fs.len(),
        fs[i].path == path,
        forall|j: int| 0 <= j < fs.len() && j != i ==> (#[trigger] fs[j]).path != path,
    ensures
        last_record(fs, path) == Some(fs[i]),
    decreases fs.len(),
{
    if i < fs.len() - 1 {
        assert(fs[fs.len() - 1].path != path);
        last_record_unique(fs.drop_last(), path, i);
    }
}

/// Editing descriptions adds no file, drops none and renames none.
pub proof fn law_edits_keep_paths(s: EditState, recs: Seq<RecordView>, k: int, now: Seq<char>)
    ensures
        file_paths(with_records(s, recs, k, now).files) == file_paths(s.files),
    decreases k,
{
    if k > 0 {
        law_edits_keep_paths(s, recs, k - 1, now);
        let t = with_records(s, recs, k - 1, now);
        if let Some(raw) = recs[k - 1].path {
            last_index_inside(t.files, text::trimmed(raw));
        }
        assert(file_paths(with_record(t, recs[k - 1], now).files) =~= file_paths(t.files));
    }
}

/// A place found is inside the list.
proof fn last_index_inside(fs: Seq<FileView>, path: Seq<char>)
    ensures
        last_index(fs, path) matches Some(i) ==> 0 <= i < fs.len() && fs[i].path == path,
    decreases fs.len(),
{
    if fs.len() > 0 && fs.last().path != path {
        last_index_inside(fs.drop_last(), path);
    }
}

/// A scan finds no more files than its bound allows.
pub proof fn law_scan_is_bounded(
    p: Platform,
    workspace: Seq<char>,
    dir: Seq<char>,
    nodes: Seq<ScanNode>,
    depth: nat,
    done: Seq<FileView>,
)
    requires
        done.len() <= MAX_ENTRIES,
    ensures
        walked(p, workspace, dir, nodes, depth, done).len() <= MAX_ENTRIES,
    decreases MAX_DEPTH + 1 - depth, 1nat, 0nat,
{
    if depth <= MAX_DEPTH && done.len() < MAX_ENTRIES {
        scan_from_bounded(
            p,
            workspace,
            dir,
            nodes,
            order::order_of(node_names(nodes)),
            0,
            depth,
            done,
        );
    }
}

/// The step of the law on the bound of a scan.
proof fn scan_from_bounded(
    p: Platform,
    workspace: Seq<char>,
    dir: Seq<char>,
    nodes: Seq<ScanNode>,
    at: Seq<int>,
    k: int,
    depth: nat,
    done: Seq<FileView>,
)
    requires
        done.len() <= MAX_ENTRIES,
    ensures
        walked_from(p, workspace, dir, nodes, at, k, depth, done).len() <= MAX_ENTRIES,
    decreases MAX_DEPTH + 1 - depth, 0nat, at.len() - k,
{
    if 0 <= k < at.len() && done.len() < MAX_ENTRIES && depth <= MAX_DEPTH {
        let node = nodes[at[k]];
        let path = file_tools::path_joined(p, dir, node.name@);
        law_scan_is_bounded(p, workspace, path, node.children@, depth + 1, done);
        scan_from_bounded(
            p,
            workspace,
            dir,
            nodes,
            at,
            k + 1,
            depth,
            walked(p, workspace, path, node.children@, depth + 1, done),
        );
        scan_from_bounded(p, workspace, dir, nodes, at, k + 1, depth, done);
        if let Some(f) = found_file(p, workspace, path, text::opt_view(node.updated_at)) {
            scan_from_bounded(p, workspace, dir, nodes, at, k + 1, depth, done.push(f));
        }
    }
}

/// Whether one of some texts ends a name.
pub open spec fn ends_in_one(name: Seq<char>, endings: Seq<Seq<char>>) -> bool {
    exists|i: int| 0 <= i < endings.len() && text::ends(name, #[trigger] endings[i])
}

/// What is left behind by editors, by typesetting and by tools does not count: files by their
/// ending, whatever stands before it, and some files and directories by their name.
pub proof fn law_leftovers_are_passed_over(name: Seq<char>)
    ensures
        ends_in_one(
            name,
            seq!["~"@, ".tmp"@, ".bak"@, ".swp"@, ".swo"@, ".aux"@, ".log"@, ".out"@, ".toc"@],
        ) ==> ignored_file(name),
        ends_in_one(
            name,
            seq![".lof"@, ".lot"@, ".fls"@, ".fdb_latexmk"@, ".synctex.gz"@, ".bbl"@, ".blg"@],
        ) ==> ignored_file(name),
        ends_in_one(
            name,
            seq![".bcf"@, ".dvi"@, ".ps"@, ".idx"@, ".ilg"@, ".ind"@, ".nav"@, ".snm"@, ".vrb"@],
        ) ==> ignored_file(name),
        name == ".DS_Store"@ || name == "Thumbs.db"@ ==> ignored_file(name),
        name == ".git"@ || name == "__pycache__"@ || name == ".autoreport"@ || name == "target"@
            <==> ignored_dir(name),
{
}

/// A record is read by the names of its members, in whatever order they come.
pub proof fn law_records_are_read_by_name(path: Seq<char>, was: Seq<char>, is: Seq<char>)
    ensures
        ({
            let p = ArgView { name: "path"@, value: ArgValueView::Text(path) };
            let o = ArgView { name: "description_old"@, value: ArgValueView::Text(was) };
            let n = ArgView { name: "description_new"@, value: ArgValueView::Text(is) };
            let all = RecordView {
                path: Some(path),
                description_old: Some(was),
                description_new: Some(is),
            };
            &&& record_of(seq![p, o, n]) == all
            &&& record_of(seq![n, o, p]) == all
            &&& record_of(seq![p, n]) == (RecordView { description_old: None, ..all })
            &&& record_of(seq![p]) == (RecordView {
                description_old: None,
                description_new: None,
                ..all
            })
        }),
{
    reveal_strlit("path");
    reveal_strlit("description_old");
    reveal_strlit("description_new");
    assert("description_old"@[12] == 'o' && "description_new"@[12] == 'n');
    assert("path"@.len() == 4 && "description_old"@.len() == 15);
    reveal_with_fuel(json::arg_named, 4);
}

} // verus!
