//! What a loaded manifest says of the files on disk.

use crate::agent::AgentType;
use crate::codex_shell::Platform;
use crate::file_tools;
use crate::manifest;
use crate::manifest::{FileView, ManifestView, ScanKind, ScanNode, MAX_DEPTH, MAX_ENTRIES};
use crate::order;
use crate::text;
use vstd::prelude::*;

verus! {

// ---------------------------------------------------------------------------
// Files in a tree of directories
// ---------------------------------------------------------------------------

/// Whether a file that counts stands at the end of a trail of names that begins with
/// an entry: neither the file nor a directory on the way is passed over, and no link is
/// followed.
pub open spec fn entry_holds(node: ScanNode, trail: Seq<Seq<char>>) -> bool
    decreases trail.len(), 0nat,
{
    &&& trail.len() > 0
    &&& trail[0] == node.name@
    &&& if trail.len() == 1 {
        node.kind == ScanKind::File && !manifest::ignored_file(node.name@)
    } else {
        node.kind == ScanKind::Dir && !manifest::ignored_dir(node.name@) && holds_file(
            node.children@,
            trail.skip(1),
        )
    }
}

/// Whether a file that counts stands at the end of a trail of names into a directory.
pub open spec fn holds_file(nodes: Seq<ScanNode>, trail: Seq<Seq<char>>) -> bool
    decreases trail.len(), 1nat,
{
    exists|i: int| 0 <= i < nodes.len() && entry_holds(#[trigger] nodes[i], trail)
}

/// Whether a text can name a file: a manifest writes a slash for a backslash, so a name
/// has neither.
pub open spec fn is_file_name(p: Platform, c: Seq<char>) -> bool {
    file_tools::is_name(p, c) && !c.contains('\\')
}

/// Whether a directory and those below it, down to `levels`, hold entries with names,
/// no two of them with the same one.
pub open spec fn is_well_named(p: Platform, nodes: Seq<ScanNode>, levels: nat) -> bool
    decreases levels,
{
    &&& forall|i: int| 0 <= i < nodes.len() ==> is_file_name(p, (#[trigger] nodes[i]).name@)
    &&& forall|i: int, j: int|
        0 <= i < j < nodes.len() ==> (#[trigger] nodes[i]).name@ != (#[trigger] nodes[j]).name@
    &&& levels > 0 ==> forall|i: int|
        0 <= i < nodes.len() && (#[trigger] nodes[i]).kind == ScanKind::Dir ==> is_well_named(
            p,
            nodes[i].children@,
            (levels - 1) as nat,
        )
}

/// The names on the way from the workspace to the directory of an agent.
pub open spec fn dir_trail(agent: AgentType) -> Seq<Seq<char>> {
    match agent {
        AgentType::Main => seq!["Outline"@],
        AgentType::DataAnalysis => seq!["Data"@, "Processed"@],
        AgentType::Plotting => seq!["Plots"@],
        AgentType::Theory => seq!["Theory"@],
        AgentType::Report => seq!["Report"@],
    }
}

/// A trail as a path below the workspace.
pub open spec fn path_text(trail: Seq<Seq<char>>) -> Seq<char> {
    text::joined(trail, seq!['/'])
}

/// Whether all of some texts can name files.
pub open spec fn are_names(p: Platform, trail: Seq<Seq<char>>) -> bool {
    forall|i: int| 0 <= i < trail.len() ==> is_file_name(p, #[trigger] trail[i])
}

/// A record without a description.
pub open spec fn is_bare(f: FileView) -> bool {
    f.description.len() == 0 && f.description_updated_at is None
}

// ---------------------------------------------------------------------------
// Trails and paths
// ---------------------------------------------------------------------------

/// The path of a trail is split back into its names.
proof fn path_splits(p: Platform, trail: Seq<Seq<char>>)
    requires
        are_names(p, trail),
        trail.len() > 0,
    ensures
        text::pieces(path_text(trail), '/') == trail,
    decreases trail.len(),
{
    assert(is_file_name(p, trail[trail.len() - 1]));
    if trail.len() == 1 {
        text::pieces_of_plain(trail[0], '/');
        assert(seq![trail[0]] =~= trail);
    } else {
        let front = trail.drop_last();
        assert forall|i: int| 0 <= i < front.len() implies is_file_name(p, #[trigger] front[i]) by {
            assert(front[i] == trail[i]);
        }
        path_splits(p, front);
        assert(path_text(trail) =~= path_text(front).push('/') + trail.last());
        text::pieces_of_extended(path_text(front), trail.last(), '/');
        assert(front.push(trail.last()) =~= trail);
    }
}

/// The path with the given names and nothing else has them between separators.
proof fn names_are_rendered(p: Platform, trail: Seq<Seq<char>>)
    requires
        are_names(p, trail),
    ensures
        text::replaced(file_tools::rendered(p, trail), '\\', '/') == path_text(trail),
    decreases trail.len(),
{
    if trail.len() > 0 {
        let front = trail.drop_last();
        let c = trail[trail.len() - 1];
        assert(trail.last() == c);
        assert(is_file_name(p, c));
        assert forall|i: int| 0 <= i < front.len() implies is_file_name(p, #[trigger] front[i]) by {
            assert(front[i] == trail[i]);
        }
        names_are_rendered(p, front);
        file_tools::name_alone(p, c);
        assert(text::replaced(c, '\\', '/') =~= c) by {
            assert forall|i: int| 0 <= i < c.len() implies c[i] != '\\' by {
                assert(c.contains(c[i]));
            }
        }
        let base = file_tools::rendered(p, front);
        if front.len() > 0 {
            assert(file_tools::is_collapsed(p, front)) by {
                assert forall|i: int| 0 <= i < front.len() implies file_tools::is_name(
                    p,
                    #[trigger] front[i],
                ) by {
                    assert(is_file_name(p, front[i]));
                }
                assert(is_file_name(p, front[0]));
            }
            file_tools::components_of_rendered(p, front);
            assert(is_file_name(p, front[0]));
            assert(is_file_name(p, front[front.len() - 1]));
            assert(front.last() != file_tools::root_component(p)) by {
                file_tools::marks_differ(p);
            }
            assert(file_tools::rendered(p, trail) == base.push(file_tools::separator(p)) + c);
            assert(text::replaced(base.push(file_tools::separator(p)) + c, '\\', '/')
                =~= text::replaced(base, '\\', '/').push('/') + text::replaced(c, '\\', '/'));
            assert(path_text(trail) =~= path_text(front).push('/') + c);
        } else {
            assert(base =~= Seq::<char>::empty());
            assert(file_tools::rendered(p, trail) =~= c);
            assert(path_text(trail) =~= c);
        }
    } else {
        assert(text::replaced(file_tools::rendered(p, trail), '\\', '/') =~= path_text(trail));
    }
}

/// Whether a path leads from the workspace along a trail.
pub open spec fn leads_along(
    p: Platform,
    workspace: Seq<char>,
    path: Seq<char>,
    trail: Seq<Seq<char>>,
) -> bool {
    &&& file_tools::components_of(p, path) == file_tools::components_of(p, workspace) + trail
    &&& file_tools::is_settled(p, path)
    &&& are_names(p, trail)
}

/// A name joined to a path that leads along a trail leads one step further.
proof fn trail_grows(
    p: Platform,
    workspace: Seq<char>,
    path: Seq<char>,
    trail: Seq<Seq<char>>,
    c: Seq<char>,
)
    requires
        leads_along(p, workspace, path, trail),
        is_file_name(p, c),
    ensures
        leads_along(p, workspace, file_tools::path_joined(p, path, c), trail.push(c)),
{
    file_tools::name_joined(p, path, c);
    let more = trail.push(c);
    assert((file_tools::components_of(p, workspace) + trail).push(c)
        =~= file_tools::components_of(p, workspace) + more);
    assert forall|i: int| 0 <= i < more.len() implies is_file_name(p, #[trigger] more[i]) by {
        if i < trail.len() {
            assert(more[i] == trail[i]);
        }
    }
}

/// What a manifest records of a file that is found.
proof fn found_along(
    p: Platform,
    workspace: Seq<char>,
    path: Seq<char>,
    trail: Seq<Seq<char>>,
    updated_at: Option<Seq<char>>,
)
    requires
        leads_along(p, workspace, path, trail),
    ensures
        manifest::found_file(p, workspace, path, updated_at) == Some(
            FileView {
                path: path_text(trail),
                description: Seq::empty(),
                description_updated_at: None,
                file_updated_at: updated_at,
            },
        ),
{
    let base = file_tools::components_of(p, workspace);
    let all = file_tools::components_of(p, path);
    assert forall|i: int| 0 <= i < base.len() implies file_tools::equal_at(
        p,
        i,
        #[trigger] all[i],
        base[i],
    ) by {}
    assert(all.skip(base.len() as int) =~= trail);
    names_are_rendered(p, trail);
}

/// A word of letters can name a file.
proof fn word_is_name(p: Platform, w: Seq<char>)
    requires
        w.len() > 2,
        forall|i: int| 0 <= i < w.len() ==> file_tools::is_drive_letter(#[trigger] w[i]),
    ensures
        is_file_name(p, w),
{
    assert forall|c: char| !file_tools::is_drive_letter(c) implies !w.contains(c) by {
        if w.contains(c) {
            let k = w.index_of(c);
            assert(file_tools::is_drive_letter(w[k]));
        }
    }
    assert(file_tools::is_drive_letter(w[0]) && file_tools::is_drive_letter(w[1]));
    file_tools::prefix_inside(p, w);
    assert(file_tools::slashed(p, w)[0] == '/' <==> file_tools::is_separator(p, w[0]));
}

/// The directory of an agent lies along its trail.
proof fn dir_is_along(p: Platform, workspace: Seq<char>, agent: AgentType)
    requires
        file_tools::is_settled(p, workspace),
    ensures
        leads_along(
            p,
            workspace,
            file_tools::path_joined(p, workspace, manifest::manifest_dir(agent)),
            dir_trail(agent),
        ),
        dir_trail(agent).len() > 0,
{
    reveal_strlit("Outline");
    reveal_strlit("Data/Processed");
    reveal_strlit("Data");
    reveal_strlit("Processed");
    reveal_strlit("Plots");
    reveal_strlit("Theory");
    reveal_strlit("Report");
    let none = Seq::<Seq<char>>::empty();
    assert(file_tools::components_of(p, workspace) + none =~= file_tools::components_of(
        p,
        workspace,
    ));
    let first = dir_trail(agent)[0];
    word_is_name(p, first);
    trail_grows(p, workspace, workspace, none, first);
    assert(none.push(first) =~= seq![first]);
    if agent == AgentType::DataAnalysis {
        let (data, processed) = ("Data"@, "Processed"@);
        let whole = manifest::manifest_dir(agent);
        word_is_name(p, processed);
        assert(whole =~= data + seq!['/'] + processed);
        let trail = dir_trail(agent);
        file_tools::name_joined(p, workspace, data);
        file_tools::name_alone(p, data);
        file_tools::prefix_inside(p, whole);
        assert(file_tools::is_drive_letter(whole[0]) && file_tools::is_drive_letter(whole[1]));
        assert(file_tools::slashed(p, whole)[0] == '/' <==> file_tools::is_separator(p, whole[0]));
        assert(file_tools::tail_of(p, whole)[0] == file_tools::slashed(p, whole)[0]);
        if file_tools::is_verbatim(p, workspace) {
            file_tools::name_appended(p, data, seq!['/'], processed);
            assert(file_tools::components_of(p, whole) =~= trail);
            file_tools::verbatim_joined(p, workspace, whole);
        } else {
            let near = file_tools::path_joined(p, workspace, data);
            assert(!file_tools::is_bare_drive(p, near)) by {
                file_tools::prefix_inside(p, workspace);
                if near.len() == 2 {
                    assert(data.len() == 4);
                }
            }
            file_tools::name_appended(p, near, seq!['/'], processed);
            assert(file_tools::path_joined(p, workspace, whole) =~= near + seq!['/'] + processed);
        }
        assert(file_tools::components_of(p, workspace).push(data).push(processed)
            =~= file_tools::components_of(p, workspace) + trail);
        assert forall|i: int| 0 <= i < trail.len() implies is_file_name(p, #[trigger] trail[i]) by {
            assert(i == 0 || i == 1);
        }
    } else {
        assert(dir_trail(agent) =~= seq![first]);
    }
}

/// The names on a trail to a file can name files.
proof fn trail_has_names(p: Platform, nodes: Seq<ScanNode>, levels: nat, trail: Seq<Seq<char>>)
    requires
        is_well_named(p, nodes, levels),
        trail.len() <= levels,
        holds_file(nodes, trail),
    ensures
        are_names(p, trail),
    decreases trail.len(),
{
    let i = choose|i: int| 0 <= i < nodes.len() && entry_holds(#[trigger] nodes[i], trail);
    let rest = trail.skip(1);
    if trail.len() > 1 {
        trail_has_names(p, nodes[i].children@, (levels - 1) as nat, rest);
    }
    assert forall|k: int| 0 <= k < trail.len() implies is_file_name(p, #[trigger] trail[k]) by {
        if k > 0 {
            assert(trail[k] == rest[k - 1]);
        }
    }
}

// ---------------------------------------------------------------------------
// What a scan finds
// ---------------------------------------------------------------------------

/// Whether a path is that of a file that counts, in one of the entries at the given
/// places from `k` on, no more than `room` names below the directory at `trail`.
pub open spec fn comes_from(
    nodes: Seq<ScanNode>,
    at: Seq<int>,
    k: int,
    room: int,
    trail: Seq<Seq<char>>,
    path: Seq<char>,
) -> bool {
    exists|j: int, rest: Seq<Seq<char>>|
        k <= j < at.len() && rest.len() <= room && #[trigger] entry_holds(nodes[at[j]], rest)
            && path == path_text(trail + rest)
}

/// Whether a record has the given path, from `from` on.
pub open spec fn is_listed(found: Seq<FileView>, from: int, path: Seq<char>) -> bool {
    exists|i: int| from <= i < found.len() && (#[trigger] found[i]).path == path
}

/// What a scan adds behind the records `done`: records without descriptions of files
/// that count, none twice, and all of them unless the scan reached its bound.
pub open spec fn adds_files(
    found: Seq<FileView>,
    done: Seq<FileView>,
    nodes: Seq<ScanNode>,
    at: Seq<int>,
    k: int,
    room: int,
    trail: Seq<Seq<char>>,
) -> bool {
    let n = done.len() as int;
    &&& n <= found.len()
    &&& found.take(n) == done
    &&& forall|i: int|
        n <= i < found.len() ==> is_bare(#[trigger] found[i]) && comes_from(
            nodes,
            at,
            k,
            room,
            trail,
            found[i].path,
        )
    &&& forall|i: int, j: int|
        n <= i < j < found.len() ==> (#[trigger] found[i]).path != (#[trigger] found[j]).path
    &&& found.len() < MAX_ENTRIES ==> forall|j: int, rest: Seq<Seq<char>>|
        k <= j < at.len() && rest.len() <= room && #[trigger] entry_holds(nodes[at[j]], rest)
            ==> is_listed(found, n, path_text(trail + rest))
}

/// Whether some places are places of entries, none twice.
pub open spec fn are_places(at: Seq<int>, n: int) -> bool {
    &&& forall|i: int| 0 <= i < at.len() ==> 0 <= #[trigger] at[i] < n
    &&& forall|i: int, j: int| 0 <= i < j < at.len() ==> #[trigger] at[i] != #[trigger] at[j]
}

/// A scan of a directory adds its files.
proof fn walk_adds(
    p: Platform,
    workspace: Seq<char>,
    dir: Seq<char>,
    trail: Seq<Seq<char>>,
    nodes: Seq<ScanNode>,
    depth: nat,
    done: Seq<FileView>,
)
    requires
        depth <= MAX_DEPTH + 1,
        leads_along(p, workspace, dir, trail),
        is_well_named(p, nodes, (MAX_DEPTH + 1 - depth) as nat),
    ensures
        adds_files(
            manifest::walked(p, workspace, dir, nodes, depth, done),
            done,
            nodes,
            order::order_of(manifest::node_names(nodes)),
            0,
            MAX_DEPTH + 1 - depth,
            trail,
        ),
    decreases MAX_DEPTH + 1 - depth, 1nat, 0nat,
{
    let at = order::order_of(manifest::node_names(nodes));
    order::order_has_each_place(manifest::node_names(nodes));
    assert(done.take(done.len() as int) =~= done);
    if depth <= MAX_DEPTH && done.len() < MAX_ENTRIES {
        walk_from_adds(p, workspace, dir, trail, nodes, at, 0, depth, done);
    }
}

/// A scan of the entries from `k` on adds their files.
proof fn walk_from_adds(
    p: Platform,
    workspace: Seq<char>,
    dir: Seq<char>,
    trail: Seq<Seq<char>>,
    nodes: Seq<ScanNode>,
    at: Seq<int>,
    k: int,
    depth: nat,
    done: Seq<FileView>,
)
    requires
        depth <= MAX_DEPTH,
        0 <= k <= at.len(),
        are_places(at, nodes.len() as int),
        leads_along(p, workspace, dir, trail),
        is_well_named(p, nodes, (MAX_DEPTH + 1 - depth) as nat),
    ensures
        adds_files(
            manifest::walked_from(p, workspace, dir, nodes, at, k, depth, done),
            done,
            nodes,
            at,
            k,
            MAX_DEPTH + 1 - depth,
            trail,
        ),
    decreases MAX_DEPTH + 1 - depth, 0nat, at.len() - k,
{
    assert(done.take(done.len() as int) =~= done);
    if k < at.len() && done.len() < MAX_ENTRIES {
        let next = after_entry(p, workspace, dir, nodes[at[k]], depth, done);
        entry_adds(p, workspace, dir, trail, nodes, at, k, depth, done);
        walk_from_adds(p, workspace, dir, trail, nodes, at, k + 1, depth, next);
        let found = manifest::walked_from(p, workspace, dir, nodes, at, k + 1, depth, next);
        assert(found == manifest::walked_from(p, workspace, dir, nodes, at, k, depth, done));
        entries_add_up(p, nodes, at, k, depth, trail, done, next, found);
    }
}

/// The records after one entry of a directory.
pub open spec fn after_entry(
    p: Platform,
    workspace: Seq<char>,
    dir: Seq<char>,
    node: ScanNode,
    depth: nat,
    done: Seq<FileView>,
) -> Seq<FileView> {
    let path = file_tools::path_joined(p, dir, node.name@);
    match node.kind {
        ScanKind::Unreadable => done,
        ScanKind::Symlink => done,
        ScanKind::Dir => if manifest::ignored_dir(node.name@) {
            done
        } else {
            manifest::walked(p, workspace, path, node.children@, depth + 1, done)
        },
        ScanKind::File => if manifest::ignored_file(node.name@) {
            done
        } else {
            match manifest::found_file(p, workspace, path, text::opt_view(node.updated_at)) {
                Some(f) => done.push(f),
                None => done,
            }
        },
    }
}

/// An entry adds its own files, and only those.
proof fn entry_adds(
    p: Platform,
    workspace: Seq<char>,
    dir: Seq<char>,
    trail: Seq<Seq<char>>,
    nodes: Seq<ScanNode>,
    at: Seq<int>,
    k: int,
    depth: nat,
    done: Seq<FileView>,
)
    requires
        depth <= MAX_DEPTH,
        0 <= k < at.len(),
        are_places(at, nodes.len() as int),
        leads_along(p, workspace, dir, trail),
        is_well_named(p, nodes, (MAX_DEPTH + 1 - depth) as nat),
    ensures
        adds_files(
            after_entry(p, workspace, dir, nodes[at[k]], depth, done),
            done,
            nodes,
            at.take(k + 1),
            k,
            MAX_DEPTH + 1 - depth,
            trail,
        ),
    decreases MAX_DEPTH + 1 - depth, 0nat, 0nat,
{
    let node = nodes[at[k]];
    let name = node.name@;
    let one = at.take(k + 1);
    let room = MAX_DEPTH + 1 - depth;
    let next = after_entry(p, workspace, dir, node, depth, done);
    let n = done.len() as int;
    assert(done.take(n) =~= done);
    assert(one[k] == at[k]);
    assert(is_file_name(p, name));
    trail_grows(p, workspace, dir, trail, name);
    let path = file_tools::path_joined(p, dir, name);
    let near = trail.push(name);
    if node.kind == ScanKind::File && !manifest::ignored_file(name) {
        found_along(p, workspace, path, near, text::opt_view(node.updated_at));
        assert(next.take(n) =~= done);
        let step = seq![name];
        assert(trail + step =~= near);
        assert(entry_holds(nodes[one[k]], step));
        assert forall|j: int, rest: Seq<Seq<char>>|
            k <= j < one.len() && rest.len() <= room && #[trigger] entry_holds(
                nodes[one[j]],
                rest,
            ) implies is_listed(next, n, path_text(trail + rest)) by {
            assert(j == k);
            assert(rest =~= step);
            assert(next[n].path == path_text(trail + rest));
        }
    } else if node.kind == ScanKind::Dir && !manifest::ignored_dir(name) {
        let inner = node.children@;
        let places = order::order_of(manifest::node_names(inner));
        walk_adds(p, workspace, path, near, inner, depth + 1, done);
        order::order_has_each_place(manifest::node_names(inner));
        assert forall|i: int| n <= i < next.len() implies is_bare(#[trigger] next[i])
            && comes_from(nodes, one, k, room, trail, next[i].path) by {
            let (j, rest) = choose|j: int, rest: Seq<Seq<char>>|
                0 <= j < places.len() && rest.len() <= room - 1 && #[trigger] entry_holds(
                    inner[places[j]],
                    rest,
                ) && next[i].path == path_text(near + rest);
            let whole = seq![name] + rest;
            assert(whole.skip(1) =~= rest);
            assert(rest.len() > 0);
            assert(holds_file(inner, rest)) by {
                assert(entry_holds(inner[places[j]], rest));
            }
            assert(entry_holds(nodes[one[k]], whole));
            assert(trail + whole =~= near + rest);
        }
        if next.len() < MAX_ENTRIES {
            assert forall|j: int, rest: Seq<Seq<char>>|
                k <= j < one.len() && rest.len() <= room && #[trigger] entry_holds(
                    nodes[one[j]],
                    rest,
                ) implies is_listed(next, n, path_text(trail + rest)) by {
                assert(j == k);
                let inside = rest.skip(1);
                assert(rest.len() > 1);
                let i = choose|i: int|
                    0 <= i < inner.len() && entry_holds(#[trigger] inner[i], inside);
                assert(places.contains(i));
                let m = places.index_of(i);
                assert(places[m] == i);
                assert(entry_holds(inner[places[m]], inside));
                assert(trail + rest =~= near + inside);
            }
        }
    } else {
        assert forall|j: int, rest: Seq<Seq<char>>|
            k <= j < one.len() && rest.len() <= room implies !(#[trigger] entry_holds(
            nodes[one[j]],
            rest,
        )) by {
            assert(j == k);
        }
    }
}

/// What an entry adds and what the entries behind it add are what all of them add.
proof fn entries_add_up(
    p: Platform,
    nodes: Seq<ScanNode>,
    at: Seq<int>,
    k: int,
    depth: nat,
    trail: Seq<Seq<char>>,
    done: Seq<FileView>,
    next: Seq<FileView>,
    found: Seq<FileView>,
)
    requires
        depth <= MAX_DEPTH,
        0 <= k < at.len(),
        are_names(p, trail),
        are_places(at, nodes.len() as int),
        is_well_named(p, nodes, (MAX_DEPTH + 1 - depth) as nat),
        adds_files(next, done, nodes, at.take(k + 1), k, MAX_DEPTH + 1 - depth, trail),
        adds_files(found, next, nodes, at, k + 1, MAX_DEPTH + 1 - depth, trail),
    ensures
        adds_files(found, done, nodes, at, k, MAX_DEPTH + 1 - depth, trail),
{
    let (n, m) = (done.len() as int, next.len() as int);
    let one = at.take(k + 1);
    let room = MAX_DEPTH + 1 - depth;
    assert(found.take(n) =~= done) by {
        assert forall|i: int| 0 <= i < n implies found[i] == done[i] by {
            assert(found.take(m)[i] == next[i]);
            assert(next.take(n)[i] == done[i]);
        }
    }
    assert forall|i: int| n <= i < m implies found[i] == next[i] by {
        assert(found.take(m)[i] == next[i]);
    }
    assert forall|i: int| n <= i < found.len() implies is_bare(#[trigger] found[i]) && comes_from(
        nodes,
        at,
        k,
        room,
        trail,
        found[i].path,
    ) by {
        if i < m {
            assert(found[i] == next[i]);
            let (j, rest) = choose|j: int, rest: Seq<Seq<char>>|
                k <= j < one.len() && rest.len() <= room && #[trigger] entry_holds(
                    nodes[one[j]],
                    rest,
                ) && next[i].path == path_text(trail + rest);
            assert(one[j] == at[j]);
            assert(entry_holds(nodes[at[j]], rest));
        } else {
            let (j, rest) = choose|j: int, rest: Seq<Seq<char>>|
                k + 1 <= j < at.len() && rest.len() <= room && #[trigger] entry_holds(
                    nodes[at[j]],
                    rest,
                ) && found[i].path == path_text(trail + rest);
            assert(entry_holds(nodes[at[j]], rest));
        }
    }
    assert forall|i: int, j: int| n <= i < j < found.len() implies (#[trigger] found[i]).path != (
    #[trigger] found[j]).path by {
        if j < m {
            assert(found[i] == next[i] && found[j] == next[j]);
        } else if i < m {
            assert(found[i] == next[i]);
            let (x, rx) = choose|x: int, rest: Seq<Seq<char>>|
                k <= x < one.len() && rest.len() <= room && #[trigger] entry_holds(
                    nodes[one[x]],
                    rest,
                ) && next[i].path == path_text(trail + rest);
            let (y, ry) = choose|y: int, rest: Seq<Seq<char>>|
                k + 1 <= y < at.len() && rest.len() <= room && #[trigger] entry_holds(
                    nodes[at[y]],
                    rest,
                ) && found[j].path == path_text(trail + rest);
            assert(one[x] == at[k]);
            trails_differ(p, nodes, room as nat, trail, at[k], rx, at[y], ry);
        }
    }
    if found.len() < MAX_ENTRIES {
        assert forall|j: int, rest: Seq<Seq<char>>|
            k <= j < at.len() && rest.len() <= room && #[trigger] entry_holds(
                nodes[at[j]],
                rest,
            ) implies is_listed(found, n, path_text(trail + rest)) by {
            let path = path_text(trail + rest);
            if j == k {
                assert(one[k] == at[k]);
                assert(entry_holds(nodes[one[k]], rest));
                assert(is_listed(next, n, path));
                let i = choose|i: int| n <= i < next.len() && (#[trigger] next[i]).path == path;
                assert(found[i] == next[i]);
            } else {
                assert(is_listed(found, m, path));
                let i = choose|i: int| m <= i < found.len() && (#[trigger] found[i]).path == path;
                assert(found[i].path == path);
            }
        }
    }
}

/// Files in different entries have different paths.
proof fn trails_differ(
    p: Platform,
    nodes: Seq<ScanNode>,
    levels: nat,
    trail: Seq<Seq<char>>,
    x: int,
    rx: Seq<Seq<char>>,
    y: int,
    ry: Seq<Seq<char>>,
)
    requires
        are_names(p, trail),
        is_well_named(p, nodes, levels),
        0 <= x < nodes.len(),
        0 <= y < nodes.len(),
        x != y,
        entry_holds(nodes[x], rx),
        entry_holds(nodes[y], ry),
        rx.len() <= levels,
        ry.len() <= levels,
    ensures
        path_text(trail + rx) != path_text(trail + ry),
{
    assert(holds_file(nodes, rx));
    assert(holds_file(nodes, ry));
    trail_has_names(p, nodes, levels, rx);
    trail_has_names(p, nodes, levels, ry);
    let (a, b) = (trail + rx, trail + ry);
    assert forall|i: int| 0 <= i < a.len() implies is_file_name(p, #[trigger] a[i]) by {
        if i < trail.len() {
            assert(a[i] == trail[i]);
        } else {
            assert(a[i] == rx[i - trail.len()]);
        }
    }
    assert forall|i: int| 0 <= i < b.len() implies is_file_name(p, #[trigger] b[i]) by {
        if i < trail.len() {
            assert(b[i] == trail[i]);
        } else {
            assert(b[i] == ry[i - trail.len()]);
        }
    }
    path_splits(p, a);
    path_splits(p, b);
    assert(a[trail.len() as int] == rx[0]);
    assert(b[trail.len() as int] == ry[0]);
    assert(rx[0] != ry[0]) by {
        if x < y {
            assert(nodes[x].name@ != nodes[y].name@);
        } else {
            assert(nodes[y].name@ != nodes[x].name@);
        }
    }
}

// ---------------------------------------------------------------------------
// Laws
// ---------------------------------------------------------------------------

/// Whether records stand in the order of their paths, none twice.
pub open spec fn is_in_order(files: Seq<FileView>) -> bool {
    forall|i: int, j: int|
        0 <= i < j < files.len() ==> order::lex_le(
            (#[trigger] files[i]).path,
            (#[trigger] files[j]).path,
        ) && files[i].path != files[j].path
}

/// Whether a path is that of a file that counts in the directory of an agent, no deeper
/// than a scan goes.
pub open spec fn is_on_disk(agent: AgentType, nodes: Seq<ScanNode>, path: Seq<char>) -> bool {
    exists|trail: Seq<Seq<char>>|
        trail.len() <= MAX_DEPTH + 1 && #[trigger] holds_file(nodes, trail) && path == path_text(
            dir_trail(agent) + trail,
        )
}

/// A scan of the directory of an agent gives the files in it in the order of their
/// paths, none twice and without descriptions. It leaves no file out, down to the depth
/// that a scan goes to, unless it reaches the bound on their number; what is passed
/// over, and what links lead to, is not in it.
pub proof fn law_scan_is_complete(
    p: Platform,
    workspace: Seq<char>,
    agent: AgentType,
    nodes: Seq<ScanNode>,
)
    requires
        file_tools::is_settled(p, workspace),
        is_well_named(p, nodes, (MAX_DEPTH + 1) as nat),
    ensures
        ({
            let found = manifest::scanned(p, workspace, agent, Some(nodes));
            &&& is_in_order(found)
            &&& forall|i: int| 0 <= i < found.len() ==> is_bare(#[trigger] found[i])
            &&& forall|i: int|
                0 <= i < found.len() ==> is_on_disk(agent, nodes, (#[trigger] found[i]).path)
            &&& found.len() < MAX_ENTRIES ==> forall|path: Seq<char>| #[trigger]
                is_on_disk(agent, nodes, path) ==> is_listed(found, 0, path)
        }),
{
    let dir = file_tools::path_joined(p, workspace, manifest::manifest_dir(agent));
    let trail = dir_trail(agent);
    let none = Seq::<FileView>::empty();
    let raw = manifest::walked(p, workspace, dir, nodes, 0, none);
    let at = order::order_of(manifest::node_names(nodes));
    dir_is_along(p, workspace, agent);
    walk_adds(p, workspace, dir, trail, nodes, 0, none);
    order::order_has_each_place(manifest::node_names(nodes));
    let paths = manifest::file_paths(raw);
    let sorted = order::order_of(paths);
    order::order_has_each_place(paths);
    let found = manifest::scanned(p, workspace, agent, Some(nodes));
    assert(found == manifest::by_path(raw));
    assert(found.len() == raw.len());
    assert forall|i: int| 0 <= i < found.len() implies #[trigger] found[i] == raw[sorted[i]] by {}
    assert forall|i: int, j: int| 0 <= i < j < found.len() implies order::lex_le(
        (#[trigger] found[i]).path,
        (#[trigger] found[j]).path,
    ) && found[i].path != found[j].path by {
        let (a, b) = (sorted[i], sorted[j]);
        assert(found[i] == raw[a] && found[j] == raw[b]);
        assert(paths[a] == raw[a].path && paths[b] == raw[b].path);
        assert(a != b);
        if a < b {
            assert(raw[a].path != raw[b].path);
        } else {
            assert(raw[b].path != raw[a].path);
        }
    }
    assert forall|i: int| 0 <= i < found.len() implies is_bare(#[trigger] found[i]) by {
        assert(found[i] == raw[sorted[i]]);
    }
    assert forall|i: int| 0 <= i < found.len() implies is_on_disk(
        agent,
        nodes,
        (#[trigger] found[i]).path,
    ) by {
        let r = raw[sorted[i]];
        assert(found[i] == r);
        let (j, rest) = choose|j: int, rest: Seq<Seq<char>>|
            0 <= j < at.len() && rest.len() <= MAX_DEPTH + 1 && #[trigger] entry_holds(
                nodes[at[j]],
                rest,
            ) && r.path == path_text(trail + rest);
        assert(holds_file(nodes, rest)) by {
            assert(entry_holds(nodes[at[j]], rest));
        }
    }
    if found.len() < MAX_ENTRIES {
        assert forall|path: Seq<char>| #[trigger] is_on_disk(agent, nodes, path) implies is_listed(
            found,
            0,
            path,
        ) by {
            let t = choose|t: Seq<Seq<char>>|
                t.len() <= MAX_DEPTH + 1 && #[trigger] holds_file(nodes, t) && path == path_text(
                    trail + t,
                );
            let i = choose|i: int| 0 <= i < nodes.len() && entry_holds(#[trigger] nodes[i], t);
            assert(at.contains(i));
            let j = at.index_of(i);
            assert(at[j] == i);
            assert(entry_holds(nodes[at[j]], t));
            assert(is_listed(raw, 0, path));
            let m = choose|m: int| 0 <= m < raw.len() && (#[trigger] raw[m]).path == path;
            assert(sorted.contains(m));
            let k = sorted.index_of(m);
            assert(found[k] == raw[m]);
        }
    }
}

/// A loaded manifest has the files that are on disk: in the order of their paths, none
/// twice, and all of them, down to the depth and up to the number that a scan goes to.
/// A file that the manifest knew keeps its description, any other has none, and the
/// notes stay.
pub proof fn law_load_follows_disk(
    p: Platform,
    workspace: Seq<char>,
    agent: AgentType,
    nodes: Seq<ScanNode>,
    m: ManifestView,
)
    requires
        file_tools::is_settled(p, workspace),
        is_well_named(p, nodes, (MAX_DEPTH + 1) as nat),
    ensures
        ({
            let loaded = manifest::synced(
                m,
                manifest::scanned(p, workspace, agent, Some(nodes)),
            );
            let files = loaded.files;
            &&& is_in_order(files)
            &&& forall|i: int|
                0 <= i < files.len() ==> is_on_disk(agent, nodes, (#[trigger] files[i]).path)
            &&& files.len() < MAX_ENTRIES ==> forall|path: Seq<char>| #[trigger]
                is_on_disk(agent, nodes, path) ==> is_listed(files, 0, path)
            &&& forall|i: int|
                0 <= i < files.len() ==> match manifest::last_record(
                    m.files,
                    (#[trigger] files[i]).path,
                ) {
                    Some(known) => files[i].description == known.description
                        && files[i].description_updated_at == known.description_updated_at,
                    None => is_bare(files[i]),
                }
            &&& loaded.notes == m.notes
        }),
{
    law_scan_is_complete(p, workspace, agent, nodes);
    let found = manifest::scanned(p, workspace, agent, Some(nodes));
    let files = manifest::synced(m, found).files;
    assert forall|i: int| 0 <= i < files.len() implies (#[trigger] files[i]).path
        == found[i].path by {}
    assert forall|i: int, j: int| 0 <= i < j < files.len() implies order::lex_le(
        (#[trigger] files[i]).path,
        (#[trigger] files[j]).path,
    ) && files[i].path != files[j].path by {
        assert(files[i].path == found[i].path && files[j].path == found[j].path);
    }
    assert forall|i: int| 0 <= i < files.len() implies is_on_disk(
        agent,
        nodes,
        (#[trigger] files[i]).path,
    ) by {
        assert(is_on_disk(agent, nodes, found[i].path));
    }
    if files.len() < MAX_ENTRIES {
        assert forall|path: Seq<char>| #[trigger] is_on_disk(agent, nodes, path) implies is_listed(
            files,
            0,
            path,
        ) by {
            assert(is_listed(found, 0, path));
            let i = choose|i: int| 0 <= i < found.len() && (#[trigger] found[i]).path == path;
            assert(files[i].path == path);
        }
    }
    assert forall|i: int| 0 <= i < files.len() implies match manifest::last_record(
        m.files,
        (#[trigger] files[i]).path,
    ) {
        Some(known) => files[i].description == known.description && files[i].description_updated_at
            == known.description_updated_at,
        None => is_bare(files[i]),
    } by {
        assert(files[i] == manifest::described(m.files, found[i]));
        assert(is_bare(found[i]));
    }
}

/// The last record with a path is found where it stands.
proof fn last_record_is(fs: Seq<FileView>, path: Seq<char>, i: int)
    requires
        0 <= i < fs.len(),
        fs[i].path == path,
        forall|j: int| i < j < fs.len() ==> (#[trigger] fs[j]).path != path,
    ensures
        manifest::last_record(fs, path) == Some(fs[i]),
    decreases fs.len(),
{
    if i < fs.len() - 1 {
        assert(fs[fs.len() - 1].path != path);
        last_record_is(fs.drop_last(), path, i);
    }
}

/// Where no record has a path, none is found.
proof fn last_record_lacks(fs: Seq<FileView>, path: Seq<char>)
    requires
        forall|j: int| 0 <= j < fs.len() ==> (#[trigger] fs[j]).path != path,
    ensures
        manifest::last_record(fs, path) is None,
    decreases fs.len(),
{
    if fs.len() > 0 {
        assert(fs[fs.len() - 1].path != path);
        last_record_lacks(fs.drop_last(), path);
    }
}

/// Where the last record with a path stands.
proof fn last_record_place(fs: Seq<FileView>, path: Seq<char>) -> (at: int)
    ensures
        -1 <= at < fs.len(),
        at >= 0 ==> fs[at].path == path,
        forall|j: int| at < j < fs.len() ==> (#[trigger] fs[j]).path != path,
    decreases fs.len(),
{
    if fs.len() == 0 {
        -1
    } else if fs.last().path == path {
        fs.len() - 1
    } else {
        let at = last_record_place(fs.drop_last(), path);
        assert forall|j: int| at < j < fs.len() implies (#[trigger] fs[j]).path != path by {
            if j < fs.len() - 1 {
                assert(fs.drop_last()[j].path != path);
            }
        }
        at
    }
}

/// Saving a manifest loses no description: what is known of a path in the saved
/// manifest is what was known of it before, and the notes are the same.
pub proof fn law_saving_keeps_records(
    agent: AgentType,
    m: ManifestView,
    now: Seq<char>,
    path: Seq<char>,
)
    ensures
        manifest::last_record(manifest::saved_manifest(agent, m, now).files, path)
            == manifest::last_record(m.files, path),
        manifest::saved_manifest(agent, m, now).notes == m.notes,
{
    let fs = m.files;
    let paths = manifest::file_paths(fs);
    let sorted = order::order_of(paths);
    let by = manifest::by_path(fs);
    order::order_has_each_place(paths);
    let i = last_record_place(fs, path);
    if i >= 0 {
        last_record_is(fs, path, i);
        assert(sorted.contains(i));
        let k = sorted.index_of(i);
        assert(by[k] == fs[i]);
        assert forall|j: int| k < j < by.len() implies (#[trigger] by[j]).path != path by {
            assert(by[j] == fs[sorted[j]]);
            if by[j].path == path {
                assert(paths[sorted[k]] == paths[sorted[j]]);
                assert(sorted[k] < sorted[j]);
            }
        }
        last_record_is(by, path, k);
    } else {
        last_record_lacks(fs, path);
        assert forall|j: int| 0 <= j < by.len() implies (#[trigger] by[j]).path != path by {
            assert(by[j] == fs[sorted[j]]);
        }
        last_record_lacks(by, path);
    }
}

} // verus!
