//! Shared filesystem guards for the shell, directory listing and patch tools.
//!
//! The model has no first-class tools to read, write, edit or delete files.
//! File access goes through `exec`, `list_dir` and `apply_patch`, and all of
//! them rely on this module for workspace scoping and for the directory that
//! an agent may write in. Paths are held as text and read by the rules of their
//! platform; everything here is decided from that text alone, without looking at
//! the filesystem.

use crate::codex_shell::Platform;
use crate::text;
use vstd::prelude::*;

verus! {

// ---------------------------------------------------------------------------
// Paths
// ---------------------------------------------------------------------------

/// Whether a character separates the components of a path.
pub open spec fn is_separator(p: Platform, c: char) -> bool {
    c == '/' || (p == Platform::Windows && c == '\\')
}

/// The character that is put between components.
pub open spec fn separator(p: Platform) -> char {
    if p == Platform::Windows {
        '\\'
    } else {
        '/'
    }
}

/// Whether a path is verbatim: on Windows, one that begins with `\\?\`. In it only a
/// backslash separates components.
pub open spec fn is_verbatim(p: Platform, path: Seq<char>) -> bool {
    p == Platform::Windows && path.len() >= 4 && path[0] == '\\' && path[1] == '\\' && path[2]
        == '?' && path[3] == '\\'
}

/// A path with one character for all its separators: a slash, unless it is verbatim.
pub open spec fn slashed(p: Platform, path: Seq<char>) -> Seq<char> {
    if p == Platform::Windows && !is_verbatim(p, path) {
        text::replaced(path, '\\', '/')
    } else {
        path
    }
}

/// The one character that then separates the components.
pub open spec fn divider(p: Platform, path: Seq<char>) -> char {
    if is_verbatim(p, path) {
        '\\'
    } else {
        '/'
    }
}

/// The component that stands for the root of a path.
pub open spec fn root_component(p: Platform) -> Seq<char> {
    seq![separator(p)]
}

/// The component that stands for the current directory.
pub open spec fn current_component() -> Seq<char> {
    seq!['.']
}

/// The component that stands for the parent directory.
pub open spec fn parent_component() -> Seq<char> {
    seq!['.', '.']
}

/// Whether a character is a letter that can name a drive.
pub open spec fn is_drive_letter(c: char) -> bool {
    ('a' <= c && c <= 'z') || ('A' <= c && c <= 'Z')
}

/// Where the part of a path that begins at `i` ends: at the next `d` or at the end.
pub open spec fn part_end(u: Seq<char>, i: int, d: char) -> int
    decreases u.len() - i,
{
    if i < 0 || i >= u.len() {
        u.len() as int
    } else if u[i] == d {
        i
    } else {
        part_end(u, i + 1, d)
    }
}

/// How long the name of a share is at the start of a path with slashes: two
/// slashes, a machine, a slash and a name.
pub open spec fn share_len(u: Seq<char>) -> int {
    if u.len() >= 2 && u[0] == '/' && u[1] == '/' {
        let machine = part_end(u, 2, '/');
        let name = part_end(u, machine + 1, '/');
        if 2 < machine && machine + 1 < name {
            name
        } else {
            0
        }
    } else {
        0
    }
}

/// Whether a verbatim path names a share: `UNC\` follows its first four characters.
pub open spec fn names_share(path: Seq<char>) -> bool {
    path.len() >= 8 && path[4] == 'U' && path[5] == 'N' && path[6] == 'C' && path[7] == '\\'
}

/// How long the prefix of a verbatim path is: up to the backslash behind its first
/// part. Where it names a share, these are the machine and, if there is one, the name.
#[verifier::opaque]
pub open spec fn verbatim_len(path: Seq<char>) -> int {
    if names_share(path) {
        let machine = part_end(path, 8, '\\');
        let name = part_end(path, machine + 1, '\\');
        if machine + 1 < name {
            name
        } else {
            machine
        }
    } else {
        part_end(path, 4, '\\')
    }
}

/// How long the prefix of a path is. Only paths of Windows have one: a drive letter
/// with a colon, the name of a share, or the start of a verbatim path.
pub open spec fn prefix_len(p: Platform, path: Seq<char>) -> int {
    if p != Platform::Windows {
        0
    } else if path.len() >= 2 && is_drive_letter(path[0]) && path[1] == ':' {
        2
    } else if is_verbatim(p, path) {
        verbatim_len(path)
    } else {
        share_len(slashed(p, path))
    }
}

/// What follows the prefix of a path, with one character for all separators.
pub open spec fn tail_of(p: Platform, path: Seq<char>) -> Seq<char> {
    slashed(p, path).skip(prefix_len(p, path))
}

/// Whether a path starts from a root. With the name of a share, and in a verbatim path,
/// it does in any case.
pub open spec fn rooted(p: Platform, path: Seq<char>) -> bool {
    prefix_len(p, path) > 2 || (tail_of(p, path).len() > 0 && tail_of(p, path)[0] == divider(
        p,
        path,
    ))
}

/// Whether the root is a component of a path. In a verbatim path it is only if it is
/// written.
pub open spec fn shows_root(p: Platform, path: Seq<char>) -> bool {
    rooted(p, path) && (is_verbatim(p, path) ==> tail_of(p, path).len() > 0)
}

/// Whether a path leads to the same place from everywhere. On Windows this takes a
/// prefix besides the root.
pub open spec fn absolute(p: Platform, path: Seq<char>) -> bool {
    rooted(p, path) && (p != Platform::Windows || prefix_len(p, path) > 0)
}

/// The pieces between the separators of a path that are components of it: those
/// that are not empty and not `.`. A `.` counts among the first `dots` pieces, and
/// everywhere if `dots` is negative.
pub open spec fn kept(parts: Seq<Seq<char>>, dots: int) -> Seq<Seq<char>>
    decreases parts.len(),
{
    if parts.len() == 0 {
        Seq::empty()
    } else {
        let before = kept(parts.drop_last(), dots);
        let part = parts.last();
        if part.len() > 0 && (part != current_component() || dots < 0 || parts.len() <= dots) {
            before.push(part)
        } else {
            before
        }
    }
}

/// Where a `.` is a component of a path: everywhere if the path is verbatim, and else
/// at the very start.
pub open spec fn dots_of(p: Platform, path: Seq<char>) -> int {
    if is_verbatim(p, path) {
        -1
    } else if prefix_len(p, path) > 0 {
        0
    } else {
        1
    }
}

/// The components before the names of a path: its prefix and its root, as far as it
/// has them.
pub open spec fn head_of(p: Platform, path: Seq<char>) -> Seq<Seq<char>> {
    let prefix = if prefix_len(p, path) > 0 {
        seq![path.take(prefix_len(p, path))]
    } else {
        Seq::empty()
    };
    if shows_root(p, path) {
        prefix.push(root_component(p))
    } else {
        prefix
    }
}

/// The components of a path that are no prefix and no root.
pub open spec fn names_of(p: Platform, path: Seq<char>) -> Seq<Seq<char>> {
    kept(text::pieces(tail_of(p, path), divider(p, path)), dots_of(p, path))
}

/// The components of a path: its prefix and its root, as far as it has them, and
/// its names.
pub open spec fn components_of(p: Platform, path: Seq<char>) -> Seq<Seq<char>> {
    head_of(p, path) + names_of(p, path)
}

/// Whether components end in the name of a file or directory, the first of them being a
/// prefix.
pub open spec fn end_in_normal(p: Platform, comps: Seq<Seq<char>>) -> bool {
    &&& comps.len() > 1
    &&& comps.last() != root_component(p)
    &&& comps.last() != current_component()
    &&& comps.last() != parent_component()
}

/// The components of a verbatim path with others behind them. A root keeps only the
/// prefix before it, `.` has no effect, and `..` takes the name before it away.
#[verifier::opaque]
pub open spec fn added(p: Platform, comps: Seq<Seq<char>>, more: Seq<Seq<char>>) -> Seq<Seq<char>>
    decreases more.len(),
{
    if more.len() == 0 {
        comps
    } else {
        let before = added(p, comps, more.drop_last());
        let c = more.last();
        if c == root_component(p) {
            before.take(1).push(c)
        } else if c == current_component() {
            before
        } else if c == parent_component() {
            if end_in_normal(p, before) {
                before.drop_last()
            } else {
                before
            }
        } else {
            before.push(c)
        }
    }
}

/// The verbatim path that has the given components.
#[verifier::opaque]
pub open spec fn verbatim_text(p: Platform, comps: Seq<Seq<char>>) -> Seq<char>
    decreases comps.len(),
{
    if comps.len() == 0 {
        Seq::empty()
    } else {
        let before = verbatim_text(p, comps.drop_last());
        let c = comps.last();
        if comps.len() == 1 || c == root_component(p) || comps[comps.len() - 2]
            == root_component(p) {
            before + c
        } else {
            before.push(separator(p)) + c
        }
    }
}

/// Whether a path is a drive and nothing else.
pub open spec fn is_bare_drive(p: Platform, path: Seq<char>) -> bool {
    prefix_len(p, path) == 2 && path.len() == 2
}

/// `path` seen from `base`. A path with a prefix stays as it is, and one with a root
/// keeps only the prefix of `base` before it. Another one is put behind `base`, with
/// a separator between them where `base` does not end in one and is no bare drive. A
/// verbatim `base` takes it component by component.
pub open spec fn path_joined(p: Platform, base: Seq<char>, path: Seq<char>) -> Seq<char> {
    if prefix_len(p, path) > 0 {
        path
    } else if is_verbatim(p, base) && path.len() > 0 {
        verbatim_text(p, added(p, components_of(p, base), components_of(p, path)))
    } else if rooted(p, path) {
        base.take(prefix_len(p, base)) + path
    } else if base.len() > 0 && !is_separator(p, base.last()) && !is_bare_drive(p, base) {
        base.push(separator(p)) + path
    } else {
        base + path
    }
}

/// Components with the last name taken away. A root and a prefix stay; of a name
/// that begins with a drive, the drive stays.
pub open spec fn climbed(p: Platform, comps: Seq<Seq<char>>) -> Seq<Seq<char>> {
    if comps.len() == 0 || comps.last() == root_component(p) {
        comps
    } else if prefix_len(p, comps.last()) > 0 {
        comps.drop_last().push(comps.last().take(prefix_len(p, comps.last())))
    } else {
        comps.drop_last()
    }
}

/// Components with one more put behind them. What begins with a prefix takes the place
/// of all that stands before it, and a verbatim path takes it piece by piece.
pub open spec fn pushed(p: Platform, comps: Seq<Seq<char>>, c: Seq<char>) -> Seq<Seq<char>> {
    if prefix_len(p, c) > 0 {
        seq![c]
    } else if comps.len() > 0 && is_verbatim(p, comps[0]) {
        added(p, comps, components_of(p, c))
    } else {
        comps.push(c)
    }
}

/// Components with `.` dropped and each `..` taking the name before it away. At
/// the root, or with no name left, a `..` has no effect.
pub open spec fn collapsed(p: Platform, comps: Seq<Seq<char>>) -> Seq<Seq<char>>
    decreases comps.len(),
{
    if comps.len() == 0 {
        Seq::empty()
    } else {
        let before = collapsed(p, comps.drop_last());
        let c = comps.last();
        if c == parent_component() {
            climbed(p, before)
        } else if c == current_component() {
            before
        } else {
            pushed(p, before, c)
        }
    }
}

/// The path that has the given components.
pub open spec fn rendered(p: Platform, comps: Seq<Seq<char>>) -> Seq<char>
    decreases comps.len(),
{
    if comps.len() == 0 {
        Seq::empty()
    } else {
        path_joined(p, rendered(p, comps.drop_last()), comps.last())
    }
}

/// A path with its `.` and `..` components collapsed.
pub open spec fn normalized(p: Platform, path: Seq<char>) -> Seq<char> {
    rendered(p, collapsed(p, components_of(p, path)))
}

/// A component as the file system compares it: on Windows and macOS, upper and lower
/// case are the same.
pub open spec fn folded(p: Platform, c: Seq<char>) -> Seq<char> {
    if p == Platform::Windows || p == Platform::MacOs {
        text::lowercase_of(c)
    } else {
        c
    }
}

/// `target` is `base` or lies under it, component by component, as the file system
/// compares them.
pub open spec fn within(p: Platform, target: Seq<char>, base: Seq<char>) -> bool {
    let (ct, cb) = (components_of(p, target), components_of(p, base));
    cb.len() <= ct.len() && forall|i: int|
        0 <= i < cb.len() ==> folded(p, #[trigger] ct[i]) == folded(p, cb[i])
}

/// Two paths have the same components, as the file system compares them.
pub open spec fn same_place(p: Platform, target: Seq<char>, base: Seq<char>) -> bool {
    components_of(p, target).len() == components_of(p, base).len() && within(p, target, base)
}

/// What tells two prefixes apart: of a drive the letter, whatever its case, and of a
/// share its text, whatever its separators. A verbatim prefix differs from all others.
pub open spec fn prefix_key(p: Platform, prefix: Seq<char>) -> Seq<char> {
    if prefix_len(p, prefix) == 2 {
        seq![text::ascii_lower(prefix[0])]
    } else if is_verbatim(p, prefix) && prefix.len() == 6 && is_drive_letter(prefix[4])
        && prefix[5] == ':' {
        text::ascii_lowered(prefix)
    } else {
        slashed(p, prefix)
    }
}

/// Two components at the same place are equal, upper and lower case told apart.
pub open spec fn equal_at(p: Platform, i: int, a: Seq<char>, b: Seq<char>) -> bool {
    a == b || (i == 0 && prefix_len(p, a) > 0 && prefix_len(p, b) > 0 && prefix_key(p, a)
        == prefix_key(p, b))
}

/// The components of `target` begin with those of `base`, upper and lower case told
/// apart.
pub open spec fn begins_with(p: Platform, target: Seq<char>, base: Seq<char>) -> bool {
    let (ct, cb) = (components_of(p, target), components_of(p, base));
    cb.len() <= ct.len() && forall|i: int|
        0 <= i < cb.len() ==> equal_at(p, i, #[trigger] ct[i], cb[i])
}

/// Two paths have equal components, upper and lower case told apart.
pub open spec fn equal_paths(p: Platform, a: Seq<char>, b: Seq<char>) -> bool {
    components_of(p, a).len() == components_of(p, b).len() && begins_with(p, a, b)
}

/// A path has the same components as itself.
pub proof fn equal_to_itself(p: Platform, path: Seq<char>)
    ensures
        equal_paths(p, path, path),
{
}

/// The part of a path ends inside it, where no separator came before.
pub proof fn part_end_inside(u: Seq<char>, i: int, d: char)
    requires
        0 <= i,
    ensures
        part_end(u, i, d) <= u.len(),
        i <= u.len() ==> i <= part_end(u, i, d),
        part_end(u, i, d) < u.len() ==> u[part_end(u, i, d)] == d,
        i <= u.len() ==> forall|k: int| i <= k < part_end(u, i, d) ==> u[k] != d,
    decreases u.len() - i,
{
    if i < u.len() && u[i] != d {
        part_end_inside(u, i + 1, d);
    }
}

/// The prefix of a verbatim path lies inside it and ends at a backslash or with the path.
proof fn verbatim_inside(path: Seq<char>)
    requires
        path.len() >= 4,
    ensures
        4 <= verbatim_len(path) <= path.len(),
        verbatim_len(path) < path.len() ==> path[verbatim_len(path)] == '\\',
{
    reveal(verbatim_len);
    part_end_inside(path, 4, '\\');
    if names_share(path) {
        part_end_inside(path, 8, '\\');
        part_end_inside(path, part_end(path, 8, '\\') + 1, '\\');
    }
}

/// A prefix lies inside its path, and one that is no drive ends at a separator or with
/// the path.
pub proof fn prefix_inside(p: Platform, path: Seq<char>)
    ensures
        0 <= prefix_len(p, path) <= path.len(),
        prefix_len(p, path) > 0 ==> prefix_len(p, path) >= 2,
        is_verbatim(p, path) ==> prefix_len(p, path) >= 4,
        prefix_len(p, path) > 2 && prefix_len(p, path) < path.len() ==> is_separator(
            p,
            path[prefix_len(p, path)],
        ) && slashed(p, path)[prefix_len(p, path)] == divider(p, path),
        slashed(p, path).len() == path.len(),
        is_verbatim(p, path) ==> slashed(p, path) == path,
        !is_verbatim(p, path) ==> forall|i: int|
            0 <= i < path.len() ==> (#[trigger] slashed(p, path)[i] == '/') == is_separator(
                p,
                path[i],
            ),
{
    let u = slashed(p, path);
    assert(u.len() == path.len());
    if is_verbatim(p, path) {
        verbatim_inside(path);
    } else if p == Platform::Windows && share_len(u) > 0 {
        part_end_inside(u, 2, '/');
        part_end_inside(u, part_end(u, 2, '/') + 1, '/');
    }
}

/// Where the part of a path that begins at `i` ends.
fn find_part_end(u: &Vec<char>, i: usize, d: char) -> (r: usize)
    requires
        i <= u@.len() + 1,
    ensures
        r as int == part_end(u@, i as int, d),
{
    let mut k: usize = i;
    while k < u.len()
        invariant
            i <= k,
            part_end(u@, i as int, d) == part_end(u@, k as int, d),
        decreases u@.len() - k,
    {
        if u[k] == d {
            return k;
        }
        k += 1;
    }
    u.len()
}

/// Whether a path is verbatim.
fn is_verbatim_path(p: Platform, path: &str) -> (r: bool)
    ensures
        r == is_verbatim(p, path@),
{
    let chars = text::chars_of(path);
    p == Platform::Windows && chars.len() >= 4 && chars[0] == '\\' && chars[1] == '\\' && chars[2]
        == '?' && chars[3] == '\\'
}

/// How long the prefix of a verbatim path is.
fn verbatim_length(chars: &Vec<char>) -> (r: usize)
    ensures
        r as int == verbatim_len(chars@),
{
    reveal(verbatim_len);
    if chars.len() >= 8 && chars[4] == 'U' && chars[5] == 'N' && chars[6] == 'C' && chars[7]
        == '\\' {
        let machine: usize = find_part_end(chars, 8, '\\');
        proof {
            part_end_inside(chars@, 8, '\\');
        }
        if machine >= chars.len() {
            return machine;
        }
        let name: usize = find_part_end(chars, machine + 1, '\\');
        if machine + 1 < name {
            name
        } else {
            machine
        }
    } else {
        let n: usize = chars.len();
        if n < 4 {
            return n;
        }
        find_part_end(chars, 4, '\\')
    }
}

/// How long the prefix of a path is.
pub fn prefix_length(p: Platform, path: &str) -> (r: usize)
    ensures
        r as int == prefix_len(p, path@),
{
    if p != Platform::Windows {
        return 0;
    }
    let chars = text::chars_of(path);
    if chars.len() >= 2 && (('a' <= chars[0] && chars[0] <= 'z') || ('A' <= chars[0] && chars[0]
        <= 'Z')) && chars[1] == ':' {
        return 2;
    }
    if is_verbatim_path(p, path) {
        return verbatim_length(&chars);
    }
    let u = text::chars_of(&with_slashes(p, path));
    if u.len() < 2 || u[0] != '/' || u[1] != '/' {
        return 0;
    }
    let machine: usize = find_part_end(&u, 2, '/');
    proof {
        part_end_inside(u@, 2, '/');
    }
    if machine >= u.len() {
        assert(part_end(u@, machine + 1, '/') == u@.len());
        return 0;
    }
    let name: usize = find_part_end(&u, machine + 1, '/');
    if 2 < machine && machine + 1 < name {
        name
    } else {
        0
    }
}

/// A path with one character for all its separators.
fn with_slashes(p: Platform, path: &str) -> (r: String)
    ensures
        r@ == slashed(p, path@),
{
    if p == Platform::Windows && !is_verbatim_path(p, path) {
        text::replace_char(path, '\\', '/')
    } else {
        path.to_owned()
    }
}

/// The character that separates the components of a path.
fn dividing_char(p: Platform, path: &str) -> (r: char)
    ensures
        r == divider(p, path@),
{
    if is_verbatim_path(p, path) {
        '\\'
    } else {
        '/'
    }
}

/// What follows the prefix of a path, with one character for all separators.
fn tail(p: Platform, path: &str) -> (r: String)
    ensures
        r@ == tail_of(p, path@),
{
    let n: usize = prefix_length(p, path);
    let u = text::chars_of(&with_slashes(p, path));
    proof {
        prefix_inside(p, path@);
    }
    let r = text::string_of_range(&u, n, u.len());
    assert(r@ =~= tail_of(p, path@));
    r
}

/// Whether a path starts from a root.
pub fn has_root(p: Platform, path: &str) -> (r: bool)
    ensures
        r == rooted(p, path@),
{
    let rest = text::chars_of(&tail(p, path));
    prefix_length(p, path) > 2 || (rest.len() > 0 && rest[0] == dividing_char(p, path))
}

/// The component that stands for the root.
fn root_text(p: Platform) -> (r: String)
    ensures
        r@ == root_component(p),
{
    let mut root = String::new();
    if p == Platform::Windows {
        root.push('\\');
    } else {
        root.push('/');
    }
    assert(root@ =~= root_component(p));
    root
}

/// Whether a component stands for the root.
pub fn is_root(p: Platform, c: &str) -> (r: bool)
    ensures
        r == (c@ == root_component(p)),
{
    text::same(c, &root_text(p))
}

/// The components of a path, as strings.
pub fn components(p: Platform, path: &str) -> (r: Vec<String>)
    ensures
        text::views(r@) == components_of(p, path@),
{
    let rest = tail(p, path);
    let verbatim = is_verbatim_path(p, path);
    let parts = text::split_on(&rest, dividing_char(p, path));
    let mut out: Vec<String> = Vec::new();
    let ghost all = text::pieces(tail_of(p, path@), divider(p, path@));
    let ghost dots = dots_of(p, path@);
    let ghost head = head_of(p, path@);
    let n: usize = prefix_length(p, path);
    if n > 0 {
        let chars = text::chars_of(path);
        proof {
            prefix_inside(p, path@);
        }
        let prefix = text::string_of_range(&chars, 0, n);
        assert(prefix@ =~= path@.take(n as int));
        out.push(prefix);
        assert(text::views(out@) =~= seq![path@.take(n as int)]);
    } else {
        assert(text::views(out@) =~= Seq::<Seq<char>>::empty());
    }
    if has_root(p, path) && !(verbatim && rest.as_str().is_empty()) {
        let ghost before = text::views(out@);
        out.push(root_text(p));
        assert(text::views(out@) =~= before.push(root_component(p)));
    }
    assert(text::views(out@) == head);
    let mut i: usize = 0;
    assert(head + kept(all.take(0), dots) =~= head);
    while i < parts.len()
        invariant
            i <= parts@.len(),
            all == text::views(parts@),
            dots == dots_of(p, path@),
            verbatim == is_verbatim(p, path@),
            n as int == prefix_len(p, path@),
            text::views(out@) == head + kept(all.take(i as int), dots),
        decreases parts@.len() - i,
    {
        let part = text::chars_of(&parts[i]);
        assert(all.take(i + 1).drop_last() =~= all.take(i as int));
        assert(all.take(i + 1).last() == part@);
        let is_dot = part.len() == 1 && part[0] == '.';
        assert(is_dot == (part@ =~= current_component()));
        if part.len() > 0 && (!is_dot || verbatim || (i == 0 && n == 0)) {
            let ghost before = text::views(out@);
            out.push(text::string_of(&part));
            assert(text::views(out@) =~= before.push(part@));
            assert(head + kept(all.take(i + 1), dots) =~= before.push(part@));
        }
        i += 1;
    }
    assert(all.take(all.len() as int) =~= all);
    out
}

/// Puts components behind those of a verbatim path.
fn add_components(p: Platform, comps: &mut Vec<String>, more: &Vec<String>)
    requires
        old(comps)@.len() > 0,
    ensures
        text::views(final(comps)@) == added(p, text::views(old(comps)@), text::views(more@)),
{
    reveal(added);
    let ghost first = text::views(comps@);
    let ghost all = text::views(more@);
    let mut i: usize = 0;
    assert(all.take(0) =~= Seq::<Seq<char>>::empty());
    while i < more.len()
        invariant
            i <= more@.len(),
            all == text::views(more@),
            comps@.len() > 0,
            text::views(comps@) == added(p, first, all.take(i as int)),
        decreases more@.len() - i,
    {
        reveal(added);
        let ghost before = text::views(comps@);
        assert(all.take(i + 1).drop_last() =~= all.take(i as int));
        assert(all.take(i + 1).last() == more@[i as int]@);
        let c = text::chars_of(&more[i]);
        let n: usize = comps.len();
        if is_root(p, &more[i]) {
            if n > 1 {
                comps.truncate(1);
            }
            assert(text::views(comps@) =~= before.take(1));
            comps.push(root_text(p));
            assert(text::views(comps@) =~= before.take(1).push(c@));
        } else if is_parent_text(&more[i]) {
            if n > 1 {
                assert(before.last() == comps@[n - 1]@);
                if !is_root(p, &comps[n - 1]) && !is_current_text(&comps[n - 1])
                    && !is_parent_text(&comps[n - 1]) {
                    let _ = comps.pop();
                    assert(text::views(comps@) =~= before.drop_last());
                }
            }
        } else if !is_current_text(&more[i]) {
            comps.push(more[i].clone());
            assert(text::views(comps@) =~= before.push(c@));
        }
        i += 1;
    }
    assert(all.take(all.len() as int) =~= all);
}

/// The verbatim path that has the given components.
fn verbatim_string(p: Platform, comps: &Vec<String>) -> (r: String)
    ensures
        r@ == verbatim_text(p, text::views(comps@)),
{
    reveal(verbatim_text);
    let ghost all = text::views(comps@);
    let mut out = String::new();
    let mut i: usize = 0;
    assert(verbatim_text(p, all.take(0)) =~= Seq::<char>::empty());
    while i < comps.len()
        invariant
            i <= comps@.len(),
            all == text::views(comps@),
            out@ == verbatim_text(p, all.take(i as int)),
        decreases comps@.len() - i,
    {
        reveal(verbatim_text);
        assert(all.take(i + 1).drop_last() =~= all.take(i as int));
        assert(all.take(i + 1).last() == comps@[i as int]@);
        let close = i == 0 || is_root(p, &comps[i]) || is_root(p, &comps[i - 1]);
        if !close {
            if p == Platform::Windows {
                out.push('\\');
            } else {
                out.push('/');
            }
        }
        out.push_str(&comps[i]);
        i += 1;
    }
    assert(all.take(all.len() as int) =~= all);
    out
}

/// Whether a component is `.`.
fn is_current_text(c: &str) -> (r: bool)
    ensures
        r == (c@ == current_component()),
{
    let chars = text::chars_of(c);
    let r = chars.len() == 1 && chars[0] == '.';
    assert(r == (c@ =~= current_component()));
    r
}

/// Whether a component is `..`.
fn is_parent_text(c: &str) -> (r: bool)
    ensures
        r == (c@ == parent_component()),
{
    let chars = text::chars_of(c);
    let r = chars.len() == 2 && chars[0] == '.' && chars[1] == '.';
    assert(r == (c@ =~= parent_component()));
    r
}

/// Puts `path` behind `base`, as far as it does not start from a place of its own.
pub fn join_path(p: Platform, base: &str, path: &str) -> (r: String)
    ensures
        r@ == path_joined(p, base@, path@),
{
    proof {
        prefix_inside(p, base@);
    }
    if prefix_length(p, path) > 0 {
        return path.to_owned();
    }
    if is_verbatim_path(p, base) && !path.is_empty() {
        let mut comps = components(p, base);
        assert(text::views(comps@).len() == comps@.len());
        add_components(p, &mut comps, &components(p, path));
        return verbatim_string(p, &comps);
    }
    let bc = text::chars_of(base);
    let n: usize = prefix_length(p, base);
    if has_root(p, path) {
        let mut out = text::string_of_range(&bc, 0, n);
        assert(out@ =~= base@.take(n as int));
        out.push_str(path);
        return out;
    }
    let mut out = base.to_owned();
    if bc.len() > 0 {
        let last = bc[bc.len() - 1];
        let ends = last == '/' || (p == Platform::Windows && last == '\\');
        if !ends && !(n == 2 && bc.len() == 2) {
            if p == Platform::Windows {
                out.push('\\');
            } else {
                out.push('/');
            }
        }
    }
    out.push_str(path);
    out
}

/// Whether a path component is the given one, as the file system compares them. On
/// Windows and macOS names do not differ by case.
pub fn component_eq(p: Platform, a: &str, b: &str) -> (r: bool)
    ensures
        r == (folded(p, a@) == folded(p, b@)),
{
    if p == Platform::Windows || p == Platform::MacOs {
        text::same(&a.to_lowercase(), &b.to_lowercase())
    } else {
        text::same(a, b)
    }
}

/// Collapses the `.` and `..` components of a path without following links.
pub fn normalize(p: Platform, path: &str) -> (r: String)
    ensures
        r@ == normalized(p, path@),
{
    let comps = components(p, path);
    let mut stack: Vec<String> = Vec::new();
    let ghost all = components_of(p, path@);
    let mut i: usize = 0;
    assert(all.take(0) =~= Seq::<Seq<char>>::empty());
    assert(text::views(stack@) =~= collapsed(p, all.take(0)));
    while i < comps.len()
        invariant
            i <= comps@.len(),
            all == text::views(comps@),
            text::views(stack@) == collapsed(p, all.take(i as int)),
        decreases comps@.len() - i,
    {
        let ghost before = text::views(stack@);
        assert(all.take(i + 1).drop_last() =~= all.take(i as int));
        assert(all.take(i + 1).last() == comps@[i as int]@);
        if is_parent_text(&comps[i]) {
            climb(p, &mut stack);
        } else if !is_current_text(&comps[i]) {
            if prefix_length(p, &comps[i]) > 0 {
                stack = Vec::new();
                stack.push(comps[i].clone());
                assert(text::views(stack@) =~= seq![comps@[i as int]@]);
            } else if stack.len() > 0 && is_verbatim_path(p, &stack[0]) {
                add_components(p, &mut stack, &components(p, &comps[i]));
            } else {
                stack.push(comps[i].clone());
                assert(text::views(stack@) =~= before.push(comps@[i as int]@));
            }
        }
        i += 1;
    }
    assert(all.take(all.len() as int) =~= all);
    assert(text::views(stack@).skip(0) =~= text::views(stack@));
    render(p, &stack, 0)
}

/// Takes the last name away.
fn climb(p: Platform, stack: &mut Vec<String>)
    ensures
        text::views(final(stack)@) == climbed(p, text::views(old(stack)@)),
{
    let ghost before = text::views(stack@);
    let n: usize = stack.len();
    if n == 0 {
        return ;
    }
    let top = text::chars_of(&stack[n - 1]);
    assert(before.last() == top@);
    if is_root(p, &stack[n - 1]) {
        return ;
    }
    let k: usize = prefix_length(p, &stack[n - 1]);
    proof {
        prefix_inside(p, top@);
    }
    let _ = stack.pop();
    assert(text::views(stack@) =~= before.drop_last());
    if k > 0 {
        let drive = text::string_of_range(&top, 0, k);
        assert(drive@ =~= top@.take(k as int));
        stack.push(drive);
        assert(text::views(stack@) =~= before.drop_last().push(top@.take(k as int)));
    }
}

/// The path that has the components from `from` on.
pub fn render(p: Platform, comps: &Vec<String>, from: usize) -> (r: String)
    requires
        from <= comps@.len(),
    ensures
        r@ == rendered(p, text::views(comps@).skip(from as int)),
{
    let ghost rest = text::views(comps@).skip(from as int);
    let mut out = String::new();
    let mut k: usize = from;
    assert(rendered(p, rest.take(0)) =~= Seq::<char>::empty());
    while k < comps.len()
        invariant
            from <= k <= comps@.len(),
            rest == text::views(comps@).skip(from as int),
            out@ == rendered(p, rest.take(k - from)),
        decreases comps@.len() - k,
    {
        assert(rest.take(k - from + 1).drop_last() =~= rest.take(k - from));
        assert(rest.take(k - from + 1).last() == comps@[k as int]@);
        out = join_path(p, &out, &comps[k]);
        k += 1;
    }
    assert(rest.take(rest.len() as int) =~= rest);
    out
}

/// Whether two paths have the same components, as the file system compares them.
pub fn path_eq(p: Platform, target: &str, base: &str) -> (r: bool)
    ensures
        r == same_place(p, target@, base@),
{
    let t = components(p, target);
    let b = components(p, base);
    t.len() == b.len() && path_starts_with(p, target, base)
}

/// Whether `target` is `base` or nested under it, as the file system compares them.
pub fn path_starts_with(p: Platform, target: &str, base: &str) -> (r: bool)
    ensures
        r == within(p, target@, base@),
{
    let t = components(p, target);
    let b = components(p, base);
    let ghost ct = components_of(p, target@);
    let ghost cb = components_of(p, base@);
    if t.len() < b.len() {
        return false;
    }
    let mut i: usize = 0;
    while i < b.len()
        invariant
            i <= b@.len() <= t@.len(),
            text::views(t@) == ct,
            text::views(b@) == cb,
            ct == components_of(p, target@),
            cb == components_of(p, base@),
            forall|k: int| 0 <= k < i ==> folded(p, #[trigger] ct[k]) == folded(p, cb[k]),
        decreases b@.len() - i,
    {
        assert(ct[i as int] == t@[i as int]@);
        assert(cb[i as int] == b@[i as int]@);
        if !component_eq(p, &t[i], &b[i]) {
            return false;
        }
        i += 1;
    }
    true
}

/// What tells two prefixes apart.
fn key_of_prefix(p: Platform, prefix: &str) -> (r: String)
    ensures
        r@ == prefix_key(p, prefix@),
{
    if prefix_length(p, prefix) == 2 {
        proof {
            prefix_inside(p, prefix@);
        }
        let lower = text::chars_of(&text::to_ascii_lowercase(prefix));
        let r = text::string_of_range(&lower, 0, 1);
        assert(r@ =~= prefix_key(p, prefix@));
        return r;
    }
    let chars = text::chars_of(prefix);
    if is_verbatim_path(p, prefix) && chars.len() == 6 && (('a' <= chars[4] && chars[4] <= 'z')
        || ('A' <= chars[4] && chars[4] <= 'Z')) && chars[5] == ':' {
        text::to_ascii_lowercase(prefix)
    } else {
        with_slashes(p, prefix)
    }
}

/// Whether the components of `target` begin with those of `base`, upper and lower
/// case told apart.
pub fn starts_exactly(p: Platform, target: &str, base: &str) -> (r: bool)
    ensures
        r == begins_with(p, target@, base@),
{
    let t = components(p, target);
    let b = components(p, base);
    let ghost ct = components_of(p, target@);
    let ghost cb = components_of(p, base@);
    if t.len() < b.len() {
        return false;
    }
    let mut i: usize = 0;
    while i < b.len()
        invariant
            i <= b@.len() <= t@.len(),
            text::views(t@) == ct,
            text::views(b@) == cb,
            ct == components_of(p, target@),
            cb == components_of(p, base@),
            forall|k: int| 0 <= k < i ==> equal_at(p, k, #[trigger] ct[k], cb[k]),
        decreases b@.len() - i,
    {
        assert(ct[i as int] == t@[i as int]@);
        assert(cb[i as int] == b@[i as int]@);
        if !text::same(&t[i], &b[i]) {
            let alike = i == 0 && prefix_length(p, &t[i]) > 0 && prefix_length(p, &b[i]) > 0
                && text::same(&key_of_prefix(p, &t[i]), &key_of_prefix(p, &b[i]));
            if !alike {
                return false;
            }
        }
        i += 1;
    }
    true
}

/// Whether two paths have equal components, upper and lower case told apart.
pub fn equals_exactly(p: Platform, a: &str, b: &str) -> (r: bool)
    ensures
        r == equal_paths(p, a@, b@),
{
    let ca = components(p, a);
    let cb = components(p, b);
    ca.len() == cb.len() && starts_exactly(p, a, b)
}

// ---------------------------------------------------------------------------
// Names
// ---------------------------------------------------------------------------

/// Whether the components of a path end in a name.
pub open spec fn ends_in_name(p: Platform, path: Seq<char>) -> bool {
    let comps = components_of(p, path);
    &&& comps.len() > 0
    &&& comps.last() != root_component(p)
    &&& comps.last() != current_component()
    &&& comps.last() != parent_component()
    &&& !(comps.len() == 1 && prefix_len(p, path) > 0)
}

/// The name of the file or directory that a path leads to. There is none where
/// the path ends in the prefix, in the root, in `.` or in `..`.
pub open spec fn file_name_of(p: Platform, path: Seq<char>) -> Option<Seq<char>> {
    if ends_in_name(p, path) {
        Some(components_of(p, path).last())
    } else {
        None
    }
}

/// Where the last dot of a name stands; -1 where it has none.
pub open spec fn last_dot(name: Seq<char>) -> int
    decreases name.len(),
{
    if name.len() == 0 {
        -1
    } else if name.last() == '.' {
        name.len() - 1
    } else {
        last_dot(name.drop_last())
    }
}

/// The last dot of a name stands inside it.
pub proof fn last_dot_inside(name: Seq<char>)
    ensures
        -1 <= last_dot(name) < name.len(),
    decreases name.len(),
{
    if name.len() > 0 && name.last() != '.' {
        last_dot_inside(name.drop_last());
    }
}

/// A name without what follows its last dot. A dot at the very start of a name
/// does not count.
pub open spec fn stem_of_name(name: Seq<char>) -> Seq<char> {
    if last_dot(name) > 0 {
        name.take(last_dot(name))
    } else {
        name
    }
}

/// The name that a path leads to, without its extension.
pub open spec fn file_stem_of(p: Platform, path: Seq<char>) -> Option<Seq<char>> {
    match file_name_of(p, path) {
        Some(name) => Some(stem_of_name(name)),
        None => None,
    }
}

/// The name that a path leads to.
pub fn file_name(p: Platform, path: &str) -> (r: Option<String>)
    ensures
        text::opt_view(r) == file_name_of(p, path@),
{
    let comps = components(p, path);
    let ghost cs = components_of(p, path@);
    let n: usize = comps.len();
    if n == 0 {
        return None;
    }
    assert(cs.last() == comps@[n - 1]@);
    let last = &comps[n - 1];
    if is_root(p, last) || is_current_text(last) || is_parent_text(last) || (n == 1
        && prefix_length(p, path) > 0) {
        None
    } else {
        Some(last.clone())
    }
}

/// The name that a path leads to, without its extension.
pub fn file_stem(p: Platform, path: &str) -> (r: Option<String>)
    ensures
        text::opt_view(r) == file_stem_of(p, path@),
{
    match file_name(p, path) {
        None => None,
        Some(name) => {
            let chars = text::chars_of(&name);
            let mut i: usize = chars.len();
            assert(name@.take(i as int) =~= name@);
            while i > 0
                invariant
                    i <= chars@.len(),
                    chars@ == name@,
                    last_dot(name@.take(i as int)) == last_dot(name@),
                    file_stem_of(p, path@) == Some(stem_of_name(name@)),
                decreases i,
            {
                assert(name@.take(i as int).drop_last() =~= name@.take(i - 1));
                if chars[i - 1] == '.' {
                    if i == 1 {
                        return Some(name);
                    }
                    let stem = text::string_of_range(&chars, 0, i - 1);
                    assert(stem@ =~= name@.take(i - 1));
                    return Some(stem);
                }
                i -= 1;
            }
            Some(name)
        },
    }
}

/// What of `path` follows `base`, where the components of `path` begin with those of
/// `base`.
pub open spec fn stripped(p: Platform, path: Seq<char>, base: Seq<char>) -> Option<Seq<char>> {
    if begins_with(p, path, base) {
        Some(
            rendered(p, components_of(p, path).skip(components_of(p, base).len() as int)),
        )
    } else {
        None
    }
}

/// What of `path` follows `base`, where the components of `path` begin with those of
/// `base`.
pub fn strip_base(p: Platform, path: &str, base: &str) -> (r: Option<String>)
    ensures
        text::opt_view(r) == stripped(p, path@, base@),
{
    if !starts_exactly(p, path, base) {
        return None;
    }
    let comps = components(p, path);
    let n: usize = components(p, base).len();
    assert(n == components_of(p, base@).len());
    Some(render(p, &comps, n))
}

// ---------------------------------------------------------------------------
// Resolving
// ---------------------------------------------------------------------------

/// Where `path` leads when it is looked up from `workspace`.
pub open spec fn resolved(p: Platform, path: Seq<char>, workspace: Seq<char>) -> Seq<char> {
    normalized(p, path_joined(p, workspace, path))
}

/// What is said of a path that leads out of the workspace.
pub open spec fn escape_message(path: Seq<char>) -> Seq<char> {
    "path '"@ + path + "' escapes the workspace"@
}

/// The outcome of resolving `path` in `workspace`.
pub open spec fn resolution(p: Platform, path: Seq<char>, workspace: Seq<char>) -> Result<
    Seq<char>,
    Seq<char>,
> {
    let target = resolved(p, path, workspace);
    if within(p, target, workspace) {
        Ok(target)
    } else {
        Err(escape_message(path))
    }
}

/// The texts in a result of strings.
pub open spec fn result_view(r: Result<String, String>) -> Result<Seq<char>, Seq<char>> {
    match r {
        Ok(s) => Ok(s@),
        Err(e) => Err(e@),
    }
}

/// Resolves a possibly relative path against the workspace and checks that it
/// stays inside. `..` components are collapsed lexically, so a path never
/// leaves the project root.
pub fn resolve_within(p: Platform, path: &str, workspace: &str) -> (r: Result<String, String>)
    ensures
        result_view(r) == resolution(p, path@, workspace@),
{
    let joined = join_path(p, workspace, path);
    let target = normalize(p, &joined);
    if path_eq(p, &target, workspace) || path_starts_with(p, &target, workspace) {
        Ok(target)
    } else {
        let mut message = "path '".to_owned();
        message.push_str(path);
        message.push_str("' escapes the workspace");
        Err(message)
    }
}

// ---------------------------------------------------------------------------
// Writing
// ---------------------------------------------------------------------------

/// What a tool may do in the filesystem: the workspace that it looks paths up
/// in, and the directory that it may write under, if any. The platform tells how
/// paths are read and compared.
#[derive(Clone)]
pub struct FsCtx {
    pub workspace: String,
    pub write_dir: Option<String>,
    pub platform: Platform,
}

/// What a tool may do in the filesystem.
#[verifier::ext_equal]
pub struct FsView {
    pub workspace: Seq<char>,
    pub write_dir: Option<Seq<char>>,
    pub platform: Platform,
}

impl View for FsCtx {
    type V = FsView;

    open spec fn view(&self) -> FsView {
        FsView {
            workspace: self.workspace@,
            write_dir: text::opt_view(self.write_dir),
            platform: self.platform,
        }
    }
}

/// Whether `target` belongs to the metadata directory of a workspace.
pub open spec fn in_metadata(p: Platform, target: Seq<char>, workspace: Seq<char>) -> bool {
    within(p, target, path_joined(p, workspace, ".autoreport"@))
}

/// Whether writing to `target` is allowed, and if not, why.
pub open spec fn write_permission(fs: FsView, target: Seq<char>) -> Result<(), Seq<char>> {
    if in_metadata(fs.platform, target, fs.workspace) {
        Err("writing inside .autoreport is not permitted"@)
    } else {
        match fs.write_dir {
            Some(dir) => if within(fs.platform, target, dir) {
                Ok(())
            } else {
                Err(
                    "this agent may only write under "@ + dir + "; '"@ + target
                        + "' is outside it"@,
                )
            },
            None => Err("this agent has no write access"@),
        }
    }
}

/// The text in the error of a result.
pub open spec fn unit_view(r: Result<(), String>) -> Result<(), Seq<char>> {
    match r {
        Ok(_) => Ok(()),
        Err(e) => Err(e@),
    }
}

impl FsCtx {
    /// A context for the given workspace and writable directory.
    pub fn new(workspace: String, write_dir: Option<String>, platform: Platform) -> (r: Self)
        ensures
            r.workspace == workspace,
            r.write_dir == write_dir,
            r.platform == platform,
    {
        FsCtx { workspace, write_dir, platform }
    }

    /// The same context again.
    pub fn copy(&self) -> (r: Self)
        ensures
            r == *self,
    {
        FsCtx {
            workspace: self.workspace.clone(),
            write_dir: text::copy_opt(&self.write_dir),
            platform: self.platform,
        }
    }

    /// The directory that may be written in.
    pub fn allowed_write_dir(&self) -> (r: Option<&str>)
        ensures
            r is Some == self.write_dir is Some,
            r is Some ==> r->0@ == self.write_dir->0@,
    {
        match &self.write_dir {
            Some(dir) => Some(dir.as_str()),
            None => None,
        }
    }

    /// What this context says of writing to `target`.
    pub open spec fn permission(&self, target: Seq<char>) -> Result<(), Seq<char>> {
        write_permission(self@, target)
    }

    /// Allows a write under the writable directory, except in the metadata
    /// directory of the workspace.
    pub fn assert_write_allowed(&self, target: &str) -> (r: Result<(), String>)
        ensures
            unit_view(r) == self.permission(target@),
    {
        let p = self.platform;
        let metadata = join_path(p, &self.workspace, ".autoreport");
        if path_eq(p, target, &metadata) || path_starts_with(p, target, &metadata) {
            return Err("writing inside .autoreport is not permitted".to_owned());
        }
        match &self.write_dir {
            Some(dir) => {
                if path_starts_with(p, target, dir) {
                    Ok(())
                } else {
                    let mut message = "this agent may only write under ".to_owned();
                    message.push_str(dir);
                    message.push_str("; '");
                    message.push_str(target);
                    message.push_str("' is outside it");
                    Err(message)
                }
            },
            None => Err("this agent has no write access".to_owned()),
        }
    }
}

// ---------------------------------------------------------------------------
// Laws
// ---------------------------------------------------------------------------

/// Text without a separator that begins with no prefix.
pub open spec fn is_plain(p: Platform, c: Seq<char>) -> bool {
    &&& c.len() > 0
    &&& !c.contains('/')
    &&& p == Platform::Windows ==> !c.contains('\\')
    &&& prefix_len(p, c) == 0
}

/// A component that names a file or directory.
pub open spec fn is_name(p: Platform, c: Seq<char>) -> bool {
    is_plain(p, c) && c != current_component() && c != parent_component()
}

/// Whether a component is a prefix.
pub open spec fn is_prefix(p: Platform, c: Seq<char>) -> bool {
    prefix_len(p, c) > 0 && prefix_len(p, c) == c.len()
}

/// Whether the component at `i` belongs before the names: the prefix, or the root at
/// the start or right behind the prefix.
pub open spec fn is_head(p: Platform, comps: Seq<Seq<char>>, i: int) -> bool {
    ||| i == 0 && is_prefix(p, comps[0])
    ||| i == 0 && comps[0] == root_component(p)
    ||| i == 1 && is_prefix(p, comps[0]) && comps[1] == root_component(p)
}

/// A verbatim prefix that ends where the name of a share could follow.
pub open spec fn is_open(p: Platform, prefix: Seq<char>) -> bool {
    is_verbatim(p, prefix) && (is_share_mark(prefix) || (names_share(prefix) && part_end(
        prefix,
        8,
        '\\',
    ) + 1 >= prefix.len()))
}

/// The verbatim prefix `\\?\UNC`, which lacks all of a share.
pub open spec fn is_share_mark(prefix: Seq<char>) -> bool {
    prefix.len() == 7 && prefix[4] == 'U' && prefix[5] == 'N' && prefix[6] == 'C'
}

/// Behind a share there is always a root. A verbatim prefix may stand alone; names
/// follow it behind a root, and none follows an open one.
pub open spec fn shares_are_rooted(p: Platform, comps: Seq<Seq<char>>) -> bool {
    comps.len() > 0 && prefix_len(p, comps[0]) > 2 ==> {
        &&& comps.len() > 1 || is_verbatim(p, comps[0])
        &&& comps.len() > 1 ==> comps[1] == root_component(p) && !(is_verbatim(p, comps[0])
            && is_share_mark(comps[0]))
        &&& comps.len() > 2 ==> !is_open(p, comps[0])
    }
}

/// Components that a path can have whose names mean the same by themselves.
pub open spec fn are_components(p: Platform, comps: Seq<Seq<char>>) -> bool {
    &&& forall|i: int|
        0 <= i < comps.len() ==> is_plain(p, #[trigger] comps[i]) || is_head(p, comps, i)
    &&& shares_are_rooted(p, comps)
}

/// Components that a collapsed path can have: names, behind a prefix and a root or
/// one of them or none.
pub open spec fn is_collapsed(p: Platform, comps: Seq<Seq<char>>) -> bool {
    &&& forall|i: int|
        0 <= i < comps.len() ==> is_name(p, #[trigger] comps[i]) || is_head(p, comps, i)
    &&& shares_are_rooted(p, comps)
}

/// Whether the names of a path mean the same by themselves: none begins with a drive,
/// none of a verbatim path holds a slash, and none follows an open prefix. Off Windows
/// they always do.
pub open spec fn is_tame(p: Platform, path: Seq<char>) -> bool {
    &&& forall|i: int|
        0 <= i < names_of(p, path).len() ==> prefix_len(p, #[trigger] names_of(p, path)[i]) == 0
            && (is_verbatim(p, path) ==> !names_of(p, path)[i].contains('/'))
    &&& names_of(p, path).len() > 0 ==> !is_open(p, path.take(prefix_len(p, path)))
}

/// A character that a text lacks is in none of its pieces.
proof fn pieces_lack_too(s: Seq<char>, c: char, d: char)
    requires
        !s.contains(d),
    ensures
        forall|i: int|
            0 <= i < text::pieces(s, c).len() ==> !(#[trigger] text::pieces(s, c)[i]).contains(d),
    decreases s.len(),
{
    if s.len() > 0 {
        let front = s.drop_last();
        assert(!front.contains(d)) by {
            if front.contains(d) {
                let k = front.index_of(d);
                assert(s[k] == d);
            }
        }
        pieces_lack_too(front, c, d);
        text::pieces_nonempty(front, c);
        assert(s[s.len() - 1] != d);
        let before = text::pieces(front, c);
        let all = text::pieces(s, c);
        assert forall|i: int| 0 <= i < all.len() implies !(#[trigger] all[i]).contains(d) by {
            if s.last() != c && i == before.len() - 1 {
                if all[i].contains(d) {
                    let k = all[i].index_of(d);
                    assert(all[i] == before[i].push(s.last()));
                    assert(before[i][k] == d);
                    assert(before[i].contains(d));
                }
            } else if i < before.len() {
                assert(all[i] == before[i]);
            }
        }
    }
}

/// The pieces that are kept are not empty and hold only what the pieces hold.
proof fn kept_are_parts(parts: Seq<Seq<char>>, dots: int, d: char)
    requires
        forall|i: int| 0 <= i < parts.len() ==> !(#[trigger] parts[i]).contains(d),
    ensures
        forall|i: int|
            0 <= i < kept(parts, dots).len() ==> (#[trigger] kept(parts, dots)[i]).len() > 0
                && !kept(parts, dots)[i].contains(d),
    decreases parts.len(),
{
    if parts.len() > 0 {
        let front = parts.drop_last();
        assert forall|i: int| 0 <= i < front.len() implies !(#[trigger] front[i]).contains(d) by {
            assert(front[i] == parts[i]);
        }
        kept_are_parts(front, dots, d);
        assert(!parts[parts.len() - 1].contains(d));
        let k = kept(parts, dots);
        assert forall|i: int| 0 <= i < k.len() implies (#[trigger] k[i]).len() > 0
            && !k[i].contains(d) by {
            if i < kept(front, dots).len() {
                assert(k[i] == kept(front, dots)[i]);
            }
        }
    }
}

/// A path of one piece has it as its component unless it is empty, or a `.` that does not
/// count.
pub proof fn kept_single(c: Seq<char>, dots: int)
    ensures
        c.len() > 0 && (c != current_component() || dots != 0) ==> kept(seq![c], dots) == seq![c],
        c.len() == 0 || (c == current_component() && dots == 0) ==> kept(seq![c], dots) == Seq::<
            Seq<char>,
        >::empty(),
{
    reveal_with_fuel(kept, 2);
    let one = seq![c];
    assert(one.drop_last() =~= Seq::<Seq<char>>::empty());
    assert(one.last() == c);
    assert(Seq::<Seq<char>>::empty().push(c) =~= one);
}

/// Where a part ends does not change with what is put behind a separator.
proof fn part_end_grows(u: Seq<char>, v: Seq<char>, i: int, d: char)
    requires
        0 <= i <= u.len(),
        part_end(u, i, d) < u.len() || (v.len() > 0 && v[0] == d),
    ensures
        part_end(u + v, i, d) == part_end(u, i, d),
    decreases u.len() - i,
{
    let w = u + v;
    if i < u.len() {
        assert(w[i] == u[i]);
        if u[i] != d {
            part_end_grows(u, v, i + 1, d);
        }
    } else {
        assert(w[i] == v[0]);
    }
}

/// Putting slashes for separators goes character by character.
proof fn slashed_adds(p: Platform, a: Seq<char>, b: Seq<char>)
    requires
        !is_verbatim(p, a + b),
        !is_verbatim(p, a),
        !is_verbatim(p, b),
    ensures
        slashed(p, a + b) == slashed(p, a) + slashed(p, b),
{
    assert(slashed(p, a + b) =~= slashed(p, a) + slashed(p, b));
}

/// Text without separators stays as it is.
proof fn slashed_plain(p: Platform, c: Seq<char>)
    requires
        p == Platform::Windows ==> !c.contains('\\'),
    ensures
        slashed(p, c) == c,
        !is_verbatim(p, c),
{
    if is_verbatim(p, c) {
        assert(c.contains(c[0]));
    }
    assert forall|i: int| 0 <= i < c.len() implies p == Platform::Windows ==> c[i] != '\\' by {
        if p == Platform::Windows && c[i] == '\\' {
            assert(c.contains('\\'));
        }
    }
    assert(slashed(p, c) =~= c);
}

/// A path that is not verbatim and has a prefix does not become verbatim by what is put
/// behind it.
proof fn stays_plain(p: Platform, t: Seq<char>, v: Seq<char>)
    requires
        !is_verbatim(p, t),
        prefix_len(p, t) > 0,
    ensures
        !is_verbatim(p, t + v),
{
    prefix_inside(p, t);
    let w = t + v;
    assert(w[0] == t[0] && w[1] == t[1]);
    if prefix_len(p, t) > 2 {
        let u = slashed(p, t);
        part_end_inside(u, 2, '/');
        part_end_inside(u, part_end(u, 2, '/') + 1, '/');
        assert(t.len() >= 4);
        assert(w[2] == t[2] && w[3] == t[3]);
    }
}

/// A path keeps its prefix when a separator and more is put behind it, and a drive
/// whatever is put behind it.
proof fn prefix_grows(p: Platform, t: Seq<char>, v: Seq<char>)
    requires
        !is_verbatim(p, t),
        !is_verbatim(p, v),
        prefix_len(p, t) > 0,
        prefix_len(p, t) == 2 || prefix_len(p, t) < t.len() || (v.len() > 0 && is_separator(
            p,
            v[0],
        )),
    ensures
        prefix_len(p, t + v) == prefix_len(p, t),
        !is_verbatim(p, t + v),
{
    prefix_inside(p, t);
    prefix_inside(p, v);
    stays_plain(p, t, v);
    let w = t + v;
    assert(w[0] == t[0] && w[1] == t[1]);
    if prefix_len(p, t) > 2 {
        slashed_adds(p, t, v);
        let (u, x) = (slashed(p, t), slashed(p, v));
        part_end_inside(u, 2, '/');
        let machine = part_end(u, 2, '/');
        part_end_inside(u, machine + 1, '/');
        assert(machine < u.len());
        part_end_grows(u, x, 2, '/');
        if v.len() > 0 {
            assert(x[0] == '/' <==> is_separator(p, v[0]));
        }
        part_end_grows(u, x, machine + 1, '/');
        assert((u + x)[0] == u[0] && (u + x)[1] == u[1]);
    }
}

/// A verbatim prefix stays what it is when a backslash is put behind it, and if it is not
/// open, when more follows.
proof fn verbatim_grows(p: Platform, t: Seq<char>, v: Seq<char>)
    requires
        is_verbatim(p, t),
        prefix_len(p, t) == t.len(),
        !is_share_mark(t),
        v.len() > 0,
        v[0] == '\\',
        v.len() > 1 ==> !is_open(p, t),
    ensures
        is_verbatim(p, t + v),
        prefix_len(p, t + v) == t.len(),
{
    reveal(verbatim_len);
    let w = t + v;
    let n = t.len() as int;
    assert(w[0] == t[0] && w[1] == t[1] && w[2] == t[2] && w[3] == t[3]);
    assert(w[n] == '\\');
    assert(forall|i: int| 0 <= i < n ==> w[i] == t[i]);
    if names_share(t) {
        assert(names_share(w));
        part_end_inside(t, 8, '\\');
        let machine = part_end(t, 8, '\\');
        part_end_grows(t, v, 8, '\\');
        if machine < n {
            part_end_inside(t, machine + 1, '\\');
            part_end_grows(t, v, machine + 1, '\\');
        } else {
            assert(is_open(p, t));
            assert(w.len() == n + 1);
            assert(part_end(w, n + 1, '\\') == n + 1);
        }
    } else {
        assert(!names_share(w));
        part_end_grows(t, v, 4, '\\');
    }
}

/// The prefix of a path is a prefix by itself, and verbatim if the path is.
proof fn prefix_of_prefix(p: Platform, path: Seq<char>)
    requires
        prefix_len(p, path) > 0,
    ensures
        ({
            let t = path.take(prefix_len(p, path));
            &&& prefix_len(p, t) == prefix_len(p, path)
            &&& is_verbatim(p, t) == is_verbatim(p, path)
            &&& is_verbatim(p, path) && t.len() < path.len() ==> !is_share_mark(t)
        }),
{
    reveal(verbatim_len);
    prefix_inside(p, path);
    let n = prefix_len(p, path);
    let t = path.take(n);
    assert(path[0] == t[0] && path[1] == t[1]);
    if is_verbatim(p, path) {
        verbatim_inside(path);
        assert(is_verbatim(p, t));
        if names_share(path) {
            part_end_inside(path, 8, '\\');
            let machine = part_end(path, 8, '\\');
            part_end_inside(path, machine + 1, '\\');
            assert(names_share(t));
            part_end_cut(path, n, 8, '\\');
            if machine + 1 <= n {
                part_end_cut(path, n, machine + 1, '\\');
            }
        } else {
            part_end_cut(path, n, 4, '\\');
        }
    } else if n > 2 {
        let u = slashed(p, path);
        part_end_inside(u, 2, '/');
        let machine = part_end(u, 2, '/');
        part_end_inside(u, machine + 1, '/');
        assert(n >= 4);
        assert(path[2] == t[2] && path[3] == t[3]);
        prefix_inside(p, t);
        let x = slashed(p, t);
        assert(x =~= u.take(n));
        part_end_cut(u, n, 2, '/');
        part_end_cut(u, n, machine + 1, '/');
        assert(x[0] == u[0] && x[1] == u[1]);
    } else {
        prefix_inside(p, t);
    }
}

/// Where a part ends does not change when what follows is cut off.
proof fn part_end_cut(u: Seq<char>, n: int, i: int, d: char)
    requires
        0 <= i <= n <= u.len(),
        part_end(u, i, d) <= n,
    ensures
        part_end(u.take(n), i, d) == part_end(u, i, d),
    decreases n - i,
{
    part_end_inside(u, i, d);
    if i < n && u[i] != d {
        part_end_cut(u, n, i + 1, d);
    }
}

/// The names of a path are not empty and hold no separator.
proof fn names_are(p: Platform, path: Seq<char>)
    ensures
        forall|i: int|
            0 <= i < names_of(p, path).len() ==> (#[trigger] names_of(p, path)[i]).len() > 0
                && !names_of(p, path)[i].contains(separator(p)) && !names_of(
                p,
                path,
            )[i].contains(divider(p, path)),
{
    let rest = tail_of(p, path);
    let d = divider(p, path);
    let parts = text::pieces(rest, d);
    prefix_inside(p, path);
    text::pieces_lack(rest, d);
    kept_are_parts(parts, dots_of(p, path), d);
    if p == Platform::Windows && !is_verbatim(p, path) {
        assert(!rest.contains('\\')) by {
            if rest.contains('\\') {
                let k = rest.index_of('\\');
                assert(rest[k] == slashed(p, path)[k + prefix_len(p, path)]);
            }
        }
        pieces_lack_too(rest, d, '\\');
        kept_are_parts(parts, dots_of(p, path), '\\');
    }
}

/// The components of a path are a prefix, a root and text between separators.
proof fn components_are(p: Platform, path: Seq<char>)
    requires
        is_tame(p, path),
    ensures
        are_components(p, components_of(p, path)),
        head_of(p, path).len() <= components_of(p, path).len(),
{
    let comps = components_of(p, path);
    let head = head_of(p, path);
    let names = names_of(p, path);
    prefix_inside(p, path);
    names_are(p, path);
    if prefix_len(p, path) > 0 {
        prefix_of_prefix(p, path);
        assert(comps[0] == path.take(prefix_len(p, path)));
    }
    assert forall|i: int| 0 <= i < comps.len() implies is_plain(p, #[trigger] comps[i]) || is_head(
        p,
        comps,
        i,
    ) by {
        if i < head.len() {
            assert(comps[i] == head[i]);
        } else {
            assert(comps[i] == names[i - head.len()]);
        }
    }
    if comps.len() > 0 && prefix_len(p, comps[0]) > 2 {
        if head.len() == 0 {
            assert(comps[0] == names[0]);
        }
        assert(comps[0] == head[0]);
        if prefix_len(p, path) == 0 {
            assert(comps[0] == root_component(p));
            prefix_inside(p, comps[0]);
        }
        if head.len() > 1 {
            assert(comps[1] == head[1]);
        } else {
            assert(tail_of(p, path).len() == 0);
            unwritten_tail(p, path);
        }
    }
}

/// A path that ends with its prefix has no names.
proof fn unwritten_tail(p: Platform, path: Seq<char>)
    requires
        tail_of(p, path).len() == 0,
    ensures
        names_of(p, path) == Seq::<Seq<char>>::empty(),
{
    let e = Seq::<char>::empty();
    assert(tail_of(p, path) =~= e);
    assert(text::pieces(e, divider(p, path)) =~= seq![e]);
    kept_single(e, dots_of(p, path));
}

/// Neither the root nor a dot or two is a prefix, and they differ.
pub proof fn marks_differ(p: Platform)
    ensures
        prefix_len(p, root_component(p)) == 0,
        prefix_len(p, current_component()) == 0,
        prefix_len(p, parent_component()) == 0,
        root_component(p) != current_component(),
        root_component(p) != parent_component(),
        !is_plain(p, root_component(p)),
{
    assert(root_component(p)[0] == separator(p));
    assert(root_component(p).contains(separator(p)));
    assert(current_component()[0] == '.');
    assert(parent_component()[0] == '.' && parent_component()[1] == '.');
    prefix_inside(p, root_component(p));
    prefix_inside(p, current_component());
    assert(slashed(p, parent_component())[0] == '.');
}

/// Neither the root nor a name is taken apart when it is put behind other components.
proof fn pushed_is_push(p: Platform, comps: Seq<Seq<char>>, c: Seq<char>)
    requires
        is_name(p, c) || (c == root_component(p) && comps.len() <= 1),
    ensures
        pushed(p, comps, c) == comps.push(c),
        comps.len() > 0 ==> added(p, comps, components_of(p, c)) == comps.push(c),
{
    marks_differ(p);
    reveal_with_fuel(added, 2);
    if is_name(p, c) {
        name_alone(p, c);
    } else {
        prefix_inside(p, c);
        assert(tail_of(p, c) =~= seq!['/']);
        rooted_tail(p, c);
        assert(components_of(p, c) =~= seq![c]);
        if comps.len() == 1 {
            assert(comps.take(1) =~= comps);
        }
    }
    assert(seq![c].drop_last() =~= Seq::<Seq<char>>::empty());
    assert(seq![c].last() == c);
}

/// Collapsing leaves only names behind what stands before them.
proof fn collapsed_is_collapsed(p: Platform, comps: Seq<Seq<char>>, n: int)
    requires
        are_components(p, comps),
        0 <= n <= comps.len(),
    ensures
        ({
            let done = collapsed(p, comps.take(n));
            &&& forall|i: int|
                0 <= i < done.len() ==> is_name(p, #[trigger] done[i]) || is_head(p, done, i)
            &&& n > 0 && is_head(p, comps, 0) ==> done.len() > 0 && done[0] == comps[0]
            &&& n > 1 && is_head(p, comps, 1) ==> done.len() > 1 && done[1] == comps[1]
            &&& done.len() <= n
        }),
    decreases n,
{
    marks_differ(p);
    if n > 0 {
        collapsed_is_collapsed(p, comps, n - 1);
        assert(comps.take(n).drop_last() =~= comps.take(n - 1));
        let before = collapsed(p, comps.take(n - 1));
        let done = collapsed(p, comps.take(n));
        let c = comps[n - 1];
        assert(comps.take(n).last() == c);
        assert(is_plain(p, c) || is_head(p, comps, n - 1));
        if n == 1 {
            assert(before =~= Seq::empty());
        }
        if c == parent_component() {
            if before.len() > 0 {
                let last = before[before.len() - 1];
                assert(before.last() == last);
                assert(is_name(p, last) || is_head(p, before, before.len() - 1));
                if is_prefix(p, last) {
                    assert(last.take(last.len() as int) =~= last);
                    assert(done =~= before);
                } else if last != root_component(p) {
                    assert(is_name(p, last));
                    assert(done == before.drop_last());
                    assert forall|i: int| 0 <= i < done.len() implies is_name(
                        p,
                        #[trigger] done[i],
                    ) || is_head(p, done, i) by {
                        assert(done[i] == before[i]);
                        assert(is_name(p, before[i]) || is_head(p, before, i));
                    }
                }
            }
        } else if c == current_component() {
        } else if prefix_len(p, c) > 0 {
            assert(n == 1);
            assert(done =~= seq![c]);
        } else {
            if n == 2 {
                assert(comps.take(1).drop_last() =~= Seq::<Seq<char>>::empty());
                assert(comps.take(1).last() == comps[0]);
                assert(collapsed(p, comps.take(0)) =~= Seq::empty());
                if is_head(p, comps, 1) {
                    assert(before =~= seq![comps[0]]);
                }
            }
            pushed_is_push(p, before, c);
            assert(done == before.push(c));
            assert(is_head(p, comps, n - 1) ==> is_head(p, done, n - 1)) by {
                if is_head(p, comps, n - 1) && n == 2 {
                    assert(is_head(p, comps, 0));
                    assert(before.len() > 0);
                    assert(before.len() == 1) by {
                        assert(comps.take(1).drop_last() =~= Seq::<Seq<char>>::empty());
                        assert(comps.take(1).last() == comps[0]);
                    }
                }
            }
            assert forall|i: int| 0 <= i < done.len() implies is_name(p, #[trigger] done[i])
                || is_head(p, done, i) by {
                if i < before.len() {
                    assert(done[i] == before[i]);
                    assert(is_name(p, before[i]) || is_head(p, before, i));
                    assert(done[0] == before[0]);
                } else if is_head(p, comps, n - 1) {
                    if n == 2 {
                        assert(comps.take(1).drop_last() =~= Seq::<Seq<char>>::empty());
                        assert(comps.take(1).last() == comps[0]);
                        assert(before.len() == 1);
                    }
                }
            }
        }
    }
}

/// Whether components are those of a verbatim path with a written root.
pub open spec fn are_verbatim(p: Platform, comps: Seq<Seq<char>>) -> bool {
    &&& comps.len() >= 2
    &&& is_verbatim(p, comps[0])
    &&& is_prefix(p, comps[0])
    &&& !is_share_mark(comps[0])
    &&& comps[1] == root_component(p)
    &&& comps.len() > 2 ==> !is_open(p, comps[0])
    &&& forall|i: int|
        2 <= i < comps.len() ==> (#[trigger] comps[i]).len() > 0 && !comps[i].contains('\\')
}

/// What follows the prefix in a verbatim path reads as the names that were put there.
proof fn verbatim_tail(p: Platform, comps: Seq<Seq<char>>)
    requires
        are_verbatim(p, comps),
    ensures
        ({
            let t = verbatim_text(p, comps);
            let n = comps[0].len() as int;
            &&& t.len() > n
            &&& t.take(n) == comps[0]
            &&& t[n] == '\\'
            &&& comps.len() == 2 ==> t.len() == n + 1
            &&& t.last() == comps.last().last()
            &&& kept(text::pieces(t.skip(n), '\\'), -1) == comps.skip(2)
        }),
    decreases comps.len(),
{
    reveal(verbatim_text);
    let t = verbatim_text(p, comps);
    let n = comps[0].len() as int;
    let e = Seq::<char>::empty();
    let c = comps[comps.len() - 1];
    let front = comps.drop_last();
    assert(comps.last() == c);
    assert(front[0] == comps[0]);
    if comps.len() == 2 {
        assert(front =~= seq![comps[0]]);
        assert(front.drop_last() =~= Seq::<Seq<char>>::empty());
        reveal_with_fuel(verbatim_text, 2);
        assert(verbatim_text(p, front) =~= comps[0]);
        assert(t =~= comps[0] + c);
        assert(t.take(n) =~= comps[0]);
        assert(t.skip(n) =~= e.push('\\') + e);
        divider_alone('\\', -1);
        assert(comps.skip(2) =~= Seq::<Seq<char>>::empty());
    } else {
        verbatim_tail(p, front);
        let before = verbatim_text(p, front);
        let rest = before.skip(n);
        assert(c != root_component(p)) by {
            assert(root_component(p)[0] == '\\');
            if c == root_component(p) {
                assert(c.contains('\\'));
            }
        }
        assert(comps.skip(2) =~= front.skip(2).push(c));
        if comps.len() == 3 {
            assert(comps[comps.len() - 2] == root_component(p));
            assert(t == before + c);
            assert(t.skip(n) =~= e.push('\\') + c);
            assert(rest =~= e.push('\\') + e);
            text::pieces_of_extended(e, c, '\\');
            assert(text::pieces(e, '\\') =~= seq![e]);
            assert(seq![e].push(c).drop_last() =~= seq![e]);
            kept_single(e, -1);
            assert(front.skip(2) =~= Seq::<Seq<char>>::empty());
        } else {
            let m = comps[comps.len() - 2];
            assert(m != root_component(p)) by {
                assert(root_component(p)[0] == '\\');
                if m == root_component(p) {
                    assert(m.contains('\\'));
                }
            }
            assert(t == before.push('\\') + c);
            assert(t.skip(n) =~= rest.push('\\') + c);
            names_grow(rest, c, '\\', -1);
        }
        assert(t.take(n) =~= before.take(n));
        assert(t[n] == before[n]);
    }
}

/// Reading the components of a verbatim path gives back those that it was made of.
proof fn verbatim_reads_back(p: Platform, comps: Seq<Seq<char>>)
    requires
        are_verbatim(p, comps),
    ensures
        ({
            let t = verbatim_text(p, comps);
            &&& components_of(p, t) == comps
            &&& is_verbatim(p, t)
            &&& prefix_len(p, t) == comps[0].len()
            &&& t.len() > comps[0].len()
            &&& t.take(comps[0].len() as int) == comps[0]
            &&& t.last() == comps.last().last()
        }),
{
    let t = verbatim_text(p, comps);
    let n = comps[0].len() as int;
    verbatim_tail(p, comps);
    let v = t.skip(n);
    assert(t =~= comps[0] + v);
    if v.len() > 1 && comps.len() == 2 {
        assert(t.len() == n + 1);
    }
    verbatim_grows(p, comps[0], v);
    assert(tail_of(p, t) == v);
    assert(head_of(p, t) =~= seq![comps[0], root_component(p)]);
    assert(components_of(p, t) =~= comps);
}

/// A separator alone stands before no names.
proof fn divider_alone(d: char, dots: int)
    ensures
        kept(text::pieces(Seq::<char>::empty().push(d) + Seq::<char>::empty(), d), dots) == Seq::<
            Seq<char>,
        >::empty(),
{
    let e = Seq::<char>::empty();
    text::pieces_of_extended(e, e, d);
    assert(text::pieces(e, d) =~= seq![e]);
    assert(seq![e].push(e).drop_last() =~= seq![e]);
    kept_single(e, dots);
    assert(kept(seq![e].push(e), dots) =~= Seq::empty());
}

/// Reading the components of a rendered path gives them back.
pub proof fn components_of_rendered(p: Platform, comps: Seq<Seq<char>>)
    requires
        is_collapsed(p, comps),
    ensures
        ({
            let t = rendered(p, comps);
            &&& components_of(p, t) == comps
            &&& comps.len() > 0 ==> t.len() > 0 && prefix_len(p, t) == prefix_len(p, comps[0])
                && is_verbatim(p, t) == is_verbatim(p, comps[0])
            &&& comps.len() > 0 && !is_verbatim(p, comps[0]) ==> is_separator(p, t.last()) == (
            comps.last() == root_component(p))
            &&& !is_verbatim(p, t) ==> is_settled(p, t)
        }),
    decreases comps.len(),
{
    marks_differ(p);
    let t = rendered(p, comps);
    let e = Seq::<char>::empty();
    if comps.len() == 0 {
        prefix_inside(p, e);
        assert(tail_of(p, e) =~= e);
        unwritten_tail(p, e);
        assert(components_of(p, e) =~= comps);
    } else {
        let c = comps[comps.len() - 1];
        let front = comps.drop_last();
        assert(comps.last() == c);
        assert(is_name(p, c) || is_head(p, comps, comps.len() - 1));
        prefix_inside(p, c);
        prefix_inside(p, e);
        if comps.len() == 1 {
            assert(rendered(p, front) =~= e);
            assert(prefix_len(p, e) == 0);
            if c == root_component(p) {
                assert(tail_of(p, c) =~= seq!['/']);
                assert(t =~= c);
                rooted_tail(p, c);
                assert(components_of(p, t) =~= comps);
            } else if is_prefix(p, c) {
                assert(t == c);
                assert(prefix_len(p, c) == 2 || is_verbatim(p, c));
                assert(tail_of(p, c) =~= e);
                assert(c.take(c.len() as int) =~= c);
                unwritten_tail(p, c);
                assert(components_of(p, t) =~= comps);
                if prefix_len(p, c) == 2 {
                    assert(c[1] == ':');
                }
            } else {
                name_alone(p, c);
                assert(t =~= c);
                assert(components_of(p, t) =~= comps);
            }
        } else if c == root_component(p) {
            let prefix = comps[0];
            assert(is_head(p, comps, 1) && comps.len() == 2);
            prefix_inside(p, prefix);
            assert(front =~= seq![prefix]);
            assert(front.drop_last() =~= Seq::<Seq<char>>::empty());
            assert(rendered(p, front.drop_last()) =~= e);
            assert(rendered(p, front) == prefix);
            assert(tail_of(p, c) =~= seq!['/']);
            assert(prefix.take(prefix_len(p, prefix)) =~= prefix);
            if is_verbatim(p, prefix) {
                assert(tail_of(p, prefix) =~= e);
                unwritten_tail(p, prefix);
                assert(components_of(p, prefix) =~= front);
                pushed_is_push(p, front, c);
                assert(front.push(c) =~= comps);
                verbatim_reads_back(p, comps);
            } else {
                assert(t == prefix + c);
                prefix_grows(p, prefix, c);
                slashed_adds(p, prefix, c);
                assert(tail_of(p, t) =~= seq!['/']);
                assert(t.take(prefix_len(p, t)) =~= prefix);
                rooted_tail(p, t);
                assert(components_of(p, t) =~= comps);
            }
        } else {
            assert(is_name(p, c));
            assert(is_collapsed(p, front)) by {
                assert forall|i: int| 0 <= i < front.len() implies is_name(p, #[trigger] front[i])
                    || is_head(p, front, i) by {
                    assert(front[i] == comps[i]);
                    assert(is_name(p, comps[i]) || is_head(p, comps, i));
                    assert(front[0] == comps[0]);
                }
                if prefix_len(p, comps[0]) > 2 {
                    assert(comps[1] == root_component(p));
                    assert(comps.len() > 2);
                    assert(front[1] == comps[1]);
                }
            }
            components_of_rendered(p, front);
            assert(front[0] == comps[0]);
            assert(front.push(c) =~= comps);
            if is_verbatim(p, comps[0]) {
                prefix_inside(p, comps[0]);
                verbatim_names(p, comps);
                name_alone(p, c);
                pushed_is_push(p, front, c);
                verbatim_reads_back(p, comps);
            } else {
                name_joined(p, rendered(p, front), c);
            }
        }
    }
}

/// Collapsed components with a verbatim prefix are those of a verbatim path.
proof fn verbatim_names(p: Platform, comps: Seq<Seq<char>>)
    requires
        is_collapsed(p, comps),
        comps.len() > 2,
        is_verbatim(p, comps[0]),
    ensures
        are_verbatim(p, comps),
{
    marks_differ(p);
    prefix_inside(p, comps[0]);
    assert(is_name(p, comps[0]) || is_head(p, comps, 0));
    assert forall|i: int| 2 <= i < comps.len() implies (#[trigger] comps[i]).len() > 0
        && !comps[i].contains('\\') by {
        assert(is_name(p, comps[i]) || is_head(p, comps, i));
    }
}

/// A path that consists of a prefix and a root, or of a root, has no names.
proof fn rooted_tail(p: Platform, t: Seq<char>)
    requires
        !is_verbatim(p, t),
        tail_of(p, t) == seq!['/'],
    ensures
        names_of(p, t) == Seq::<Seq<char>>::empty(),
        rooted(p, t),
{
    let e = Seq::<char>::empty();
    assert(tail_of(p, t) =~= e.push('/') + e);
    divider_alone('/', dots_of(p, t));
}

/// The empty path has no components.
pub proof fn no_components(p: Platform)
    ensures
        components_of(p, Seq::<char>::empty()) == Seq::<Seq<char>>::empty(),
{
    let e = Seq::<char>::empty();
    prefix_inside(p, e);
    assert(tail_of(p, e) =~= e);
    unwritten_tail(p, e);
    assert(components_of(p, e) =~= Seq::<Seq<char>>::empty());
}

/// A name is a path with itself as the only component.
pub proof fn name_alone(p: Platform, c: Seq<char>)
    requires
        is_plain(p, c),
    ensures
        slashed(p, c) == c,
        tail_of(p, c) == c,
        !rooted(p, c),
        !is_separator(p, c[0]),
        !is_separator(p, c.last()),
        !is_verbatim(p, c),
        names_of(p, c) == seq![c],
        components_of(p, c) == seq![c],
        c.len() >= 2 ==> !(is_separator(p, c[0]) && is_separator(p, c[1])),
{
    slashed_plain(p, c);
    assert(tail_of(p, c) =~= c);
    assert(c.contains(c[0]));
    assert(c.contains(c[c.len() - 1]));
    text::pieces_of_plain(c, '/');
    kept_single(c, 1);
    assert(components_of(p, c) =~= seq![c]);
}

/// Whether what stands at the start of a path stays what it is when more is put behind
/// the path: a path of Windows that begins with two separators names a whole share, and
/// a verbatim one has its root behind a prefix that is not open.
pub open spec fn is_settled(p: Platform, path: Seq<char>) -> bool {
    if is_verbatim(p, path) {
        prefix_len(p, path) < path.len() && !is_open(p, path.take(prefix_len(p, path)))
    } else {
        p == Platform::Windows && prefix_len(p, path) == 0 && path.len() >= 2 ==> !(is_separator(
            p,
            path[0],
        ) && is_separator(p, path[1]))
    }
}

/// A name put behind a path that is not verbatim is its last component. `gap` is what
/// stands between them: a separator, or nothing where none is needed.
#[verifier::rlimit(40)]
pub proof fn name_appended(p: Platform, base: Seq<char>, gap: Seq<char>, c: Seq<char>)
    requires
        is_name(p, c),
        !is_verbatim(p, base),
        is_settled(p, base),
        base.len() > 0 && !is_separator(p, base.last()) && !is_bare_drive(p, base) ==> gap.len()
            == 1 && is_separator(p, gap[0]),
        base.len() == 0 || is_separator(p, base.last()) || is_bare_drive(p, base) ==> gap.len()
            == 0,
    ensures
        ({
            let t = base + gap + c;
            &&& components_of(p, t) == components_of(p, base).push(c)
            &&& t.len() > 0
            &&& prefix_len(p, t) == prefix_len(p, base)
            &&& !is_separator(p, t.last())
            &&& !is_verbatim(p, t)
            &&& is_settled(p, t)
        }),
{
    let n = prefix_len(p, base);
    let t = base + gap + c;
    let e = Seq::<char>::empty();
    name_alone(p, c);
    prefix_inside(p, base);
    prefix_inside(p, c);
    let v = gap + c;
    assert(t =~= base + v);
    assert(t.last() == c.last());
    assert(!is_verbatim(p, v) && !is_verbatim(p, gap)) by {
        if gap.len() == 0 {
            assert(v =~= c);
        } else {
            assert(v[1] == c[0]);
        }
    }
    assert(!is_verbatim(p, t)) by {
        if n > 0 {
            stays_plain(p, base, v);
        } else if is_verbatim(p, t) {
            if base.len() == 0 {
                assert(t =~= c);
            } else {
                assert(t[0] == base[0]);
                if base.len() == 1 {
                    assert(t[1] == v[0]);
                } else {
                    assert(t[1] == base[1]);
                }
            }
        }
    }
    slashed_adds(p, base, v);
    slashed_adds(p, gap, c);
    if gap.len() == 0 {
        assert(gap =~= e);
        assert(slashed(p, gap) =~= e);
        assert(v =~= c);
    } else {
        assert(gap =~= seq![gap[0]]);
        assert(slashed(p, gap) =~= seq!['/']);
        assert(v[0] == gap[0]);
    }
    if n > 2 {
        if n == base.len() {
            share_ends_in_name(p, base);
            assert(v[0] == gap[0]);
        }
        prefix_grows(p, base, v);
    } else if n == 2 {
        prefix_grows(p, base, v);
    } else if p == Platform::Windows {
        prefix_inside(p, t);
        if base.len() == 0 {
            assert(t =~= c);
        } else {
            assert(t[0] == base[0]);
            if base.len() == 1 {
                assert(t[1] == v[0]);
            } else {
                assert(t[1] == base[1]);
            }
            assert(slashed(p, t)[0] == '/' <==> is_separator(p, t[0]));
            assert(slashed(p, t)[1] == '/' <==> is_separator(p, t[1]));
        }
        assert(prefix_len(p, t) == 0);
    }
    assert(prefix_len(p, t) == n);
    let rest = tail_of(p, base);
    assert(tail_of(p, t) =~= rest + slashed(p, gap) + c);
    assert(t.take(n) =~= base.take(n));
    let dots = dots_of(p, base);
    assert(text::pieces(e, '/') =~= seq![e]);
    kept_single(e, dots);
    kept_single(c, dots);
    if rest.len() == 0 {
        assert(rest =~= e);
        unwritten_tail(p, base);
        if gap.len() > 0 {
            assert(n > 2);
            assert(tail_of(p, t) =~= e.push('/') + c);
            text::pieces_of_extended(e, c, '/');
            assert(seq![e, c].drop_last() =~= seq![e]);
            assert(seq![e].push(c) =~= seq![e, c]);
            assert(kept(seq![e, c], dots) =~= seq![c]);
        } else {
            assert(tail_of(p, t) =~= c);
            text::pieces_of_plain(c, '/');
            if n > 2 {
                assert(n == base.len());
            }
        }
        assert(head_of(p, t) =~= head_of(p, base));
        assert(components_of(p, t) =~= components_of(p, base).push(c));
    } else if gap.len() > 0 {
        assert(tail_of(p, t) =~= rest.push('/') + c);
        names_grow(rest, c, '/', dots);
        assert(tail_of(p, t)[0] == rest[0]);
        assert(head_of(p, t) =~= head_of(p, base));
        assert(components_of(p, t) =~= components_of(p, base).push(c));
    } else {
        assert(rest.last() == slashed(p, base)[base.len() - 1]);
        assert(slashed(p, base)[base.len() - 1] == '/' <==> is_separator(
            p,
            base[base.len() - 1],
        ));
        assert(rest.last() == '/');
        let front = rest.drop_last();
        assert(front.push('/') + c =~= tail_of(p, t));
        assert(front.push('/') + e =~= rest);
        text::pieces_of_extended(front, e, '/');
        names_grow(front, c, '/', dots);
        let ps = text::pieces(front, '/');
        assert(ps.push(e).drop_last() =~= ps);
        assert(kept(ps.push(e), dots) == kept(ps, dots));
        assert(tail_of(p, t)[0] == rest[0]);
        assert(head_of(p, t) =~= head_of(p, base));
        assert(components_of(p, t) =~= components_of(p, base).push(c));
    }
}

/// A name behind a separator is one more name.
proof fn names_grow(rest: Seq<char>, c: Seq<char>, d: char, dots: int)
    requires
        c.len() > 0,
        !c.contains(d),
        c != current_component() || dots < 0,
    ensures
        kept(text::pieces(rest.push(d) + c, d), dots) == kept(text::pieces(rest, d), dots).push(c),
{
    text::pieces_of_extended(rest, c, d);
    let ps = text::pieces(rest, d);
    text::pieces_nonempty(rest, d);
    assert(ps.push(c).drop_last() =~= ps);
}

/// A name joined to a path is its last component.
pub proof fn name_joined(p: Platform, base: Seq<char>, c: Seq<char>)
    requires
        is_name(p, c),
        is_settled(p, base),
    ensures
        ({
            let t = path_joined(p, base, c);
            &&& components_of(p, t) == components_of(p, base).push(c)
            &&& t.len() > 0
            &&& prefix_len(p, t) == prefix_len(p, base)
            &&& !is_separator(p, t.last())
            &&& is_settled(p, t)
        }),
{
    name_alone(p, c);
    if is_verbatim(p, base) {
        verbatim_joined(p, base, c);
        assert(seq![c].last() == c);
        assert(components_of(p, base) + seq![c] =~= components_of(p, base).push(c));
    } else {
        let gap = if base.len() > 0 && !is_separator(p, base.last()) && !is_bare_drive(p, base) {
            seq![separator(p)]
        } else {
            Seq::<char>::empty()
        };
        name_appended(p, base, gap, c);
        assert(path_joined(p, base, c) =~= base + gap + c);
    }
}

/// Names put behind the components of a verbatim path stay as they are.
proof fn added_names(p: Platform, comps: Seq<Seq<char>>, more: Seq<Seq<char>>)
    requires
        forall|i: int| 0 <= i < more.len() ==> is_name(p, #[trigger] more[i]),
    ensures
        added(p, comps, more) == comps + more,
    decreases more.len(),
{
    reveal(added);
    if more.len() == 0 {
        assert(comps + more =~= comps);
    } else {
        let front = more.drop_last();
        assert forall|i: int| 0 <= i < front.len() implies is_name(p, #[trigger] front[i]) by {
            assert(front[i] == more[i]);
        }
        added_names(p, comps, front);
        marks_differ(p);
        assert(is_name(p, more[more.len() - 1]));
        assert((comps + front).push(more.last()) =~= comps + more);
    }
}

/// What is joined to a verbatim path and consists of names only is its last names.
pub proof fn verbatim_joined(p: Platform, base: Seq<char>, path: Seq<char>)
    requires
        is_verbatim(p, base),
        is_settled(p, base),
        prefix_len(p, path) == 0,
        components_of(p, path).len() > 0,
        forall|i: int|
            0 <= i < components_of(p, path).len() ==> is_name(
                p,
                #[trigger] components_of(p, path)[i],
            ),
    ensures
        ({
            let t = path_joined(p, base, path);
            &&& components_of(p, t) == components_of(p, base) + components_of(p, path)
            &&& t.len() > 0
            &&& prefix_len(p, t) == prefix_len(p, base)
            &&& is_verbatim(p, t)
            &&& t.last() == components_of(p, path).last().last()
            &&& !is_separator(p, t.last())
            &&& is_settled(p, t)
        }),
{
    let more = components_of(p, path);
    let n = prefix_len(p, base);
    let comps = components_of(p, base) + more;
    marks_differ(p);
    prefix_inside(p, base);
    prefix_of_prefix(p, base);
    names_are(p, base);
    added_names(p, components_of(p, base), more);
    if path.len() == 0 {
        assert(tail_of(p, path) =~= Seq::<char>::empty());
        unwritten_tail(p, path);
    }
    assert(head_of(p, base) =~= seq![base.take(n), root_component(p)]);
    assert(comps[0] == base.take(n));
    assert(comps[1] == root_component(p));
    assert forall|i: int| 2 <= i < comps.len() implies (#[trigger] comps[i]).len() > 0
        && !comps[i].contains('\\') by {
        let k = components_of(p, base).len();
        if i < k {
            assert(comps[i] == names_of(p, base)[i - 2]);
        } else {
            assert(comps[i] == more[i - k]);
            assert(is_name(p, more[i - k]));
        }
    }
    verbatim_reads_back(p, comps);
    let last = more[more.len() - 1];
    assert(is_name(p, last));
    name_alone(p, last);
    assert(comps.last() == last);
}

/// The components of a normalised path are the collapsed components of the
/// path, so none of them is `.` or `..`. On Windows this asks that the names mean the
/// same by themselves.
pub proof fn law_normalized_components(p: Platform, path: Seq<char>)
    requires
        p == Platform::Windows ==> is_tame(p, path),
    ensures
        components_of(p, normalized(p, path)) == collapsed(p, components_of(p, path)),
        is_collapsed(p, components_of(p, normalized(p, path))),
{
    let comps = components_of(p, path);
    components_are(p, path);
    collapsed_is_collapsed(p, comps, comps.len() as int);
    assert(comps.take(comps.len() as int) =~= comps);
    let done = collapsed(p, comps);
    marks_differ(p);
    if done.len() > 0 && prefix_len(p, done[0]) > 2 {
        assert(is_name(p, done[0]) || is_head(p, done, 0));
        collapsed_head(p, comps, comps.len() as int);
        assert(comps[0] == done[0]);
        assert(comps.len() > 1 ==> is_head(p, comps, 1));
    }
    components_of_rendered(p, done);
}

/// A prefix among collapsed components is the one that stands first in the path.
proof fn collapsed_head(p: Platform, comps: Seq<Seq<char>>, n: int)
    requires
        are_components(p, comps),
        0 <= n <= comps.len(),
    ensures
        collapsed(p, comps.take(n)).len() > 0 && prefix_len(p, collapsed(p, comps.take(n))[0]) > 0
            ==> comps.len() > 0 && collapsed(p, comps.take(n))[0] == comps[0] && is_head(
            p,
            comps,
            0,
        ),
    decreases n,
{
    marks_differ(p);
    if n > 0 {
        collapsed_head(p, comps, n - 1);
        collapsed_is_collapsed(p, comps, n - 1);
        assert(comps.take(n).drop_last() =~= comps.take(n - 1));
        let before = collapsed(p, comps.take(n - 1));
        let done = collapsed(p, comps.take(n));
        let c = comps[n - 1];
        assert(comps.take(n).last() == c);
        assert(is_plain(p, c) || is_head(p, comps, n - 1));
        if before.len() > 0 {
            assert(is_name(p, before[before.len() - 1]) || is_head(p, before, before.len() - 1));
            if prefix_len(p, before.last()) > 0 {
                assert(before.last().take(before.last().len() as int) =~= before.last());
            }
        }
        if done.len() > 0 && before.len() > 0 && c != parent_component() && c
            != current_component() && prefix_len(p, c) == 0 {
            if c == root_component(p) {
                assert(n == 2);
                collapsed_is_collapsed(p, comps, 1);
            }
            pushed_is_push(p, before, c);
            assert(done[0] == before[0]);
        }
    }
}

/// A path that resolves does not escape: its components begin with those of the
/// workspace, as the file system compares them. None of them is `.` or `..`, where on
/// Windows the names mean the same by themselves.
pub proof fn law_resolved_stays_inside(p: Platform, path: Seq<char>, workspace: Seq<char>)
    ensures
        resolution(p, path, workspace) matches Ok(target) ==> within(p, target, workspace),
        p != Platform::Windows || is_tame(p, path_joined(p, workspace, path)) ==> (resolution(
            p,
            path,
            workspace,
        ) matches Ok(target) ==> {
            &&& !components_of(p, target).contains(parent_component())
            &&& !components_of(p, target).contains(current_component())
        }),
{
    let whole = path_joined(p, workspace, path);
    if p != Platform::Windows || is_tame(p, whole) {
        law_normalized_components(p, whole);
        marks_differ(p);
        let comps = components_of(p, resolved(p, path, workspace));
        assert forall|i: int| 0 <= i < comps.len() implies comps[i] != parent_component()
            && comps[i] != current_component() by {
            assert(is_name(p, comps[i]) || is_head(p, comps, i));
        }
    }
}

/// Normalising twice is normalising once. On Windows this asks that the names mean the
/// same by themselves.
pub proof fn law_normalize_idempotent(p: Platform, path: Seq<char>)
    requires
        p == Platform::Windows ==> is_tame(p, path),
    ensures
        normalized(p, normalized(p, path)) == normalized(p, path),
{
    law_normalized_components(p, path);
    let comps = components_of(p, normalized(p, path));
    collapse_keeps(p, comps, comps.len() as int);
    assert(comps.take(comps.len() as int) =~= comps);
}

/// What a path leads to from an absolute one is absolute, as far as it shows: on Windows
/// it begins with a prefix, elsewhere with the root.
proof fn joined_is_anchored(p: Platform, base: Seq<char>, path: Seq<char>)
    requires
        absolute(p, base),
    ensures
        p == Platform::Windows ==> prefix_len(p, path_joined(p, base, path)) > 0,
        p != Platform::Windows ==> rooted(p, path_joined(p, base, path)),
{
    let whole = path_joined(p, base, path);
    let n = prefix_len(p, base);
    prefix_inside(p, base);
    prefix_inside(p, path);
    if p != Platform::Windows {
        assert(tail_of(p, base) =~= base);
        assert(tail_of(p, path) =~= path);
        assert(tail_of(p, whole) =~= whole);
        if rooted(p, path) {
            assert(whole =~= path);
        } else {
            assert(whole[0] == base[0]);
        }
    } else if prefix_len(p, path) > 0 {
    } else if is_verbatim(p, base) && path.len() > 0 {
        let comps = added(p, components_of(p, base), components_of(p, path));
        prefix_of_prefix(p, base);
        added_keeps_first(p, components_of(p, base), components_of(p, path));
        verbatim_begins(p, comps);
        assert(whole.take(4) =~= comps[0].take(4));
        assert(whole[0] == whole.take(4)[0] && whole[1] == whole.take(4)[1] && whole[2]
            == whole.take(4)[2] && whole[3] == whole.take(4)[3]);
        prefix_inside(p, whole);
    } else if is_verbatim(p, base) {
        assert(whole[0] == base[0] && whole[1] == base[1] && whole[2] == base[2] && whole[3]
            == base[3]);
        prefix_inside(p, whole);
    } else if rooted(p, path) {
        prefix_of_prefix(p, base);
        assert(slashed(p, path)[0] == '/');
        prefix_grows(p, base.take(n), path);
    } else {
        if n > 2 && n == base.len() {
            share_ends_in_name(p, base);
        }
        if base.len() > 0 && !is_separator(p, base.last()) && !is_bare_drive(p, base) {
            let v = seq![separator(p)] + path;
            assert(whole =~= base + v);
            prefix_grows(p, base, v);
        } else {
            prefix_grows(p, base, path);
        }
    }
}

/// Putting components behind others leaves the first of them.
proof fn added_keeps_first(p: Platform, comps: Seq<Seq<char>>, more: Seq<Seq<char>>)
    requires
        comps.len() > 0,
    ensures
        added(p, comps, more).len() > 0,
        added(p, comps, more)[0] == comps[0],
    decreases more.len(),
{
    reveal(added);
    if more.len() > 0 {
        added_keeps_first(p, comps, more.drop_last());
    }
}

/// A verbatim path begins with its first component.
proof fn verbatim_begins(p: Platform, comps: Seq<Seq<char>>)
    requires
        comps.len() > 0,
    ensures
        verbatim_text(p, comps).len() >= comps[0].len(),
        verbatim_text(p, comps).take(comps[0].len() as int) == comps[0],
    decreases comps.len(),
{
    reveal(verbatim_text);
    let n = comps[0].len() as int;
    let front = comps.drop_last();
    let t = verbatim_text(p, comps);
    if comps.len() == 1 {
        assert(verbatim_text(p, front) =~= Seq::<char>::empty());
        assert(t =~= comps[0]);
        assert(t.take(n) =~= comps[0]);
    } else {
        verbatim_begins(p, front);
        assert(t.take(n) =~= verbatim_text(p, front).take(n));
    }
}

/// The name of a share does not end in a separator.
proof fn share_ends_in_name(p: Platform, path: Seq<char>)
    requires
        !is_verbatim(p, path),
        prefix_len(p, path) > 2,
        prefix_len(p, path) == path.len(),
    ensures
        !is_separator(p, path.last()),
{
    let u = slashed(p, path);
    prefix_inside(p, path);
    part_end_inside(u, 2, '/');
    part_end_inside(u, part_end(u, 2, '/') + 1, '/');
    assert(u[path.len() - 1] != '/');
}

/// A path that resolved resolves to itself. On Windows this asks that the names mean the
/// same by themselves.
pub proof fn law_resolving_is_stable(p: Platform, path: Seq<char>, workspace: Seq<char>)
    requires
        absolute(p, workspace),
        p == Platform::Windows ==> is_tame(p, path_joined(p, workspace, path)),
    ensures
        resolution(p, path, workspace) matches Ok(target) ==> resolution(p, target, workspace)
            == Ok::<Seq<char>, Seq<char>>(target),
{
    let whole = path_joined(p, workspace, path);
    let t = normalized(p, whole);
    let comps = components_of(p, whole);
    joined_is_anchored(p, workspace, path);
    law_normalized_components(p, whole);
    law_normalize_idempotent(p, whole);
    components_are(p, whole);
    marks_differ(p);
    prefix_inside(p, whole);
    if prefix_len(p, whole) > 0 {
        prefix_of_prefix(p, whole);
    }
    assert(comps[0] == head_of(p, whole)[0]);
    assert(is_head(p, comps, 0));
    collapsed_is_collapsed(p, comps, comps.len() as int);
    assert(comps.take(comps.len() as int) =~= comps);
    components_of_rendered(p, collapsed(p, comps));
    if p != Platform::Windows {
        if !rooted(p, t) {
            names_are(p, t);
            assert(head_of(p, t) =~= Seq::empty());
            assert(components_of(p, t)[0] == names_of(p, t)[0]);
            assert(root_component(p)[0] == '/');
        }
        assert(path_joined(p, workspace, t) =~= t);
    }
}

/// Collapsed components stay as they are.
proof fn collapse_keeps(p: Platform, comps: Seq<Seq<char>>, n: int)
    requires
        is_collapsed(p, comps),
        0 <= n <= comps.len(),
    ensures
        collapsed(p, comps.take(n)) == comps.take(n),
    decreases n,
{
    marks_differ(p);
    if n > 0 {
        collapse_keeps(p, comps, n - 1);
        assert(comps.take(n).drop_last() =~= comps.take(n - 1));
        let c = comps[n - 1];
        assert(comps.take(n).last() == c);
        assert(is_name(p, c) || is_head(p, comps, n - 1));
        if prefix_len(p, c) == 0 {
            pushed_is_push(p, comps.take(n - 1), c);
        }
        assert(collapsed(p, comps.take(n)) =~= comps.take(n));
    } else {
        assert(collapsed(p, comps.take(0)) =~= comps.take(0));
    }
}

/// Whatever may be written lies under the writable directory and outside the
/// metadata directory, as the file system of the platform compares names; without a
/// writable directory nothing may be written.
pub proof fn law_writes_are_confined(fs: FsView, target: Seq<char>)
    ensures
        write_permission(fs, target) is Ok <==> (fs.write_dir is Some && within(
            fs.platform,
            target,
            fs.write_dir->0,
        ) && !in_metadata(fs.platform, target, fs.workspace)),
{
}

/// Where the file system does not tell upper from lower case, neither do the guards:
/// two spellings of a path may both be written or neither.
pub proof fn law_spelling_does_not_matter(fs: FsView, a: Seq<char>, b: Seq<char>)
    requires
        same_place(fs.platform, a, b),
    ensures
        write_permission(fs, a) is Ok <==> write_permission(fs, b) is Ok,
{
    let p = fs.platform;
    same_place_lies_alike(p, a, b, path_joined(p, fs.workspace, ".autoreport"@));
    if let Some(dir) = fs.write_dir {
        same_place_lies_alike(p, a, b, dir);
    }
}

/// Two spellings of a path lie under the same directories.
proof fn same_place_lies_alike(p: Platform, a: Seq<char>, b: Seq<char>, base: Seq<char>)
    requires
        same_place(p, a, b),
    ensures
        within(p, a, base) == within(p, b, base),
{
    let (ca, cb, cc) = (components_of(p, a), components_of(p, b), components_of(p, base));
    assert forall|i: int| 0 <= i < cb.len() implies folded(p, #[trigger] cb[i]) == folded(
        p,
        ca[i],
    ) by {
        assert(folded(p, ca[i]) == folded(p, cb[i]));
    }
    if within(p, a, base) {
        assert forall|i: int| 0 <= i < cc.len() implies folded(p, #[trigger] cb[i]) == folded(
            p,
            cc[i],
        ) by {
            assert(folded(p, ca[i]) == folded(p, cc[i]));
        }
    }
    if within(p, b, base) {
        assert forall|i: int| 0 <= i < cc.len() implies folded(p, #[trigger] ca[i]) == folded(
            p,
            cc[i],
        ) by {
            assert(folded(p, cb[i]) == folded(p, cc[i]));
        }
    }
}

/// Nothing in the metadata directory of the workspace may be written, at whatever depth.
pub proof fn law_metadata_is_never_written(fs: FsView, target: Seq<char>)
    requires
        is_settled(fs.platform, fs.workspace),
        ({
            let base = components_of(fs.platform, fs.workspace).push(".autoreport"@);
            let comps = components_of(fs.platform, target);
            base.len() <= comps.len() && comps.take(base.len() as int) == base
        }),
    ensures
        write_permission(fs, target) is Err,
{
    let p = fs.platform;
    let name = ".autoreport"@;
    reveal_strlit(".autoreport");
    assert(name[0] == '.');
    assert(slashed(p, name)[0] == '.');
    assert(prefix_len(p, name) == 0);
    assert(is_name(p, name));
    name_joined(p, fs.workspace, name);
    let base = components_of(p, fs.workspace).push(name);
    let comps = components_of(p, target);
    assert forall|i: int| 0 <= i < base.len() implies folded(p, #[trigger] comps[i]) == folded(
        p,
        base[i],
    ) by {
        assert(comps.take(base.len() as int)[i] == comps[i]);
    }
}

/// Where upper and lower case are told apart, a path lies under another if its components begin
/// with those of the other: whole names count, not their beginnings.
pub proof fn law_paths_lie_under_their_directories(p: Platform, target: Seq<char>, base: Seq<char>)
    requires
        p != Platform::Windows,
        p != Platform::MacOs,
    ensures
        within(p, target, base) <==> components_of(p, base).len() <= components_of(p, target).len()
            && components_of(p, target).take(components_of(p, base).len() as int) == components_of(
            p,
            base,
        ),
{
    let ct = components_of(p, target);
    let cb = components_of(p, base);
    if within(p, target, base) {
        assert forall|i: int| 0 <= i < cb.len() implies ct.take(cb.len() as int)[i] == cb[i] by {
            assert(folded(p, ct[i]) == folded(p, cb[i]));
        }
        assert(ct.take(cb.len() as int) =~= cb);
    } else if cb.len() <= ct.len() && ct.take(cb.len() as int) == cb {
        assert forall|i: int| 0 <= i < cb.len() implies folded(p, #[trigger] ct[i]) == folded(
            p,
            cb[i],
        ) by {
            assert(ct.take(cb.len() as int)[i] == ct[i]);
        }
    }
}

/// A name that is followed by two dots is gone, a dot changes nothing, and at the root two dots
/// lead nowhere else.
pub proof fn law_dots_are_collapsed(p: Platform, comps: Seq<Seq<char>>, name: Seq<char>)
    requires
        p != Platform::Windows,
        is_name(p, name),
    ensures
        collapsed(p, comps.push(name)) == collapsed(p, comps).push(name),
        collapsed(p, comps.push(name).push(seq!['.', '.'])) == collapsed(p, comps),
        collapsed(p, comps.push(seq!['.'])) == collapsed(p, comps),
        collapsed(p, seq![seq!['/'], seq!['.', '.']]) == seq![seq!['/']],
{
    marks_differ(p);
    assert(comps.push(name).drop_last() =~= comps);
    assert(comps.push(name).push(parent_component()).drop_last() =~= comps.push(name));
    assert(comps.push(current_component()).drop_last() =~= comps);
    assert(current_component() != parent_component()) by {
        assert(current_component().len() != parent_component().len());
    }
    assert(name != root_component(p)) by {
        assert(root_component(p)[0] == '/');
        if name == root_component(p) {
            assert(name.contains('/'));
        }
    }
    let longer = collapsed(p, comps).push(name);
    assert(longer.drop_last() =~= collapsed(p, comps));
    assert(longer.last() == name);
    assert(comps.push(name).last() == name);
    assert(collapsed(p, comps.push(name)) == longer);
    assert(comps.push(name).push(parent_component()).last() == parent_component());
    assert(collapsed(p, comps.push(name).push(parent_component())) == climbed(p, longer));
    let root = seq![root_component(p)];
    let up = root.push(parent_component());
    let e = Seq::<Seq<char>>::empty();
    assert(root_component(p) =~= seq!['/']);
    assert(up =~= seq![seq!['/'], seq!['.', '.']]);
    assert(up.drop_last() =~= root);
    assert(root.drop_last() =~= e);
    assert(root.last() == root_component(p));
    assert(collapsed(p, e) == e);
    assert(collapsed(p, root) == pushed(p, e, root_component(p)));
    assert(e.push(root_component(p)) =~= root);
}

/// A name is looked up in the workspace, and a path from the root is taken as it is.
pub proof fn law_paths_are_looked_up_in_the_workspace(
    p: Platform,
    workspace: Seq<char>,
    name: Seq<char>,
    path: Seq<char>,
)
    requires
        p != Platform::Windows,
        is_name(p, name),
    ensures
        components_of(p, resolved(p, name, workspace)) == collapsed(
            p,
            components_of(p, workspace),
        ).push(name),
        path.len() > 0 && path[0] == '/' ==> resolved(p, path, workspace) == normalized(p, path),
{
    assert(is_settled(p, workspace));
    name_joined(p, workspace, name);
    law_normalized_components(p, path_joined(p, workspace, name));
    law_dots_are_collapsed(p, components_of(p, workspace), name);
    if path.len() > 0 && path[0] == '/' {
        assert(tail_of(p, path) =~= path);
        assert(workspace.take(0) + path =~= path);
        assert(path_joined(p, workspace, path) == path);
    }
}

/// The stem of a file is its name up to the last dot, unless the name begins with it.
pub proof fn law_stems_end_at_the_last_dot(base: Seq<char>, ending: Seq<char>)
    requires
        !ending.contains('.'),
    ensures
        base.len() > 0 ==> stem_of_name(base.push('.') + ending) == base,
        stem_of_name(seq!['.'] + ending) == seq!['.'] + ending,
        stem_of_name(ending) == ending,
{
    dot_is_last(base, ending);
    dot_is_last(Seq::empty(), ending);
    assert((base.push('.') + ending).take(base.len() as int) =~= base);
    assert(Seq::<char>::empty().push('.') =~= seq!['.']);
    no_dot_is_last(ending);
}

/// The last dot before an ending without one.
proof fn dot_is_last(base: Seq<char>, ending: Seq<char>)
    requires
        !ending.contains('.'),
    ensures
        last_dot(base.push('.') + ending) == base.len(),
    decreases ending.len(),
{
    let all = base.push('.') + ending;
    if ending.len() == 0 {
        assert(all.last() == '.');
    } else {
        assert(all.last() == ending.last());
        assert(ending[ending.len() - 1] != '.');
        let front = ending.drop_last();
        assert forall|i: int| 0 <= i < front.len() implies front[i] != '.' by {
            assert(ending[i] != '.');
        }
        dot_is_last(base, front);
        assert(all.drop_last() =~= base.push('.') + front);
    }
}

/// A text without a dot has no last one.
proof fn no_dot_is_last(s: Seq<char>)
    requires
        !s.contains('.'),
    ensures
        last_dot(s) == -1,
    decreases s.len(),
{
    if s.len() > 0 {
        assert(s[s.len() - 1] != '.');
        let front = s.drop_last();
        assert forall|i: int| 0 <= i < front.len() implies front[i] != '.' by {
            assert(s[i] != '.');
        }
        no_dot_is_last(front);
    }
}

} // verus!
