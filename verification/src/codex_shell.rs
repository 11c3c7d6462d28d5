//! Running commands in the shell of the user: which shell that is, how a command
//! is handed to it, what is kept of its output, and which scripts count as plain
//! command sequences.

use crate::file_tools;
use crate::text;
use vstd::prelude::*;

pub mod bash;
pub mod running;
pub mod simple;

verus! {

// ---------------------------------------------------------------------------
// Output
// ---------------------------------------------------------------------------

/// How many bytes are read from a pipe at a time.
pub const READ_CHUNK_SIZE: usize = 8192;

/// How many bytes of an output stream are kept: one mebibyte. A command that
/// writes without end is read to its end, but does not fill the memory.
pub const EXEC_OUTPUT_MAX_BYTES: usize = 1048576;

/// `kept` with as much of `chunk` behind it as fits under `cap`.
pub open spec fn capped(kept: Seq<u8>, chunk: Seq<u8>, cap: int) -> Seq<u8> {
    if kept.len() >= cap {
        kept
    } else if kept.len() + chunk.len() <= cap {
        kept + chunk
    } else {
        kept + chunk.take(cap - kept.len())
    }
}

/// What is kept of a stream that was read in the given chunks.
pub open spec fn retained(chunks: Seq<Seq<u8>>, cap: int) -> Seq<u8>
    decreases chunks.len(),
{
    if chunks.len() == 0 {
        Seq::empty()
    } else {
        capped(retained(chunks.drop_last(), cap), chunks.last(), cap)
    }
}

/// All bytes of the given chunks.
pub open spec fn whole(chunks: Seq<Seq<u8>>) -> Seq<u8>
    decreases chunks.len(),
{
    if chunks.len() == 0 {
        Seq::empty()
    } else {
        whole(chunks.drop_last()) + chunks.last()
    }
}

/// Keeps as much of the next chunk of a stream as fits under the cap.
pub fn append_capped(kept: &mut Vec<u8>, chunk: &[u8], cap: usize)
    ensures
        final(kept)@ == capped(old(kept)@, chunk@, cap as int),
{
    if kept.len() >= cap {
        return ;
    }
    let remaining: usize = cap - kept.len();
    let take: usize = if chunk.len() < remaining {
        chunk.len()
    } else {
        remaining
    };
    let ghost before = kept@;
    let mut i: usize = 0;
    while i < take
        invariant
            i <= take <= chunk@.len(),
            kept@ == before + chunk@.take(i as int),
        decreases take - i,
    {
        kept.push(chunk[i]);
        assert(chunk@.take(i + 1) =~= chunk@.take(i as int).push(chunk@[i as int]));
        assert(kept@ =~= before + chunk@.take(i + 1));
        i += 1;
    }
    assert(chunk@.take(chunk@.len() as int) =~= chunk@);
}

/// Whatever the chunks, what is kept of a stream is its beginning, up to the cap.
pub proof fn law_retained_is_prefix(chunks: Seq<Seq<u8>>, cap: int)
    requires
        0 <= cap,
    ensures
        retained(chunks, cap) == (if whole(chunks).len() <= cap {
            whole(chunks)
        } else {
            whole(chunks).take(cap)
        }),
        retained(chunks, cap).len() <= cap,
    decreases chunks.len(),
{
    if chunks.len() > 0 {
        law_retained_is_prefix(chunks.drop_last(), cap);
        let before = whole(chunks.drop_last());
        let all = whole(chunks);
        if all.len() <= cap {
            assert(retained(chunks, cap) =~= all);
        } else {
            assert(retained(chunks, cap) =~= all.take(cap));
        }
    } else {
        assert(whole(chunks) =~= Seq::<u8>::empty());
    }
}

/// What a command left behind.
#[derive(Debug, Clone)]
pub struct ShellOutput {
    pub stdout: String,
    pub stderr: String,
    pub returncode: i32,
    pub timed_out: bool,
}

/// The outcome of a command that ended with the given exit code, or was killed
/// by a signal.
pub fn finished_output(stdout: String, stderr: String, code: Option<i32>) -> (r: ShellOutput)
    ensures
        r.stdout == stdout,
        r.stderr == stderr,
        r.returncode == (match code {
            Some(c) => c,
            None => -1i32,
        }),
        !r.timed_out,
{
    let returncode: i32 = match code {
        Some(c) => c,
        None => -1,
    };
    ShellOutput { stdout, stderr, returncode, timed_out: false }
}

/// The outcome of a command that was killed because its time was up.
pub fn timed_out_output(stdout: String, stderr: String) -> (r: ShellOutput)
    ensures
        r.stdout == stdout,
        r.stderr == stderr,
        r.returncode == -1,
        r.timed_out,
{
    ShellOutput { stdout, stderr, returncode: -1, timed_out: true }
}

// ---------------------------------------------------------------------------
// Shells
// ---------------------------------------------------------------------------

/// The shells that commands can be handed to.
#[derive(Debug, PartialEq, Eq, Clone, Copy, Structural)]
pub enum ShellType {
    Zsh,
    Bash,
    PowerShell,
    Sh,
    Cmd,
}

/// The name of a shell.
pub open spec fn shell_name(shell_type: ShellType) -> Seq<char> {
    match shell_type {
        ShellType::Zsh => "zsh"@,
        ShellType::Bash => "bash"@,
        ShellType::PowerShell => "powershell"@,
        ShellType::Sh => "sh"@,
        ShellType::Cmd => "cmd"@,
    }
}

impl ShellType {
    /// The name of the shell.
    pub fn name(self) -> (r: &'static str)
        ensures
            r@ == shell_name(self),
    {
        match self {
            ShellType::Zsh => "zsh",
            ShellType::Bash => "bash",
            ShellType::PowerShell => "powershell",
            ShellType::Sh => "sh",
            ShellType::Cmd => "cmd",
        }
    }
}

/// A shell and where it is.
#[derive(Debug, Clone, PartialEq, Eq)]
pub struct DetectedShell {
    pub shell_type: ShellType,
    pub shell_path: String,
}

/// A shell and where it is.
pub struct ShellView {
    pub shell_type: ShellType,
    pub shell_path: Seq<char>,
}

impl View for DetectedShell {
    type V = ShellView;

    open spec fn view(&self) -> ShellView {
        ShellView { shell_type: self.shell_type, shell_path: self.shell_path@ }
    }
}

impl DetectedShell {
    /// The name of the shell.
    pub fn name(&self) -> (r: &'static str)
        ensures
            r@ == shell_name(self.shell_type),
    {
        self.shell_type.name()
    }
}

/// The shell that a bare name stands for.
pub open spec fn named_shell(name: Seq<char>) -> Option<ShellType> {
    if name == "zsh"@ {
        Some(ShellType::Zsh)
    } else if name == "sh"@ {
        Some(ShellType::Sh)
    } else if name == "cmd"@ {
        Some(ShellType::Cmd)
    } else if name == "bash"@ {
        Some(ShellType::Bash)
    } else if name == "pwsh"@ {
        Some(ShellType::PowerShell)
    } else if name == "powershell"@ {
        Some(ShellType::PowerShell)
    } else {
        None
    }
}

/// Each piece of a text is at most as long as the text.
proof fn pieces_are_short(s: Seq<char>, c: char)
    ensures
        forall|i: int|
            0 <= i < text::pieces(s, c).len() ==> (#[trigger] text::pieces(s, c)[i]).len()
                <= s.len(),
        text::pieces(s, c).len() == 1 ==> text::pieces(s, c)[0] == s,
        text::pieces(s, c).len() > 1 ==> forall|i: int|
            0 <= i < text::pieces(s, c).len() ==> (#[trigger] text::pieces(s, c)[i]).len()
                < s.len(),
    decreases s.len(),
{
    if s.len() > 0 {
        let front = s.drop_last();
        pieces_are_short(front, c);
        text::pieces_nonempty(front, c);
        let before = text::pieces(front, c);
        assert forall|i: int| 0 <= i < before.len() implies (#[trigger] before[i]).len()
            < s.len() by {}
        if s.last() != c && before.len() == 1 {
            assert(front.push(s.last()) =~= s);
        }
    } else {
        assert(text::pieces(s, c)[0] =~= s);
    }
}

/// Kept pieces are pieces.
proof fn kept_are_short(parts: Seq<Seq<char>>, dots: int, bound: int)
    requires
        forall|i: int| 0 <= i < parts.len() ==> (#[trigger] parts[i]).len() <= bound,
    ensures
        forall|i: int|
            0 <= i < file_tools::kept(parts, dots).len() ==> (#[trigger] file_tools::kept(
                parts,
                dots,
            )[i]).len() <= bound,
    decreases parts.len(),
{
    if parts.len() > 0 {
        let front = parts.drop_last();
        assert forall|i: int| 0 <= i < front.len() implies (#[trigger] front[i]).len() <= bound by {
            assert(front[i] == parts[i]);
        }
        kept_are_short(front, dots, bound);
        assert(parts[parts.len() - 1].len() <= bound);
        let k = file_tools::kept(parts, dots);
        assert forall|i: int| 0 <= i < k.len() implies (#[trigger] k[i]).len() <= bound by {
            if i < file_tools::kept(front, dots).len() {
                assert(k[i] == file_tools::kept(front, dots)[i]);
            }
        }
    }
}

/// The name without extension that a path leads to is shorter than the path,
/// unless it is the path.
pub proof fn stem_is_shorter(p: Platform, path: Seq<char>)
    ensures
        file_tools::file_stem_of(p, path) matches Some(stem) ==> stem.len() < path.len() || stem
            == path,
{
    let rest = file_tools::tail_of(p, path);
    let d = file_tools::divider(p, path);
    let dots = file_tools::dots_of(p, path);
    let ps = text::pieces(rest, d);
    file_tools::prefix_inside(p, path);
    pieces_are_short(rest, d);
    if let Some(name) = file_tools::file_name_of(p, path) {
        let comps = file_tools::components_of(p, path);
        let kept = file_tools::names_of(p, path);
        let head = file_tools::head_of(p, path);
        file_tools::last_dot_inside(name);
        if kept.len() == 0 {
            assert(comps =~= head);
            assert(false);
        }
        assert(name == kept[kept.len() - 1]);
        if ps.len() == 1 {
            assert(ps =~= seq![rest]);
            file_tools::kept_single(rest, dots);
            assert(name == rest);
            if rest.len() == path.len() {
                text::pieces_lack(rest, '/');
                assert(!ps[0].contains('/'));
                assert forall|i: int| 0 <= i < path.len() implies rest[i] == path[i] by {
                    assert(rest[i] == file_tools::slashed(p, path)[i]);
                    if rest[i] == '/' {
                        assert(rest.contains('/'));
                    }
                }
                assert(rest =~= path);
            }
        } else {
            text::pieces_nonempty(rest, d);
            kept_are_short(ps, dots, rest.len() - 1);
        }
    }
}

/// The shell that a path leads to, by its name: the path itself may be the name,
/// and else what is left when directories and extensions are dropped.
pub open spec fn shell_of(p: Platform, path: Seq<char>) -> Option<ShellType>
    decreases path.len(),
{
    match named_shell(path) {
        Some(shell) => Some(shell),
        None => match file_tools::file_stem_of(p, path) {
            None => None,
            Some(stem) => if file_tools::equal_paths(p, stem, path) {
                None
            } else {
                proof {
                    stem_is_shorter(p, path);
                    file_tools::equal_to_itself(p, path);
                }
                shell_of(p, stem)
            },
        },
    }
}

/// The shell that a path leads to, by its name.
pub fn detect_shell_type(p: Platform, shell_path: &str) -> (r: Option<ShellType>)
    ensures
        r == shell_of(p, shell_path@),
    decreases shell_path@.len(),
{
    if text::same(shell_path, "zsh") {
        return Some(ShellType::Zsh);
    }
    if text::same(shell_path, "sh") {
        return Some(ShellType::Sh);
    }
    if text::same(shell_path, "cmd") {
        return Some(ShellType::Cmd);
    }
    if text::same(shell_path, "bash") {
        return Some(ShellType::Bash);
    }
    if text::same(shell_path, "pwsh") {
        return Some(ShellType::PowerShell);
    }
    if text::same(shell_path, "powershell") {
        return Some(ShellType::PowerShell);
    }
    match file_tools::file_stem(p, shell_path) {
        None => None,
        Some(stem) => {
            if file_tools::equals_exactly(p, &stem, shell_path) {
                None
            } else {
                proof {
                    stem_is_shorter(p, shell_path@);
                    file_tools::equal_to_itself(p, shell_path@);
                }
                detect_shell_type(p, &stem)
            }
        },
    }
}

// ---------------------------------------------------------------------------
// Finding a shell
// ---------------------------------------------------------------------------

/// The operating systems that differ in their shells and in their paths.
#[derive(Debug, PartialEq, Eq, Clone, Copy, Structural)]
pub enum Platform {
    Windows,
    MacOs,
    Unix,
}

/// A program and where it was found.
#[derive(Debug)]
pub struct FoundProgram {
    pub name: String,
    pub path: String,
}

/// What is known of the machine: its operating system, the login shell of the
/// user, which paths name regular files, and where programs were found on the
/// search path.
#[derive(Debug)]
pub struct ShellEnvironment {
    pub platform: Platform,
    pub user_shell: Option<String>,
    pub files: Vec<String>,
    pub programs: Vec<FoundProgram>,
}

/// What is known of the machine.
pub struct EnvironmentView {
    pub platform: Platform,
    pub user_shell: Option<Seq<char>>,
    pub files: Seq<Seq<char>>,
    pub programs: Seq<(Seq<char>, Seq<char>)>,
}

impl View for ShellEnvironment {
    type V = EnvironmentView;

    open spec fn view(&self) -> EnvironmentView {
        EnvironmentView {
            platform: self.platform,
            user_shell: text::opt_view(self.user_shell),
            files: text::views(self.files@),
            programs: Seq::new(
                self.programs@.len(),
                |i: int| (self.programs@[i].name@, self.programs@[i].path@),
            ),
        }
    }
}

/// Where a program was found on the search path, looking from `i` on.
pub open spec fn found_from(
    programs: Seq<(Seq<char>, Seq<char>)>,
    name: Seq<char>,
    i: int,
) -> Option<Seq<char>>
    decreases programs.len() - i,
{
    if i < 0 || i >= programs.len() {
        None
    } else if programs[i].0 == name {
        Some(programs[i].1)
    } else {
        found_from(programs, name, i + 1)
    }
}

/// The first of some paths from `i` on that names a file.
pub open spec fn first_file_from(
    files: Seq<Seq<char>>,
    paths: Seq<Seq<char>>,
    i: int,
) -> Option<Seq<char>>
    decreases paths.len() - i,
{
    if i < 0 || i >= paths.len() {
        None
    } else if files.contains(paths[i]) {
        Some(paths[i])
    } else {
        first_file_from(files, paths, i + 1)
    }
}

/// Where a shell is: at the path that was asked for, if that is a file; else the
/// login shell, if it is of that kind and there; else where the program is found
/// on the search path; else at the first of its usual places.
pub open spec fn shell_path_of(
    env: EnvironmentView,
    shell_type: ShellType,
    provided: Option<Seq<char>>,
    binary: Seq<char>,
    fallbacks: Seq<Seq<char>>,
) -> Option<Seq<char>> {
    if provided is Some && env.files.contains(provided->0) {
        provided
    } else if env.user_shell is Some && shell_of(env.platform, env.user_shell->0) == Some(shell_type)
        && env.files.contains(env.user_shell->0) {
        env.user_shell
    } else {
        match found_from(env.programs, binary, 0) {
            Some(path) => Some(path),
            None => first_file_from(env.files, fallbacks, 0),
        }
    }
}

/// The usual places of a program.
pub open spec fn usual_places(platform: Platform, binary: Seq<char>) -> Seq<Seq<char>> {
    if binary == "zsh"@ {
        seq!["/bin/zsh"@]
    } else if binary == "bash"@ {
        seq!["/bin/bash"@, "/usr/bin/bash"@]
    } else if binary == "sh"@ {
        seq!["/bin/sh"@]
    } else if binary == "pwsh"@ {
        if platform == Platform::Windows {
            seq!["C:\\Program Files\\PowerShell\\7\\pwsh.exe"@]
        } else {
            seq!["/usr/local/bin/pwsh"@]
        }
    } else if binary == "powershell"@ && platform == Platform::Windows {
        seq!["C:\\Windows\\System32\\WindowsPowerShell\\v1.0\\powershell.exe"@]
    } else {
        Seq::empty()
    }
}

/// A shell of the given kind, if there is one.
pub open spec fn shell_found(
    env: EnvironmentView,
    shell_type: ShellType,
    provided: Option<Seq<char>>,
) -> Option<ShellView> {
    let at = |binary: Seq<char>|
        shell_path_of(env, shell_type, provided, binary, usual_places(env.platform, binary));
    let path = match shell_type {
        ShellType::Zsh => at("zsh"@),
        ShellType::Bash => at("bash"@),
        ShellType::Sh => at("sh"@),
        ShellType::PowerShell => match at("pwsh"@) {
            Some(p) => Some(p),
            None => at("powershell"@),
        },
        ShellType::Cmd => at("cmd"@),
    };
    match path {
        Some(p) => Some(ShellView { shell_type, shell_path: p }),
        None => None,
    }
}

/// The shell that is there on every machine.
pub open spec fn last_resort(platform: Platform) -> ShellView {
    if platform == Platform::Windows {
        ShellView { shell_type: ShellType::Cmd, shell_path: "cmd.exe"@ }
    } else {
        ShellView { shell_type: ShellType::Sh, shell_path: "/bin/sh"@ }
    }
}

/// The first of two shells that is there.
pub open spec fn either(a: Option<ShellView>, b: Option<ShellView>) -> Option<ShellView> {
    match a {
        Some(s) => Some(s),
        None => b,
    }
}

/// The shell of the user: on Windows PowerShell; elsewhere the login shell where
/// its kind is known, then Bash and Zsh, on macOS Zsh before Bash.
pub open spec fn user_shell(env: EnvironmentView) -> ShellView {
    let found = if env.platform == Platform::Windows {
        shell_found(env, ShellType::PowerShell, None)
    } else {
        let login = match env.user_shell {
            Some(path) => match shell_of(env.platform, path) {
                Some(shell_type) => shell_found(env, shell_type, None),
                None => None,
            },
            None => None,
        };
        let zsh = shell_found(env, ShellType::Zsh, None);
        let bash = shell_found(env, ShellType::Bash, None);
        if env.platform == Platform::MacOs {
            either(either(login, zsh), bash)
        } else {
            either(either(login, bash), zsh)
        }
    };
    match found {
        Some(s) => s,
        None => last_resort(env.platform),
    }
}

/// The view of an optional shell.
pub open spec fn shell_opt_view(r: Option<DetectedShell>) -> Option<ShellView> {
    match r {
        Some(s) => Some(s@),
        None => None,
    }
}

/// Where a program was found on the search path.
fn find_program(env: &ShellEnvironment, name: &str) -> (r: Option<String>)
    ensures
        text::opt_view(r) == found_from(env@.programs, name@, 0),
{
    let ghost ps = env@.programs;
    let mut i: usize = 0;
    while i < env.programs.len()
        invariant
            i <= env.programs@.len(),
            ps == env@.programs,
            ps.len() == env.programs@.len(),
            found_from(ps, name@, i as int) == found_from(ps, name@, 0),
        decreases env.programs@.len() - i,
    {
        assert(ps[i as int] == (env.programs@[i as int].name@, env.programs@[i as int].path@));
        if text::same(&env.programs[i].name, name) {
            return Some(env.programs[i].path.clone());
        }
        i += 1;
    }
    None
}

/// Looks for a shell.
fn get_shell_path(
    env: &ShellEnvironment,
    shell_type: ShellType,
    provided_path: &Option<String>,
    binary_name: &str,
    fallback_paths: &Vec<String>,
) -> (r: Option<String>)
    ensures
        text::opt_view(r) == shell_path_of(
            env@,
            shell_type,
            text::opt_view(*provided_path),
            binary_name@,
            text::views(fallback_paths@),
        ),
{
    if let Some(path) = provided_path {
        if text::contains_string(&env.files, path) {
            return Some(path.clone());
        }
    }
    if let Some(path) = &env.user_shell {
        let kind = detect_shell_type(env.platform, path);
        if let Some(found) = kind {
            if found == shell_type && text::contains_string(&env.files, path) {
                return Some(path.clone());
            }
        }
    }
    if let Some(path) = find_program(env, binary_name) {
        return Some(path);
    }
    let ghost ps = text::views(fallback_paths@);
    let ghost fs = text::views(env.files@);
    let mut i: usize = 0;
    while i < fallback_paths.len()
        invariant
            i <= fallback_paths@.len(),
            ps == text::views(fallback_paths@),
            fs == text::views(env.files@),
            first_file_from(fs, ps, i as int) == first_file_from(fs, ps, 0),
            shell_path_of(
                env@,
                shell_type,
                text::opt_view(*provided_path),
                binary_name@,
                text::views(fallback_paths@),
            ) == first_file_from(fs, ps, 0),
        decreases fallback_paths@.len() - i,
    {
        assert(ps[i as int] == fallback_paths@[i as int]@);
        if text::contains_string(&env.files, &fallback_paths[i]) {
            return Some(fallback_paths[i].clone());
        }
        i += 1;
    }
    None
}

/// The usual places of a program.
pub fn fallback_paths(platform: Platform, binary: &str) -> (r: Vec<String>)
    ensures
        text::views(r@) == usual_places(platform, binary@),
{
    let mut out: Vec<String> = Vec::new();
    if text::same(binary, "zsh") {
        out.push("/bin/zsh".to_owned());
    } else if text::same(binary, "bash") {
        out.push("/bin/bash".to_owned());
        out.push("/usr/bin/bash".to_owned());
    } else if text::same(binary, "sh") {
        out.push("/bin/sh".to_owned());
    } else if text::same(binary, "pwsh") {
        if platform == Platform::Windows {
            out.push("C:\\Program Files\\PowerShell\\7\\pwsh.exe".to_owned());
        } else {
            out.push("/usr/local/bin/pwsh".to_owned());
        }
    } else if text::same(binary, "powershell") && platform == Platform::Windows {
        out.push("C:\\Windows\\System32\\WindowsPowerShell\\v1.0\\powershell.exe".to_owned());
    }
    assert(text::views(out@) =~= usual_places(platform, binary@));
    out
}

/// Looks for a shell under one of its program names.
fn find_shell_binary(
    env: &ShellEnvironment,
    shell_type: ShellType,
    path: &Option<String>,
    binary: &str,
) -> (r: Option<String>)
    ensures
        text::opt_view(r) == shell_path_of(
            env@,
            shell_type,
            text::opt_view(*path),
            binary@,
            usual_places(env.platform, binary@),
        ),
{
    let places = fallback_paths(env.platform, binary);
    get_shell_path(env, shell_type, path, binary, &places)
}

/// A shell of the given kind, if there is one.
pub fn get_shell(env: &ShellEnvironment, shell_type: ShellType, path: &Option<String>) -> (r:
    Option<DetectedShell>)
    ensures
        shell_opt_view(r) == shell_found(env@, shell_type, text::opt_view(*path)),
{
    let found = match shell_type {
        ShellType::Zsh => find_shell_binary(env, shell_type, path, "zsh"),
        ShellType::Bash => find_shell_binary(env, shell_type, path, "bash"),
        ShellType::Sh => find_shell_binary(env, shell_type, path, "sh"),
        ShellType::PowerShell => match find_shell_binary(env, shell_type, path, "pwsh") {
            Some(p) => Some(p),
            None => find_shell_binary(env, shell_type, path, "powershell"),
        },
        ShellType::Cmd => find_shell_binary(env, shell_type, path, "cmd"),
    };
    match found {
        Some(shell_path) => Some(DetectedShell { shell_type, shell_path }),
        None => None,
    }
}

/// The shell that is there on every machine.
pub fn ultimate_fallback_shell(platform: Platform) -> (r: DetectedShell)
    ensures
        r@ == last_resort(platform),
{
    if platform == Platform::Windows {
        DetectedShell { shell_type: ShellType::Cmd, shell_path: "cmd.exe".to_owned() }
    } else {
        DetectedShell { shell_type: ShellType::Sh, shell_path: "/bin/sh".to_owned() }
    }
}

/// The first of two shells that is there.
fn or_else_shell(a: Option<DetectedShell>, b: Option<DetectedShell>) -> (r: Option<DetectedShell>)
    ensures
        shell_opt_view(r) == either(shell_opt_view(a), shell_opt_view(b)),
{
    match a {
        Some(s) => Some(s),
        None => b,
    }
}

/// The shell of the user.
pub fn default_user_shell(env: &ShellEnvironment) -> (r: DetectedShell)
    ensures
        r@ == user_shell(env@),
{
    let none: Option<String> = None;
    let found = if env.platform == Platform::Windows {
        get_shell(env, ShellType::PowerShell, &none)
    } else {
        let login = match &env.user_shell {
            Some(path) => match detect_shell_type(env.platform, path) {
                Some(shell_type) => get_shell(env, shell_type, &none),
                None => None,
            },
            None => None,
        };
        let zsh = get_shell(env, ShellType::Zsh, &none);
        let bash = get_shell(env, ShellType::Bash, &none);
        if env.platform == Platform::MacOs {
            or_else_shell(or_else_shell(login, zsh), bash)
        } else {
            or_else_shell(or_else_shell(login, bash), zsh)
        }
    };
    match found {
        Some(s) => s,
        None => ultimate_fallback_shell(env.platform),
    }
}

// ---------------------------------------------------------------------------
// Launching
// ---------------------------------------------------------------------------

/// What a command may reach.
#[derive(Debug, PartialEq, Eq, Clone, Copy, Structural)]
pub enum SandboxMode {
    ReadOnly,
    WorkspaceWrite,
    DangerFullAccess,
}

/// The name of a mode as it is written in code.
pub open spec fn mode_name(mode: SandboxMode) -> Seq<char> {
    match mode {
        SandboxMode::ReadOnly => "ReadOnly"@,
        SandboxMode::WorkspaceWrite => "WorkspaceWrite"@,
        SandboxMode::DangerFullAccess => "DangerFullAccess"@,
    }
}

/// The name of a mode as it is reported.
pub open spec fn kebab_name(mode: SandboxMode) -> Seq<char> {
    match mode {
        SandboxMode::ReadOnly => "read-only"@,
        SandboxMode::WorkspaceWrite => "workspace-write"@,
        SandboxMode::DangerFullAccess => "danger-full-access"@,
    }
}

impl SandboxMode {
    /// The name of the mode as it is written in code.
    pub fn code_name(self) -> (r: &'static str)
        ensures
            r@ == mode_name(self),
    {
        match self {
            SandboxMode::ReadOnly => "ReadOnly",
            SandboxMode::WorkspaceWrite => "WorkspaceWrite",
            SandboxMode::DangerFullAccess => "DangerFullAccess",
        }
    }

    /// The name of the mode as it is reported.
    pub fn as_kebab(self) -> (r: &'static str)
        ensures
            r@ == kebab_name(self),
    {
        match self {
            SandboxMode::ReadOnly => "read-only",
            SandboxMode::WorkspaceWrite => "workspace-write",
            SandboxMode::DangerFullAccess => "danger-full-access",
        }
    }
}

/// How a command is to be confined: the mode, and the command line of the
/// platform sandbox around the shell, if the platform has one, or why there is
/// none.
#[derive(Debug)]
pub struct SandboxWrap {
    pub mode: SandboxMode,
    pub wrapped: Result<Option<Vec<String>>, String>,
}

/// A program to start: its arguments, and whether temporary files go to `/tmp`.
#[derive(Debug)]
pub struct Launch {
    pub program: String,
    pub args: Vec<String>,
    pub private_tmp: bool,
}

/// A program to start.
pub struct LaunchView {
    pub program: Seq<char>,
    pub args: Seq<Seq<char>>,
    pub private_tmp: bool,
}

impl View for Launch {
    type V = LaunchView;

    open spec fn view(&self) -> LaunchView {
        LaunchView {
            program: self.program@,
            args: text::views(self.args@),
            private_tmp: self.private_tmp,
        }
    }
}

/// The arguments with which a shell runs a command.
pub open spec fn shell_args(shell_type: ShellType, command: Seq<char>) -> Seq<Seq<char>> {
    match shell_type {
        ShellType::Zsh => seq!["-lc"@, command],
        ShellType::Bash => seq!["-lc"@, command],
        ShellType::Sh => seq!["-lc"@, command],
        ShellType::PowerShell => seq!["-NoProfile"@, "-Command"@, command],
        ShellType::Cmd => seq!["/C"@, command],
    }
}

/// What is said when a command cannot be confined.
pub open spec fn no_sandbox(mode: SandboxMode) -> Seq<char> {
    "no platform sandbox backend available for mode "@ + mode_name(mode)
        + "; refusing to run command unsandboxed"@
}

/// The program that runs a command. Without a sandbox it is the shell itself.
/// With one it is the sandbox; where the platform has none, only the mode
/// without any restriction falls back to the shell.
pub open spec fn launched(
    shell: ShellView,
    command: Seq<char>,
    sandbox: Option<(SandboxMode, Result<Option<Seq<Seq<char>>>, Seq<char>>)>,
) -> Result<LaunchView, Seq<char>> {
    let args = shell_args(shell.shell_type, command);
    let bare = |private_tmp: bool| LaunchView { program: shell.shell_path, args, private_tmp };
    match sandbox {
        None => Ok(bare(false)),
        Some((mode, wrapped)) => {
            let private_tmp = mode != SandboxMode::DangerFullAccess;
            match wrapped {
                Err(message) => Err(message),
                Ok(None) => if mode == SandboxMode::DangerFullAccess {
                    Ok(bare(false))
                } else {
                    Err(no_sandbox(mode))
                },
                Ok(Some(argv)) => if argv.len() == 0 {
                    Err("empty seatbelt command"@)
                } else {
                    Ok(LaunchView { program: argv[0], args: argv.skip(1), private_tmp })
                },
            }
        },
    }
}

/// The texts of a wrapped command line.
pub open spec fn wrapped_view(w: Result<Option<Vec<String>>, String>) -> Result<
    Option<Seq<Seq<char>>>,
    Seq<char>,
> {
    match w {
        Ok(Some(v)) => Ok(Some(text::views(v@))),
        Ok(None) => Ok(None),
        Err(e) => Err(e@),
    }
}

/// How a command is to be confined.
pub open spec fn sandbox_view(s: Option<SandboxWrap>) -> Option<
    (SandboxMode, Result<Option<Seq<Seq<char>>>, Seq<char>>),
> {
    match s {
        Some(w) => Some((w.mode, wrapped_view(w.wrapped))),
        None => None,
    }
}

/// The texts of a launch.
pub open spec fn launch_view(r: Result<Launch, String>) -> Result<LaunchView, Seq<char>> {
    match r {
        Ok(l) => Ok(l@),
        Err(e) => Err(e@),
    }
}

/// The arguments with which a shell runs a command.
pub fn shell_args_owned(shell_type: ShellType, command: &str) -> (r: Vec<String>)
    ensures
        text::views(r@) == shell_args(shell_type, command@),
{
    let mut out: Vec<String> = Vec::new();
    match shell_type {
        ShellType::Zsh | ShellType::Bash | ShellType::Sh => {
            out.push("-lc".to_owned());
        },
        ShellType::PowerShell => {
            out.push("-NoProfile".to_owned());
            out.push("-Command".to_owned());
        },
        ShellType::Cmd => {
            out.push("/C".to_owned());
        },
    }
    out.push(command.to_owned());
    assert(text::views(out@) =~= shell_args(shell_type, command@));
    out
}

/// Runs commands in one shell.
#[derive(Debug, Clone)]
pub struct CodexShell {
    pub shell: DetectedShell,
}

impl CodexShell {
    /// Runs commands in the shell of the user.
    pub fn new(env: &ShellEnvironment) -> (r: Self)
        ensures
            r.shell@ == user_shell(env@),
    {
        CodexShell { shell: default_user_shell(env) }
    }

    /// The shell that runs the commands.
    pub fn detected_shell(&self) -> (r: &DetectedShell)
        ensures
            *r == self.shell,
    {
        &self.shell
    }

    /// The command line that a platform sandbox is put around.
    pub fn invocation(&self, command: &str) -> (r: Vec<String>)
        ensures
            text::views(r@) == seq![self.shell.shell_path@] + shell_args(
                self.shell.shell_type,
                command@,
            ),
    {
        let mut out: Vec<String> = Vec::new();
        out.push(self.shell.shell_path.clone());
        let mut args = shell_args_owned(self.shell.shell_type, command);
        let ghost tail = text::views(args@);
        out.append(&mut args);
        assert(text::views(out@) =~= seq![self.shell.shell_path@] + tail);
        out
    }

    /// The program to start for a command. A restricted command is never run
    /// outside a sandbox.
    pub fn run(&self, command: &str, sandbox: &Option<SandboxWrap>) -> (r: Result<Launch, String>)
        ensures
            launch_view(r) == launched(self.shell@, command@, sandbox_view(*sandbox)),
    {
        let shell_path = self.shell.shell_path.clone();
        let args = shell_args_owned(self.shell.shell_type, command);
        match sandbox {
            None => Ok(Launch { program: shell_path, args, private_tmp: false }),
            Some(wrap) => match &wrap.wrapped {
                Err(message) => Err(message.clone()),
                Ok(None) => {
                    if wrap.mode == SandboxMode::DangerFullAccess {
                        Ok(Launch { program: shell_path, args, private_tmp: false })
                    } else {
                        let mut message =
                            "no platform sandbox backend available for mode ".to_owned();
                        message.push_str(wrap.mode.code_name());
                        message.push_str("; refusing to run command unsandboxed");
                        Err(message)
                    }
                },
                Ok(Some(argv)) => {
                    if argv.len() == 0 {
                        return Err("empty seatbelt command".to_owned());
                    }
                    let rest = text::copy_range(argv, 1, argv.len());
                    assert(text::views(rest@) =~= text::views(argv@).skip(1));
                    Ok(
                        Launch {
                            program: argv[0].clone(),
                            args: rest,
                            private_tmp: wrap.mode != SandboxMode::DangerFullAccess,
                        },
                    )
                },
            },
        }
    }
}

/// A restricted command runs in its sandbox or not at all: what is started is the
/// command line that the sandbox gave, with a directory of its own for temporary
/// files. Where the sandbox gave none, only a command without restrictions runs.
pub proof fn law_restricted_commands_are_confined(
    shell: ShellView,
    command: Seq<char>,
    mode: SandboxMode,
    wrapped: Result<Option<Seq<Seq<char>>>, Seq<char>>,
)
    ensures
        mode != SandboxMode::DangerFullAccess ==> (launched(shell, command, Some((mode, wrapped)))
            matches Ok(l) ==> {
            &&& wrapped matches Ok(Some(argv))
            &&& argv.len() > 0
            &&& l.program == argv[0]
            &&& l.args == argv.skip(1)
            &&& l.private_tmp
        }),
        wrapped == Ok::<Option<Seq<Seq<char>>>, Seq<char>>(None) ==> (launched(
            shell,
            command,
            Some((mode, wrapped)),
        ) is Ok <==> mode == SandboxMode::DangerFullAccess),
{
}

// ---------------------------------------------------------------------------
// Plain command sequences
// ---------------------------------------------------------------------------

/// The base name of a program.
pub open spec fn base_name(p: Platform, program: Seq<char>) -> Seq<char> {
    match file_tools::file_name_of(p, program) {
        Some(name) => name,
        None => program,
    }
}

/// Whether a text is one of those allowed.
pub open spec fn is_listed(allowlist: Seq<&'static str>, name: Seq<char>) -> bool {
    exists|i: int| 0 <= i < allowlist.len() && (#[trigger] allowlist[i])@ == name
}

/// What is wrong with the first bad command from `k` on, if there is one: it has
/// no program, or one that is not allowed.
pub open spec fn listing_fault(
    p: Platform,
    commands: Seq<Seq<Seq<char>>>,
    allowlist: Seq<&'static str>,
    k: int,
) -> Option<Seq<char>>
    decreases commands.len() - k,
{
    if k < 0 || k >= commands.len() {
        None
    } else if commands[k].len() == 0 {
        Some("empty command"@)
    } else if !is_listed(allowlist, base_name(p, commands[k][0])) {
        Some("command '"@ + base_name(p, commands[k][0]) + "' is not on the allowlist"@)
    } else {
        listing_fault(p, commands, allowlist, k + 1)
    }
}

/// Whether all commands are allowed; without any command there is a fault.
pub open spec fn allowed(
    p: Platform,
    commands: Seq<Seq<Seq<char>>>,
    allowlist: Seq<&'static str>,
) -> Option<Seq<char>> {
    if commands.len() == 0 {
        Some("empty command"@)
    } else {
        listing_fault(p, commands, allowlist, 0)
    }
}

/// The commands of a script for a shell, if it is a plain command sequence.
pub open spec fn commands_for(script: Seq<char>, shell_type: ShellType) -> Option<
    Seq<Seq<Seq<char>>>,
> {
    match shell_type {
        ShellType::Bash => bash::script_commands(script),
        ShellType::Zsh => bash::script_commands(script),
        ShellType::Sh => bash::script_commands(script),
        ShellType::PowerShell => simple::simple_commands(script),
        ShellType::Cmd => simple::simple_commands(script),
    }
}

/// What is said of a script that is no plain command sequence.
pub open spec fn not_plain(shell_type: ShellType) -> Seq<char> {
    if shell_type == ShellType::PowerShell || shell_type == ShellType::Cmd {
        "command must be a plain command sequence without redirects, subshells, or substitutions"@
    } else {
        "command must be a plain shell command sequence without redirects, subshells, or substitutions"@
    }
}

/// The commands of a script, if it is a plain sequence of allowed commands.
pub open spec fn validated(
    p: Platform,
    commands: Option<Seq<Seq<Seq<char>>>>,
    allowlist: Seq<&'static str>,
    shell_type: ShellType,
) -> Result<Seq<Seq<Seq<char>>>, Seq<char>> {
    match commands {
        None => Err(not_plain(shell_type)),
        Some(cs) => match allowed(p, cs, allowlist) {
            Some(fault) => Err(fault),
            None => Ok(cs),
        },
    }
}

/// The texts of validated commands.
pub open spec fn validated_view(r: Result<Vec<Vec<String>>, String>) -> Result<
    Seq<Seq<Seq<char>>>,
    Seq<char>,
> {
    match r {
        Ok(v) => Ok(text::nested_views(v@)),
        Err(e) => Err(e@),
    }
}

/// Checks parsed commands against the allowed programs.
pub fn check_commands(
    p: Platform,
    commands: Option<Vec<Vec<String>>>,
    allowlist: &Vec<&'static str>,
    shell_type: ShellType,
) -> (r: Result<Vec<Vec<String>>, String>)
    ensures
        validated_view(r) == validated(p, bash::commands_view(commands), allowlist@, shell_type),
{
    let list = match commands {
        Some(list) => list,
        None => {
            if shell_type == ShellType::PowerShell || shell_type == ShellType::Cmd {
                return Err(
                    "command must be a plain command sequence without redirects, subshells, or substitutions".to_owned(),
                );
            } else {
                return Err(
                    "command must be a plain shell command sequence without redirects, subshells, or substitutions".to_owned(),
                );
            }
        },
    };
    if list.len() == 0 {
        return Err("empty command".to_owned());
    }
    let ghost cs = text::nested_views(list@);
    let mut k: usize = 0;
    while k < list.len()
        invariant
            k <= list@.len(),
            cs == text::nested_views(list@),
            cs.len() > 0,
            bash::commands_view(commands) == Some(cs),
            listing_fault(p, cs, allowlist@, k as int) == listing_fault(p, cs, allowlist@, 0),
        decreases list@.len() - k,
    {
        assert(cs[k as int] == text::views(list@[k as int]@));
        if list[k].len() == 0 {
            return Err("empty command".to_owned());
        }
        assert(cs[k as int][0] == list@[k as int]@[0]@);
        let base = match file_tools::file_name(p, &list[k][0]) {
            Some(name) => name,
            None => list[k][0].clone(),
        };
        if !text::contains_text(allowlist, &base) {
            let mut message = "command '".to_owned();
            message.push_str(&base);
            message.push_str("' is not on the allowlist");
            return Err(message);
        }
        k += 1;
    }
    Ok(list)
}

/// The commands of a script for the given shell, if it is a plain sequence of
/// allowed commands.
pub fn validate_command_for_shell(
    p: Platform,
    script: &str,
    allowlist: &Vec<&'static str>,
    shell_type: ShellType,
) -> (r: Result<Vec<Vec<String>>, String>)
    ensures
        validated_view(r) == validated(p, commands_for(script@, shell_type), allowlist@, shell_type),
{
    let commands = match shell_type {
        ShellType::Bash | ShellType::Zsh | ShellType::Sh => {
            bash::parse_shell_script_into_commands(script)
        },
        ShellType::PowerShell | ShellType::Cmd => simple::parse_simple_command_sequence(script),
    };
    check_commands(p, commands, allowlist, shell_type)
}

/// The commands of a script for the shell of the user.
pub fn validate_plain_command_script(
    script: &str,
    allowlist: &Vec<&'static str>,
    env: &ShellEnvironment,
) -> (r: Result<Vec<Vec<String>>, String>)
    ensures
        validated_view(r) == validated(
            env.platform,
            commands_for(script@, user_shell(env@).shell_type),
            allowlist@,
            user_shell(env@).shell_type,
        ),
{
    let shell = default_user_shell(env);
    validate_command_for_shell(env.platform, script, allowlist, shell.shell_type)
}

/// The step of the law on allowed programs.
proof fn no_fault_means_listed(
    p: Platform,
    commands: Seq<Seq<Seq<char>>>,
    allowlist: Seq<&'static str>,
    k: int,
)
    requires
        0 <= k,
        listing_fault(p, commands, allowlist, k) is None,
    ensures
        forall|i: int|
            k <= i < commands.len() ==> (#[trigger] commands[i]).len() > 0 && is_listed(
                allowlist,
                base_name(p, commands[i][0]),
            ),
    decreases commands.len() - k,
{
    if k < commands.len() {
        no_fault_means_listed(p, commands, allowlist, k + 1);
    }
}

/// A script that is accepted runs at least one program, and only programs whose
/// base names are allowed.
pub proof fn law_validated_programs_are_listed(
    p: Platform,
    commands: Option<Seq<Seq<Seq<char>>>>,
    allowlist: Seq<&'static str>,
    shell_type: ShellType,
)
    ensures
        validated(p, commands, allowlist, shell_type) matches Ok(cs) ==> cs.len() > 0 && forall|i: int|
            0 <= i < cs.len() ==> (#[trigger] cs[i]).len() > 0 && is_listed(
                allowlist,
                base_name(p, cs[i][0]),
            ),
{
    if let Some(cs) = commands {
        if allowed(p, cs, allowlist) is None {
            no_fault_means_listed(p, cs, allowlist, 0);
        }
    }
}

// ---------------------------------------------------------------------------
// Laws on shells
// ---------------------------------------------------------------------------

/// Whether a shell reads its options as POSIX has them.
pub open spec fn is_posix(shell_type: ShellType) -> bool {
    shell_type == ShellType::Zsh || shell_type == ShellType::Bash || shell_type == ShellType::Sh
}

/// A shell is handed the command as it is, as its last argument, behind the options that make
/// it run a command. Zsh, Bash and Sh get two arguments: `-lc`, for a login shell that runs the
/// argument behind it, and the command.
pub proof fn law_shells_run_the_command(shell_type: ShellType, command: Seq<char>)
    ensures
        is_posix(shell_type) ==> shell_args(shell_type, command) == seq![
            seq!['-', 'l', 'c'],
            command,
        ],
        shell_type == ShellType::PowerShell ==> shell_args(shell_type, command) == seq![
            seq!['-', 'N', 'o', 'P', 'r', 'o', 'f', 'i', 'l', 'e'],
            seq!['-', 'C', 'o', 'm', 'm', 'a', 'n', 'd'],
            command,
        ],
        shell_type == ShellType::Cmd ==> shell_args(shell_type, command) == seq![
            seq!['/', 'C'],
            command,
        ],
        shell_args(shell_type, command).last() == command,
{
    reveal_strlit("-lc");
    reveal_strlit("-NoProfile");
    reveal_strlit("-Command");
    reveal_strlit("/C");
    assert("-lc"@ =~= seq!['-', 'l', 'c']);
    assert("-NoProfile"@ =~= seq!['-', 'N', 'o', 'P', 'r', 'o', 'f', 'i', 'l', 'e']);
    assert("-Command"@ =~= seq!['-', 'C', 'o', 'm', 'm', 'a', 'n', 'd']);
    assert("/C"@ =~= seq!['/', 'C']);
}

/// A command without a sandbox is started in the shell itself, with the arguments that make it
/// run the command. So is one without restrictions where the platform has no sandbox.
pub proof fn law_unconfined_commands_run_in_the_shell(shell: ShellView, command: Seq<char>)
    ensures
        launched(shell, command, None) matches Ok(l) && l.program == shell.shell_path && l.args.len()
            >= 2 && l.args.last() == command && !l.private_tmp && (is_posix(shell.shell_type)
            ==> l.args == seq![seq!['-', 'l', 'c'], command]),
        launched(shell, command, Some((SandboxMode::DangerFullAccess, Ok(None)))) == launched(
            shell,
            command,
            None,
        ),
{
    law_shells_run_the_command(shell.shell_type, command);
}

/// A sandbox that fails, or gives an empty command line, starts nothing. One that gives a
/// command line starts just that.
pub proof fn law_sandboxed_commands_start_the_sandbox(
    shell: ShellView,
    command: Seq<char>,
    mode: SandboxMode,
    argv: Seq<Seq<char>>,
    message: Seq<char>,
)
    ensures
        launched(shell, command, Some((mode, Err(message)))) == Err::<LaunchView, Seq<char>>(
            message,
        ),
        argv.len() == 0 ==> launched(shell, command, Some((mode, Ok(Some(argv))))) is Err,
        argv.len() > 0 ==> (launched(shell, command, Some((mode, Ok(Some(argv))))) matches Ok(l)
            && seq![l.program] + l.args == argv && l.private_tmp == (mode
            != SandboxMode::DangerFullAccess)),
{
    if argv.len() > 0 {
        assert(seq![argv[0]] + argv.skip(1) =~= argv);
    }
}

/// Scripts are read alike for all POSIX shells, and alike for those of Windows.
pub proof fn law_related_shells_read_alike(script: Seq<char>)
    ensures
        commands_for(script, ShellType::Zsh) == commands_for(script, ShellType::Bash),
        commands_for(script, ShellType::Sh) == commands_for(script, ShellType::Bash),
        commands_for(script, ShellType::Cmd) == commands_for(script, ShellType::PowerShell),
{
}

/// The names of the shells, letter by letter; each shell is known by its own.
pub proof fn law_shells_are_known_by_name(shell_type: ShellType)
    ensures
        named_shell(shell_name(shell_type)) == Some(shell_type),
        named_shell(seq!['z', 's', 'h']) == Some(ShellType::Zsh),
        named_shell(seq!['b', 'a', 's', 'h']) == Some(ShellType::Bash),
        named_shell(seq!['s', 'h']) == Some(ShellType::Sh),
        named_shell(seq!['c', 'm', 'd']) == Some(ShellType::Cmd),
        named_shell(seq!['p', 'w', 's', 'h']) == Some(ShellType::PowerShell),
        named_shell(seq!['p', 'o', 'w', 'e', 'r', 's', 'h', 'e', 'l', 'l']) == Some(ShellType::PowerShell),
{
    reveal_strlit("zsh");
    reveal_strlit("bash");
    reveal_strlit("sh");
    reveal_strlit("cmd");
    reveal_strlit("pwsh");
    reveal_strlit("powershell");
    assert("zsh"@ =~= seq!['z', 's', 'h']);
    assert("bash"@ =~= seq!['b', 'a', 's', 'h']);
    assert("sh"@ =~= seq!['s', 'h']);
    assert("cmd"@ =~= seq!['c', 'm', 'd']);
    assert("pwsh"@ =~= seq!['p', 'w', 's', 'h']);
    assert("powershell"@ =~= seq!['p', 'o', 'w', 'e', 'r', 's', 'h', 'e', 'l', 'l']);
    assert("zsh"@[0] == 'z' && "cmd"@[0] == 'c' && "bash"@[0] == 'b' && "pwsh"@[0] == 'p');
}

/// A shell is known by the file that a path leads to, whatever its directory.
pub proof fn law_shells_are_known_by_their_file(
    p: Platform,
    dir: Seq<char>,
    shell_type: ShellType,
)
    requires
        file_tools::is_settled(p, dir),
        file_tools::components_of(p, dir).len() > 0,
    ensures
        shell_of(p, file_tools::path_joined(p, dir, shell_name(shell_type))) == Some(shell_type),
{
    let name = shell_name(shell_type);
    let path = file_tools::path_joined(p, dir, name);
    law_shells_are_known_by_name(shell_type);
    plain_shell_name(p, shell_type);
    file_tools::name_joined(p, dir, name);
    file_tools::name_alone(p, name);
    let comps = file_tools::components_of(p, path);
    assert(comps.last() == name);
    file_tools::marks_differ(p);
    assert(file_tools::file_name_of(p, path) == Some(name));
    no_dot(name);
    assert(file_tools::file_stem_of(p, path) == Some(name));
    assert(!file_tools::equal_paths(p, name, path));
    match named_shell(path) {
        Some(_) => {
            other_shell_name(p, path);
            assert(false);
        },
        None => {
            reveal_with_fuel(shell_of, 2);
        },
    }
}

/// A text without a dot has no extension.
proof fn no_dot(name: Seq<char>)
    requires
        !name.contains('.'),
    ensures
        file_tools::last_dot(name) == -1,
    decreases name.len(),
{
    if name.len() > 0 {
        assert(name[name.len() - 1] != '.');
        let front = name.drop_last();
        if front.contains('.') {
            let k = front.index_of('.');
            assert(name[k] == '.');
        }
        no_dot(front);
    }
}

/// A path that is the name of a shell has one component.
proof fn other_shell_name(p: Platform, path: Seq<char>)
    requires
        named_shell(path) is Some,
    ensures
        file_tools::components_of(p, path).len() == 1,
{
    reveal_strlit("zsh");
    reveal_strlit("bash");
    reveal_strlit("sh");
    reveal_strlit("cmd");
    reveal_strlit("pwsh");
    reveal_strlit("powershell");
    letters_are_a_name(p, path);
    file_tools::name_alone(p, path);
}

/// The name of a shell can name a file, and has no extension.
proof fn plain_shell_name(p: Platform, shell_type: ShellType)
    ensures
        file_tools::is_name(p, shell_name(shell_type)),
        !shell_name(shell_type).contains('.'),
{
    reveal_strlit("zsh");
    reveal_strlit("bash");
    reveal_strlit("sh");
    reveal_strlit("cmd");
    reveal_strlit("powershell");
    letters_are_a_name(p, shell_name(shell_type));
}

/// A word of letters can name a file.
proof fn letters_are_a_name(p: Platform, w: Seq<char>)
    requires
        w.len() >= 2,
        forall|i: int| 0 <= i < w.len() ==> file_tools::is_drive_letter(#[trigger] w[i]),
    ensures
        file_tools::is_name(p, w),
        !w.contains('.'),
{
    assert forall|c: char| !file_tools::is_drive_letter(c) implies !w.contains(c) by {
        if w.contains(c) {
            let k = w.index_of(c);
            assert(file_tools::is_drive_letter(w[k]));
        }
    }
    assert(file_tools::is_drive_letter(w[0]) && file_tools::is_drive_letter(w[1]));
    file_tools::prefix_inside(p, w);
    assert(file_tools::slashed(p, w)[0] == '/' <==> file_tools::is_separator(p, w[0]));
}

/// Elsewhere than on Windows, commands run in the login shell where that is a shell of a known
/// kind and there.
pub proof fn law_login_shell_is_used(env: EnvironmentView, path: Seq<char>, shell_type: ShellType)
    requires
        env.platform != Platform::Windows,
        env.user_shell == Some(path),
        shell_of(env.platform, path) == Some(shell_type),
        env.files.contains(path),
    ensures
        user_shell(env) == (ShellView { shell_type, shell_path: path }),
{
}

/// Whether a program was found somewhere: among the files, or on the search path.
pub open spec fn is_there(env: EnvironmentView, path: Seq<char>) -> bool {
    env.files.contains(path) || exists|i: int|
        0 <= i < env.programs.len() && (#[trigger] env.programs[i]).1 == path
}

/// A shell that is found is of the kind that was asked for, and there.
pub proof fn law_found_shells_are_there(
    env: EnvironmentView,
    shell_type: ShellType,
    provided: Option<Seq<char>>,
)
    ensures
        shell_found(env, shell_type, provided) matches Some(s) ==> s.shell_type == shell_type
            && is_there(env, s.shell_path),
        provided is Some && env.files.contains(provided->0) ==> shell_found(
            env,
            shell_type,
            provided,
        ) == Some(ShellView { shell_type, shell_path: provided->0 }),
{
    found_is_there(env, shell_type, provided, "zsh"@);
    found_is_there(env, shell_type, provided, "bash"@);
    found_is_there(env, shell_type, provided, "sh"@);
    found_is_there(env, shell_type, provided, "pwsh"@);
    found_is_there(env, shell_type, provided, "powershell"@);
    found_is_there(env, shell_type, provided, "cmd"@);
}

/// The path of a shell is there.
proof fn found_is_there(
    env: EnvironmentView,
    shell_type: ShellType,
    provided: Option<Seq<char>>,
    binary: Seq<char>,
)
    ensures
        shell_path_of(
            env,
            shell_type,
            provided,
            binary,
            usual_places(env.platform, binary),
        ) matches Some(path) ==> is_there(env, path),
{
    program_is_there(env.programs, binary, 0);
    file_is_there(env.files, usual_places(env.platform, binary), 0);
}

/// A program that is found stands on the search path, under its name.
proof fn program_is_there(programs: Seq<(Seq<char>, Seq<char>)>, name: Seq<char>, i: int)
    requires
        0 <= i,
    ensures
        found_from(programs, name, i) matches Some(path) ==> exists|k: int|
            i <= k < programs.len() && (#[trigger] programs[k]).1 == path && programs[k].0 == name,
    decreases programs.len() - i,
{
    if i < programs.len() {
        if programs[i].0 == name {
            assert(programs[i].1 == programs[i].1);
        } else {
            program_is_there(programs, name, i + 1);
        }
    }
}

/// A path that is found is that of a file.
proof fn file_is_there(files: Seq<Seq<char>>, paths: Seq<Seq<char>>, i: int)
    ensures
        first_file_from(files, paths, i) matches Some(path) ==> files.contains(path),
    decreases paths.len() - i,
{
    if 0 <= i < paths.len() && !files.contains(paths[i]) {
        file_is_there(files, paths, i + 1);
    }
}

/// On Windows commands run in PowerShell where there is one; elsewhere, without a login shell
/// that is known, in Bash and then Zsh, and on macOS in Zsh and then Bash. Where nothing is
/// found, they run in the shell that every machine has.
pub proof fn law_preferred_shells(env: EnvironmentView)
    requires
        env.user_shell is None,
    ensures
        ({
            let zsh = shell_found(env, ShellType::Zsh, None);
            let bash = shell_found(env, ShellType::Bash, None);
            let power = shell_found(env, ShellType::PowerShell, None);
            let used = user_shell(env);
            match env.platform {
                Platform::Windows => {
                    &&& power is Some ==> used == power->0
                    &&& power is None ==> used.shell_type == ShellType::Cmd
                },
                Platform::MacOs => {
                    &&& zsh is Some ==> used == zsh->0
                    &&& zsh is None && bash is Some ==> used == bash->0
                    &&& zsh is None && bash is None ==> used.shell_type == ShellType::Sh
                },
                Platform::Unix => {
                    &&& bash is Some ==> used == bash->0
                    &&& bash is None && zsh is Some ==> used == zsh->0
                    &&& zsh is None && bash is None ==> used.shell_type == ShellType::Sh
                },
            }
        }),
{
}

/// A script whose commands all start a program that is allowed is accepted as it is; one command
/// with another program, or without one, has the whole script refused.
pub proof fn law_scripts_pass_by_their_programs(
    p: Platform,
    cs: Seq<Seq<Seq<char>>>,
    allowlist: Seq<&'static str>,
    shell_type: ShellType,
    bad: int,
)
    ensures
        validated(p, None, allowlist, shell_type) is Err,
        cs.len() == 0 ==> validated(p, Some(cs), allowlist, shell_type) is Err,
        cs.len() > 0 && (forall|k: int|
            0 <= k < cs.len() ==> #[trigger] cs[k].len() > 0 && is_listed(
                allowlist,
                base_name(p, cs[k][0]),
            )) ==> validated(p, Some(cs), allowlist, shell_type) == Ok::<
            Seq<Seq<Seq<char>>>,
            Seq<char>,
        >(cs),
        0 <= bad < cs.len() && (cs[bad].len() == 0 || !is_listed(allowlist, base_name(p, cs[bad][0])))
            ==> validated(p, Some(cs), allowlist, shell_type) is Err,
{
    listing_is_judged(p, cs, allowlist, 0, bad);
}

/// The commands from `k` on have no fault just where each has an allowed program.
proof fn listing_is_judged(
    p: Platform,
    cs: Seq<Seq<Seq<char>>>,
    allowlist: Seq<&'static str>,
    k: int,
    bad: int,
)
    requires
        0 <= k,
    ensures
        (forall|j: int|
            k <= j < cs.len() ==> #[trigger] cs[j].len() > 0 && is_listed(
                allowlist,
                base_name(p, cs[j][0]),
            )) ==> listing_fault(p, cs, allowlist, k) is None,
        k <= bad < cs.len() && (cs[bad].len() == 0 || !is_listed(allowlist, base_name(p, cs[bad][0])))
            ==> listing_fault(p, cs, allowlist, k) is Some,
    decreases cs.len() - k,
{
    if k < cs.len() {
        listing_is_judged(p, cs, allowlist, k + 1, bad);
        assert(cs[k].len() >= 0);
    }
}

} // verus!
