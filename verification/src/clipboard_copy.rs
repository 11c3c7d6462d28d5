//! Copying text: which ways are tried in which order, and what is sent to the
//! terminal.

use crate::text;
use base64::Engine;
use vstd::prelude::*;

verus! {

/// How many bytes can be copied.
pub const OSC52_MAX_RAW_BYTES: usize = 100_000;

// ---------------------------------------------------------------------------
// The sequence for the terminal
// ---------------------------------------------------------------------------

/// The base64 text of bytes, in the standard alphabet and with padding.
pub uninterp spec fn base64_text(bytes: Seq<u8>) -> Seq<char>;

/// Whether a character occurs in base64 text.
pub open spec fn is_base64(c: char) -> bool {
    ('A' <= c && c <= 'Z') || ('a' <= c && c <= 'z') || ('0' <= c && c <= '9') || c == '+' || c
        == '/' || c == '='
}

/// How many characters the base64 text of `n` bytes has.
pub open spec fn base64_len(n: int) -> int {
    (n + 2) / 3 * 4
}

/// Calls `Engine::encode` of the `base64` crate on its `STANDARD` engine. The result
/// depends on the bytes alone. It has four characters for every three bytes begun,
/// and holds letters, digits, `+`, `/` and `=` only. The call panics where the length
/// of the result does not fit in a `usize`.
#[verifier::external_body]
fn encode_base64(bytes: &[u8]) -> (r: String)
    requires
        base64_len(bytes@.len() as int) <= usize::MAX,
    ensures
        r@ == base64_text(bytes@),
        r@.len() == base64_len(bytes@.len() as int),
        forall|i: int| 0 <= i < r@.len() ==> is_base64(#[trigger] r@[i]),
{
    base64::engine::general_purpose::STANDARD.encode(bytes)
}

/// What opens the sequence.
pub open spec fn osc52_start(tmux: bool) -> Seq<char> {
    if tmux {
        "\x1bPtmux;\x1b\x1b]52;c;"@
    } else {
        "\x1b]52;c;"@
    }
}

/// What closes the sequence.
pub open spec fn osc52_end(tmux: bool) -> Seq<char> {
    if tmux {
        "\x07\x1b\\"@
    } else {
        "\x07"@
    }
}

/// The sequence that carries the encoded text.
pub open spec fn osc52_text(encoded: Seq<char>, tmux: bool) -> Seq<char> {
    osc52_start(tmux) + encoded + osc52_end(tmux)
}

/// The sequence that carries the encoded text.
pub fn wrap_osc52(encoded: &str, tmux: bool) -> (r: String)
    ensures
        r@ == osc52_text(encoded@, tmux),
{
    let mut out = if tmux {
        "\x1bPtmux;\x1b\x1b]52;c;".to_string()
    } else {
        "\x1b]52;c;".to_string()
    };
    out.push_str(encoded);
    if tmux {
        out.push_str("\x07\x1b\\");
    } else {
        out.push_str("\x07");
    }
    out
}

/// The sequence that has the terminal copy the text, unless it is too long.
pub fn osc52_sequence(s: &str, tmux: bool) -> (r: Result<String, String>)
    ensures
        match r {
            Ok(t) => {
                &&& text::byte_len(s@) <= OSC52_MAX_RAW_BYTES
                &&& t@ == osc52_text(base64_text(vstd::utf8::encode_utf8(s@)), tmux)
                &&& t@.len() == osc52_start(tmux).len() + base64_len(
                    text::byte_len(s@) as int,
                ) + osc52_end(tmux).len()
                &&& forall|i: int|
                    osc52_start(tmux).len() <= i < t@.len() - osc52_end(tmux).len() ==> is_base64(
                        #[trigger] t@[i],
                    )
            },
            Err(e) => {
                &&& text::byte_len(s@) > OSC52_MAX_RAW_BYTES
                &&& e@ == "response is too large to copy"@
            },
        },
{
    if text::count_bytes(s) > OSC52_MAX_RAW_BYTES {
        return Err("response is too large to copy".to_string());
    }
    proof {
        text::byte_len_is_encoded_len(s@);
    }
    let encoded = encode_base64(s.as_bytes());
    let out = wrap_osc52(&encoded, tmux);
    let ghost start = osc52_start(tmux).len() as int;
    assert forall|i: int| start <= i < out@.len() - osc52_end(tmux).len() implies is_base64(
        #[trigger] out@[i],
    ) by {
        assert(out@[i] == encoded@[i - start]);
    }
    Ok(out)
}

// ---------------------------------------------------------------------------
// The ways to copy
// ---------------------------------------------------------------------------

/// Where the application runs.
#[derive(Debug, Clone, Copy, PartialEq, Eq, Structural)]
pub struct CopyEnvironment {
    pub ssh_session: bool,
    pub wsl_session: bool,
    pub tmux_session: bool,
}

/// A way to copy.
#[derive(Debug, Clone, Copy, PartialEq, Eq, Structural)]
pub enum CopyWay {
    /// The clipboard of the system.
    Native,
    /// The clipboard of Windows, from inside it.
    Wsl,
    /// The buffer of the terminal multiplexer.
    Tmux,
    /// A sequence that the terminal understands.
    Osc52,
}

/// What is to be done next.
#[derive(Debug)]
pub enum CopyStep {
    Try(CopyWay),
    Done(Result<(), String>),
}

/// A copy that is under way: the way that is tried, and why others failed.
#[derive(Debug)]
pub struct CopyAttempt {
    pub environment: CopyEnvironment,
    pub way: CopyWay,
    pub native_error: Option<String>,
    pub wsl_error: Option<String>,
}

/// A copy that is under way.
#[verifier::ext_equal]
pub struct AttemptView {
    pub environment: CopyEnvironment,
    pub way: CopyWay,
    pub native_error: Option<Seq<char>>,
    pub wsl_error: Option<Seq<char>>,
}

impl View for CopyAttempt {
    type V = AttemptView;

    open spec fn view(&self) -> AttemptView {
        AttemptView {
            environment: self.environment,
            way: self.way,
            native_error: text::opt_view(self.native_error),
            wsl_error: text::opt_view(self.wsl_error),
        }
    }
}

/// What is to be done next.
pub enum StepView {
    Try(CopyWay),
    Done(Result<(), Seq<char>>),
}

impl View for CopyStep {
    type V = StepView;

    open spec fn view(&self) -> StepView {
        match self {
            CopyStep::Try(way) => StepView::Try(*way),
            CopyStep::Done(Ok(_)) => StepView::Done(Ok(())),
            CopyStep::Done(Err(e)) => StepView::Done(Err(e@)),
        }
    }
}

/// The first way through the terminal.
pub open spec fn terminal_way(tmux: bool) -> CopyWay {
    if tmux {
        CopyWay::Tmux
    } else {
        CopyWay::Osc52
    }
}

/// The way that is tried first: through the terminal from afar, else the clipboard
/// of the system.
pub open spec fn first_way(env: CopyEnvironment) -> CopyWay {
    if env.ssh_session {
        terminal_way(env.tmux_session)
    } else {
        CopyWay::Native
    }
}

/// A copy of which nothing was tried yet.
pub open spec fn fresh(env: CopyEnvironment) -> AttemptView {
    AttemptView {
        environment: env,
        way: first_way(env),
        native_error: None,
        wsl_error: None,
    }
}

/// Why nothing worked: the last error, behind those of the ways before.
pub open spec fn full_error(v: AttemptView, last: Seq<char>) -> Seq<char> {
    match v.native_error {
        None => last,
        Some(native) => match v.wsl_error {
            None => "native clipboard: "@ + native + "; terminal fallback: "@ + last,
            Some(wsl) => "native clipboard: "@ + native + "; WSL fallback: "@ + wsl
                + "; terminal fallback: "@ + last,
        },
    }
}

/// The copy after a way was tried, and what is to be done next.
pub open spec fn after_try(v: AttemptView, result: Result<(), Seq<char>>) -> (AttemptView, StepView) {
    match result {
        Ok(_) => (v, StepView::Done(Ok(()))),
        Err(e) => match v.way {
            CopyWay::Native => {
                let next = if v.environment.wsl_session {
                    CopyWay::Wsl
                } else {
                    terminal_way(v.environment.tmux_session)
                };
                (
                    AttemptView { way: next, native_error: Some(e), ..v },
                    StepView::Try(next),
                )
            },
            CopyWay::Wsl => {
                let next = terminal_way(v.environment.tmux_session);
                (AttemptView { way: next, wsl_error: Some(e), ..v }, StepView::Try(next))
            },
            CopyWay::Tmux => (
                AttemptView { way: CopyWay::Osc52, ..v },
                StepView::Try(CopyWay::Osc52),
            ),
            CopyWay::Osc52 => (v, StepView::Done(Err(full_error(v, e)))),
        },
    }
}

/// What a failed try says.
pub open spec fn outcome_view(r: Result<(), String>) -> Result<(), Seq<char>> {
    match r {
        Ok(_) => Ok(()),
        Err(e) => Err(e@),
    }
}

/// What is said of a text that is too long.
pub open spec fn too_large(n: nat) -> Seq<char> {
    "OSC 52 payload too large ("@ + text::decimal_of(n) + " bytes; max 100000)"@
}

impl CopyAttempt {
    /// Begins to copy. Nothing is tried for a text that is too long.
    pub fn begin(s: &str, environment: CopyEnvironment) -> (r: Result<CopyAttempt, String>)
        ensures
            match r {
                Ok(a) => text::byte_len(s@) <= OSC52_MAX_RAW_BYTES && a@ == fresh(environment),
                Err(e) => text::byte_len(s@) > OSC52_MAX_RAW_BYTES && e@ == too_large(
                    text::byte_len(s@),
                ),
            },
    {
        let n: usize = text::count_bytes(s);
        if n > OSC52_MAX_RAW_BYTES {
            let mut e = "OSC 52 payload too large (".to_string();
            e.push_str(&text::decimal(n as u64));
            e.push_str(" bytes; max 100000)");
            return Err(e);
        }
        let way = if environment.ssh_session {
            terminal_first(environment.tmux_session)
        } else {
            CopyWay::Native
        };
        Ok(CopyAttempt { environment, way, native_error: None, wsl_error: None })
    }

    /// The way that is to be tried.
    pub fn way(&self) -> (r: CopyWay)
        ensures
            r == self@.way,
    {
        self.way
    }

    /// Takes what came of a try, and tells what is to be done next.
    pub fn step(&mut self, result: Result<(), String>) -> (r: CopyStep)
        ensures
            (final(self)@, r@) == after_try(old(self)@, outcome_view(result)),
    {
        let e = match result {
            Ok(_) => {
                return CopyStep::Done(Ok(()));
            },
            Err(e) => e,
        };
        match self.way {
            CopyWay::Native => {
                let next = if self.environment.wsl_session {
                    CopyWay::Wsl
                } else {
                    terminal_first(self.environment.tmux_session)
                };
                self.way = next;
                self.native_error = Some(e);
                CopyStep::Try(next)
            },
            CopyWay::Wsl => {
                let next = terminal_first(self.environment.tmux_session);
                self.way = next;
                self.wsl_error = Some(e);
                CopyStep::Try(next)
            },
            CopyWay::Tmux => {
                self.way = CopyWay::Osc52;
                CopyStep::Try(CopyWay::Osc52)
            },
            CopyWay::Osc52 => CopyStep::Done(Err(self.failure(&e))),
        }
    }

    /// Why nothing worked.
    fn failure(&self, last: &str) -> (r: String)
        ensures
            r@ == full_error(self@, last@),
    {
        match &self.native_error {
            None => last.to_string(),
            Some(native) => {
                let mut out = "native clipboard: ".to_string();
                out.push_str(native.as_str());
                if let Some(wsl) = &self.wsl_error {
                    out.push_str("; WSL fallback: ");
                    out.push_str(wsl.as_str());
                }
                out.push_str("; terminal fallback: ");
                out.push_str(last);
                out
            },
        }
    }
}

/// The first way through the terminal.
fn terminal_first(tmux: bool) -> (r: CopyWay)
    ensures
        r == terminal_way(tmux),
{
    if tmux {
        CopyWay::Tmux
    } else {
        CopyWay::Osc52
    }
}

// ---------------------------------------------------------------------------
// What other programs say
// ---------------------------------------------------------------------------

/// Whether the multiplexer forwards the clipboard, by its setting.
pub fn check_set_clipboard(setting: &str) -> (r: Result<(), String>)
    ensures
        outcome_view(r) == (if text::trimmed(setting@) == "off"@ {
            Err("tmux clipboard forwarding is disabled"@)
        } else {
            Ok::<(), Seq<char>>(())
        }),
{
    if text::same(&text::trim(setting), "off") {
        Err("tmux clipboard forwarding is disabled".to_string())
    } else {
        Ok(())
    }
}

/// Whether a line says that the capability is missing.
pub open spec fn lacks_capability(lines: Seq<Seq<char>>) -> bool {
    exists|i: int| 0 <= i < lines.len() && text::occurs(#[trigger] lines[i], "Ms: [missing]"@)
}

/// Whether the multiplexer can forward the clipboard, by its description.
pub fn check_tmux_info(info: &str) -> (r: Result<(), String>)
    ensures
        outcome_view(r) == (if lacks_capability(text::lines_of(info@)) {
            Err("tmux clipboard forwarding is unavailable: missing Ms capability"@)
        } else {
            Ok::<(), Seq<char>>(())
        }),
{
    let lines = text::lines(info);
    let ghost all = text::lines_of(info@);
    let mut i: usize = 0;
    while i < lines.len()
        invariant
            i <= lines@.len(),
            all == text::views(lines@),
            all == text::lines_of(info@),
            forall|k: int| 0 <= k < i ==> !text::occurs(#[trigger] all[k], "Ms: [missing]"@),
        decreases lines@.len() - i,
    {
        assert(all[i as int] == lines@[i as int]@);
        if text::contains(lines[i].as_str(), "Ms: [missing]") {
            assert(lacks_capability(all));
            return Err(
                "tmux clipboard forwarding is unavailable: missing Ms capability".to_string(),
            );
        }
        i += 1;
    }
    assert(!lacks_capability(all));
    Ok(())
}

/// What is said of a program that failed: what it wrote, or else its status.
pub open spec fn failure_text(program: Seq<char>, said: Seq<char>, status: Seq<char>) -> Seq<char> {
    if text::trimmed(said).len() == 0 {
        program + " exited with status "@ + status
    } else {
        program + " failed: "@ + text::trimmed(said)
    }
}

/// What is said of a program that failed, given the text that it wrote.
pub fn explain_failure(program: &str, stderr: &str, status: &str) -> (r: String)
    ensures
        r@ == failure_text(program@, stderr@, status@),
{
    let said = text::trim(stderr);
    let mut out = program.to_string();
    if said.as_str().is_empty() {
        out.push_str(" exited with status ");
        out.push_str(status);
    } else {
        out.push_str(" failed: ");
        out.push_str(&said);
    }
    out
}

/// What is said of a program that failed, given the bytes that it wrote.
pub fn program_failure(program: &str, stderr: &[u8], status: &str) -> (r: String)
    ensures
        r@ == failure_text(program@, text::lossy_text(stderr@), status@),
{
    explain_failure(program, &text::decode_lossy(stderr), status)
}

/// Whether the version of the kernel names the subsystem of Windows.
pub fn names_wsl(version: &str) -> (r: bool)
    ensures
        r == (text::occurs(text::ascii_lowered(version@), "microsoft"@) || text::occurs(
            text::ascii_lowered(version@),
            "wsl"@,
        )),
{
    let low = text::to_ascii_lowercase(version);
    text::contains(&low, "microsoft") || text::contains(&low, "wsl")
}

// ---------------------------------------------------------------------------
// Laws
// ---------------------------------------------------------------------------

/// What each way would give.
pub struct Ways {
    pub native: Result<(), Seq<char>>,
    pub wsl: Result<(), Seq<char>>,
    pub tmux: Result<(), Seq<char>>,
    pub osc52: Result<(), Seq<char>>,
}

/// What one way would give.
pub open spec fn given(ways: Ways, way: CopyWay) -> Result<(), Seq<char>> {
    match way {
        CopyWay::Native => ways.native,
        CopyWay::Wsl => ways.wsl,
        CopyWay::Tmux => ways.tmux,
        CopyWay::Osc52 => ways.osc52,
    }
}

/// What comes of a copy where each way gives its result, after at most `fuel` tries.
pub open spec fn carried_out(v: AttemptView, ways: Ways, fuel: nat) -> Option<Result<(), Seq<char>>>
    decreases fuel,
{
    if fuel == 0 {
        None
    } else {
        let (next, step) = after_try(v, given(ways, v.way));
        match step {
            StepView::Done(r) => Some(r),
            StepView::Try(_) => carried_out(next, ways, (fuel - 1) as nat),
        }
    }
}

/// Whether a way is open at all.
pub open spec fn is_open(env: CopyEnvironment, way: CopyWay) -> bool {
    match way {
        CopyWay::Native => !env.ssh_session,
        CopyWay::Wsl => !env.ssh_session && env.wsl_session,
        CopyWay::Tmux => env.tmux_session,
        CopyWay::Osc52 => true,
    }
}

/// A copy ends after at most four tries, and it succeeds just where one of the ways
/// that are open works.
pub proof fn law_every_open_way_is_tried(env: CopyEnvironment, ways: Ways)
    ensures
        carried_out(fresh(env), ways, 4) is Some,
        carried_out(fresh(env), ways, 4)->0 is Ok <==> {
            ||| is_open(env, CopyWay::Native) && ways.native is Ok
            ||| is_open(env, CopyWay::Wsl) && ways.wsl is Ok
            ||| is_open(env, CopyWay::Tmux) && ways.tmux is Ok
            ||| ways.osc52 is Ok
        },
{
    reveal_with_fuel(carried_out, 5);
}

/// Whether a way leads through the terminal.
pub open spec fn in_terminal(way: CopyWay) -> bool {
    way == CopyWay::Tmux || way == CopyWay::Osc52
}

/// From afar the clipboard of the system is never touched: the first way leads
/// through the terminal, and from such a way no step leads out of it.
pub proof fn law_ssh_stays_in_the_terminal(
    env: CopyEnvironment,
    v: AttemptView,
    tried: Result<(), Seq<char>>,
)
    requires
        env.ssh_session,
        in_terminal(v.way),
    ensures
        in_terminal(fresh(env).way),
        in_terminal(after_try(v, tried).0.way),
        after_try(v, tried).1 matches StepView::Try(way) ==> in_terminal(way),
{
}

/// The ways are tried in order: on the spot the clipboard of the system, then that of the host
/// where there is one, then the terminal, through tmux first inside of it. What worked ends the
/// copy, and where nothing did, each error is told.
pub proof fn law_ways_are_tried_in_order(v: AttemptView, e: Seq<char>, env: CopyEnvironment)
    ensures
        after_try(v, Ok(())).1 == StepView::Done(Ok(())),
        !env.ssh_session ==> fresh(env).way == CopyWay::Native,
        env.ssh_session && env.tmux_session ==> fresh(env).way == CopyWay::Tmux,
        env.ssh_session && !env.tmux_session ==> fresh(env).way == CopyWay::Osc52,
        v.way == CopyWay::Native && v.environment.wsl_session ==> after_try(v, Err(e)).1
            == StepView::Try(CopyWay::Wsl),
        v.way == CopyWay::Native && !v.environment.wsl_session && v.environment.tmux_session
            ==> after_try(v, Err(e)).1 == StepView::Try(CopyWay::Tmux),
        v.way == CopyWay::Native && !v.environment.wsl_session && !v.environment.tmux_session
            ==> after_try(v, Err(e)).1 == StepView::Try(CopyWay::Osc52),
        v.way == CopyWay::Wsl && v.environment.tmux_session ==> after_try(v, Err(e)).1
            == StepView::Try(CopyWay::Tmux),
        v.way == CopyWay::Wsl && !v.environment.tmux_session ==> after_try(v, Err(e)).1
            == StepView::Try(CopyWay::Osc52),
        v.way == CopyWay::Tmux ==> after_try(v, Err(e)).1 == StepView::Try(CopyWay::Osc52),
        v.way == CopyWay::Osc52 && v.native_error is None ==> after_try(v, Err(e)).1
            == StepView::Done(Err(e)),
        v.way == CopyWay::Osc52 && v.native_error is Some && v.wsl_error is None ==> after_try(
            v,
            Err(e),
        ).1 == StepView::Done(
            Err("native clipboard: "@ + v.native_error->0 + "; terminal fallback: "@ + e),
        ),
        v.way == CopyWay::Native ==> after_try(v, Err(e)).0.native_error == Some(e),
        v.way == CopyWay::Wsl ==> after_try(v, Err(e)).0.wsl_error == Some(e),
{
}

} // verus!
