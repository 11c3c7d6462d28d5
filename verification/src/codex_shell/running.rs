//! A command that runs: what is kept of its output, when it is killed, and what comes
//! of it.

use crate::codex_shell;
use crate::codex_shell::ShellOutput;
use crate::text;
use vstd::prelude::*;

verus! {

/// What happens while a command runs.
#[derive(Debug)]
pub enum RunEvent {
    /// The command wrote to its standard output.
    Stdout(Vec<u8>),
    /// The command wrote to its standard error.
    Stderr(Vec<u8>),
    /// The standard output ended, or could not be read any more.
    StdoutEnd(Option<String>),
    /// The standard error ended, or could not be read any more.
    StderrEnd(Option<String>),
    /// The command could not be waited for.
    WaitFault(String),
    /// The command ended, with a code unless a signal ended it.
    Exited(Option<i32>),
    /// The time is up.
    TimedOut,
    /// What the killed command had written is read, or the time for that is up.
    Drained,
}

/// What happens while a command runs.
pub enum RunEventView {
    Stdout(Seq<u8>),
    Stderr(Seq<u8>),
    StdoutEnd(Option<Seq<char>>),
    StderrEnd(Option<Seq<char>>),
    WaitFault(Seq<char>),
    Exited(Option<i32>),
    TimedOut,
    Drained,
}

impl View for RunEvent {
    type V = RunEventView;

    open spec fn view(&self) -> RunEventView {
        match self {
            RunEvent::Stdout(b) => RunEventView::Stdout(b@),
            RunEvent::Stderr(b) => RunEventView::Stderr(b@),
            RunEvent::StdoutEnd(e) => RunEventView::StdoutEnd(text::opt_view(*e)),
            RunEvent::StderrEnd(e) => RunEventView::StderrEnd(text::opt_view(*e)),
            RunEvent::WaitFault(e) => RunEventView::WaitFault(e@),
            RunEvent::Exited(c) => RunEventView::Exited(*c),
            RunEvent::TimedOut => RunEventView::TimedOut,
            RunEvent::Drained => RunEventView::Drained,
        }
    }
}

/// What a command left behind.
pub struct OutputView {
    pub stdout: Seq<char>,
    pub stderr: Seq<char>,
    pub returncode: int,
    pub timed_out: bool,
}

/// What a command left behind.
pub open spec fn output_view(o: ShellOutput) -> OutputView {
    OutputView {
        stdout: o.stdout@,
        stderr: o.stderr@,
        returncode: o.returncode as int,
        timed_out: o.timed_out,
    }
}

/// What is to be done next.
#[derive(Debug)]
pub enum RunAction {
    /// Wait for what happens next.
    Wait,
    /// Both streams ended: wait for the end of the command.
    AwaitExit,
    /// Kill the command and all that it started, and read what they had written.
    Kill,
    /// The command is done.
    Done(Result<ShellOutput, String>),
}

/// What is to be done next.
pub enum RunActionView {
    Wait,
    AwaitExit,
    Kill,
    Done(Result<OutputView, Seq<char>>),
}

impl View for RunAction {
    type V = RunActionView;

    open spec fn view(&self) -> RunActionView {
        match self {
            RunAction::Wait => RunActionView::Wait,
            RunAction::AwaitExit => RunActionView::AwaitExit,
            RunAction::Kill => RunActionView::Kill,
            RunAction::Done(Ok(o)) => RunActionView::Done(Ok(output_view(*o))),
            RunAction::Done(Err(e)) => RunActionView::Done(Err(e@)),
        }
    }
}

/// How far a stream is.
#[derive(Debug)]
pub enum Stream {
    Open,
    Ended,
    /// It could not be read.
    Faulty(String),
}

/// How far a stream is.
pub enum StreamView {
    Open,
    Ended,
    Faulty(Seq<char>),
}

impl View for Stream {
    type V = StreamView;

    open spec fn view(&self) -> StreamView {
        match self {
            Stream::Open => StreamView::Open,
            Stream::Ended => StreamView::Ended,
            Stream::Faulty(e) => StreamView::Faulty(e@),
        }
    }
}

/// A command that runs.
#[derive(Debug)]
pub struct Running {
    pub stdout: Vec<u8>,
    pub stderr: Vec<u8>,
    pub out_stream: Stream,
    pub err_stream: Stream,
    /// Whether its time was up.
    pub killed: bool,
}

/// A command that runs.
#[verifier::ext_equal]
pub struct RunningView {
    pub stdout: Seq<u8>,
    pub stderr: Seq<u8>,
    pub out_stream: StreamView,
    pub err_stream: StreamView,
    pub killed: bool,
}

impl View for Running {
    type V = RunningView;

    open spec fn view(&self) -> RunningView {
        RunningView {
            stdout: self.stdout@,
            stderr: self.stderr@,
            out_stream: self.out_stream@,
            err_stream: self.err_stream@,
            killed: self.killed,
        }
    }
}

/// A command that has just been started.
pub open spec fn started() -> RunningView {
    RunningView {
        stdout: Seq::empty(),
        stderr: Seq::empty(),
        out_stream: StreamView::Open,
        err_stream: StreamView::Open,
        killed: false,
    }
}

/// A stream that ended, or whose reading failed.
pub open spec fn ended(fault: Option<Seq<char>>) -> StreamView {
    match fault {
        None => StreamView::Ended,
        Some(e) => StreamView::Faulty(e),
    }
}

/// Whether both streams are done with.
pub open spec fn both_ended(v: RunningView) -> bool {
    !(v.out_stream is Open) && !(v.err_stream is Open)
}

/// What is to be done when a stream ended. While the other one is open, or once the
/// command was killed, nothing is decided; then a stream that could not be read is a
/// fault, the standard output before the standard error.
pub open spec fn settled(v: RunningView) -> RunActionView {
    if v.killed || !both_ended(v) {
        RunActionView::Wait
    } else {
        match (v.out_stream, v.err_stream) {
            (StreamView::Faulty(e), _) => RunActionView::Done(Err("pipe read failed: "@ + e)),
            (_, StreamView::Faulty(e)) => RunActionView::Done(Err("pipe read failed: "@ + e)),
            _ => RunActionView::AwaitExit,
        }
    }
}

/// How many bytes of a stream are kept.
pub open spec fn cap() -> int {
    codex_shell::EXEC_OUTPUT_MAX_BYTES as int
}

/// What the command left behind, by what was kept of its streams.
pub open spec fn left_behind(v: RunningView, returncode: int, timed_out: bool) -> OutputView {
    OutputView {
        stdout: text::lossy_text(v.stdout),
        stderr: text::lossy_text(v.stderr),
        returncode,
        timed_out,
    }
}

/// The command after something happened, and what is to be done. The end of the command
/// counts once both streams ended. Once it is killed, only its streams count, until
/// they are drained.
pub open spec fn after(v: RunningView, ev: RunEventView) -> (RunningView, RunActionView) {
    match ev {
        RunEventView::Stdout(b) => (
            RunningView { stdout: codex_shell::capped(v.stdout, b, cap()), ..v },
            RunActionView::Wait,
        ),
        RunEventView::Stderr(b) => (
            RunningView { stderr: codex_shell::capped(v.stderr, b, cap()), ..v },
            RunActionView::Wait,
        ),
        RunEventView::Drained => if v.killed {
            (v, RunActionView::Done(Ok(left_behind(v, -1, true))))
        } else {
            (v, RunActionView::Wait)
        },
        RunEventView::StdoutEnd(fault) => {
            let next = RunningView { out_stream: ended(fault), ..v };
            (next, settled(next))
        },
        RunEventView::StderrEnd(fault) => {
            let next = RunningView { err_stream: ended(fault), ..v };
            (next, settled(next))
        },
        RunEventView::WaitFault(e) => if v.killed || !both_ended(v) {
            (v, RunActionView::Wait)
        } else {
            (v, RunActionView::Done(Err("exec failed: "@ + e)))
        },
        RunEventView::Exited(code) => if v.killed || !both_ended(v) {
            (v, RunActionView::Wait)
        } else {
            let returncode = match code {
                Some(c) => c as int,
                None => -1,
            };
            (v, RunActionView::Done(Ok(left_behind(v, returncode, false))))
        },
        RunEventView::TimedOut => if v.killed {
            (v, RunActionView::Wait)
        } else {
            (RunningView { killed: true, ..v }, RunActionView::Kill)
        },
    }
}

/// What is said of a fault.
fn fault(what: &str, e: &str) -> (r: String)
    ensures
        r@ == what@ + e@,
{
    let mut out = what.to_string();
    out.push_str(e);
    out
}

/// A stream that ended, or whose reading failed.
fn stream_of(fault: Option<String>) -> (r: Stream)
    ensures
        r@ == ended(text::opt_view(fault)),
{
    match fault {
        None => Stream::Ended,
        Some(e) => Stream::Faulty(e),
    }
}

impl Running {
    /// A command that has just been started.
    pub fn new() -> (r: Self)
        ensures
            r@ == started(),
    {
        let r = Running {
            stdout: Vec::new(),
            stderr: Vec::new(),
            out_stream: Stream::Open,
            err_stream: Stream::Open,
            killed: false,
        };
        assert(r@ =~= started());
        r
    }

    /// Whether both streams are done with.
    fn streams_ended(&self) -> (r: bool)
        ensures
            r == both_ended(self@),
    {
        let out = match &self.out_stream {
            Stream::Open => false,
            _ => true,
        };
        let err = match &self.err_stream {
            Stream::Open => false,
            _ => true,
        };
        out && err
    }

    /// What is to be done when a stream ended.
    fn settle(&self) -> (r: RunAction)
        ensures
            r@ == settled(self@),
    {
        if self.killed || !self.streams_ended() {
            return RunAction::Wait;
        }
        if let Stream::Faulty(e) = &self.out_stream {
            return RunAction::Done(Err(fault("pipe read failed: ", e)));
        }
        if let Stream::Faulty(e) = &self.err_stream {
            return RunAction::Done(Err(fault("pipe read failed: ", e)));
        }
        RunAction::AwaitExit
    }

    /// Takes what happened and tells what is to be done.
    pub fn take(&mut self, ev: RunEvent) -> (r: RunAction)
        ensures
            (final(self)@, r@) == after(old(self)@, ev@),
    {
        match ev {
            RunEvent::Stdout(b) => {
                codex_shell::append_capped(
                    &mut self.stdout,
                    b.as_slice(),
                    codex_shell::EXEC_OUTPUT_MAX_BYTES,
                );
                RunAction::Wait
            },
            RunEvent::Stderr(b) => {
                codex_shell::append_capped(
                    &mut self.stderr,
                    b.as_slice(),
                    codex_shell::EXEC_OUTPUT_MAX_BYTES,
                );
                RunAction::Wait
            },
            RunEvent::Drained => {
                if !self.killed {
                    return RunAction::Wait;
                }
                let out = text::decode_lossy(self.stdout.as_slice());
                let err = text::decode_lossy(self.stderr.as_slice());
                RunAction::Done(Ok(codex_shell::timed_out_output(out, err)))
            },
            RunEvent::StdoutEnd(e) => {
                self.out_stream = stream_of(e);
                self.settle()
            },
            RunEvent::StderrEnd(e) => {
                self.err_stream = stream_of(e);
                self.settle()
            },
            RunEvent::WaitFault(e) => {
                if self.killed || !self.streams_ended() {
                    return RunAction::Wait;
                }
                RunAction::Done(Err(fault("exec failed: ", &e)))
            },
            RunEvent::Exited(code) => {
                if self.killed || !self.streams_ended() {
                    return RunAction::Wait;
                }
                let out = text::decode_lossy(self.stdout.as_slice());
                let err = text::decode_lossy(self.stderr.as_slice());
                RunAction::Done(Ok(codex_shell::finished_output(out, err, code)))
            },
            RunEvent::TimedOut => {
                if self.killed {
                    return RunAction::Wait;
                }
                self.killed = true;
                RunAction::Kill
            },
        }
    }
}

// ---------------------------------------------------------------------------
// Laws
// ---------------------------------------------------------------------------

/// The command after some events.
pub open spec fn after_all(events: Seq<RunEventView>) -> RunningView
    decreases events.len(),
{
    if events.len() == 0 {
        started()
    } else {
        after(after_all(events.drop_last()), events.last()).0
    }
}

/// What was written to the standard output, piece by piece.
pub open spec fn written(events: Seq<RunEventView>) -> Seq<Seq<u8>>
    decreases events.len(),
{
    if events.len() == 0 {
        Seq::empty()
    } else {
        match events.last() {
            RunEventView::Stdout(b) => written(events.drop_last()).push(b),
            _ => written(events.drop_last()),
        }
    }
}

/// What was written to the standard error, piece by piece.
pub open spec fn complained(events: Seq<RunEventView>) -> Seq<Seq<u8>>
    decreases events.len(),
{
    if events.len() == 0 {
        Seq::empty()
    } else {
        match events.last() {
            RunEventView::Stderr(b) => complained(events.drop_last()).push(b),
            _ => complained(events.drop_last()),
        }
    }
}

/// Whatever happens in whatever order, what is kept of each stream is its beginning,
/// up to the cap: the streams do not get in each other's way, and being killed loses
/// nothing that was read before.
pub proof fn law_streams_are_kept_apart(events: Seq<RunEventView>)
    ensures
        after_all(events).stdout == codex_shell::retained(written(events), cap()),
        after_all(events).stderr == codex_shell::retained(complained(events), cap()),
        after_all(events).stdout.len() <= cap(),
        after_all(events).stderr.len() <= cap(),
    decreases events.len(),
{
    codex_shell::law_retained_is_prefix(written(events), cap());
    codex_shell::law_retained_is_prefix(complained(events), cap());
    if events.len() > 0 {
        let before = events.drop_last();
        law_streams_are_kept_apart(before);
        match events.last() {
            RunEventView::Stdout(b) => {
                assert(written(events).drop_last() =~= written(before));
            },
            RunEventView::Stderr(b) => {
                assert(complained(events).drop_last() =~= complained(before));
            },
            _ => {},
        }
    }
}

/// A command whose time was up stays killed and is never reported as one that ended by
/// itself.
pub proof fn law_killed_commands_time_out(v: RunningView, ev: RunEventView)
    requires
        v.killed,
    ensures
        after(v, ev).0.killed,
        after(v, ev).1 matches RunActionView::Done(r) ==> r == Ok::<OutputView, Seq<char>>(
            left_behind(v, -1, true),
        ),
{
}

/// A stream that cannot be read does not end the run by itself: as long as the other
/// stream is open, the command can still be killed when its time is up, and it is then
/// reported like any other that was.
pub proof fn law_faults_wait_for_the_other_stream(v: RunningView, fault: Option<Seq<char>>)
    requires
        !v.killed,
    ensures
        v.err_stream is Open ==> {
            let next = after(v, RunEventView::StdoutEnd(fault));
            &&& next.1 == RunActionView::Wait
            &&& after(next.0, RunEventView::TimedOut).1 == RunActionView::Kill
            &&& after(after(next.0, RunEventView::TimedOut).0, RunEventView::Drained).1
                == RunActionView::Done(Ok(left_behind(v, -1, true)))
        },
        v.out_stream is Open ==> {
            let next = after(v, RunEventView::StderrEnd(fault));
            &&& next.1 == RunActionView::Wait
            &&& after(next.0, RunEventView::TimedOut).1 == RunActionView::Kill
            &&& after(after(next.0, RunEventView::TimedOut).0, RunEventView::Drained).1
                == RunActionView::Done(Ok(left_behind(v, -1, true)))
        },
{
}

/// A command that ends by itself is reported with its exit code and with what was kept of its
/// two streams, each in its own place; one that was ended by a signal has the code -1. Nothing
/// is reported before both streams ended.
pub proof fn law_ended_commands_report_their_exit(v: RunningView, code: i32)
    requires
        !v.killed,
    ensures
        v.out_stream is Ended && v.err_stream is Ended ==> {
            &&& after(v, RunEventView::Exited(Some(code))).1 == RunActionView::Done(
                Ok(
                    OutputView {
                        stdout: text::lossy_text(v.stdout),
                        stderr: text::lossy_text(v.stderr),
                        returncode: code as int,
                        timed_out: false,
                    },
                ),
            )
            &&& after(v, RunEventView::Exited(None)).1 == RunActionView::Done(
                Ok(
                    OutputView {
                        stdout: text::lossy_text(v.stdout),
                        stderr: text::lossy_text(v.stderr),
                        returncode: -1,
                        timed_out: false,
                    },
                ),
            )
        },
        v.out_stream is Open || v.err_stream is Open ==> after(
            v,
            RunEventView::Exited(Some(code)),
        ).1 == RunActionView::Wait,
{
}

/// Once both streams ended, the end of the command is waited for, whichever of them ended first;
/// where one could not be read, that is the error, that of the standard output before the other.
pub proof fn law_streams_end_in_either_order(v: RunningView, fault: Option<Seq<char>>)
    requires
        !v.killed,
    ensures
        v.err_stream is Ended ==> after(v, RunEventView::StdoutEnd(None)).1
            == RunActionView::AwaitExit,
        v.out_stream is Ended ==> after(v, RunEventView::StderrEnd(None)).1
            == RunActionView::AwaitExit,
        v.err_stream is Open ==> after(v, RunEventView::StdoutEnd(fault)).1 == RunActionView::Wait,
        v.out_stream is Open ==> after(v, RunEventView::StderrEnd(fault)).1 == RunActionView::Wait,
        !(v.err_stream is Open) && fault is Some ==> after(v, RunEventView::StdoutEnd(fault)).1
            == RunActionView::Done(Err("pipe read failed: "@ + fault->0)),
        v.out_stream is Ended && fault is Some ==> after(v, RunEventView::StderrEnd(fault)).1
            == RunActionView::Done(Err("pipe read failed: "@ + fault->0)),
        v.out_stream is Faulty && !(v.err_stream is Open) ==> after(
            v,
            RunEventView::StderrEnd(fault),
        ).1 == RunActionView::Done(Err("pipe read failed: "@ + v.out_stream->Faulty_0)),
{
}

/// A command whose time is up is killed, once; when its streams are drained it is reported as
/// timed out, with the code -1 and with what was read of its streams, before and after.
pub proof fn law_overdue_commands_are_killed(v: RunningView, more: Seq<u8>)
    requires
        !v.killed,
    ensures
        ({
            let (killed, action) = after(v, RunEventView::TimedOut);
            let (drained, nothing) = after(killed, RunEventView::Stdout(more));
            &&& action == RunActionView::Kill
            &&& nothing == RunActionView::Wait
            &&& after(killed, RunEventView::TimedOut).1 == RunActionView::Wait
            &&& after(v, RunEventView::Drained).1 == RunActionView::Wait
            &&& after(drained, RunEventView::Drained).1 matches RunActionView::Done(Ok(o))
            &&& o.timed_out
            &&& o.returncode == -1
            &&& o.stderr == text::lossy_text(v.stderr)
            &&& o.stdout == text::lossy_text(drained.stdout)
            &&& v.stdout.len() + more.len() <= cap() ==> drained.stdout == v.stdout + more
        }),
{
}

} // verus!
