//! The commands of the application.

use crate::agent;
use crate::agent::AgentType;
use crate::app_input;
use crate::app_state;
use crate::app_state::{Effect, EffectView, PromptsView, Screen, Tui, TuiView};
use crate::bottom_pane::chat_composer::ComposerView;
use crate::bottom_pane::popup_state;
use crate::desk;
use crate::desk::{Desk, DeskView};
use crate::editor::EditorView;
use crate::text;
use crate::transcript;
use crate::transcript::{CellView, SysKind};
use crate::user_input;
use crate::user_input::PendingUserInput;
use vstd::prelude::*;

verus! {

/// What the help command says.
pub const HELP: &'static str =
    "Commands:\n  /agent            switch the active agent thread (picker)\n  /switch <agent>   focus an agent\n  /sessions         list this project's persisted sessions\n  /config           view & edit API settings\n  /model            assign main/sub APIs and model names\n  /models           alias for /model\n  /env              select Python and inspect local tool readiness\n  /clear            clear the terminal and start a new chat\n  /compact          compact focused agent's context\n  /new              reset focused agent\n  /copy             copy the last assistant response\n  /pager            open the transcript pager\n  /manifest         show produced files\n  /index            rebuild the @ file index\n  /ide [on|off]     toggle IDE context injection (open file + selection)\n  /quit             exit";

/// The name in a command line: its first word.
pub open spec fn command_name(line: Seq<char>) -> Seq<char> {
    if text::words_of(line).len() == 0 {
        Seq::empty()
    } else {
        text::words_of(line)[0]
    }
}

/// The rest of a command line: its other words, with a space between them.
pub open spec fn command_rest(line: Seq<char>) -> Seq<char> {
    if text::words_of(line).len() == 0 {
        Seq::empty()
    } else {
        text::joined(text::words_of(line).skip(1), " "@)
    }
}

/// Pending questions from `i` on, each told that it will not be answered.
pub open spec fn inputs_cancelled(
    outbox: Seq<EffectView>,
    inputs: Seq<user_input::PendingInputView>,
    i: int,
) -> Seq<EffectView>
    decreases inputs.len() - i,
{
    if i < 0 || i >= inputs.len() {
        outbox
    } else {
        inputs_cancelled(
            outbox.push(EffectView::CancelUserInput { call_id: inputs[i].call_id }),
            inputs,
            i + 1,
        )
    }
}

/// The screen with nothing open, to be cleared.
pub open spec fn screen_cleared(s: Screen) -> Screen {
    Screen {
        inserted: 0,
        needs_clear: true,
        tail_blank: false,
        overlay: None,
        pager: false,
        agent_picker: None,
        ..s
    }
}

/// The state with an empty screen. The agents keep what they have in mind.
#[verifier::opaque]
pub open spec fn cleared(v: TuiView) -> TuiView {
    TuiView {
        editor: EditorView {
            composer: ComposerView { popups: popup_state::closed(), ..v.editor.composer },
            ..v.editor
        },
        desk: DeskView {
            history: Seq::empty(),
            queued: desk::no_queues(),
            suppressed: desk::none_suppressed(),
            submissions: Seq::empty(),
            outbox: inputs_cancelled(v.desk.outbox, v.prompts.inputs, 0),
            ..v.desk
        },
        screen: screen_cleared(v.screen),
        prompts: PromptsView { inputs: Seq::empty(), requests: Seq::empty(), ..v.prompts },
        preview: Seq::empty(),
        ..v
    }
}

/// What is said of the editor context.
pub open spec fn ide_state(on: bool) -> Seq<char> {
    if on {
        "IDE context is on."@
    } else {
        "IDE context is off."@
    }
}

/// The state with the editor context switched. Switching it on looks whether an
/// editor can be reached.
pub open spec fn ide_switched(v: TuiView, on: bool) -> TuiView {
    let w = app_state::said(
        app_state::with_screen(v, Screen { ide_enabled: on, ide_warned: false, ..v.screen }),
        ide_state(on),
        SysKind::Info,
    );
    if on {
        app_state::asking(w, EffectView::ProbeIde)
    } else {
        w
    }
}

/// What the command for the editor context does.
#[verifier::opaque]
pub open spec fn ide_command(v: TuiView, args: Seq<char>) -> TuiView {
    let a = text::ascii_lowered(text::trimmed(args));
    if a.len() == 0 {
        ide_switched(v, !v.screen.ide_enabled)
    } else if a == "on"@ {
        ide_switched(v, true)
    } else if a == "off"@ {
        ide_switched(v, false)
    } else if a == "status"@ {
        app_state::said(v, ide_state(v.screen.ide_enabled), SysKind::Info)
    } else {
        app_state::said(v, "usage: /ide [on|off|status]"@, SysKind::Error)
    }
}

/// A command of the application.
#[derive(Debug, Clone, Copy, PartialEq, Eq, Structural)]
pub enum Command {
    Help,
    Config,
    Model,
    Env,
    Agent,
    Sessions,
    Switch,
    Clear,
    Compact,
    Copy,
    Pager,
    New,
    Index,
    Ide,
    Manifest,
    Quit,
    Nothing,
    Unknown,
}

/// The command with a name.
#[verifier::opaque]
pub open spec fn command_of(name: Seq<char>) -> Command {
    if name == "help"@ || name == "h"@ || name == "?"@ {
        Command::Help
    } else if name == "config"@ {
        Command::Config
    } else if name == "model"@ || name == "models"@ {
        Command::Model
    } else if name == "env"@ {
        Command::Env
    } else if name == "agent"@ || name == "agents"@ {
        Command::Agent
    } else if name == "sessions"@ {
        Command::Sessions
    } else if name == "switch"@ {
        Command::Switch
    } else if name == "clear"@ {
        Command::Clear
    } else if name == "compact"@ {
        Command::Compact
    } else if name == "copy"@ {
        Command::Copy
    } else if name == "pager"@ {
        Command::Pager
    } else if name == "new"@ {
        Command::New
    } else if name == "index"@ {
        Command::Index
    } else if name == "ide"@ {
        Command::Ide
    } else if name == "manifest"@ {
        Command::Manifest
    } else if name == "quit"@ || name == "exit"@ {
        Command::Quit
    } else if name.len() == 0 {
        Command::Nothing
    } else {
        Command::Unknown
    }
}

/// The state with the agent in focus that was named.
#[verifier::opaque]
pub open spec fn switched(v: TuiView, name: Seq<char>) -> TuiView {
    match agent::named_agent(name) {
        Some(who) => app_state::said(
            app_input::focused_on(v, who),
            "focused: "@ + agent::agent_label(who),
            SysKind::Info,
        ),
        None => app_state::said(
            v,
            "usage: /switch <main|data_analysis|plotting|theory|report>"@,
            SysKind::Error,
        ),
    }
}

/// The state with the focused agent asked to shorten what it has in mind.
#[verifier::opaque]
pub open spec fn compacted(v: TuiView) -> TuiView {
    app_state::said(
        app_state::asking(v, EffectView::Compact { agent: v.focused }),
        "compacting "@ + agent::agent_label(v.focused) + " context…"@,
        SysKind::Info,
    )
}

/// The state with the focused agent asked to forget what it has in mind.
#[verifier::opaque]
pub open spec fn reset(v: TuiView) -> TuiView {
    app_state::said(
        app_state::asking(v, EffectView::ClearContext { agent: v.focused }),
        "reset "@ + agent::agent_label(v.focused),
        SysKind::Info,
    )
}

/// The state with the list of files to be read again.
#[verifier::opaque]
pub open spec fn reindexed(v: TuiView) -> TuiView {
    app_state::said(
        app_state::asking(v, EffectView::RefreshIndex),
        "@ file index rebuilt"@,
        SysKind::Info,
    )
}

/// The state with the help shown.
#[verifier::opaque]
pub open spec fn helped(v: TuiView) -> TuiView {
    app_state::said(v, HELP@, SysKind::Info)
}

/// The state with what is needed for a command asked for.
#[verifier::opaque]
pub open spec fn looked_up(v: TuiView, e: EffectView) -> TuiView {
    app_state::asking(v, e)
}

/// The state with an empty screen, and the focused agent asked to forget what it
/// has in mind.
#[verifier::opaque]
pub open spec fn chat_cleared(v: TuiView) -> TuiView {
    app_state::asking(cleared(v), EffectView::ClearContext { agent: v.focused })
}

/// The state after a command that there is not.
#[verifier::opaque]
pub open spec fn rejected(v: TuiView, name: Seq<char>) -> TuiView {
    app_state::said(v, "unknown command: /"@ + name, SysKind::Error)
}

/// The screen with another one wanted, the agent picker open, or the end wanted.
pub open spec fn screen_flagged(s: Screen, command: Command, focused: AgentType) -> Screen {
    match command {
        Command::Config => Screen { want_config: true, ..s },
        Command::Model => Screen { want_models: true, ..s },
        Command::Env => Screen { want_environment: true, ..s },
        Command::Agent => Screen {
            agent_picker: Some(agent::index_of(focused) as usize),
            ..s
        },
        Command::Quit => Screen { exit_requested: true, ..s },
        _ => s,
    }
}

/// The state with a screen wanted, the agent picker open, or the end wanted.
#[verifier::opaque]
pub open spec fn flagged(v: TuiView, command: Command) -> TuiView {
    app_state::with_screen(v, screen_flagged(v.screen, command, v.focused))
}

/// What a command with a name and arguments does.
#[verifier::opaque]
pub open spec fn named_command(v: TuiView, name: Seq<char>, rest: Seq<char>) -> TuiView {
    let command = command_of(name);
    match command {
        Command::Help => helped(v),
        Command::Config => flagged(v, command),
        Command::Model => flagged(v, command),
        Command::Env => flagged(v, command),
        Command::Agent => flagged(v, command),
        Command::Sessions => looked_up(v, EffectView::ListSessions),
        Command::Switch => switched(v, rest),
        Command::Clear => chat_cleared(v),
        Command::Compact => compacted(v),
        Command::Copy => app_input::copying(v),
        Command::Pager => app_input::paging(v),
        Command::New => reset(v),
        Command::Index => reindexed(v),
        Command::Ide => ide_command(v, rest),
        Command::Manifest => looked_up(v, EffectView::ShowManifest),
        Command::Quit => flagged(v, command),
        Command::Nothing => v,
        Command::Unknown => rejected(v, name),
    }
}

/// What a command line does.
#[verifier::opaque]
pub open spec fn command_run(v: TuiView, line: Seq<char>) -> TuiView {
    named_command(v, command_name(line), command_rest(line))
}

/// How the look for an editor went.
#[derive(Debug)]
pub enum IdeProbe {
    /// There is an editor, and something is open in it.
    Context,
    /// There is an editor.
    Connected,
    /// There is none, and what the user can do about it.
    Unavailable(String),
    /// The look itself failed.
    Failed,
}

/// What is said of the look for an editor.
pub open spec fn probe_notice(p: IdeProbe) -> Seq<char> {
    match p {
        IdeProbe::Context => "IDE context is on. Future messages will include your current IDE selection and open tabs."@,
        IdeProbe::Connected => "IDE context is on. Connected to your IDE."@,
        IdeProbe::Unavailable(hint) => "IDE context could not be enabled: "@ + hint@,
        IdeProbe::Failed => "IDE context probe failed."@,
    }
}

/// What is said of the look for an editor.
pub fn ide_notice(p: &IdeProbe) -> (r: String)
    ensures
        r@ == probe_notice(*p),
{
    match p {
        IdeProbe::Context => "IDE context is on. Future messages will include your current IDE selection and open tabs.".to_string(),
        IdeProbe::Connected => "IDE context is on. Connected to your IDE.".to_string(),
        IdeProbe::Unavailable(hint) => {
            let mut out = "IDE context could not be enabled: ".to_string();
            out.push_str(hint);
            out
        },
        IdeProbe::Failed => "IDE context probe failed.".to_string(),
    }
}

/// A session that was kept.
#[derive(Debug)]
pub struct SessionSummary {
    pub agent: String,
    pub conversation_id: String,
    pub timestamp: String,
}

/// The line on a session.
pub open spec fn session_line(s: SessionSummary) -> Seq<char> {
    "  "@ + s.agent@ + ": "@ + s.conversation_id@ + " ["@ + s.timestamp@ + "]\n"@
}

/// The lines on the first `n` sessions.
pub open spec fn session_lines(v: Seq<SessionSummary>, n: int) -> Seq<char>
    decreases n,
{
    if n <= 0 {
        Seq::empty()
    } else {
        session_lines(v, n - 1) + session_line(v[n - 1])
    }
}

/// What is said of the sessions of a project.
pub open spec fn sessions_notice(v: Seq<SessionSummary>) -> Seq<char> {
    if v.len() == 0 {
        "No persisted sessions for this project."@
    } else {
        text::trimmed_end("Project sessions:\n"@ + session_lines(v, v.len() as int))
    }
}

/// The command with a name.
pub fn parse_command(name: &str) -> (r: Command)
    ensures
        r == command_of(name@),
{
    reveal(command_of);
    if text::same(name, "help") || text::same(name, "h") || text::same(name, "?") {
        Command::Help
    } else if text::same(name, "config") {
        Command::Config
    } else if text::same(name, "model") || text::same(name, "models") {
        Command::Model
    } else if text::same(name, "env") {
        Command::Env
    } else if text::same(name, "agent") || text::same(name, "agents") {
        Command::Agent
    } else if text::same(name, "sessions") {
        Command::Sessions
    } else if text::same(name, "switch") {
        Command::Switch
    } else if text::same(name, "clear") {
        Command::Clear
    } else if text::same(name, "compact") {
        Command::Compact
    } else if text::same(name, "copy") {
        Command::Copy
    } else if text::same(name, "pager") {
        Command::Pager
    } else if text::same(name, "new") {
        Command::New
    } else if text::same(name, "index") {
        Command::Index
    } else if text::same(name, "ide") {
        Command::Ide
    } else if text::same(name, "manifest") {
        Command::Manifest
    } else if text::same(name, "quit") || text::same(name, "exit") {
        Command::Quit
    } else if name.is_empty() {
        Command::Nothing
    } else {
        Command::Unknown
    }
}

/// The screen with nothing open, to be cleared.
fn clear_screen(s: Screen) -> (r: Screen)
    ensures
        r == screen_cleared(s),
{
    Screen {
        inserted: 0,
        needs_clear: true,
        tail_blank: false,
        overlay: None,
        pager: false,
        agent_picker: None,
        ..s
    }
}

/// The screen with what is wanted next.
fn flag_screen(s: Screen, command: Command, focused: AgentType) -> (r: Screen)
    ensures
        r == screen_flagged(s, command, focused),
{
    match command {
        Command::Config => Screen { want_config: true, ..s },
        Command::Model => Screen { want_models: true, ..s },
        Command::Env => Screen { want_environment: true, ..s },
        Command::Agent => Screen { agent_picker: Some(focused.index()), ..s },
        Command::Quit => Screen { exit_requested: true, ..s },
        _ => s,
    }
}

/// Tells the calls that wait for answers that there will be none.
fn cancel_inputs(desk: &mut Desk, inputs: &Vec<PendingUserInput>)
    requires
        old(desk)@.wf(),
    ensures
        final(desk)@ == (DeskView {
            outbox: inputs_cancelled(
                old(desk)@.outbox,
                user_input::pending_views(inputs@),
                0,
            ),
            ..old(desk)@
        }),
        final(desk)@.wf(),
{
    let ghost v = desk@;
    let ghost all = user_input::pending_views(inputs@);
    let mut i: usize = 0;
    while i < inputs.len()
        invariant
            i <= inputs@.len(),
            all == user_input::pending_views(inputs@),
            v.wf(),
            desk@ == (DeskView { outbox: desk@.outbox, ..v }),
            inputs_cancelled(desk@.outbox, all, i as int) == inputs_cancelled(v.outbox, all, 0),
        decreases inputs@.len() - i,
    {
        let call_id = inputs[i].call_id.as_str().to_string();
        assert(all[i as int] == inputs@[i as int]@);
        desk.ask(Effect::CancelUserInput { call_id });
        i += 1;
    }
}

impl Tui {
    /// Runs a command line.
    pub fn run_command(&mut self, line: &str)
        requires
            old(self)@.wf(),
        ensures
            final(self)@ == command_run(old(self)@, line@),
            final(self)@.wf(),
    {
        reveal(command_run);
        let words = text::words(line);
        assert(text::views(words@).len() == words@.len());
        if words.len() == 0 {
            let empty = String::new();
            assert(empty@ =~= Seq::<char>::empty());
            self.run_named(&empty, &empty);
            return ;
        }
        assert(text::views(words@)[0] == words@[0]@);
        let others = text::copy_range(&words, 1, words.len());
        assert(text::views(others@) =~= text::views(words@).skip(1));
        let rest = text::join(&others, " ");
        self.run_named(&words[0], &rest);
    }

    /// Runs a command.
    fn run_named(&mut self, name: &str, rest: &str)
        requires
            old(self)@.wf(),
        ensures
            final(self)@ == named_command(old(self)@, name@, rest@),
            final(self)@.wf(),
    {
        reveal(named_command);
        let command = parse_command(name);
        match command {
            Command::Help => self.help(),
            Command::Sessions => self.look_up(Effect::ListSessions),
            Command::Switch => self.switch_to(rest),
            Command::Clear => self.clear_chat(),
            Command::Compact => self.compact(),
            Command::Copy => self.copy_last_response(),
            Command::Pager => self.open_pager(),
            Command::New => self.reset_agent(),
            Command::Index => self.rebuild_index(),
            Command::Ide => self.handle_ide_command(rest),
            Command::Manifest => self.look_up(Effect::ShowManifest),
            Command::Nothing => {},
            Command::Unknown => self.reject(name),
            _ => self.raise(command),
        }
    }

    /// Shows the help.
    fn help(&mut self)
        requires
            old(self)@.wf(),
        ensures
            final(self)@ == helped(old(self)@),
            final(self)@.wf(),
    {
        reveal(helped);
        self.system(HELP, SysKind::Info);
    }

    /// Asks for what is needed for a command.
    fn look_up(&mut self, effect: Effect)
        requires
            old(self)@.wf(),
        ensures
            final(self)@ == looked_up(old(self)@, effect@),
            final(self)@.wf(),
    {
        reveal(looked_up);
        self.ask(effect);
    }

    /// Notes what is wanted next.
    fn raise(&mut self, command: Command)
        requires
            old(self)@.wf(),
        ensures
            final(self)@ == flagged(old(self)@, command),
            final(self)@.wf(),
    {
        reveal(flagged);
        self.screen = flag_screen(self.screen, command, self.focused);
    }

    /// Empties the screen and what the focused agent has in mind.
    fn clear_chat(&mut self)
        requires
            old(self)@.wf(),
        ensures
            final(self)@ == chat_cleared(old(self)@),
            final(self)@.wf(),
    {
        reveal(chat_cleared);
        self.clear_terminal_ui();
        let who = self.focused;
        assert(who == old(self)@.focused) by {
            reveal(cleared);
        }
        self.ask(Effect::ClearContext { agent: who });
    }

    /// Shortens what the focused agent has in mind.
    fn compact(&mut self)
        requires
            old(self)@.wf(),
        ensures
            final(self)@ == compacted(old(self)@),
            final(self)@.wf(),
    {
        reveal(compacted);
        let who = self.focused;
        self.ask(Effect::Compact { agent: who });
        let mut notice = "compacting ".to_string();
        notice.push_str(who.label());
        notice.push_str(" context…");
        self.system(&notice, SysKind::Info);
    }

    /// Empties what the focused agent has in mind.
    fn reset_agent(&mut self)
        requires
            old(self)@.wf(),
        ensures
            final(self)@ == reset(old(self)@),
            final(self)@.wf(),
    {
        reveal(reset);
        let who = self.focused;
        self.ask(Effect::ClearContext { agent: who });
        let mut notice = "reset ".to_string();
        notice.push_str(who.label());
        self.system(&notice, SysKind::Info);
    }

    /// Has the list of files read again.
    fn rebuild_index(&mut self)
        requires
            old(self)@.wf(),
        ensures
            final(self)@ == reindexed(old(self)@),
            final(self)@.wf(),
    {
        reveal(reindexed);
        self.ask(Effect::RefreshIndex);
        self.system("@ file index rebuilt", SysKind::Info);
    }

    /// Says that there is no such command.
    fn reject(&mut self, name: &str)
        requires
            old(self)@.wf(),
        ensures
            final(self)@ == rejected(old(self)@, name@),
            final(self)@.wf(),
    {
        reveal(rejected);
        let mut notice = "unknown command: /".to_string();
        notice.push_str(name);
        self.system(&notice, SysKind::Error);
    }

    /// Writes to the agent that was named.
    fn switch_to(&mut self, name: &str)
        requires
            old(self)@.wf(),
        ensures
            final(self)@ == switched(old(self)@, name@),
            final(self)@.wf(),
    {
        reveal(switched);
        match AgentType::parse(name) {
            Some(who) => {
                self.focus_agent(who);
                let mut notice = "focused: ".to_string();
                notice.push_str(who.label());
                self.system(&notice, SysKind::Info);
            },
            None => self.system(
                "usage: /switch <main|data_analysis|plotting|theory|report>",
                SysKind::Error,
            ),
        }
    }

    /// Empties the screen.
    pub fn clear_terminal_ui(&mut self)
        requires
            old(self)@.wf(),
        ensures
            final(self)@ == cleared(old(self)@),
            final(self)@.wf(),
    {
        reveal(cleared);
        cancel_inputs(&mut self.desk, &self.prompts.inputs);
        self.desk.clear();
        self.screen = clear_screen(self.screen);
        self.editor.composer.clear_popups();
        self.prompts.drop_inputs();
        let none: Vec<String> = Vec::new();
        assert(text::views(none@) =~= Seq::<Seq<char>>::empty());
        self.pending_input_preview.set_queued_messages(none);
    }

    /// Runs the command for the editor context.
    pub fn handle_ide_command(&mut self, args: &str)
        requires
            old(self)@.wf(),
        ensures
            final(self)@ == ide_command(old(self)@, args@),
            final(self)@.wf(),
    {
        reveal(ide_command);
        let a = text::to_ascii_lowercase(&text::trim(args));
        if a.as_str().is_empty() {
            let on = !self.screen.ide_enabled;
            self.switch_ide(on);
        } else if text::same(&a, "on") {
            self.switch_ide(true);
        } else if text::same(&a, "off") {
            self.switch_ide(false);
        } else if text::same(&a, "status") {
            if self.screen.ide_enabled {
                self.system("IDE context is on.", SysKind::Info);
            } else {
                self.system("IDE context is off.", SysKind::Info);
            }
        } else {
            self.system("usage: /ide [on|off|status]", SysKind::Error);
        }
    }

    /// Switches the editor context.
    fn switch_ide(&mut self, on: bool)
        requires
            old(self)@.wf(),
        ensures
            final(self)@ == ide_switched(old(self)@, on),
            final(self)@.wf(),
    {
        self.screen = Screen { ide_enabled: on, ide_warned: false, ..self.screen };
        if on {
            self.system("IDE context is on.", SysKind::Info);
            self.ask(Effect::ProbeIde);
        } else {
            self.system("IDE context is off.", SysKind::Info);
        }
    }

    /// Says which sessions there are.
    pub fn report_sessions(&mut self, sessions: &Vec<SessionSummary>)
        requires
            old(self)@.wf(),
        ensures
            final(self)@ == app_state::said(
                old(self)@,
                sessions_notice(sessions@),
                SysKind::Info,
            ),
            final(self)@.wf(),
    {
        if sessions.len() == 0 {
            self.system("No persisted sessions for this project.", SysKind::Info);
            return ;
        }
        let mut out = "Project sessions:\n".to_string();
        let mut i: usize = 0;
        assert(out@ =~= "Project sessions:\n"@ + session_lines(sessions@, 0));
        while i < sessions.len()
            invariant
                i <= sessions@.len(),
                out@ == "Project sessions:\n"@ + session_lines(sessions@, i as int),
            decreases sessions@.len() - i,
        {
            let ghost before = out@;
            out.push_str("  ");
            out.push_str(&sessions[i].agent);
            out.push_str(": ");
            out.push_str(&sessions[i].conversation_id);
            out.push_str(" [");
            out.push_str(&sessions[i].timestamp);
            out.push_str("]\n");
            assert(out@ =~= before + session_line(sessions@[i as int]));
            assert(out@ =~= "Project sessions:\n"@ + session_lines(sessions@, i + 1));
            i += 1;
        }
        self.system(&text::trim_end(&out), SysKind::Info);
    }

    /// Says which files were produced, given as JSON.
    pub fn report_manifest(&mut self, json: &str)
        requires
            old(self)@.wf(),
        ensures
            final(self)@ == app_state::said(
                old(self)@,
                "manifests:\n"@ + json@,
                SysKind::Info,
            ),
            final(self)@.wf(),
    {
        let mut out = "manifests:\n".to_string();
        out.push_str(json);
        self.system(&out, SysKind::Info);
    }
}

// ---------------------------------------------------------------------------
// Laws
// ---------------------------------------------------------------------------

/// Whether a line is a command with the given name: its first word.
pub open spec fn calls(line: Seq<char>, name: Seq<char>) -> bool {
    text::words_of(line).len() > 0 && text::words_of(line)[0] == name
}

/// The state with one more effect and one more notice, and all else as it was.
pub open spec fn with_effect_and_notice(
    v: TuiView,
    effects: Seq<EffectView>,
    notices: Seq<CellView>,
) -> TuiView {
    TuiView {
        desk: DeskView {
            outbox: v.desk.outbox + effects,
            history: v.desk.history + notices,
            ..v.desk
        },
        ..v
    }
}

/// The names of the commands, letter by letter.
proof fn names_are_known()
    ensures
        command_of(seq!['h', 'e', 'l', 'p']) == Command::Help,
        command_of(seq!['h']) == Command::Help,
        command_of(seq!['?']) == Command::Help,
        command_of(seq!['c', 'o', 'n', 'f', 'i', 'g']) == Command::Config,
        command_of(seq!['m', 'o', 'd', 'e', 'l']) == Command::Model,
        command_of(seq!['m', 'o', 'd', 'e', 'l', 's']) == Command::Model,
        command_of(seq!['e', 'n', 'v']) == Command::Env,
        command_of(seq!['a', 'g', 'e', 'n', 't']) == Command::Agent,
        command_of(seq!['a', 'g', 'e', 'n', 't', 's']) == Command::Agent,
        command_of(seq!['s', 'e', 's', 's', 'i', 'o', 'n', 's']) == Command::Sessions,
        command_of(seq!['s', 'w', 'i', 't', 'c', 'h']) == Command::Switch,
        command_of(seq!['c', 'l', 'e', 'a', 'r']) == Command::Clear,
        command_of(seq!['c', 'o', 'm', 'p', 'a', 'c', 't']) == Command::Compact,
        command_of(seq!['c', 'o', 'p', 'y']) == Command::Copy,
        command_of(seq!['p', 'a', 'g', 'e', 'r']) == Command::Pager,
        command_of(seq!['n', 'e', 'w']) == Command::New,
        command_of(seq!['i', 'n', 'd', 'e', 'x']) == Command::Index,
        command_of(seq!['i', 'd', 'e']) == Command::Ide,
        command_of(seq!['m', 'a', 'n', 'i', 'f', 'e', 's', 't']) == Command::Manifest,
        command_of(seq!['q', 'u', 'i', 't']) == Command::Quit,
        command_of(seq!['e', 'x', 'i', 't']) == Command::Quit,
{
    reveal(command_of);
    reveal_strlit("help");
    reveal_strlit("h");
    reveal_strlit("?");
    reveal_strlit("config");
    reveal_strlit("model");
    reveal_strlit("models");
    reveal_strlit("env");
    reveal_strlit("agent");
    reveal_strlit("agents");
    reveal_strlit("sessions");
    reveal_strlit("switch");
    reveal_strlit("clear");
    reveal_strlit("compact");
    reveal_strlit("copy");
    reveal_strlit("pager");
    reveal_strlit("new");
    reveal_strlit("index");
    reveal_strlit("ide");
    reveal_strlit("manifest");
    reveal_strlit("quit");
    reveal_strlit("exit");
    assert("help"@ =~= seq!['h', 'e', 'l', 'p']);
    assert("h"@ =~= seq!['h']);
    assert("?"@ =~= seq!['?']);
    assert("config"@ =~= seq!['c', 'o', 'n', 'f', 'i', 'g']);
    assert("model"@ =~= seq!['m', 'o', 'd', 'e', 'l']);
    assert("models"@ =~= seq!['m', 'o', 'd', 'e', 'l', 's']);
    assert("env"@ =~= seq!['e', 'n', 'v']);
    assert("agent"@ =~= seq!['a', 'g', 'e', 'n', 't']);
    assert("agents"@ =~= seq!['a', 'g', 'e', 'n', 't', 's']);
    assert("sessions"@ =~= seq!['s', 'e', 's', 's', 'i', 'o', 'n', 's']);
    assert("switch"@ =~= seq!['s', 'w', 'i', 't', 'c', 'h']);
    assert("clear"@ =~= seq!['c', 'l', 'e', 'a', 'r']);
    assert("compact"@ =~= seq!['c', 'o', 'm', 'p', 'a', 'c', 't']);
    assert("copy"@ =~= seq!['c', 'o', 'p', 'y']);
    assert("pager"@ =~= seq!['p', 'a', 'g', 'e', 'r']);
    assert("new"@ =~= seq!['n', 'e', 'w']);
    assert("index"@ =~= seq!['i', 'n', 'd', 'e', 'x']);
    assert("ide"@ =~= seq!['i', 'd', 'e']);
    assert("manifest"@ =~= seq!['m', 'a', 'n', 'i', 'f', 'e', 's', 't']);
    assert("quit"@ =~= seq!['q', 'u', 'i', 't']);
    assert("exit"@ =~= seq!['e', 'x', 'i', 't']);
    assert("help"@[0] == 'h');
    assert("h"@[0] == 'h');
    assert("?"@[0] == '?');
    assert("config"@[0] == 'c');
    assert("model"@[0] == 'm');
    assert("models"@[0] == 'm');
    assert("env"@[0] == 'e');
    assert("agent"@[0] == 'a');
    assert("agents"@[0] == 'a');
    assert("sessions"@[0] == 's');
    assert("switch"@[0] == 's');
    assert("clear"@[0] == 'c');
    assert("compact"@[0] == 'c');
    assert("copy"@[0] == 'c');
    assert("pager"@[0] == 'p');
    assert("new"@[0] == 'n');
    assert("index"@[0] == 'i');
    assert("ide"@[0] == 'i');
    assert("manifest"@[0] == 'm');
    assert("quit"@[0] == 'q');
    assert("exit"@[0] == 'e');
}

/// Every command has its names, and no other name is a command.
pub proof fn law_commands_have_their_names(name: Seq<char>)
    ensures
        command_of(seq!['h', 'e', 'l', 'p']) == Command::Help,
        command_of(seq!['h']) == Command::Help,
        command_of(seq!['?']) == Command::Help,
        command_of(seq!['c', 'o', 'n', 'f', 'i', 'g']) == Command::Config,
        command_of(seq!['m', 'o', 'd', 'e', 'l']) == Command::Model,
        command_of(seq!['m', 'o', 'd', 'e', 'l', 's']) == Command::Model,
        command_of(seq!['e', 'n', 'v']) == Command::Env,
        command_of(seq!['a', 'g', 'e', 'n', 't']) == Command::Agent,
        command_of(seq!['a', 'g', 'e', 'n', 't', 's']) == Command::Agent,
        command_of(seq!['s', 'e', 's', 's', 'i', 'o', 'n', 's']) == Command::Sessions,
        command_of(seq!['s', 'w', 'i', 't', 'c', 'h']) == Command::Switch,
        command_of(seq!['c', 'l', 'e', 'a', 'r']) == Command::Clear,
        command_of(seq!['c', 'o', 'm', 'p', 'a', 'c', 't']) == Command::Compact,
        command_of(seq!['c', 'o', 'p', 'y']) == Command::Copy,
        command_of(seq!['p', 'a', 'g', 'e', 'r']) == Command::Pager,
        command_of(seq!['n', 'e', 'w']) == Command::New,
        command_of(seq!['i', 'n', 'd', 'e', 'x']) == Command::Index,
        command_of(seq!['i', 'd', 'e']) == Command::Ide,
        command_of(seq!['m', 'a', 'n', 'i', 'f', 'e', 's', 't']) == Command::Manifest,
        command_of(seq!['q', 'u', 'i', 't']) == Command::Quit,
        command_of(seq!['e', 'x', 'i', 't']) == Command::Quit,
        command_of(name) == Command::Unknown <==> name.len() > 0 && name != seq!['h', 'e', 'l', 'p']
            && name != seq!['h']
            && name != seq!['?']
            && name != seq!['c', 'o', 'n', 'f', 'i', 'g']
            && name != seq!['m', 'o', 'd', 'e', 'l']
            && name != seq!['m', 'o', 'd', 'e', 'l', 's']
            && name != seq!['e', 'n', 'v']
            && name != seq!['a', 'g', 'e', 'n', 't']
            && name != seq!['a', 'g', 'e', 'n', 't', 's']
            && name != seq!['s', 'e', 's', 's', 'i', 'o', 'n', 's']
            && name != seq!['s', 'w', 'i', 't', 'c', 'h']
            && name != seq!['c', 'l', 'e', 'a', 'r']
            && name != seq!['c', 'o', 'm', 'p', 'a', 'c', 't']
            && name != seq!['c', 'o', 'p', 'y']
            && name != seq!['p', 'a', 'g', 'e', 'r']
            && name != seq!['n', 'e', 'w']
            && name != seq!['i', 'n', 'd', 'e', 'x']
            && name != seq!['i', 'd', 'e']
            && name != seq!['m', 'a', 'n', 'i', 'f', 'e', 's', 't']
            && name != seq!['q', 'u', 'i', 't']
            && name != seq!['e', 'x', 'i', 't'],
        command_of(name) == Command::Nothing <==> name.len() == 0,
{
    names_are_known();
    reveal(command_of);
    reveal_strlit("help");
    reveal_strlit("h");
    reveal_strlit("?");
    reveal_strlit("config");
    reveal_strlit("model");
    reveal_strlit("models");
    reveal_strlit("env");
    reveal_strlit("agent");
    reveal_strlit("agents");
    reveal_strlit("sessions");
    reveal_strlit("switch");
    reveal_strlit("clear");
    reveal_strlit("compact");
    reveal_strlit("copy");
    reveal_strlit("pager");
    reveal_strlit("new");
    reveal_strlit("index");
    reveal_strlit("ide");
    reveal_strlit("manifest");
    reveal_strlit("quit");
    reveal_strlit("exit");
    assert("help"@ =~= seq!['h', 'e', 'l', 'p']);
    assert("h"@ =~= seq!['h']);
    assert("?"@ =~= seq!['?']);
    assert("config"@ =~= seq!['c', 'o', 'n', 'f', 'i', 'g']);
    assert("model"@ =~= seq!['m', 'o', 'd', 'e', 'l']);
    assert("models"@ =~= seq!['m', 'o', 'd', 'e', 'l', 's']);
    assert("env"@ =~= seq!['e', 'n', 'v']);
    assert("agent"@ =~= seq!['a', 'g', 'e', 'n', 't']);
    assert("agents"@ =~= seq!['a', 'g', 'e', 'n', 't', 's']);
    assert("sessions"@ =~= seq!['s', 'e', 's', 's', 'i', 'o', 'n', 's']);
    assert("switch"@ =~= seq!['s', 'w', 'i', 't', 'c', 'h']);
    assert("clear"@ =~= seq!['c', 'l', 'e', 'a', 'r']);
    assert("compact"@ =~= seq!['c', 'o', 'm', 'p', 'a', 'c', 't']);
    assert("copy"@ =~= seq!['c', 'o', 'p', 'y']);
    assert("pager"@ =~= seq!['p', 'a', 'g', 'e', 'r']);
    assert("new"@ =~= seq!['n', 'e', 'w']);
    assert("index"@ =~= seq!['i', 'n', 'd', 'e', 'x']);
    assert("ide"@ =~= seq!['i', 'd', 'e']);
    assert("manifest"@ =~= seq!['m', 'a', 'n', 'i', 'f', 'e', 's', 't']);
    assert("quit"@ =~= seq!['q', 'u', 'i', 't']);
    assert("exit"@ =~= seq!['e', 'x', 'i', 't']);
}

/// A command line does what the command of its first word does.
proof fn runs(v: TuiView, line: Seq<char>, name: Seq<char>)
    requires
        calls(line, name),
    ensures
        command_run(v, line) == named_command(v, name, command_rest(line)),
{
    reveal(command_run);
}

/// `/compact` asks the focused agent to compact its context, says so, and does nothing else: in
/// particular nothing is forgotten.
pub proof fn law_compact_asks_to_compact(v: TuiView, line: Seq<char>)
    requires
        calls(line, seq!['c', 'o', 'm', 'p', 'a', 'c', 't']),
    ensures
        command_run(v, line) == with_effect_and_notice(
            v,
            seq![EffectView::Compact { agent: v.focused }],
            seq![
                CellView::System {
                    text: "compacting "@ + agent::agent_label(v.focused) + " context…"@,
                    kind: SysKind::Info,
                },
            ],
        ),
{
    names_are_known();
    reveal(named_command);
    reveal(compacted);
    if calls(line, seq!['c', 'o', 'm', 'p', 'a', 'c', 't']) {
        runs(v, line, seq!['c', 'o', 'm', 'p', 'a', 'c', 't']);
    }
    assert(command_run(v, line).desk.outbox =~= v.desk.outbox + seq![EffectView::Compact { agent: v.focused }]);
    assert(command_run(v, line).desk.history =~= v.desk.history + seq![CellView::System { text: "compacting "@ + agent::agent_label(v.focused) + " context…"@, kind: SysKind::Info }]);
}

/// `/new` asks the focused agent to forget its context, says so, and leaves the transcript, the
/// queues and the screen alone.
pub proof fn law_new_resets_the_agent(v: TuiView, line: Seq<char>)
    requires
        calls(line, seq!['n', 'e', 'w']),
    ensures
        command_run(v, line) == with_effect_and_notice(
            v,
            seq![EffectView::ClearContext { agent: v.focused }],
            seq![
                CellView::System {
                    text: "reset "@ + agent::agent_label(v.focused),
                    kind: SysKind::Info,
                },
            ],
        ),
{
    names_are_known();
    reveal(named_command);
    reveal(reset);
    if calls(line, seq!['n', 'e', 'w']) {
        runs(v, line, seq!['n', 'e', 'w']);
    }
    assert(command_run(v, line).desk.outbox =~= v.desk.outbox + seq![
        EffectView::ClearContext { agent: v.focused },
    ]);
    assert(command_run(v, line).desk.history =~= v.desk.history + seq![
        CellView::System {
            text: "reset "@ + agent::agent_label(v.focused),
            kind: SysKind::Info,
        },
    ]);
}

/// `/clear` empties the transcript and the queues, takes the questions away and tells their
/// calls, and asks the focused agent, and only it, to forget its context. The draft and the
/// approvals stay.
pub proof fn law_clear_starts_a_new_chat(v: TuiView, line: Seq<char>)
    requires
        calls(line, seq!['c', 'l', 'e', 'a', 'r']),
    ensures
        ({
            let w = command_run(v, line);
            let asked = v.prompts.inputs.len() as int;
            &&& w.desk.history == Seq::<CellView>::empty()
            &&& w.desk.submissions.len() == 0
            &&& w.preview.len() == 0
            &&& forall|i: int| 0 <= i < w.desk.queued.len() ==> (#[trigger] w.desk.queued[i]).len() == 0
            &&& w.prompts.inputs.len() == 0
            &&& w.prompts.requests.len() == 0
            &&& w.prompts.approvals == v.prompts.approvals
            &&& w.desk.outbox.len() == v.desk.outbox.len() + asked + 1
            &&& w.desk.outbox.take(v.desk.outbox.len() as int) == v.desk.outbox
            &&& forall|i: int|
                0 <= i < asked ==> w.desk.outbox[v.desk.outbox.len() + i]
                    == (EffectView::CancelUserInput { call_id: (#[trigger] v.prompts.inputs[i]).call_id })
            &&& w.desk.outbox.last() == EffectView::ClearContext { agent: v.focused }
            &&& w.focused == v.focused
            &&& w.editor.composer.draft == v.editor.composer.draft
            &&& w.editor.composer.history == v.editor.composer.history
            &&& w.screen.needs_clear
            &&& w.screen.inserted == 0
            &&& w.screen.overlay is None
            &&& !w.screen.pager
            &&& w.screen.agent_picker is None
            &&& w.screen.exit_requested == v.screen.exit_requested
        }),
{
    names_are_known();
    reveal(named_command);
    reveal(chat_cleared);
    reveal(cleared);
    if calls(line, seq!['c', 'l', 'e', 'a', 'r']) {
        runs(v, line, seq!['c', 'l', 'e', 'a', 'r']);
    }
    cancelled_in_order(v.desk.outbox, v.prompts.inputs, 0);
}

/// `/sessions` has the sessions of the project looked up, and does nothing else.
pub proof fn law_sessions_looks_them_up(v: TuiView, line: Seq<char>)
    requires
        calls(line, seq!['s', 'e', 's', 's', 'i', 'o', 'n', 's']),
    ensures
        command_run(v, line) == with_effect_and_notice(
            v,
            seq![EffectView::ListSessions],
            Seq::empty(),
        ),
{
    names_are_known();
    reveal(named_command);
    reveal(looked_up);
    if calls(line, seq!['s', 'e', 's', 's', 'i', 'o', 'n', 's']) {
        runs(v, line, seq!['s', 'e', 's', 's', 'i', 'o', 'n', 's']);
    }
    assert(command_run(v, line).desk.outbox =~= v.desk.outbox + seq![EffectView::ListSessions]);
    assert(v.desk.history + Seq::<CellView>::empty() =~= v.desk.history);
}

/// `/manifest` has the produced files looked up, and does nothing else.
pub proof fn law_manifest_looks_them_up(v: TuiView, line: Seq<char>)
    requires
        calls(line, seq!['m', 'a', 'n', 'i', 'f', 'e', 's', 't']),
    ensures
        command_run(v, line) == with_effect_and_notice(
            v,
            seq![EffectView::ShowManifest],
            Seq::empty(),
        ),
{
    names_are_known();
    reveal(named_command);
    reveal(looked_up);
    if calls(line, seq!['m', 'a', 'n', 'i', 'f', 'e', 's', 't']) {
        runs(v, line, seq!['m', 'a', 'n', 'i', 'f', 'e', 's', 't']);
    }
    assert(command_run(v, line).desk.outbox =~= v.desk.outbox + seq![EffectView::ShowManifest]);
    assert(v.desk.history + Seq::<CellView>::empty() =~= v.desk.history);
}

/// `/index` has the list of files read again, says so, and does nothing else.
pub proof fn law_index_rebuilds_the_list_of_files(v: TuiView, line: Seq<char>)
    requires
        calls(line, seq!['i', 'n', 'd', 'e', 'x']),
    ensures
        command_run(v, line) == with_effect_and_notice(
            v,
            seq![EffectView::RefreshIndex],
            seq![CellView::System { text: "@ file index rebuilt"@, kind: SysKind::Info }],
        ),
{
    names_are_known();
    reveal(named_command);
    reveal(reindexed);
    if calls(line, seq!['i', 'n', 'd', 'e', 'x']) {
        runs(v, line, seq!['i', 'n', 'd', 'e', 'x']);
    }
    assert(command_run(v, line).desk.outbox =~= v.desk.outbox + seq![EffectView::RefreshIndex]);
    assert(command_run(v, line).desk.history =~= v.desk.history + seq![
        CellView::System { text: "@ file index rebuilt"@, kind: SysKind::Info },
    ]);
}

/// `/help` shows the list of commands, and does nothing else.
pub proof fn law_help_says_what_there_is(v: TuiView, line: Seq<char>)
    requires
        calls(line, seq!['h', 'e', 'l', 'p']) || calls(line, seq!['h']) || calls(line, seq!['?']),
    ensures
        command_run(v, line) == with_effect_and_notice(
            v,
            Seq::empty(),
            seq![CellView::System { text: HELP@, kind: SysKind::Info }],
        ),
{
    names_are_known();
    reveal(named_command);
    reveal(helped);
    if calls(line, seq!['h', 'e', 'l', 'p']) {
        runs(v, line, seq!['h', 'e', 'l', 'p']);
    }
    if calls(line, seq!['h']) {
        runs(v, line, seq!['h']);
    }
    if calls(line, seq!['?']) {
        runs(v, line, seq!['?']);
    }
    assert(v.desk.outbox + Seq::<EffectView>::empty() =~= v.desk.outbox);
    assert(command_run(v, line).desk.history =~= v.desk.history + seq![
        CellView::System { text: HELP@, kind: SysKind::Info },
    ]);
}

/// `/config` wants the page of settings, and does nothing else.
pub proof fn law_config_opens_the_settings(v: TuiView, line: Seq<char>)
    requires
        calls(line, seq!['c', 'o', 'n', 'f', 'i', 'g']),
    ensures
        command_run(v, line) == (TuiView { screen: Screen { want_config: true, ..v.screen }, ..v }),
{
    names_are_known();
    reveal(named_command);
    reveal(flagged);
    if calls(line, seq!['c', 'o', 'n', 'f', 'i', 'g']) {
        runs(v, line, seq!['c', 'o', 'n', 'f', 'i', 'g']);
    }
}

/// `/model` wants the page of models, and does nothing else.
pub proof fn law_model_opens_the_models(v: TuiView, line: Seq<char>)
    requires
        calls(line, seq!['m', 'o', 'd', 'e', 'l']) || calls(line, seq!['m', 'o', 'd', 'e', 'l', 's']),
    ensures
        command_run(v, line) == (TuiView { screen: Screen { want_models: true, ..v.screen }, ..v }),
{
    names_are_known();
    reveal(named_command);
    reveal(flagged);
    if calls(line, seq!['m', 'o', 'd', 'e', 'l']) {
        runs(v, line, seq!['m', 'o', 'd', 'e', 'l']);
    }
    if calls(line, seq!['m', 'o', 'd', 'e', 'l', 's']) {
        runs(v, line, seq!['m', 'o', 'd', 'e', 'l', 's']);
    }
}

/// `/env` wants the page of the environment, and does nothing else.
pub proof fn law_env_opens_the_environment(v: TuiView, line: Seq<char>)
    requires
        calls(line, seq!['e', 'n', 'v']),
    ensures
        command_run(v, line) == (TuiView { screen: Screen { want_environment: true, ..v.screen }, ..v }),
{
    names_are_known();
    reveal(named_command);
    reveal(flagged);
    if calls(line, seq!['e', 'n', 'v']) {
        runs(v, line, seq!['e', 'n', 'v']);
    }
}

/// `/quit` wants the session to end, and does nothing else.
pub proof fn law_quit_leaves(v: TuiView, line: Seq<char>)
    requires
        calls(line, seq!['q', 'u', 'i', 't']) || calls(line, seq!['e', 'x', 'i', 't']),
    ensures
        command_run(v, line) == (TuiView { screen: Screen { exit_requested: true, ..v.screen }, ..v }),
{
    names_are_known();
    reveal(named_command);
    reveal(flagged);
    if calls(line, seq!['q', 'u', 'i', 't']) {
        runs(v, line, seq!['q', 'u', 'i', 't']);
    }
    if calls(line, seq!['e', 'x', 'i', 't']) {
        runs(v, line, seq!['e', 'x', 'i', 't']);
    }
}

/// `/agent` opens the agent picker at the focused agent, and does nothing else.
pub proof fn law_agent_opens_the_picker(v: TuiView, line: Seq<char>)
    requires
        calls(line, seq!['a', 'g', 'e', 'n', 't']) || calls(line, seq!['a', 'g', 'e', 'n', 't', 's']),
    ensures
        command_run(v, line) == (TuiView { screen: Screen { agent_picker: Some(agent::index_of(v.focused) as usize), ..v.screen }, ..v }),
{
    names_are_known();
    reveal(named_command);
    reveal(flagged);
    if calls(line, seq!['a', 'g', 'e', 'n', 't']) {
        runs(v, line, seq!['a', 'g', 'e', 'n', 't']);
    }
    if calls(line, seq!['a', 'g', 'e', 'n', 't', 's']) {
        runs(v, line, seq!['a', 'g', 'e', 'n', 't', 's']);
    }
}

/// `/copy` copies the newest response of the focused agent in the transcript; where there is
/// none, it says so. It does nothing else.
pub proof fn law_copy_copies_the_last_response(v: TuiView, line: Seq<char>)
    requires
        calls(line, seq!['c', 'o', 'p', 'y']),
    ensures
        ({
            let w = command_run(v, line);
            &&& w == (TuiView { desk: w.desk, ..v })
            &&& forall|i: int| #[trigger]
                transcript::is_newest_response(v.desk.history, v.focused, i) ==> w.desk == (DeskView {
                    outbox: v.desk.outbox.push(
                        EffectView::Copy { text: transcript::response_of(v.desk.history[i], v.focused)->0 },
                    ),
                    ..v.desk
                })
            &&& (forall|i: int|
                0 <= i < v.desk.history.len() ==> transcript::response_of(#[trigger] v.desk.history[i], v.focused) is None)
                ==> w.desk == (DeskView {
                history: v.desk.history.push(
                    CellView::System { text: "no assistant response to copy"@, kind: SysKind::Info },
                ),
                ..v.desk
            })
        }),
{
    names_are_known();
    reveal(named_command);
    reveal(app_input::copying);
    if calls(line, seq!['c', 'o', 'p', 'y']) {
        runs(v, line, seq!['c', 'o', 'p', 'y']);
    }
    transcript::law_last_response_is_the_newest(v.desk.history, v.focused, 0);
    assert forall|i: int| #[trigger]
        transcript::is_newest_response(v.desk.history, v.focused, i) implies command_run(v, line).desk == (DeskView {
        outbox: v.desk.outbox.push(
            EffectView::Copy { text: transcript::response_of(v.desk.history[i], v.focused)->0 },
        ),
        ..v.desk
    }) by {
        transcript::law_last_response_is_the_newest(v.desk.history, v.focused, i);
    }
}

/// `/pager` opens the transcript in the pager unless a screen is open, and does nothing else.
pub proof fn law_pager_opens_the_pager(v: TuiView, line: Seq<char>)
    requires
        calls(line, seq!['p', 'a', 'g', 'e', 'r']),
    ensures
        v.screen.overlay is Some ==> command_run(v, line) == v,
        v.screen.overlay is None ==> command_run(v, line) == (TuiView {
            screen: Screen { pager: true, ..v.screen },
            desk: DeskView { outbox: v.desk.outbox.push(EffectView::OpenPager), ..v.desk },
            ..v
        }),
{
    names_are_known();
    reveal(named_command);
    reveal(app_input::paging);
    if calls(line, seq!['p', 'a', 'g', 'e', 'r']) {
        runs(v, line, seq!['p', 'a', 'g', 'e', 'r']);
    }
}

/// `/switch` with the name of an agent puts that agent in focus: what is typed goes to it, and
/// its queue is previewed. The others are not touched.
pub proof fn law_switch_focuses_the_agent(v: TuiView, line: Seq<char>, who: AgentType)
    requires
        text::words_of(line) == seq![
            seq!['s', 'w', 'i', 't', 'c', 'h'],
            agent::agent_name(who),
        ],
    ensures
        ({
            let w = command_run(v, line);
            &&& w.focused == who
            &&& w.editor.composer.focused_agent == agent::agent_label(who)
            &&& w.preview == v.desk.queued[agent::index_of(who)]
            &&& w.desk == (DeskView {
                history: v.desk.history.push(
                    CellView::System {
                        text: "focused: "@ + agent::agent_label(who),
                        kind: SysKind::Info,
                    },
                ),
                ..v.desk
            })
            &&& w.screen == v.screen
            &&& w.prompts == v.prompts
            &&& w.editor.composer.draft == v.editor.composer.draft
        }),
{
    let name = seq!['s', 'w', 'i', 't', 'c', 'h'];
    names_are_known();
    reveal(named_command);
    reveal(switched);
    reveal(app_input::focused_on);
    runs(v, line, name);
    agent::law_agents_are_listed_once(who);
    let rest = text::words_of(line).skip(1);
    assert(rest =~= seq![agent::agent_name(who)]);
}

/// `/switch` with anything else than the name of an agent changes no focus, and says how it is
/// used.
pub proof fn law_switch_needs_an_agent(v: TuiView, line: Seq<char>)
    requires
        calls(line, seq!['s', 'w', 'i', 't', 'c', 'h']),
        forall|who: AgentType|
            text::words_of(line) != seq![
                seq!['s', 'w', 'i', 't', 'c', 'h'],
                #[trigger] agent::agent_name(who),
            ],
    ensures
        command_run(v, line) == with_effect_and_notice(
            v,
            Seq::empty(),
            seq![
                CellView::System {
                    text: "usage: /switch <main|data_analysis|plotting|theory|report>"@,
                    kind: SysKind::Error,
                },
            ],
        ),
{
    let name = seq!['s', 'w', 'i', 't', 'c', 'h'];
    names_are_known();
    reveal(named_command);
    reveal(switched);
    runs(v, line, name);
    let words = text::words_of(line);
    let rest = words.skip(1);
    let arg = command_rest(line);
    if let Some(who) = agent::named_agent(arg) {
        agent::law_names_are_single_words(arg, who);
        reveal_strlit(" ");
        assert(" "@ =~= seq![' ']);
        if rest.len() == 0 {
            assert(arg.len() == 0);
        } else if rest.len() == 1 {
            assert(words =~= seq![name, agent::agent_name(who)]);
        } else {
            let front = text::joined(rest.drop_last(), " "@);
            assert(arg == front + " "@ + rest.last());
            assert(arg[front.len() as int] == ' ');
            assert(arg.contains(' '));
        }
    }
    assert(v.desk.outbox + Seq::<EffectView>::empty() =~= v.desk.outbox);
    assert(command_run(v, line).desk.history =~= v.desk.history + seq![
        CellView::System {
            text: "usage: /switch <main|data_analysis|plotting|theory|report>"@,
            kind: SysKind::Error,
        },
    ]);
}

/// A line whose first word is no command changes nothing but for a notice that names it, and a
/// blank line changes nothing.
pub proof fn law_unknown_commands_do_nothing(v: TuiView, line: Seq<char>, name: Seq<char>)
    ensures
        text::words_of(line).len() == 0 ==> command_run(v, line) == v,
        calls(line, name) && name != seq!['h', 'e', 'l', 'p']
            && name != seq!['h']
            && name != seq!['?']
            && name != seq!['c', 'o', 'n', 'f', 'i', 'g']
            && name != seq!['m', 'o', 'd', 'e', 'l']
            && name != seq!['m', 'o', 'd', 'e', 'l', 's']
            && name != seq!['e', 'n', 'v']
            && name != seq!['a', 'g', 'e', 'n', 't']
            && name != seq!['a', 'g', 'e', 'n', 't', 's']
            && name != seq!['s', 'e', 's', 's', 'i', 'o', 'n', 's']
            && name != seq!['s', 'w', 'i', 't', 'c', 'h']
            && name != seq!['c', 'l', 'e', 'a', 'r']
            && name != seq!['c', 'o', 'm', 'p', 'a', 'c', 't']
            && name != seq!['c', 'o', 'p', 'y']
            && name != seq!['p', 'a', 'g', 'e', 'r']
            && name != seq!['n', 'e', 'w']
            && name != seq!['i', 'n', 'd', 'e', 'x']
            && name != seq!['i', 'd', 'e']
            && name != seq!['m', 'a', 'n', 'i', 'f', 'e', 's', 't']
            && name != seq!['q', 'u', 'i', 't']
            && name != seq!['e', 'x', 'i', 't'] && name.len() > 0
            ==> command_run(v, line) == with_effect_and_notice(
            v,
            Seq::empty(),
            seq![CellView::System { text: "unknown command: /"@ + name, kind: SysKind::Error }],
        ),
{
    law_commands_have_their_names(name);
    law_commands_have_their_names(Seq::empty());
    reveal(command_run);
    reveal(named_command);
    reveal(rejected);
    if calls(line, name) {
        runs(v, line, name);
        assert(v.desk.outbox + Seq::<EffectView>::empty() =~= v.desk.outbox);
        assert(rejected(v, name).desk.history =~= v.desk.history + seq![
            CellView::System { text: "unknown command: /"@ + name, kind: SysKind::Error },
        ]);
    }
}

/// `/ide` switches the editor context: `on` and `off` to that, nothing to the other state,
/// `status` not at all, and anything else not at all. Switching it on looks for an editor, and
/// nothing else does.
pub proof fn law_ide_switches_the_context(v: TuiView, line: Seq<char>, arg: Seq<char>)
    requires
        text::words_of(line) == seq![seq!['i', 'd', 'e'], arg] || (text::words_of(line) == seq![
            seq!['i', 'd', 'e'],
        ] && arg == Seq::<char>::empty()),
        forall|i: int| 0 <= i < arg.len() ==> !text::is_white(#[trigger] arg[i]),
        arg == text::ascii_lowered(arg),
    ensures
        ({
            let w = command_run(v, line);
            let (on, off) = (seq!['o', 'n'], seq!['o', 'f', 'f']);
            let status = seq!['s', 't', 'a', 't', 'u', 's'];
            let switches = arg == on || arg == off || arg.len() == 0;
            let enabled = if arg == on {
                true
            } else if arg == off {
                false
            } else if arg.len() == 0 {
                !v.screen.ide_enabled
            } else {
                v.screen.ide_enabled
            };
            &&& w.screen.ide_enabled == enabled
            &&& w.desk.outbox == (if switches && enabled {
                v.desk.outbox.push(EffectView::ProbeIde)
            } else {
                v.desk.outbox
            })
            &&& w.desk.history.len() == v.desk.history.len() + 1
            &&& w.desk.history.take(v.desk.history.len() as int) == v.desk.history
            &&& switches || arg == status ==> w.desk.history.last() == (CellView::System {
                text: if enabled {
                    "IDE context is on."@
                } else {
                    "IDE context is off."@
                },
                kind: SysKind::Info,
            })
            &&& !switches && arg != status ==> w.desk.history.last() == (CellView::System {
                text: "usage: /ide [on|off|status]"@,
                kind: SysKind::Error,
            })
            &&& w.focused == v.focused
            &&& w.editor == v.editor
            &&& w.prompts == v.prompts
        }),
{
    let name = seq!['i', 'd', 'e'];
    names_are_known();
    reveal(named_command);
    reveal(ide_command);
    assert(text::words_of(line)[0] == name);
    runs(v, line, name);
    reveal_strlit("on");
    reveal_strlit("off");
    reveal_strlit("status");
    assert("on"@ =~= seq!['o', 'n']);
    assert("off"@ =~= seq!['o', 'f', 'f']);
    assert("status"@ =~= seq!['s', 't', 'a', 't', 'u', 's']);
    let rest = text::words_of(line).skip(1);
    if text::words_of(line).len() == 2 {
        assert(rest =~= seq![arg]);
    } else {
        assert(rest =~= Seq::<Seq<char>>::empty());
    }
    assert(command_rest(line) =~= arg);
    assert(text::is_core(arg, arg, 0)) by {
        assert(arg.subrange(0, arg.len() as int) =~= arg);
    }
    text::core_is_unique(arg, arg, 0);
    let w = command_run(v, line);
    assert(w.desk.history.take(v.desk.history.len() as int) =~= v.desk.history);
}

/// Questions are withdrawn one after the other, behind what was asked for before.
proof fn cancelled_in_order(
    outbox: Seq<EffectView>,
    inputs: Seq<user_input::PendingInputView>,
    i: int,
)
    requires
        0 <= i <= inputs.len(),
    ensures
        ({
            let done = inputs_cancelled(outbox, inputs, i);
            &&& done.len() == outbox.len() + inputs.len() - i
            &&& done.take(outbox.len() as int) == outbox
            &&& forall|k: int|
                i <= k < inputs.len() ==> done[outbox.len() + k - i]
                    == (EffectView::CancelUserInput { call_id: (#[trigger] inputs[k]).call_id })
        }),
    decreases inputs.len() - i,
{
    if i < inputs.len() {
        let next = outbox.push(EffectView::CancelUserInput { call_id: inputs[i].call_id });
        cancelled_in_order(next, inputs, i + 1);
        let done = inputs_cancelled(outbox, inputs, i);
        assert(done.take(outbox.len() as int) =~= done.take(next.len() as int).take(
            outbox.len() as int,
        ));
        assert(next.take(outbox.len() as int) =~= outbox);
        assert(done[outbox.len() as int] == done.take(next.len() as int)[outbox.len() as int]);
    } else {
        assert(outbox.take(outbox.len() as int) =~= outbox);
    }
}

} // verus!
