//! The state of the terminal application.

use crate::agent::{AgentType, AGENT_COUNT};
use crate::bottom_pane::pending_input_preview::PendingInputPreview;
use crate::codex_shell::Platform;
use crate::desk;
use crate::desk::{Desk, DeskView};
use crate::editor;
use crate::editor::{Editor, EditorView};
use crate::keys::KeyEvent;
use crate::request_user_input::Question;
use crate::text;
use crate::transcript::{Cell, CellView, SysKind};
use crate::user_input;
use crate::user_input::{PendingInputView, PendingUserInput, QuestionView};
use vstd::prelude::*;

verus! {

/// A screen that takes the whole frame.
#[derive(Debug, Clone, Copy, PartialEq, Eq, Structural)]
pub enum Overlay {
    Api,
    Configuration,
    Environment,
}

/// A command that waits for the user's approval.
#[derive(Debug)]
pub struct PendingApproval {
    pub agent: AgentType,
    pub call_id: String,
    pub command: String,
    pub cwd: Option<String>,
    pub summary: Vec<String>,
    pub reason: Option<String>,
}

/// A command that waits for the user's approval.
#[verifier::ext_equal]
pub struct ApprovalView {
    pub agent: AgentType,
    pub call_id: Seq<char>,
    pub command: Seq<char>,
    pub cwd: Option<Seq<char>>,
    pub summary: Seq<Seq<char>>,
    pub reason: Option<Seq<char>>,
}

impl View for PendingApproval {
    type V = ApprovalView;

    open spec fn view(&self) -> ApprovalView {
        ApprovalView {
            agent: self.agent,
            call_id: self.call_id@,
            command: self.command@,
            cwd: text::opt_view(self.cwd),
            summary: text::views(self.summary@),
            reason: text::opt_view(self.reason),
        }
    }
}

/// What approvals hold.
pub open spec fn approval_views(v: Seq<PendingApproval>) -> Seq<ApprovalView> {
    v.map_values(|a: PendingApproval| a@)
}

/// What the user decides about a command.
#[derive(Debug, Clone, Copy, PartialEq, Eq, Structural)]
pub enum ReviewDecision {
    Approved,
    ApprovedForSession,
    ApprovedAndPersisted,
    Denied,
}

/// A message that was sent and has not led to a tool call yet.
#[derive(Debug)]
pub struct PendingSubmission {
    pub id: u64,
    pub agent: AgentType,
    pub text: String,
    pub history_index: usize,
    pub tool_started: bool,
    pub submitted: bool,
}

/// A message that was sent and has not led to a tool call yet.
#[verifier::ext_equal]
pub struct SubmissionView {
    pub id: u64,
    pub agent: AgentType,
    pub text: Seq<char>,
    pub history_index: int,
    pub tool_started: bool,
    pub submitted: bool,
}

impl View for PendingSubmission {
    type V = SubmissionView;

    open spec fn view(&self) -> SubmissionView {
        SubmissionView {
            id: self.id,
            agent: self.agent,
            text: self.text@,
            history_index: self.history_index as int,
            tool_started: self.tool_started,
            submitted: self.submitted,
        }
    }
}

/// What submissions hold.
pub open spec fn submission_views(v: Seq<PendingSubmission>) -> Seq<SubmissionView> {
    v.map_values(|s: PendingSubmission| s@)
}

/// Questions of a call that has not been answered yet.
#[derive(Debug)]
pub struct InputRecord {
    pub call_id: String,
    pub agent: AgentType,
    pub questions: Vec<Question>,
}

/// Questions of a call that has not been answered yet.
#[verifier::ext_equal]
pub struct RecordView {
    pub call_id: Seq<char>,
    pub agent: AgentType,
    pub questions: Seq<QuestionView>,
}

impl View for InputRecord {
    type V = RecordView;

    open spec fn view(&self) -> RecordView {
        RecordView {
            call_id: self.call_id@,
            agent: self.agent,
            questions: user_input::question_views(self.questions@),
        }
    }
}

/// What records hold.
pub open spec fn record_views(v: Seq<InputRecord>) -> Seq<RecordView> {
    v.map_values(|r: InputRecord| r@)
}

/// What is to be done outside: the work that the state asks for.
#[derive(Debug)]
pub enum Effect {
    /// Expand a message and hand it to an agent.
    Submit { id: u64, agent: AgentType, text: String, ide: bool },
    /// Do not hand a message over any more.
    CancelSubmission { id: u64 },
    /// Stop the turn of an agent.
    Interrupt { agent: AgentType },
    /// Stop the turn of an agent and forget its message.
    InterruptAndRetract { agent: AgentType },
    /// Forget what an agent has in mind.
    ClearContext { agent: AgentType },
    /// Shorten what an agent has in mind.
    Compact { agent: AgentType },
    /// Put text on the clipboard.
    Copy { text: String },
    /// Tell the waiting call what was decided.
    ResolveApproval { call_id: String, decision: ReviewDecision },
    /// Draw again after some milliseconds.
    ScheduleFrameIn { ms: u64 },
    /// Hand a key to the open screen.
    OverlayKey { key: KeyEvent },
    /// Hand a key to the pager.
    PagerKey { key: KeyEvent },
    /// Scroll the pager up or down by some rows.
    PagerScroll { up: bool, rows: u16 },
    /// Show the transcript in the pager.
    OpenPager,
    /// Hand a key to the question that is asked.
    UserInputKey { key: KeyEvent },
    /// Hand pasted text to the question that is asked.
    UserInputText { text: String },
    /// Tell a waiting call that its questions will not be answered.
    CancelUserInput { call_id: String },
    /// Look for files that complete a mention.
    SearchFiles { query: String },
    /// Read the list of files again.
    RefreshIndex,
    /// Say which sessions there are.
    ListSessions,
    /// Say which files were produced.
    ShowManifest,
    /// See whether an editor can be reached.
    ProbeIde,
    /// Ask the terminal for its colours again.
    RequeryColors,
}

/// What is to be done outside.
pub enum EffectView {
    Submit { id: u64, agent: AgentType, text: Seq<char>, ide: bool },
    CancelSubmission { id: u64 },
    Interrupt { agent: AgentType },
    InterruptAndRetract { agent: AgentType },
    ClearContext { agent: AgentType },
    Compact { agent: AgentType },
    Copy { text: Seq<char> },
    ResolveApproval { call_id: Seq<char>, decision: ReviewDecision },
    ScheduleFrameIn { ms: u64 },
    OverlayKey { key: KeyEvent },
    PagerKey { key: KeyEvent },
    PagerScroll { up: bool, rows: u16 },
    OpenPager,
    UserInputKey { key: KeyEvent },
    UserInputText { text: Seq<char> },
    CancelUserInput { call_id: Seq<char> },
    SearchFiles { query: Seq<char> },
    RefreshIndex,
    ListSessions,
    ShowManifest,
    ProbeIde,
    RequeryColors,
}

impl View for Effect {
    type V = EffectView;

    open spec fn view(&self) -> EffectView {
        match self {
            Effect::Submit { id, agent, text, ide } => EffectView::Submit {
                id: *id,
                agent: *agent,
                text: text@,
                ide: *ide,
            },
            Effect::CancelSubmission { id } => EffectView::CancelSubmission { id: *id },
            Effect::Interrupt { agent } => EffectView::Interrupt { agent: *agent },
            Effect::InterruptAndRetract { agent } => EffectView::InterruptAndRetract {
                agent: *agent,
            },
            Effect::ClearContext { agent } => EffectView::ClearContext { agent: *agent },
            Effect::Compact { agent } => EffectView::Compact { agent: *agent },
            Effect::Copy { text } => EffectView::Copy { text: text@ },
            Effect::ResolveApproval { call_id, decision } => EffectView::ResolveApproval {
                call_id: call_id@,
                decision: *decision,
            },
            Effect::ScheduleFrameIn { ms } => EffectView::ScheduleFrameIn { ms: *ms },
            Effect::OverlayKey { key } => EffectView::OverlayKey { key: *key },
            Effect::PagerKey { key } => EffectView::PagerKey { key: *key },
            Effect::PagerScroll { up, rows } => EffectView::PagerScroll { up: *up, rows: *rows },
            Effect::OpenPager => EffectView::OpenPager,
            Effect::UserInputKey { key } => EffectView::UserInputKey { key: *key },
            Effect::UserInputText { text } => EffectView::UserInputText { text: text@ },
            Effect::CancelUserInput { call_id } => EffectView::CancelUserInput {
                call_id: call_id@,
            },
            Effect::SearchFiles { query } => EffectView::SearchFiles { query: query@ },
            Effect::RefreshIndex => EffectView::RefreshIndex,
            Effect::ListSessions => EffectView::ListSessions,
            Effect::ShowManifest => EffectView::ShowManifest,
            Effect::ProbeIde => EffectView::ProbeIde,
            Effect::RequeryColors => EffectView::RequeryColors,
        }
    }
}

/// What effects hold.
pub open spec fn effect_views(v: Seq<Effect>) -> Seq<EffectView> {
    v.map_values(|e: Effect| e@)
}

/// What is open on the screen, and what is wanted next.
#[derive(Debug, Clone, Copy)]
pub struct Screen {
    /// How many cells were written to the scrollback of the terminal.
    pub inserted: usize,
    /// Whether the scrollback is to be cleared before the next drawing.
    pub needs_clear: bool,
    /// Whether the scrollback ends in a blank row.
    pub tail_blank: bool,
    pub overlay: Option<Overlay>,
    pub pager: bool,
    pub agent_picker: Option<usize>,
    pub raw_output: bool,
    pub want_config: bool,
    pub want_models: bool,
    pub want_environment: bool,
    pub ide_enabled: bool,
    pub ide_warned: bool,
    pub exit_requested: bool,
    pub scroll: usize,
}

/// What waits for the user.
#[derive(Debug)]
pub struct Prompts {
    pub approvals: Vec<PendingApproval>,
    pub inputs: Vec<PendingUserInput>,
    pub requests: Vec<InputRecord>,
}

/// What waits for the user.
#[verifier::ext_equal]
pub struct PromptsView {
    pub approvals: Seq<ApprovalView>,
    pub inputs: Seq<PendingInputView>,
    pub requests: Seq<RecordView>,
}

impl View for Prompts {
    type V = PromptsView;

    open spec fn view(&self) -> PromptsView {
        PromptsView {
            approvals: approval_views(self.approvals@),
            inputs: user_input::pending_views(self.inputs@),
            requests: record_views(self.requests@),
        }
    }
}

/// The terminal application: the draft, the agents and the transcript, what is
/// open on the screen and what waits for the user.
#[derive(Debug)]
pub struct Tui {
    pub editor: Editor,
    pub desk: Desk,
    pub screen: Screen,
    pub prompts: Prompts,
    pub focused: AgentType,
    pub pending_input_preview: PendingInputPreview,
}

/// The terminal application.
pub struct TuiView {
    pub editor: EditorView,
    pub desk: DeskView,
    pub screen: Screen,
    pub prompts: PromptsView,
    pub focused: AgentType,
    pub preview: Seq<Seq<char>>,
}

impl View for Tui {
    type V = TuiView;

    open spec fn view(&self) -> TuiView {
        TuiView {
            editor: self.editor@,
            desk: self.desk@,
            screen: self.screen,
            prompts: self.prompts@,
            focused: self.focused,
            preview: text::views(self.pending_input_preview.queued_messages@),
        }
    }
}

impl TuiView {
    /// Whether the draft and the agents are in order, and the marked agent is one
    /// of them.
    pub open spec fn wf(self) -> bool {
        &&& self.editor.wf()
        &&& self.desk.wf()
        &&& self.screen.agent_picker matches Some(i) ==> i < AGENT_COUNT
    }
}

// ---------------------------------------------------------------------------
// Small changes
// ---------------------------------------------------------------------------

/// The state with other agents and another transcript.
pub open spec fn with_desk(v: TuiView, d: DeskView) -> TuiView {
    TuiView { desk: d, ..v }
}

/// The state with another draft.
pub open spec fn with_editor(v: TuiView, e: EditorView) -> TuiView {
    TuiView { editor: e, ..v }
}

/// The state with another screen.
pub open spec fn with_screen(v: TuiView, s: Screen) -> TuiView {
    TuiView { screen: s, ..v }
}

/// The state with a notice of the program.
pub open spec fn said(v: TuiView, s: Seq<char>, kind: SysKind) -> TuiView {
    with_desk(v, desk::with_cell(v.desk, CellView::System { text: s, kind }))
}

/// The state with more work for others.
pub open spec fn asking(v: TuiView, e: EffectView) -> TuiView {
    with_desk(v, desk::asked(v.desk, e))
}

/// The state with the preview of the focused agent.
pub open spec fn refreshed(v: TuiView) -> TuiView {
    TuiView { preview: v.desk.queued[crate::agent::index_of(v.focused)], ..v }
}

/// The screen of a new session.
pub open spec fn blank_screen() -> Screen {
    Screen {
        inserted: 0,
        needs_clear: false,
        tail_blank: false,
        overlay: None,
        pager: false,
        agent_picker: None,
        raw_output: false,
        want_config: false,
        want_models: false,
        want_environment: false,
        ide_enabled: false,
        ide_warned: false,
        exit_requested: false,
        scroll: 0,
    }
}

/// Nothing that waits for the user.
pub open spec fn no_prompts() -> PromptsView {
    PromptsView { approvals: Seq::empty(), inputs: Seq::empty(), requests: Seq::empty() }
}

/// The state of a new session.
pub open spec fn started(platform: Platform) -> TuiView {
    TuiView {
        editor: editor::fresh(platform, crate::agent::agent_label(AgentType::Main)),
        desk: desk::empty_desk(),
        screen: blank_screen(),
        prompts: no_prompts(),
        focused: AgentType::Main,
        preview: Seq::empty(),
    }
}

impl Prompts {
    /// Nothing that waits for the user.
    pub fn new() -> (r: Self)
        ensures
            r@ == no_prompts(),
    {
        let r = Prompts { approvals: Vec::new(), inputs: Vec::new(), requests: Vec::new() };
        assert(r@ =~= no_prompts());
        r
    }
}

impl Prompts {
    /// Drops all questions.
    pub fn drop_inputs(&mut self)
        ensures
            final(self)@ == (PromptsView {
                inputs: Seq::empty(),
                requests: Seq::empty(),
                ..old(self)@
            }),
    {
        self.inputs = Vec::new();
        self.requests = Vec::new();
        assert(self@.inputs =~= Seq::<PendingInputView>::empty());
        assert(self@.requests =~= Seq::<RecordView>::empty());
    }
}

impl Tui {
    /// A new session.
    pub fn new(platform: Platform) -> (r: Self)
        ensures
            r@ == started(platform),
            r@.wf(),
    {
        Tui {
            editor: Editor::new(platform, AgentType::Main.label()),
            desk: Desk::new(),
            screen: Screen {
                inserted: 0,
                needs_clear: false,
                tail_blank: false,
                overlay: None,
                pager: false,
                agent_picker: None,
                raw_output: false,
                want_config: false,
                want_models: false,
                want_environment: false,
                ide_enabled: false,
                ide_warned: false,
                exit_requested: false,
                scroll: 0,
            },
            prompts: Prompts::new(),
            focused: AgentType::Main,
            pending_input_preview: PendingInputPreview::new(),
        }
    }

    /// Adds a notice of the program to the transcript.
    pub fn system(&mut self, s: &str, kind: SysKind)
        ensures
            final(self)@ == said(old(self)@, s@, kind),
            old(self)@.wf() ==> final(self)@.wf(),
    {
        self.desk.add_cell(Cell::System { text: s.to_string(), kind });
    }

    /// Asks for work to be done outside.
    pub fn ask(&mut self, effect: Effect)
        ensures
            final(self)@ == asking(old(self)@, effect@),
            old(self)@.wf() ==> final(self)@.wf(),
    {
        self.desk.ask(effect);
    }

    /// Hands over the work that is to be done outside.
    pub fn take_effects(&mut self) -> (r: Vec<Effect>)
        ensures
            effect_views(r@) == old(self)@.desk.outbox,
            final(self)@ == with_desk(
                old(self)@,
                DeskView { outbox: Seq::empty(), ..old(self)@.desk },
            ),
            old(self)@.wf() ==> final(self)@.wf(),
    {
        self.desk.take_effects()
    }

    /// Shows the messages that wait for the focused agent.
    pub fn refresh_pending_input_preview(&mut self)
        requires
            old(self)@.wf(),
        ensures
            final(self)@ == refreshed(old(self)@),
            final(self)@.wf(),
    {
        let queued = text::copy_strings(&self.desk.queued_inputs[self.focused.index()]);
        self.pending_input_preview.set_queued_messages(queued);
    }
}

} // verus!
