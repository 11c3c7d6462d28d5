//! What the agents report, and what it does to the application.

use crate::agent;
use crate::agent::{AgentStatus, AgentType};
use crate::app_input;
use crate::app_state;
use crate::app_state::{
    ApprovalView, Effect, EffectView, InputRecord, PendingApproval, PromptsView, RecordView, Tui,
    TuiView,
};
use crate::clock;
use crate::desk;
use crate::desk::{Desk, DeskView};
use crate::request_user_input::Question;
use crate::text;
use crate::transcript;
use crate::transcript::{
    Cell, CellView, CollabEvent, CollabView, MessageSource, PlanStep, SysKind, ToolArgs,
    ToolArgsView, ToolEntry, ToolValue, ToolValueView, ToolView,
};
use crate::user_input;
use crate::user_input::{Answer, AnswerView, PendingUserInput, QuestionView};
use vstd::prelude::*;

verus! {

/// What an agent reports.
#[derive(Debug)]
pub enum BusMessage {
    UserMessage { agent: AgentType, source: MessageSource, content: String },
    AgentResponse { agent: AgentType, content: String, streaming: bool },
    AgentReasoning { agent: AgentType, streaming: bool },
    ToolCall { agent: AgentType, tool_name: String, arguments: ToolArgs, call_id: String },
    ToolResult {
        agent: AgentType,
        tool_name: String,
        result: ToolValue,
        answers: Vec<Answer>,
        error: Option<String>,
        call_id: String,
    },
    StatusChange { agent: AgentType, status: AgentStatus, runtime_metrics: Option<String> },
    TaskUpdate,
    PlanUpdate { agent: AgentType, explanation: Option<String>, steps: Vec<PlanStep> },
    Report { agent: AgentType, report_type: String, summary: String, content: String },
    Waiting { target: AgentType },
    SystemNotice { agent: Option<AgentType>, content: String },
    Error { message: String },
    ApprovalRequest { payload: PendingApproval },
    UserInputRequest {
        agent: AgentType,
        call_id: String,
        questions: Vec<Question>,
        auto_resolution_ms: Option<u64>,
    },
}

// ---------------------------------------------------------------------------
// Statuses
// ---------------------------------------------------------------------------

/// The state with a status noted. When that sends a message of the focused agent's
/// queue, the preview follows.
#[verifier::opaque]
pub open spec fn status_set(v: TuiView, who: AgentType, status: AgentStatus, now: u64) -> TuiView {
    let k = agent::index_of(who);
    let d = desk::with_status(v.desk, who, status, now, v.screen.ide_enabled);
    let w = app_state::with_desk(v, d);
    if who == v.focused && !agent::is_active(status) && v.desk.since[k] is Some
        && v.desk.queued[k].len() > 0 {
        app_state::refreshed(w)
    } else {
        w
    }
}

impl Tui {
    /// Notes what an agent is doing.
    pub fn set_status_from_bus(&mut self, who: AgentType, status: AgentStatus, now: u64)
        requires
            old(self)@.wf(),
        ensures
            final(self)@ == status_set(old(self)@, who, status, now),
            final(self)@.wf(),
    {
        reveal(status_set);
        let k: usize = who.index();
        proof {
            assert(self@.desk.queued[k as int].len() == self.desk.queued_inputs@[k as int]@.len());
        }
        let refresh = who == self.focused && !status.active() && self.desk.status_since[k].is_some()
            && self.desk.queued_inputs[k].len() > 0;
        let ide = self.screen.ide_enabled;
        self.desk.set_status(who, status, now, ide);
        if refresh {
            self.refresh_pending_input_preview();
        }
    }
}

// ---------------------------------------------------------------------------
// Responses
// ---------------------------------------------------------------------------

/// The state with a piece of a response in the transcript.
#[verifier::opaque]
pub open spec fn response_added(v: TuiView, who: AgentType, s: Seq<char>, streaming: bool) -> TuiView {
    app_state::with_desk(
        v,
        desk::with_history(
            v.desk,
            if streaming {
                transcript::streamed(v.desk.history, who, s)
            } else {
                v.desk.history.push(CellView::AgentMarkdown { agent: who, text: s })
            },
        ),
    )
}

/// The seconds since an agent is at work.
pub open spec fn turn_seconds(since: Option<u64>, now: u64) -> Option<u64> {
    match since {
        Some(t) => Some((clock::elapsed(now, t) / clock::NANOS_PER_SECOND) as u64),
        None => None,
    }
}

/// The transcript with a response finished, and the end of the turn marked where it
/// is known since when it lasts.
#[verifier::opaque]
pub open spec fn turn_closed(d: DeskView, who: AgentType, now: u64) -> DeskView {
    let seconds = turn_seconds(d.since[agent::index_of(who)], now);
    let h = transcript::consolidated(d.history, who);
    desk::with_history(
        d,
        if seconds is Some {
            h.push(
                CellView::TurnSeparator {
                    agent: who,
                    elapsed_seconds: seconds,
                    runtime_metrics: None,
                },
            )
        } else {
            h
        },
    )
}

/// The state after a piece of a response, or its end.
#[verifier::opaque]
pub open spec fn after_response(
    v: TuiView,
    who: AgentType,
    s: Seq<char>,
    streaming: bool,
    now: u64,
) -> TuiView {
    let w = if s.len() > 0 {
        response_added(status_set(v, who, AgentStatus::Thinking, now), who, s, streaming)
    } else {
        v
    };
    if streaming {
        w
    } else {
        status_set(
            app_state::with_desk(w, turn_closed(w.desk, who, now)),
            who,
            AgentStatus::Idle,
            now,
        )
    }
}

/// Finishes a response.
fn close_turn(d: &mut Desk, who: AgentType, now: u64)
    requires
        old(d)@.wf(),
    ensures
        final(d)@ == turn_closed(old(d)@, who, now),
        final(d)@.wf(),
{
    reveal(turn_closed);
    let seconds: Option<u64> = match d.status_since[who.index()] {
        Some(t) => Some(clock::since(now, t) / clock::NANOS_PER_SECOND),
        None => None,
    };
    transcript::consolidate_agent_message(&mut d.history, who);
    if seconds.is_some() {
        d.add_cell(
            Cell::TurnSeparator { agent: who, elapsed_seconds: seconds, runtime_metrics: None },
        );
    }
}

impl Tui {
    /// Adds a piece of a response to the transcript.
    fn add_response(&mut self, who: AgentType, s: String, streaming: bool)
        requires
            old(self)@.wf(),
        ensures
            final(self)@ == response_added(old(self)@, who, s@, streaming),
            final(self)@.wf(),
    {
        reveal(response_added);
        if streaming {
            transcript::append_stream(&mut self.desk.history, who, s);
        } else {
            transcript::push_cell(
                &mut self.desk.history,
                Cell::AgentMarkdown { agent: who, text: s },
            );
        }
    }

    /// Takes a piece of a response.
    fn take_response(&mut self, who: AgentType, s: String, streaming: bool, now: u64)
        requires
            old(self)@.wf(),
        ensures
            final(self)@ == after_response(old(self)@, who, s@, streaming, now),
            final(self)@.wf(),
    {
        reveal(after_response);
        if !s.as_str().is_empty() {
            self.set_status_from_bus(who, AgentStatus::Thinking, now);
            self.add_response(who, s, streaming);
        }
        if !streaming {
            close_turn(&mut self.desk, who, now);
            self.set_status_from_bus(who, AgentStatus::Idle, now);
        }
    }
}

// ---------------------------------------------------------------------------
// Tools
// ---------------------------------------------------------------------------

/// Tools whose calls have rows of their own and are not shown as calls.
pub open spec fn is_plumbing(name: Seq<char>) -> bool {
    name == "send_to_agent"@ || name == "respond"@ || name == "update_plan"@
}

/// The name of the tool that asks the user.
pub open spec fn asks_user(name: Seq<char>) -> bool {
    name == "request_user_input"@
}

/// A call that begins now.
pub open spec fn call_entry(
    name: Seq<char>,
    args: ToolArgsView,
    call_id: Seq<char>,
    now: u64,
) -> ToolView {
    ToolView {
        name,
        args,
        result: None,
        error: None,
        started_at: Some(now),
        call_id: Some(call_id),
    }
}

/// The state with a call in the transcript.
#[verifier::opaque]
pub open spec fn call_added(v: TuiView, who: AgentType, entry: ToolView) -> TuiView {
    app_state::with_desk(
        v,
        desk::with_history(v.desk, transcript::with_call(v.desk.history, who, entry)),
    )
}

/// The state with the message noted as one that led to a tool call.
#[verifier::opaque]
pub open spec fn tool_started(v: TuiView, who: AgentType) -> TuiView {
    app_state::with_desk(v, desk::tool_noted(v.desk, who))
}

/// The state after a call.
#[verifier::opaque]
pub open spec fn after_call(
    v: TuiView,
    who: AgentType,
    name: Seq<char>,
    args: ToolArgsView,
    call_id: Seq<char>,
    now: u64,
) -> TuiView {
    let w = tool_started(v, who);
    if is_plumbing(name) || asks_user(name) {
        w
    } else {
        call_added(
            status_set(w, who, AgentStatus::RunningTool, now),
            who,
            call_entry(name, args, call_id, now),
        )
    }
}

/// Whether a tool has rows of its own.
fn plumbing(name: &str) -> (r: bool)
    ensures
        r == is_plumbing(name@),
{
    text::same(name, "send_to_agent") || text::same(name, "respond") || text::same(
        name,
        "update_plan",
    )
}

impl Tui {
    /// Notes that the message of an agent led to a tool call.
    fn note_tool(&mut self, who: AgentType)
        requires
            old(self)@.wf(),
        ensures
            final(self)@ == tool_started(old(self)@, who),
            final(self)@.wf(),
    {
        reveal(tool_started);
        self.desk.mark_pending_tool_started(who);
    }

    /// Adds a call to the transcript.
    fn add_call(&mut self, who: AgentType, entry: ToolEntry)
        requires
            old(self)@.wf(),
        ensures
            final(self)@ == call_added(old(self)@, who, entry@),
            final(self)@.wf(),
    {
        reveal(call_added);
        transcript::append_call(&mut self.desk.history, who, entry);
    }

    /// Takes a call.
    fn take_call(&mut self, who: AgentType, name: String, args: ToolArgs, call_id: String, now: u64)
        requires
            old(self)@.wf(),
        ensures
            final(self)@ == after_call(old(self)@, who, name@, args@, call_id@, now),
            final(self)@.wf(),
    {
        reveal(after_call);
        self.note_tool(who);
        if plumbing(&name) || text::same(&name, "request_user_input") {
            return ;
        }
        self.set_status_from_bus(who, AgentStatus::RunningTool, now);
        let entry = ToolEntry {
            name,
            args,
            result: None,
            error: None,
            started_at: Some(now),
            call_id: Some(call_id),
        };
        self.add_call(who, entry);
    }
}

/// The first record of a call from `i` on.
pub open spec fn find_record(reqs: Seq<RecordView>, i: int, call_id: Seq<char>) -> Option<int>
    decreases reqs.len() - i,
{
    if i < 0 || i >= reqs.len() {
        None
    } else if reqs[i].call_id == call_id {
        Some(i)
    } else {
        find_record(reqs, i + 1, call_id)
    }
}

/// The records with one more, in place of one of the same call.
pub open spec fn with_record(reqs: Seq<RecordView>, r: RecordView) -> Seq<RecordView> {
    match find_record(reqs, 0, r.call_id) {
        Some(i) => reqs.update(i, r),
        None => reqs.push(r),
    }
}

/// The records without that of a call.
pub open spec fn without_record(reqs: Seq<RecordView>, call_id: Seq<char>) -> Seq<RecordView> {
    match find_record(reqs, 0, call_id) {
        Some(i) => reqs.remove(i),
        None => reqs,
    }
}

/// The place of the record of a call.
fn locate_record(reqs: &Vec<InputRecord>, call_id: &str) -> (r: Option<usize>)
    ensures
        (match r {
            Some(i) => Some(i as int),
            None => None::<int>,
        }) == find_record(app_state::record_views(reqs@), 0, call_id@),
        r matches Some(i) ==> i < reqs@.len(),
{
    let ghost all = app_state::record_views(reqs@);
    let mut i: usize = 0;
    while i < reqs.len()
        invariant
            i <= reqs@.len(),
            all == app_state::record_views(reqs@),
            find_record(all, i as int, call_id@) == find_record(all, 0, call_id@),
        decreases reqs@.len() - i,
    {
        assert(all[i as int] == reqs@[i as int]@);
        if text::same(&reqs[i].call_id, call_id) {
            return Some(i);
        }
        i += 1;
    }
    None
}

/// Whether there is a record of a call.
pub fn has_record(reqs: &Vec<InputRecord>, call_id: &str) -> (r: bool)
    ensures
        r == (find_record(app_state::record_views(reqs@), 0, call_id@) is Some),
{
    locate_record(reqs, call_id).is_some()
}

/// Adds a record.
pub fn insert_record(reqs: &mut Vec<InputRecord>, record: InputRecord)
    ensures
        app_state::record_views(final(reqs)@) == with_record(
            app_state::record_views(old(reqs)@),
            record@,
        ),
{
    let ghost all = app_state::record_views(reqs@);
    match locate_record(reqs, &record.call_id) {
        Some(i) => {
            reqs.set(i, record);
            assert(app_state::record_views(reqs@) =~= all.update(i as int, record@));
        },
        None => {
            reqs.push(record);
            assert(app_state::record_views(reqs@) =~= all.push(record@));
        },
    }
}

/// Takes out the record of a call.
pub fn take_record(reqs: &mut Vec<InputRecord>, call_id: &str) -> (r: Option<InputRecord>)
    ensures
        app_state::record_views(final(reqs)@) == without_record(
            app_state::record_views(old(reqs)@),
            call_id@,
        ),
        match find_record(app_state::record_views(old(reqs)@), 0, call_id@) {
            Some(i) => r is Some && r->0@ == app_state::record_views(old(reqs)@)[i],
            None => r is None,
        },
{
    let ghost all = app_state::record_views(reqs@);
    match locate_record(reqs, call_id) {
        Some(i) => {
            assert(all[i as int] == reqs@[i as int]@);
            let record = reqs.remove(i);
            assert(app_state::record_views(reqs@) =~= all.remove(i as int));
            Some(record)
        },
        None => None,
    }
}

/// The state with the answers to the questions of a call in the transcript.
#[verifier::opaque]
pub open spec fn questions_answered(
    v: TuiView,
    call_id: Seq<char>,
    answers: Seq<AnswerView>,
    interrupted: bool,
) -> TuiView {
    match find_record(v.prompts.requests, 0, call_id) {
        None => v,
        Some(i) => {
            let r = v.prompts.requests[i];
            TuiView {
                desk: desk::with_cell(
                    v.desk,
                    CellView::UserInputResult {
                        agent: r.agent,
                        questions: r.questions,
                        answers,
                        interrupted,
                    },
                ),
                prompts: PromptsView {
                    requests: without_record(v.prompts.requests, call_id),
                    ..v.prompts
                },
                ..v
            }
        },
    }
}

/// The state with a result in the transcript.
#[verifier::opaque]
pub open spec fn result_added(
    v: TuiView,
    who: AgentType,
    name: Seq<char>,
    call_id: Seq<char>,
    result: ToolValueView,
    error: Option<Seq<char>>,
) -> TuiView {
    app_state::with_desk(
        v,
        desk::with_history(
            v.desk,
            transcript::with_result(v.desk.history, who, name, call_id, result, error),
        ),
    )
}

/// The state with something between agents in the transcript.
#[verifier::opaque]
pub open spec fn collab_added(v: TuiView, who: AgentType, event: CollabView) -> TuiView {
    app_state::with_desk(v, desk::with_cell(v.desk, CellView::Collab { agent: who, event }))
}

/// The state after a result.
#[verifier::opaque]
pub open spec fn after_result(
    v: TuiView,
    who: AgentType,
    name: Seq<char>,
    result: ToolValueView,
    answers: Seq<AnswerView>,
    error: Option<Seq<char>>,
    call_id: Seq<char>,
    now: u64,
) -> TuiView {
    if is_plumbing(name) {
        match error {
            Some(e) => collab_added(v, who, CollabView::Failed { error: e }),
            None => v,
        }
    } else if asks_user(name) {
        questions_answered(
            status_set(v, who, AgentStatus::Thinking, now),
            call_id,
            answers,
            error is Some,
        )
    } else {
        result_added(
            status_set(v, who, AgentStatus::Thinking, now),
            who,
            name,
            call_id,
            result,
            error,
        )
    }
}

impl Tui {
    /// Adds something between agents to the transcript.
    fn add_collab(&mut self, who: AgentType, event: CollabEvent)
        requires
            old(self)@.wf(),
        ensures
            final(self)@ == collab_added(old(self)@, who, event@),
            final(self)@.wf(),
    {
        reveal(collab_added);
        self.desk.add_cell(Cell::Collab { agent: who, event });
    }

    /// Adds the answers to the questions of a call to the transcript.
    pub fn add_answers(&mut self, call_id: &str, answers: Vec<Answer>, interrupted: bool)
        requires
            old(self)@.wf(),
        ensures
            final(self)@ == questions_answered(
                old(self)@,
                call_id@,
                user_input::answer_views(answers@),
                interrupted,
            ),
            final(self)@.wf(),
    {
        reveal(questions_answered);
        if let Some(r) = take_record(&mut self.prompts.requests, call_id) {
            self.desk.add_cell(
                Cell::UserInputResult {
                    agent: r.agent,
                    questions: r.questions,
                    answers,
                    interrupted,
                },
            );
        }
    }

    /// Adds a result to the transcript.
    fn add_result(
        &mut self,
        who: AgentType,
        name: String,
        call_id: String,
        result: ToolValue,
        error: Option<String>,
    )
        requires
            old(self)@.wf(),
        ensures
            final(self)@ == result_added(
                old(self)@,
                who,
                name@,
                call_id@,
                result@,
                text::opt_view(error),
            ),
            final(self)@.wf(),
    {
        reveal(result_added);
        transcript::attach_result(&mut self.desk.history, who, name, call_id, result, error);
    }

    /// Takes a result.
    fn take_result(
        &mut self,
        who: AgentType,
        name: String,
        result: ToolValue,
        answers: Vec<Answer>,
        error: Option<String>,
        call_id: String,
        now: u64,
    )
        requires
            old(self)@.wf(),
        ensures
            final(self)@ == after_result(
                old(self)@,
                who,
                name@,
                result@,
                user_input::answer_views(answers@),
                text::opt_view(error),
                call_id@,
                now,
            ),
            final(self)@.wf(),
    {
        reveal(after_result);
        if plumbing(&name) {
            if let Some(e) = error {
                self.add_collab(who, CollabEvent::Failed { error: e });
            }
            return ;
        }
        self.set_status_from_bus(who, AgentStatus::Thinking, now);
        if text::same(&name, "request_user_input") {
            self.add_answers(&call_id, answers, error.is_some());
        } else {
            self.add_result(who, name, call_id, result, error);
        }
    }
}

// ---------------------------------------------------------------------------
// Other reports
// ---------------------------------------------------------------------------

/// The state with what comes from an agent shown again.
#[verifier::opaque]
pub open spec fn unsuppressed(v: TuiView, who: AgentType) -> TuiView {
    app_state::with_desk(
        v,
        DeskView {
            suppressed: v.desk.suppressed.update(agent::index_of(who), false),
            ..v.desk
        },
    )
}

/// The state with metrics at the turn of an agent that ended last.
#[verifier::opaque]
pub open spec fn metrics_added(v: TuiView, who: AgentType, metrics: Seq<char>) -> TuiView {
    app_state::with_desk(
        v,
        desk::with_history(v.desk, transcript::with_metrics(v.desk.history, who, metrics)),
    )
}

/// The state after a change of status.
#[verifier::opaque]
pub open spec fn after_status(
    v: TuiView,
    who: AgentType,
    status: AgentStatus,
    metrics: Option<Seq<char>>,
    now: u64,
) -> TuiView {
    let w = status_set(
        if agent::is_active(status) {
            v
        } else {
            unsuppressed(v, who)
        },
        who,
        status,
        now,
    );
    match metrics {
        Some(m) => if status == AgentStatus::Idle {
            metrics_added(w, who, m)
        } else {
            w
        },
        None => w,
    }
}

/// The state with one more command to be approved.
#[verifier::opaque]
pub open spec fn approval_added(v: TuiView, a: ApprovalView) -> TuiView {
    TuiView { prompts: PromptsView { approvals: v.prompts.approvals.push(a), ..v.prompts }, ..v }
}

/// The state with questions asked. Where they answer themselves after a while, the
/// screen is drawn again then.
#[verifier::opaque]
pub open spec fn questions_asked(
    v: TuiView,
    who: AgentType,
    call_id: Seq<char>,
    questions: Seq<QuestionView>,
    ms: Option<u64>,
    now: u64,
) -> TuiView {
    let w = TuiView {
        prompts: PromptsView {
            requests: with_record(
                v.prompts.requests,
                RecordView { call_id, agent: who, questions },
            ),
            inputs: v.prompts.inputs.push(
                user_input::asked(who, call_id, questions, ms, now),
            ),
            ..v.prompts
        },
        ..v
    };
    match ms {
        Some(t) => app_state::asking(w, EffectView::ScheduleFrameIn { ms: t }),
        None => w,
    }
}

/// What a notice is put under: the agent, or the system.
pub open spec fn notice_label(who: Option<AgentType>) -> Seq<char> {
    match who {
        Some(a) => agent::agent_label(a),
        None => "system"@,
    }
}

/// The state with a notice in the transcript.
#[verifier::opaque]
pub open spec fn noticed(v: TuiView, s: Seq<char>, kind: SysKind) -> TuiView {
    app_state::said(v, s, kind)
}

/// The state with a plan in the transcript.
#[verifier::opaque]
pub open spec fn plan_added(v: TuiView, cell: CellView) -> TuiView {
    app_state::with_desk(v, desk::with_cell(v.desk, cell))
}

/// What a report of an agent is to the others.
pub open spec fn report_event(report_type: Seq<char>, summary: Seq<char>, content: Seq<char>) -> CollabView {
    if report_type == "reply"@ {
        CollabView::Replied { summary, content }
    } else {
        CollabView::Blocked { report_type, summary, content }
    }
}

/// The state after a message on the bus.
pub open spec fn after_message(v: TuiView, msg: BusMessage, now: u64) -> TuiView {
    match msg {
        BusMessage::UserMessage { agent, source, content } => match source {
            MessageSource::Agent(_) => collab_added(
                v,
                agent,
                CollabView::Message { source, content: content@ },
            ),
            _ => v,
        },
        BusMessage::AgentResponse { agent, content, streaming } => after_response(
            v,
            agent,
            content@,
            streaming,
            now,
        ),
        BusMessage::AgentReasoning { agent, streaming } => if streaming {
            status_set(v, agent, AgentStatus::Thinking, now)
        } else {
            v
        },
        BusMessage::ToolCall { agent, tool_name, arguments, call_id } => after_call(
            v,
            agent,
            tool_name@,
            arguments@,
            call_id@,
            now,
        ),
        BusMessage::ToolResult { agent, tool_name, result, answers, error, call_id } =>
        after_result(
            v,
            agent,
            tool_name@,
            result@,
            user_input::answer_views(answers@),
            text::opt_view(error),
            call_id@,
            now,
        ),
        BusMessage::StatusChange { agent, status, runtime_metrics } => after_status(
            v,
            agent,
            status,
            text::opt_view(runtime_metrics),
            now,
        ),
        BusMessage::TaskUpdate => v,
        BusMessage::PlanUpdate { agent, explanation, steps } => plan_added(
            v,
            CellView::PlanUpdate {
                agent,
                explanation: text::opt_view(explanation),
                steps: transcript::step_views(steps@),
            },
        ),
        BusMessage::Report { agent, report_type, summary, content } => collab_added(
            v,
            agent,
            report_event(report_type@, summary@, content@),
        ),
        BusMessage::Waiting { target } => collab_added(v, target, CollabView::Waiting),
        BusMessage::SystemNotice { agent, content } => noticed(
            v,
            notice_label(agent) + ": "@ + content@,
            SysKind::Info,
        ),
        BusMessage::Error { message } => noticed(v, "error: "@ + message@, SysKind::Error),
        BusMessage::ApprovalRequest { payload } => approval_added(v, payload@),
        BusMessage::UserInputRequest { agent, call_id, questions, auto_resolution_ms } =>
        questions_asked(
            v,
            agent,
            call_id@,
            user_input::question_views(questions@),
            auto_resolution_ms,
            now,
        ),
    }
}

/// Whether a message is dropped: it is about an agent whose message was taken back
/// and whose turn has not ended, and it is no change of status.
pub open spec fn is_dropped(v: TuiView, about: Option<AgentType>, msg: BusMessage) -> bool {
    &&& about is Some
    &&& v.desk.suppressed[agent::index_of(about->0)]
    &&& !(msg is StatusChange)
}

impl Tui {
    /// Shows again what comes from an agent.
    fn unsuppress(&mut self, who: AgentType)
        requires
            old(self)@.wf(),
        ensures
            final(self)@ == unsuppressed(old(self)@, who),
            final(self)@.wf(),
    {
        reveal(unsuppressed);
        self.desk.suppress_until_idle.set(who.index(), false);
    }

    /// Adds metrics to the turn of an agent that ended last.
    fn add_metrics(&mut self, who: AgentType, metrics: String)
        requires
            old(self)@.wf(),
        ensures
            final(self)@ == metrics_added(old(self)@, who, metrics@),
            final(self)@.wf(),
    {
        reveal(metrics_added);
        transcript::attach_metrics(&mut self.desk.history, who, metrics);
    }

    /// Takes a change of status.
    fn take_status(
        &mut self,
        who: AgentType,
        status: AgentStatus,
        metrics: Option<String>,
        now: u64,
    )
        requires
            old(self)@.wf(),
        ensures
            final(self)@ == after_status(
                old(self)@,
                who,
                status,
                text::opt_view(metrics),
                now,
            ),
            final(self)@.wf(),
    {
        reveal(after_status);
        if !status.active() {
            self.unsuppress(who);
        }
        self.set_status_from_bus(who, status, now);
        if let Some(m) = metrics {
            if status == AgentStatus::Idle {
                self.add_metrics(who, m);
            }
        }
    }

    /// Adds a command to be approved.
    pub fn push_pending_approval(&mut self, payload: PendingApproval)
        requires
            old(self)@.wf(),
        ensures
            final(self)@ == approval_added(old(self)@, payload@),
            final(self)@.wf(),
    {
        reveal(approval_added);
        let ghost before = self.prompts.approvals@;
        self.prompts.approvals.push(payload);
        assert(app_state::approval_views(self.prompts.approvals@) =~= app_state::approval_views(
            before,
        ).push(payload@));
    }

    /// Adds questions.
    fn add_questions(
        &mut self,
        who: AgentType,
        call_id: String,
        questions: Vec<Question>,
        ms: Option<u64>,
        now: u64,
    )
        requires
            old(self)@.wf(),
        ensures
            final(self)@ == questions_asked(
                old(self)@,
                who,
                call_id@,
                user_input::question_views(questions@),
                ms,
                now,
            ),
            final(self)@.wf(),
    {
        reveal(questions_asked);
        let record = InputRecord {
            call_id: call_id.as_str().to_string(),
            agent: who,
            questions: user_input::copy_questions(&questions),
        };
        insert_record(&mut self.prompts.requests, record);
        let pending = PendingUserInput::new(who, call_id, questions, ms, now);
        push_input(&mut self.prompts.inputs, pending);
        if let Some(t) = ms {
            self.ask(Effect::ScheduleFrameIn { ms: t });
        }
    }

    /// Adds a notice.
    fn notice(&mut self, s: &str, kind: SysKind)
        requires
            old(self)@.wf(),
        ensures
            final(self)@ == noticed(old(self)@, s@, kind),
            final(self)@.wf(),
    {
        reveal(noticed);
        self.system(s, kind);
    }

    /// Adds a plan.
    fn add_plan(&mut self, cell: Cell)
        requires
            old(self)@.wf(),
        ensures
            final(self)@ == plan_added(old(self)@, cell@),
            final(self)@.wf(),
    {
        reveal(plan_added);
        self.desk.add_cell(cell);
    }

    /// Takes a message from the bus. `about` is the agent that it is about.
    pub fn apply_bus(&mut self, about: Option<AgentType>, msg: BusMessage, now: u64)
        requires
            old(self)@.wf(),
        ensures
            final(self)@ == (if is_dropped(old(self)@, about, msg) {
                old(self)@
            } else {
                after_message(old(self)@, msg, now)
            }),
            final(self)@.wf(),
    {
        let status_change = match &msg {
            BusMessage::StatusChange { .. } => true,
            _ => false,
        };
        if let Some(a) = about {
            if self.desk.suppress_until_idle[a.index()] && !status_change {
                return ;
            }
        }
        self.apply_message(msg, now);
    }

    /// Takes a message that is not dropped.
    #[verifier::spinoff_prover]
    #[verifier::rlimit(40)]
    fn apply_message(&mut self, msg: BusMessage, now: u64)
        requires
            old(self)@.wf(),
        ensures
            final(self)@ == after_message(old(self)@, msg, now),
            final(self)@.wf(),
    {
        match msg {
            BusMessage::UserMessage { agent, source, content } => match source {
                MessageSource::Agent(_) => self.add_collab(
                    agent,
                    CollabEvent::Message { source, content },
                ),
                _ => {},
            },
            BusMessage::AgentResponse { agent, content, streaming } => self.take_response(
                agent,
                content,
                streaming,
                now,
            ),
            BusMessage::AgentReasoning { agent, streaming } => {
                if streaming {
                    self.set_status_from_bus(agent, AgentStatus::Thinking, now);
                }
            },
            BusMessage::ToolCall { agent, tool_name, arguments, call_id } => self.take_call(
                agent,
                tool_name,
                arguments,
                call_id,
                now,
            ),
            BusMessage::ToolResult { agent, tool_name, result, answers, error, call_id } => {
                self.take_result(agent, tool_name, result, answers, error, call_id, now)
            },
            BusMessage::StatusChange { agent, status, runtime_metrics } => self.take_status(
                agent,
                status,
                runtime_metrics,
                now,
            ),
            BusMessage::TaskUpdate => {},
            BusMessage::PlanUpdate { agent, explanation, steps } => self.add_plan(
                Cell::PlanUpdate { agent, explanation, steps },
            ),
            BusMessage::Report { agent, report_type, summary, content } => {
                self.add_collab(agent, make_report(report_type, summary, content))
            },
            BusMessage::Waiting { target } => self.add_collab(target, CollabEvent::Waiting),
            BusMessage::SystemNotice { agent, content } => {
                self.notice(&notice_line(agent, &content), SysKind::Info)
            },
            BusMessage::Error { message } => {
                self.notice(&error_line(&message), SysKind::Error)
            },
            BusMessage::ApprovalRequest { payload } => self.push_pending_approval(payload),
            BusMessage::UserInputRequest { agent, call_id, questions, auto_resolution_ms } => {
                self.add_questions(agent, call_id, questions, auto_resolution_ms, now)
            },
        }
    }
}

/// What a report of an agent is to the others.
fn make_report(report_type: String, summary: String, content: String) -> (r: CollabEvent)
    ensures
        r@ == report_event(report_type@, summary@, content@),
{
    if text::same(&report_type, "reply") {
        CollabEvent::Replied { summary, content }
    } else {
        CollabEvent::Blocked { report_type, summary, content }
    }
}

/// The line of a notice.
fn notice_line(who: Option<AgentType>, content: &str) -> (r: String)
    ensures
        r@ == notice_label(who) + ": "@ + content@,
{
    let mut line = match who {
        Some(a) => a.label().to_string(),
        None => "system".to_string(),
    };
    line.push_str(": ");
    line.push_str(content);
    line
}

/// The line of an error.
fn error_line(message: &str) -> (r: String)
    ensures
        r@ == "error: "@ + message@,
{
    let mut line = "error: ".to_string();
    line.push_str(message);
    line
}

/// Adds pending questions.
fn push_input(inputs: &mut Vec<PendingUserInput>, p: PendingUserInput)
    ensures
        user_input::pending_views(final(inputs)@) == user_input::pending_views(
            old(inputs)@,
        ).push(p@),
{
    let ghost before = inputs@;
    inputs.push(p);
    assert(user_input::pending_views(inputs@) =~= user_input::pending_views(before).push(p@));
}

// ---------------------------------------------------------------------------
// Approvals that were missed
// ---------------------------------------------------------------------------

/// Whether an approval of a call is among others.
pub open spec fn has_call(approvals: Seq<ApprovalView>, call_id: Seq<char>) -> bool {
    exists|i: int| 0 <= i < approvals.len() && (#[trigger] approvals[i]).call_id == call_id
}

/// The approvals from `i` on that are still wanted.
pub open spec fn still_wanted(mine: Seq<ApprovalView>, i: int, wanted: Seq<ApprovalView>) -> Seq<
    ApprovalView,
>
    decreases mine.len() - i,
{
    if i < 0 || i >= mine.len() {
        Seq::empty()
    } else if has_call(wanted, mine[i].call_id) {
        seq![mine[i]] + still_wanted(mine, i + 1, wanted)
    } else {
        still_wanted(mine, i + 1, wanted)
    }
}

/// The approvals with those from `i` on added that are not there yet.
pub open spec fn caught_up(mine: Seq<ApprovalView>, wanted: Seq<ApprovalView>, i: int) -> Seq<
    ApprovalView,
>
    decreases wanted.len() - i,
{
    if i < 0 || i >= wanted.len() {
        mine
    } else if has_call(mine, wanted[i].call_id) {
        caught_up(mine, wanted, i + 1)
    } else {
        caught_up(mine.push(wanted[i]), wanted, i + 1)
    }
}

/// The approvals brought in line with those that are wanted: those that were
/// settled elsewhere are dropped, the others keep their order, and new ones come
/// behind them.
pub open spec fn reconciled(mine: Seq<ApprovalView>, wanted: Seq<ApprovalView>) -> Seq<ApprovalView> {
    caught_up(still_wanted(mine, 0, wanted), wanted, 0)
}

/// Whether an approval of a call is among others.
fn holds_call(approvals: &Vec<PendingApproval>, call_id: &str) -> (r: bool)
    ensures
        r == has_call(app_state::approval_views(approvals@), call_id@),
{
    let ghost all = app_state::approval_views(approvals@);
    let mut i: usize = 0;
    while i < approvals.len()
        invariant
            i <= approvals@.len(),
            all == app_state::approval_views(approvals@),
            forall|k: int| 0 <= k < i ==> (#[trigger] all[k]).call_id != call_id@,
        decreases approvals@.len() - i,
    {
        assert(all[i as int] == approvals@[i as int]@);
        if text::same(&approvals[i].call_id, call_id) {
            assert(all[i as int].call_id == call_id@);
            return true;
        }
        i += 1;
    }
    false
}

/// The same approval again.
fn copy_approval(a: &PendingApproval) -> (r: PendingApproval)
    ensures
        r@ == a@,
{
    PendingApproval {
        agent: a.agent,
        call_id: a.call_id.as_str().to_string(),
        command: a.command.as_str().to_string(),
        cwd: text::copy_opt(&a.cwd),
        summary: text::copy_strings(&a.summary),
        reason: text::copy_opt(&a.reason),
    }
}

/// Adds an approval.
fn push_approval(out: &mut Vec<PendingApproval>, a: PendingApproval)
    ensures
        app_state::approval_views(final(out)@) == app_state::approval_views(old(out)@).push(a@),
{
    let ghost before = out@;
    out.push(a);
    assert(app_state::approval_views(out@) =~= app_state::approval_views(before).push(a@));
}

/// Brings approvals in line with those that are wanted.
pub fn reconcile(mine: &Vec<PendingApproval>, wanted: &Vec<PendingApproval>) -> (r: Vec<
    PendingApproval,
>)
    ensures
        app_state::approval_views(r@) == reconciled(
            app_state::approval_views(mine@),
            app_state::approval_views(wanted@),
        ),
{
    let ghost m = app_state::approval_views(mine@);
    let ghost w = app_state::approval_views(wanted@);
    let ghost kept = still_wanted(m, 0, w);
    let mut out: Vec<PendingApproval> = Vec::new();
    let mut i: usize = 0;
    assert(app_state::approval_views(out@) + kept =~= kept);
    while i < mine.len()
        invariant
            i <= mine@.len(),
            m == app_state::approval_views(mine@),
            w == app_state::approval_views(wanted@),
            kept == app_state::approval_views(out@) + still_wanted(m, i as int, w),
        decreases mine@.len() - i,
    {
        assert(m[i as int] == mine@[i as int]@);
        if holds_call(wanted, &mine[i].call_id) {
            let ghost before = app_state::approval_views(out@);
            push_approval(&mut out, copy_approval(&mine[i]));
            assert(before + (seq![m[i as int]] + still_wanted(m, i + 1, w))
                =~= app_state::approval_views(out@) + still_wanted(m, i + 1, w));
        }
        i += 1;
    }
    assert(app_state::approval_views(out@) + still_wanted(m, i as int, w)
        =~= app_state::approval_views(out@));
    let mut j: usize = 0;
    while j < wanted.len()
        invariant
            j <= wanted@.len(),
            w == app_state::approval_views(wanted@),
            caught_up(app_state::approval_views(out@), w, j as int) == caught_up(kept, w, 0),
        decreases wanted@.len() - j,
    {
        assert(w[j as int] == wanted@[j as int]@);
        if !holds_call(&out, &wanted[j].call_id) {
            push_approval(&mut out, copy_approval(&wanted[j]));
        }
        j += 1;
    }
    out
}

impl Tui {
    /// Brings the approvals in line with those that the bus knows of.
    pub fn reconcile_approvals(&mut self, snapshot: &Vec<PendingApproval>)
        requires
            old(self)@.wf(),
        ensures
            final(self)@ == (TuiView {
                prompts: PromptsView {
                    approvals: reconciled(
                        old(self)@.prompts.approvals,
                        app_state::approval_views(snapshot@),
                    ),
                    ..old(self)@.prompts
                },
                ..old(self)@
            }),
            final(self)@.wf(),
    {
        let approvals = reconcile(&self.prompts.approvals, snapshot);
        self.prompts.approvals = approvals;
    }
}

// ---------------------------------------------------------------------------
// Laws
// ---------------------------------------------------------------------------

/// No approval that is wanted gets lost, however many messages were missed.
pub proof fn law_no_approval_is_lost(mine: Seq<ApprovalView>, wanted: Seq<ApprovalView>, k: int)
    requires
        0 <= k < wanted.len(),
    ensures
        has_call(reconciled(mine, wanted), wanted[k].call_id),
{
    caught_up_has(still_wanted(mine, 0, wanted), wanted, 0, k);
}

/// What is added stays, and all that is added is there.
proof fn caught_up_has(mine: Seq<ApprovalView>, wanted: Seq<ApprovalView>, i: int, k: int)
    requires
        0 <= i <= wanted.len(),
        0 <= k < wanted.len(),
        k < i ==> has_call(mine, wanted[k].call_id),
    ensures
        has_call(caught_up(mine, wanted, i), wanted[k].call_id),
    decreases wanted.len() - i,
{
    if i < wanted.len() {
        if has_call(mine, wanted[i].call_id) {
            caught_up_has(mine, wanted, i + 1, k);
        } else {
            let more = mine.push(wanted[i]);
            assert(more[mine.len() as int].call_id == wanted[i].call_id);
            if k < i {
                let j = choose|j: int|
                    0 <= j < mine.len() && (#[trigger] mine[j]).call_id == wanted[k].call_id;
                assert(more[j] == mine[j]);
                assert(has_call(more, wanted[k].call_id));
            }
            assert(has_call(more, wanted[i].call_id));
            caught_up_has(more, wanted, i + 1, k);
        }
    }
}

/// An approval that was settled elsewhere is not asked for any more.
pub proof fn law_settled_approvals_are_dropped(
    mine: Seq<ApprovalView>,
    wanted: Seq<ApprovalView>,
    call_id: Seq<char>,
)
    requires
        !has_call(wanted, call_id),
    ensures
        !has_call(reconciled(mine, wanted), call_id),
{
    still_wanted_lacks(mine, 0, wanted, call_id);
    caught_up_lacks(still_wanted(mine, 0, wanted), wanted, 0, call_id);
}

/// What is kept is wanted.
proof fn still_wanted_lacks(
    mine: Seq<ApprovalView>,
    i: int,
    wanted: Seq<ApprovalView>,
    call_id: Seq<char>,
)
    requires
        !has_call(wanted, call_id),
    ensures
        !has_call(still_wanted(mine, i, wanted), call_id),
    decreases mine.len() - i,
{
    if 0 <= i < mine.len() {
        still_wanted_lacks(mine, i + 1, wanted, call_id);
        if has_call(wanted, mine[i].call_id) {
            let tail = still_wanted(mine, i + 1, wanted);
            let all = still_wanted(mine, i, wanted);
            assert forall|k: int| 0 <= k < all.len() implies (#[trigger] all[k]).call_id
                != call_id by {
                if k > 0 {
                    assert(all[k] == tail[k - 1]);
                }
            }
        }
    }
}

/// What is added is wanted.
proof fn caught_up_lacks(
    mine: Seq<ApprovalView>,
    wanted: Seq<ApprovalView>,
    i: int,
    call_id: Seq<char>,
)
    requires
        0 <= i,
        !has_call(wanted, call_id),
        !has_call(mine, call_id),
    ensures
        !has_call(caught_up(mine, wanted, i), call_id),
    decreases wanted.len() - i,
{
    if i < wanted.len() {
        if !has_call(mine, wanted[i].call_id) {
            let more = mine.push(wanted[i]);
            assert forall|k: int| 0 <= k < more.len() implies (#[trigger] more[k]).call_id
                != call_id by {
                if k < mine.len() {
                    assert(more[k] == mine[k]);
                }
            }
            caught_up_lacks(more, wanted, i + 1, call_id);
        } else {
            caught_up_lacks(mine, wanted, i + 1, call_id);
        }
    }
}

/// When a message that was handed over already is taken back, nothing that its agent
/// reports is shown any more, but for a change of its status.
pub proof fn law_retracted_turn_is_silent(v: TuiView, who: AgentType, msg: BusMessage)
    requires
        v.wf(),
        app_input::retractable(v, who) is Some,
        v.desk.submissions[app_input::retractable(v, who)->0].submitted,
        !(msg is StatusChange),
    ensures
        is_dropped(app_input::retracted(v, who), Some(who), msg),
{
    reveal(app_input::retracted);
    app_input::untouched_is_to(v.desk.submissions, v.desk.submissions.len() as int, who);
}

/// What an agent streams stands in its transcript piece by piece: a piece is put behind the
/// pieces of the same answer, or begins one, and the agent is seen thinking.
pub proof fn law_pieces_of_an_answer_add_up(
    v: TuiView,
    who: AgentType,
    s: Seq<char>,
    more: Seq<char>,
    now: u64,
    later: u64,
)
    requires
        v.wf(),
        s.len() > 0,
        more.len() > 0,
    ensures
        ({
            let one = after_response(v, who, s, true, now);
            let two = after_response(one, who, more, true, later);
            &&& one.desk.statuses[agent::index_of(who)] == AgentStatus::Thinking
            &&& one.desk.outbox == v.desk.outbox
            &&& one.desk.history.len() > 0
            &&& one.desk.history.last() matches CellView::AgentMessage { agent, text, .. }
            &&& agent == who
            &&& text.len() >= s.len()
            &&& text.skip(text.len() - s.len()) == s
            &&& two.desk.history.len() == one.desk.history.len()
            &&& two.desk.history.last() matches CellView::AgentMessage { agent: again, text: all, .. }
            &&& again == who
            &&& all == text + more
            &&& two.desk.history.drop_last() == one.desk.history.drop_last()
        }),
{
    reveal(after_response);
    reveal(response_added);
    reveal(status_set);
    let h = v.desk.history;
    let one = after_response(v, who, s, true, now);
    let two = after_response(one, who, more, true, later);
    let text = one.desk.history.last()->AgentMessage_text;
    assert(text.skip(text.len() - s.len()) =~= s);
    assert(two.desk.history.drop_last() =~= one.desk.history.drop_last());
}

/// An answer in one piece stands in the transcript as it is, with the end of the turn below it
/// where it is known since when the turn lasts, and the agent is idle.
pub proof fn law_answers_end_the_turn(v: TuiView, who: AgentType, s: Seq<char>, now: u64)
    requires
        v.wf(),
        s.len() > 0,
    ensures
        ({
            let k = agent::index_of(who);
            let after = after_response(v, who, s, false, now);
            let n = v.desk.history.len() as int;
            &&& after.desk.statuses[k] == AgentStatus::Idle
            &&& after.desk.since[k] is None
            &&& after.desk.history.len() >= n + 2
            &&& after.desk.history.take(n) == v.desk.history
            &&& after.desk.history[n] == (CellView::AgentMarkdown { agent: who, text: s })
            &&& after.desk.history[n + 1] matches CellView::TurnSeparator {
                agent,
                elapsed_seconds,
                runtime_metrics,
            }
            &&& agent == who
            &&& runtime_metrics is None
            &&& v.desk.since[k] is None ==> elapsed_seconds == Some(0u64)
            &&& v.desk.since[k] is Some && v.desk.since[k]->0 <= now ==> elapsed_seconds == Some(
                ((now - v.desk.since[k]->0) / 1_000_000_000) as u64,
            )
        }),
{
    reveal(after_response);
    reveal(response_added);
    reveal(status_set);
    reveal(turn_closed);
    let k = agent::index_of(who);
    let n = v.desk.history.len() as int;
    let a = status_set(v, who, AgentStatus::Thinking, now);
    let b = response_added(a, who, s, false);
    assert(b.desk.history == v.desk.history.push(CellView::AgentMarkdown { agent: who, text: s }));
    assert(transcript::stream_start(b.desk.history, n + 1, who) == n + 1);
    assert(transcript::consolidated(b.desk.history, who) == b.desk.history);
    let c = turn_closed(b.desk, who, now);
    assert(c.history.take(n) =~= v.desk.history);
    let after = after_response(v, who, s, false, now);
    assert(after.desk.history.take(n) =~= v.desk.history);
}

/// A call of a tool stands in the transcript as a call that runs, with its name, its arguments
/// and its id, as the last one of its agent, and the agent is seen running a tool. Calls that
/// have rows of their own leave no such row, and change no status.
pub proof fn law_calls_stand_in_the_transcript(
    v: TuiView,
    who: AgentType,
    name: Seq<char>,
    args: ToolArgsView,
    call_id: Seq<char>,
    now: u64,
)
    requires
        v.wf(),
    ensures
        ({
            let own = name == "send_to_agent"@ || name == "respond"@ || name == "update_plan"@
                || name == "request_user_input"@;
            let after = after_call(v, who, name, args, call_id, now);
            &&& own ==> after.desk.history == v.desk.history && after.desk.statuses
                == v.desk.statuses
            &&& !own ==> {
                &&& after.desk.statuses[agent::index_of(who)] == AgentStatus::RunningTool
                &&& after.desk.history.len() > 0
                &&& after.desk.history.last() matches CellView::ToolGroup { agent, items }
                &&& agent == who
                &&& items.len() > 0
                &&& items.last() == (ToolView {
                    name,
                    args,
                    result: None,
                    error: None,
                    started_at: Some(now),
                    call_id: Some(call_id),
                })
            }
            &&& after.prompts == v.prompts
        }),
{
    reveal(after_call);
    reveal(tool_started);
    reveal(call_added);
    reveal(status_set);
}

/// Work between agents, plans, notices and errors each leave one row at the end of the
/// transcript, which says what happened, and change nothing else.
pub proof fn law_messages_leave_their_rows(v: TuiView, msg: BusMessage, now: u64)
    ensures
        ({
            let after = after_message(v, msg, now);
            let rest = TuiView {
                desk: DeskView { history: after.desk.history, ..v.desk },
                ..v
            };
            match msg {
                BusMessage::UserMessage { agent, source, content } => {
                    &&& source is Agent ==> after == rest && after.desk.history
                        == v.desk.history.push(
                        CellView::Collab {
                            agent,
                            event: CollabView::Message { source, content: content@ },
                        },
                    )
                    &&& !(source is Agent) ==> after == v
                },
                BusMessage::PlanUpdate { agent, explanation, steps } => {
                    &&& after == rest
                    &&& after.desk.history == v.desk.history.push(
                        CellView::PlanUpdate {
                            agent,
                            explanation: text::opt_view(explanation),
                            steps: transcript::step_views(steps@),
                        },
                    )
                },
                BusMessage::Report { agent, report_type, summary, content } => {
                    &&& after == rest
                    &&& report_type@ == "reply"@ ==> after.desk.history == v.desk.history.push(
                        CellView::Collab {
                            agent,
                            event: CollabView::Replied { summary: summary@, content: content@ },
                        },
                    )
                    &&& report_type@ != "reply"@ ==> after.desk.history == v.desk.history.push(
                        CellView::Collab {
                            agent,
                            event: CollabView::Blocked {
                                report_type: report_type@,
                                summary: summary@,
                                content: content@,
                            },
                        },
                    )
                },
                BusMessage::Waiting { target } => {
                    &&& after == rest
                    &&& after.desk.history == v.desk.history.push(
                        CellView::Collab { agent: target, event: CollabView::Waiting },
                    )
                },
                BusMessage::SystemNotice { agent, content } => {
                    &&& after == rest
                    &&& after.desk.history.len() == v.desk.history.len() + 1
                    &&& after.desk.history.drop_last() == v.desk.history
                    &&& after.desk.history.last() matches CellView::System { text, kind }
                    &&& kind == SysKind::Info
                    &&& agent is None ==> text == "system: "@ + content@
                    &&& agent matches Some(a) ==> text == agent::agent_label(a) + ": "@ + content@
                },
                BusMessage::Error { message } => {
                    &&& after == rest
                    &&& after.desk.history == v.desk.history.push(
                        CellView::System { text: "error: "@ + message@, kind: SysKind::Error },
                    )
                },
                BusMessage::TaskUpdate => after == v,
                _ => true,
            }
        }),
{
    reveal(collab_added);
    reveal(plan_added);
    reveal(noticed);
    reveal_strlit("system");
    reveal_strlit(": ");
    reveal_strlit("system: ");
    assert("system"@ + ": "@ =~= "system: "@);
    if let BusMessage::SystemNotice { agent, content } = msg {
        assert("system"@ + ": "@ + content@ =~= "system: "@ + content@);
        let after = after_message(v, msg, now);
        assert(after.desk.history.drop_last() =~= v.desk.history);
    }
}

/// A command that needs approval waits behind those that wait already, and questions wait with
/// the time at which they were asked. Each is found again under the id of its call.
pub proof fn law_requests_wait_for_the_user(v: TuiView, msg: BusMessage, now: u64)
    ensures
        ({
            let after = after_message(v, msg, now);
            match msg {
                BusMessage::ApprovalRequest { payload } => {
                    &&& after.prompts.approvals == v.prompts.approvals.push(payload@)
                    &&& after.prompts.inputs == v.prompts.inputs
                    &&& after.prompts.requests == v.prompts.requests
                    &&& after.desk == v.desk
                },
                BusMessage::UserInputRequest {
                    agent,
                    call_id,
                    questions,
                    auto_resolution_ms,
                } => {
                    &&& after.prompts.approvals == v.prompts.approvals
                    &&& after.prompts.inputs.len() == v.prompts.inputs.len() + 1
                    &&& after.prompts.inputs.drop_last() == v.prompts.inputs
                    &&& after.prompts.inputs.last().call_id == call_id@
                    &&& after.prompts.inputs.last().agent == agent
                    &&& after.prompts.inputs.last().started_at == now
                    &&& after.prompts.inputs.last().auto_resolution_ms == auto_resolution_ms
                    &&& after.prompts.inputs.last().questions == user_input::question_views(
                        questions@,
                    )
                    &&& after.prompts.inputs.last().answers.len() == 0
                    &&& after.desk.history == v.desk.history
                    &&& auto_resolution_ms is None ==> after.desk.outbox == v.desk.outbox
                    &&& auto_resolution_ms matches Some(ms) ==> after.desk.outbox
                        == v.desk.outbox.push(EffectView::ScheduleFrameIn { ms })
                },
                _ => true,
            }
        }),
{
    reveal(approval_added);
    reveal(questions_asked);
    if let BusMessage::UserInputRequest { .. } = msg {
        let after = after_message(v, msg, now);
        assert(after.prompts.inputs.drop_last() =~= v.prompts.inputs);
    }
}

/// The answers to questions stand in the transcript with the questions and the agent that asked
/// them, though other questions were asked in between under other ids, and are asked for no
/// more.
pub proof fn law_answers_stand_with_their_questions(
    v: TuiView,
    who: AgentType,
    call_id: Seq<char>,
    questions: Seq<QuestionView>,
    ms: Option<u64>,
    now: u64,
    answers: Seq<AnswerView>,
    interrupted: bool,
)
    ensures
        ({
            let asked = questions_asked(v, who, call_id, questions, ms, now);
            let after = questions_answered(asked, call_id, answers, interrupted);
            &&& after.desk.history == v.desk.history.push(
                CellView::UserInputResult { agent: who, questions, answers, interrupted },
            )
            &&& find_record(v.prompts.requests, 0, call_id) is None ==> after.prompts.requests
                == v.prompts.requests
            &&& questions_answered(after, call_id, answers, interrupted).desk.history.len()
                <= after.desk.history.len() + 1
        }),
{
    reveal(questions_asked);
    reveal(questions_answered);
    let r = RecordView { call_id, agent: who, questions };
    record_is_found(v.prompts.requests, r);
    if find_record(v.prompts.requests, 0, call_id) is None {
        assert(with_record(v.prompts.requests, r).remove(v.prompts.requests.len() as int)
            =~= v.prompts.requests);
    }
}

/// A record that was put in is found.
proof fn record_is_found(reqs: Seq<RecordView>, r: RecordView)
    ensures
        ({
            let all = with_record(reqs, r);
            let place = match find_record(reqs, 0, r.call_id) {
                Some(i) => i,
                None => reqs.len() as int,
            };
            &&& find_record(all, 0, r.call_id) == Some(place)
            &&& 0 <= place < all.len()
            &&& all[place] == r
        }),
{
    record_found_from(reqs, r, 0);
}

/// A record that was put in is found from `i` on.
proof fn record_found_from(reqs: Seq<RecordView>, r: RecordView, i: int)
    requires
        0 <= i <= reqs.len(),
        find_record(reqs, i, r.call_id) == find_record(reqs, 0, r.call_id),
    ensures
        ({
            let all = with_record(reqs, r);
            let place = match find_record(reqs, 0, r.call_id) {
                Some(i) => i,
                None => reqs.len() as int,
            };
            &&& find_record(all, i, r.call_id) == Some(place)
            &&& i <= place < all.len()
            &&& find_record(reqs, 0, r.call_id) is Some ==> place < reqs.len()
            &&& all[place] == r
        }),
    decreases reqs.len() - i,
{
    if i < reqs.len() && reqs[i].call_id != r.call_id {
        record_found_from(reqs, r, i + 1);
        match find_record(reqs, 0, r.call_id) {
            Some(p) => {
                assert(with_record(reqs, r) == reqs.update(p, r));
                assert(i < p);
                assert(reqs.update(p, r)[i] == reqs[i]);
            },
            None => {
                assert(reqs.push(r)[i] == reqs[i]);
            },
        }
    }
}

/// The result of a call of a tool goes to the call: of a call that was just begun, the row
/// stays where it is, and has the result and the error that came.
pub proof fn law_results_go_to_their_calls(
    v: TuiView,
    who: AgentType,
    name: Seq<char>,
    args: ToolArgsView,
    call_id: Seq<char>,
    result: ToolValueView,
    error: Option<Seq<char>>,
    answers: Seq<AnswerView>,
    now: u64,
    later: u64,
)
    requires
        v.wf(),
        name != "send_to_agent"@,
        name != "respond"@,
        name != "update_plan"@,
        name != "request_user_input"@,
    ensures
        ({
            let called = after_call(v, who, name, args, call_id, now);
            let after = after_result(called, who, name, result, answers, error, call_id, later);
            let n = called.desk.history.len();
            &&& after.desk.history.len() == n
            &&& after.desk.history.drop_last() == called.desk.history.drop_last()
            &&& after.desk.history.last() matches CellView::ToolGroup { agent, items }
            &&& agent == who
            &&& items.len() > 0
            &&& items.last() == (ToolView {
                name,
                args,
                result: Some(result),
                error,
                started_at: Some(now),
                call_id: Some(call_id),
            })
            &&& after.desk.statuses[agent::index_of(who)] == AgentStatus::Thinking
        }),
{
    reveal(after_result);
    reveal(result_added);
    reveal(status_set);
    law_calls_stand_in_the_transcript(v, who, name, args, call_id, now);
    let called = after_call(v, who, name, args, call_id, now);
    reveal(after_call);
    reveal(tool_started);
    reveal(call_added);
    let thinking = status_set(called, who, AgentStatus::Thinking, later);
    assert(thinking.desk.history == called.desk.history);
    let cells = called.desk.history;
    let n = cells.len() as int;
    let items = transcript::calls_of(cells[n - 1]);
    assert(transcript::find_call(items, items.len() as int, name, call_id) == Some(
        items.len() - 1,
    ));
    assert(transcript::find_cell(cells, n, who, name, call_id) == Some(
        (n - 1, items.len() - 1),
    ));
    let after = after_result(called, who, name, result, answers, error, call_id, later);
    assert(after.desk.history.drop_last() =~= called.desk.history.drop_last());
}

} // verus!
