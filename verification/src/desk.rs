//! The agents: what each is doing, what waits for it, the messages on their way,
//! and the transcript of it all.

use crate::agent;
use crate::agent::{AgentStatus, AgentType, AGENT_COUNT};
use crate::app_state;
use crate::app_state::{Effect, EffectView, PendingSubmission, SubmissionView};
use crate::text;
use crate::transcript;
use crate::transcript::{Cell, CellView};
use vstd::prelude::*;

verus! {

/// The agents and the transcript. Work for others is put into the outbox.
#[derive(Debug)]
pub struct Desk {
    pub history: Vec<Cell>,
    pub statuses: Vec<AgentStatus>,
    pub status_since: Vec<Option<u64>>,
    pub queued_inputs: Vec<Vec<String>>,
    pub suppress_until_idle: Vec<bool>,
    pub pending_submissions: Vec<PendingSubmission>,
    pub next_submission: u64,
    pub outbox: Vec<Effect>,
}

/// The agents and the transcript.
pub struct DeskView {
    pub history: Seq<CellView>,
    pub statuses: Seq<AgentStatus>,
    pub since: Seq<Option<u64>>,
    pub queued: Seq<Seq<Seq<char>>>,
    pub suppressed: Seq<bool>,
    pub submissions: Seq<SubmissionView>,
    pub next_submission: u64,
    pub outbox: Seq<EffectView>,
}

impl View for Desk {
    type V = DeskView;

    open spec fn view(&self) -> DeskView {
        DeskView {
            history: transcript::cell_views(self.history@),
            statuses: self.statuses@,
            since: self.status_since@,
            queued: text::nested_views(self.queued_inputs@),
            suppressed: self.suppress_until_idle@,
            submissions: app_state::submission_views(self.pending_submissions@),
            next_submission: self.next_submission,
            outbox: app_state::effect_views(self.outbox@),
        }
    }
}

impl DeskView {
    /// Whether there is an entry for each agent.
    pub open spec fn wf(self) -> bool {
        &&& self.statuses.len() == AGENT_COUNT
        &&& self.since.len() == AGENT_COUNT
        &&& self.queued.len() == AGENT_COUNT
        &&& self.suppressed.len() == AGENT_COUNT
    }
}

/// No message for any agent.
pub open spec fn no_queues() -> Seq<Seq<Seq<char>>> {
    Seq::new(AGENT_COUNT as nat, |i: int| Seq::empty())
}

/// No agent of which nothing is shown.
pub open spec fn none_suppressed() -> Seq<bool> {
    Seq::new(AGENT_COUNT as nat, |i: int| false)
}

/// Idle agents and an empty transcript.
pub open spec fn empty_desk() -> DeskView {
    DeskView {
        history: Seq::empty(),
        statuses: Seq::new(AGENT_COUNT as nat, |i: int| AgentStatus::Idle),
        since: Seq::new(AGENT_COUNT as nat, |i: int| None),
        queued: no_queues(),
        suppressed: none_suppressed(),
        submissions: Seq::empty(),
        next_submission: 0,
        outbox: Seq::empty(),
    }
}

/// One more cell.
pub open spec fn with_cell(v: DeskView, c: CellView) -> DeskView {
    DeskView { history: v.history.push(c), ..v }
}

/// Another transcript.
pub open spec fn with_history(v: DeskView, h: Seq<CellView>) -> DeskView {
    DeskView { history: h, ..v }
}

/// More work for others.
pub open spec fn asked(v: DeskView, e: EffectView) -> DeskView {
    DeskView { outbox: v.outbox.push(e), ..v }
}

// ---------------------------------------------------------------------------
// Messages on their way
// ---------------------------------------------------------------------------

/// The number of the next submission.
pub open spec fn next_id(id: u64) -> u64 {
    if id == u64::MAX {
        0
    } else {
        (id + 1) as u64
    }
}

/// A message on its way to an agent.
pub open spec fn sent(v: DeskView, who: AgentType, s: Seq<char>, ide: bool) -> DeskView {
    DeskView {
        history: v.history.push(CellView::User { agent: who, text: s }),
        submissions: v.submissions.push(
            SubmissionView {
                id: v.next_submission,
                agent: who,
                text: s,
                history_index: v.history.len() as int,
                tool_started: false,
                submitted: false,
            },
        ),
        next_submission: next_id(v.next_submission),
        outbox: v.outbox.push(
            EffectView::Submit { id: v.next_submission, agent: who, text: s, ide },
        ),
        ..v
    }
}

/// The first submission to an agent from `i` on.
pub open spec fn first_submission(subs: Seq<SubmissionView>, i: int, who: AgentType) -> Option<int>
    decreases subs.len() - i,
{
    if i < 0 || i >= subs.len() {
        None
    } else if subs[i].agent == who {
        Some(i)
    } else {
        first_submission(subs, i + 1, who)
    }
}

/// The last of the first `n` submissions to an agent that has led to no tool call.
pub open spec fn last_untouched(subs: Seq<SubmissionView>, n: int, who: AgentType) -> Option<int>
    decreases n,
{
    if n <= 0 {
        None
    } else if subs[n - 1].agent == who && !subs[n - 1].tool_started {
        Some(n - 1)
    } else {
        last_untouched(subs, n - 1, who)
    }
}

/// Whether a message to an agent has to wait: one is on its way already, or the
/// agent is at work.
pub open spec fn is_busy(v: DeskView, who: AgentType) -> bool {
    first_submission(v.submissions, 0, who) is Some || agent::is_active(
        v.statuses[agent::index_of(who)],
    )
}

/// A message queued for an agent.
pub open spec fn queued_for(v: DeskView, who: AgentType, s: Seq<char>) -> DeskView {
    let k = agent::index_of(who);
    DeskView { queued: v.queued.update(k, v.queued[k].push(s)), ..v }
}

/// Another queue of an agent.
pub open spec fn with_queue(v: DeskView, who: AgentType, q: Seq<Seq<char>>) -> DeskView {
    DeskView { queued: v.queued.update(agent::index_of(who), q), ..v }
}

/// A call of a tool noted for the message that led to it.
pub open spec fn tool_noted(v: DeskView, who: AgentType) -> DeskView {
    match first_submission(v.submissions, 0, who) {
        None => v,
        Some(i) => DeskView {
            submissions: v.submissions.update(
                i,
                SubmissionView { tool_started: true, ..v.submissions[i] },
            ),
            ..v
        },
    }
}

/// The message dropped that an agent is through with.
pub open spec fn finished(v: DeskView, who: AgentType) -> DeskView {
    match first_submission(v.submissions, 0, who) {
        None => v,
        Some(i) => DeskView { submissions: v.submissions.remove(i), ..v },
    }
}

/// The row dropped of a message that is taken back, if that is still where it was
/// put.
pub open spec fn row_removed(history: Seq<CellView>, p: SubmissionView) -> Seq<CellView> {
    let i = p.history_index;
    if 0 <= i < history.len() && history[i] == (CellView::User { agent: p.agent, text: p.text }) {
        history.remove(i)
    } else {
        history
    }
}

/// The first message that waits for an agent on its way.
pub open spec fn drained(v: DeskView, who: AgentType, ide: bool) -> DeskView {
    let q = v.queued[agent::index_of(who)];
    if q.len() == 0 {
        v
    } else {
        sent(with_queue(v, who, q.skip(1)), who, q[0], ide)
    }
}

/// A text with others behind it, each on lines of its own, from `i` on.
pub open spec fn stacked(s: Seq<char>, more: Seq<Seq<char>>, i: int) -> Seq<char>
    decreases more.len() - i,
{
    if i < 0 || i >= more.len() {
        s
    } else {
        stacked(
            if s.len() == 0 {
                more[i]
            } else {
                s + "\n"@ + more[i]
            },
            more,
            i + 1,
        )
    }
}

/// A status noted: since when the agent is at work, and once it is through, its
/// message is done, what comes is shown again and the next message goes out.
pub open spec fn with_status(
    v: DeskView,
    who: AgentType,
    status: AgentStatus,
    now: u64,
    ide: bool,
) -> DeskView {
    let k = agent::index_of(who);
    let active = agent::is_active(status);
    let was_active = v.since[k] is Some;
    let since = if active && !was_active {
        v.since.update(k, Some(now))
    } else if !active {
        v.since.update(k, None)
    } else {
        v.since
    };
    let w = DeskView { since, statuses: v.statuses.update(k, status), ..v };
    if !active && was_active {
        let x = finished(w, who);
        drained(DeskView { suppressed: x.suppressed.update(k, false), ..x }, who, ide)
    } else {
        w
    }
}

impl Desk {
    /// Idle agents and an empty transcript.
    pub fn new() -> (r: Self)
        ensures
            r@ == empty_desk(),
            r@.wf(),
    {
        let mut statuses: Vec<AgentStatus> = Vec::new();
        let mut status_since: Vec<Option<u64>> = Vec::new();
        let mut i: usize = 0;
        while i < AGENT_COUNT
            invariant
                i <= AGENT_COUNT,
                statuses@ =~= Seq::new(i as nat, |k: int| AgentStatus::Idle),
                status_since@ =~= Seq::new(i as nat, |k: int| None),
            decreases AGENT_COUNT - i,
        {
            statuses.push(AgentStatus::Idle);
            status_since.push(None);
            i += 1;
        }
        let r = Desk {
            history: Vec::new(),
            statuses,
            status_since,
            queued_inputs: empty_queues(),
            suppress_until_idle: nothing_suppressed(),
            pending_submissions: Vec::new(),
            next_submission: 0,
            outbox: Vec::new(),
        };
        assert(r@.history =~= Seq::<CellView>::empty());
        assert(r@.submissions =~= Seq::<SubmissionView>::empty());
        assert(r@.outbox =~= Seq::<EffectView>::empty());
        r
    }

    /// Adds a cell to the transcript.
    pub fn add_cell(&mut self, cell: Cell)
        ensures
            final(self)@ == with_cell(old(self)@, cell@),
            old(self)@.wf() ==> final(self)@.wf(),
    {
        transcript::push_cell(&mut self.history, cell);
    }

    /// Asks for work to be done outside.
    pub fn ask(&mut self, effect: Effect)
        ensures
            final(self)@ == asked(old(self)@, effect@),
            old(self)@.wf() ==> final(self)@.wf(),
    {
        let ghost before = self.outbox@;
        self.outbox.push(effect);
        assert(app_state::effect_views(self.outbox@) =~= app_state::effect_views(before).push(
            effect@,
        ));
    }

    /// Hands over the work that is to be done outside.
    pub fn take_effects(&mut self) -> (r: Vec<Effect>)
        ensures
            app_state::effect_views(r@) == old(self)@.outbox,
            final(self)@ == (DeskView { outbox: Seq::empty(), ..old(self)@ }),
            old(self)@.wf() ==> final(self)@.wf(),
    {
        let mut out: Vec<Effect> = Vec::new();
        out.append(&mut self.outbox);
        assert(app_state::effect_views(out@) =~= old(self)@.outbox);
        assert(app_state::effect_views(self.outbox@) =~= Seq::<EffectView>::empty());
        out
    }

    /// Sends a message to an agent.
    pub fn send(&mut self, who: AgentType, s: &str, ide: bool)
        ensures
            final(self)@ == sent(old(self)@, who, s@, ide),
            old(self)@.wf() ==> final(self)@.wf(),
    {
        let id: u64 = self.next_submission;
        let history_index: usize = self.history.len();
        self.add_cell(Cell::User { agent: who, text: s.to_string() });
        let p = PendingSubmission {
            id,
            agent: who,
            text: s.to_string(),
            history_index,
            tool_started: false,
            submitted: false,
        };
        let ghost before = self.pending_submissions@;
        self.pending_submissions.push(p);
        assert(app_state::submission_views(self.pending_submissions@)
            =~= app_state::submission_views(before).push(p@));
        self.next_submission = if id == u64::MAX {
            0
        } else {
            id + 1
        };
        self.ask(Effect::Submit { id, agent: who, text: s.to_string(), ide });
    }

    /// The place of the first submission to an agent.
    fn locate_submission(&self, who: AgentType) -> (r: Option<usize>)
        ensures
            (match r {
                Some(i) => Some(i as int),
                None => None::<int>,
            }) == first_submission(self@.submissions, 0, who),
            r matches Some(i) ==> i < self.pending_submissions@.len(),
    {
        let ghost all = self@.submissions;
        let mut i: usize = 0;
        while i < self.pending_submissions.len()
            invariant
                i <= self.pending_submissions@.len(),
                all == app_state::submission_views(self.pending_submissions@),
                first_submission(all, i as int, who) == first_submission(all, 0, who),
            decreases self.pending_submissions@.len() - i,
        {
            assert(all[i as int] == self.pending_submissions@[i as int]@);
            if self.pending_submissions[i].agent == who {
                return Some(i);
            }
            i += 1;
        }
        None
    }

    /// Whether a message to an agent has to wait.
    pub fn busy(&self, who: AgentType) -> (r: bool)
        requires
            self@.wf(),
        ensures
            r == is_busy(self@, who),
    {
        self.locate_submission(who).is_some() || self.statuses[who.index()].active()
    }

    /// Replaces the queue of an agent.
    fn put_queue(&mut self, who: AgentType, q: Vec<String>)
        requires
            old(self)@.wf(),
        ensures
            final(self)@ == with_queue(old(self)@, who, text::views(q@)),
            final(self)@.wf(),
    {
        let k: usize = who.index();
        let ghost all = self@.queued;
        self.queued_inputs.set(k, q);
        assert(text::nested_views(self.queued_inputs@) =~= all.update(k as int, text::views(q@)));
    }

    /// Queues a message for an agent.
    pub fn enqueue(&mut self, who: AgentType, s: &str)
        requires
            old(self)@.wf(),
        ensures
            final(self)@ == queued_for(old(self)@, who, s@),
            final(self)@.wf(),
    {
        let mut q = text::copy_strings(&self.queued_inputs[who.index()]);
        let ghost before = q@;
        let line = s.to_string();
        q.push(line);
        assert(text::views(q@) =~= text::views(before).push(s@));
        self.put_queue(who, q);
    }

    /// Takes all messages that wait for an agent.
    pub fn take_queue(&mut self, who: AgentType) -> (r: Vec<String>)
        requires
            old(self)@.wf(),
        ensures
            text::views(r@) == old(self)@.queued[agent::index_of(who)],
            final(self)@ == with_queue(old(self)@, who, Seq::empty()),
            final(self)@.wf(),
    {
        let q = text::copy_strings(&self.queued_inputs[who.index()]);
        let none: Vec<String> = Vec::new();
        assert(text::views(none@) =~= Seq::<Seq<char>>::empty());
        self.put_queue(who, none);
        q
    }

    /// Takes the last message that waits for an agent.
    pub fn take_last_queued(&mut self, who: AgentType) -> (r: Option<String>)
        requires
            old(self)@.wf(),
        ensures
            ({
                let q = old(self)@.queued[agent::index_of(who)];
                match r {
                    None => q.len() == 0 && final(self)@ == old(self)@,
                    Some(s) => q.len() > 0 && s@ == q.last() && final(self)@ == with_queue(
                        old(self)@,
                        who,
                        q.drop_last(),
                    ),
                }
            }),
            final(self)@.wf(),
    {
        let mut q = text::copy_strings(&self.queued_inputs[who.index()]);
        let ghost before = text::views(q@);
        match q.pop() {
            None => None,
            Some(s) => {
                assert(s@ == before.last());
                assert(text::views(q@) =~= before.drop_last());
                self.put_queue(who, q);
                Some(s)
            },
        }
    }

    /// Notes that a message was handed to its agent.
    pub fn mark_submitted(&mut self, id: u64)
        ensures
            final(self)@ == (DeskView {
                submissions: old(self)@.submissions.map_values(
                    |p: SubmissionView|
                        SubmissionView { submitted: p.submitted || p.id == id, ..p },
                ),
                ..old(self)@
            }),
            old(self)@.wf() ==> final(self)@.wf(),
    {
        mark_all(&mut self.pending_submissions, id);
    }

    /// Notes a call of a tool for the message that led to it.
    pub fn mark_pending_tool_started(&mut self, who: AgentType)
        requires
            old(self)@.wf(),
        ensures
            final(self)@ == tool_noted(old(self)@, who),
            final(self)@.wf(),
    {
        if let Some(i) = self.locate_submission(who) {
            let ghost all = self@.submissions;
            assert(all[i as int] == self.pending_submissions@[i as int]@);
            let mut p = self.pending_submissions.remove(i);
            p.tool_started = true;
            self.pending_submissions.insert(i, p);
            assert(app_state::submission_views(self.pending_submissions@) =~= all.update(
                i as int,
                p@,
            ));
        }
    }

    /// Drops the message that an agent is through with.
    pub fn finish_pending_submission(&mut self, who: AgentType)
        requires
            old(self)@.wf(),
        ensures
            final(self)@ == finished(old(self)@, who),
            final(self)@.wf(),
    {
        if let Some(i) = self.locate_submission(who) {
            let ghost all = self@.submissions;
            let _ = self.pending_submissions.remove(i);
            assert(app_state::submission_views(self.pending_submissions@) =~= all.remove(
                i as int,
            ));
        }
    }

    /// Takes out the last submission to an agent that has led to no tool call.
    pub fn take_untouched(&mut self, who: AgentType) -> (r: Option<PendingSubmission>)
        requires
            old(self)@.wf(),
        ensures
            match last_untouched(
                old(self)@.submissions,
                old(self)@.submissions.len() as int,
                who,
            ) {
                None => r is None && final(self)@ == old(self)@,
                Some(i) => {
                    &&& r is Some
                    &&& r->0@ == old(self)@.submissions[i]
                    &&& final(self)@ == (DeskView {
                        submissions: old(self)@.submissions.remove(i),
                        ..old(self)@
                    })
                },
            },
            final(self)@.wf(),
    {
        let ghost all = self@.submissions;
        let mut n: usize = self.pending_submissions.len();
        while n > 0
            invariant
                n <= self.pending_submissions@.len(),
                *self == *old(self),
                old(self)@.wf(),
                all == app_state::submission_views(self.pending_submissions@),
                all == old(self)@.submissions,
                last_untouched(all, n as int, who) == last_untouched(all, all.len() as int, who),
            decreases n,
        {
            assert(all[n - 1] == self.pending_submissions@[n - 1]@);
            let p = &self.pending_submissions[n - 1];
            if p.agent == who && !p.tool_started {
                let p = self.pending_submissions.remove(n - 1);
                assert(app_state::submission_views(self.pending_submissions@) =~= all.remove(
                    n - 1,
                ));
                return Some(p);
            }
            n -= 1;
        }
        None
    }

    /// Drops the row of a message that is taken back.
    pub fn remove_row(&mut self, p: &PendingSubmission)
        ensures
            final(self)@ == with_history(old(self)@, row_removed(old(self)@.history, p@)),
            old(self)@.wf() ==> final(self)@.wf(),
    {
        let i: usize = p.history_index;
        if i >= self.history.len() {
            return ;
        }
        let ghost all = self@.history;
        assert(all[i as int] == self.history@[i as int]@);
        let same = match &self.history[i] {
            Cell::User { agent, text } => *agent == p.agent && text::same(text, &p.text),
            _ => false,
        };
        if same {
            let _ = self.history.remove(i);
            assert(transcript::cell_views(self.history@) =~= all.remove(i as int));
        }
    }

    /// Sends the first message that waits for an agent.
    pub fn drain_queued_input(&mut self, who: AgentType, ide: bool)
        requires
            old(self)@.wf(),
        ensures
            final(self)@ == drained(old(self)@, who, ide),
            final(self)@.wf(),
    {
        let mut q = text::copy_strings(&self.queued_inputs[who.index()]);
        if q.len() == 0 {
            return ;
        }
        let ghost before = text::views(q@);
        let first = q.remove(0);
        assert(first@ == before[0]);
        assert(text::views(q@) =~= before.skip(1));
        self.put_queue(who, q);
        self.send(who, &first, ide);
    }

    /// Notes what an agent is doing.
    pub fn set_status(&mut self, who: AgentType, status: AgentStatus, now: u64, ide: bool)
        requires
            old(self)@.wf(),
        ensures
            final(self)@ == with_status(old(self)@, who, status, now, ide),
            final(self)@.wf(),
    {
        let k: usize = who.index();
        let active = status.active();
        let was_active = self.status_since[k].is_some();
        if active && !was_active {
            self.status_since.set(k, Some(now));
        } else if !active {
            self.status_since.set(k, None);
        }
        self.statuses.set(k, status);
        if !active && was_active {
            self.finish_pending_submission(who);
            self.suppress_until_idle.set(k, false);
            self.drain_queued_input(who, ide);
        }
    }

    /// Drops the transcript and all messages that wait or are on their way.
    pub fn clear(&mut self)
        requires
            old(self)@.wf(),
        ensures
            final(self)@ == (DeskView {
                history: Seq::empty(),
                queued: no_queues(),
                suppressed: none_suppressed(),
                submissions: Seq::empty(),
                ..old(self)@
            }),
            final(self)@.wf(),
    {
        self.history = Vec::new();
        self.pending_submissions = Vec::new();
        self.queued_inputs = empty_queues();
        self.suppress_until_idle = nothing_suppressed();
        assert(self@.history =~= Seq::<CellView>::empty());
        assert(self@.submissions =~= Seq::<SubmissionView>::empty());
    }
}

/// No message for any agent.
fn empty_queues() -> (r: Vec<Vec<String>>)
    ensures
        text::nested_views(r@) == no_queues(),
{
    let mut queued: Vec<Vec<String>> = Vec::new();
    let mut k: usize = 0;
    while k < AGENT_COUNT
        invariant
            k <= AGENT_COUNT,
            text::nested_views(queued@) =~= Seq::new(k as nat, |j: int| Seq::empty()),
        decreases AGENT_COUNT - k,
    {
        let none: Vec<String> = Vec::new();
        assert(text::views(none@) =~= Seq::<Seq<char>>::empty());
        let ghost before = queued@;
        queued.push(none);
        assert(text::nested_views(queued@) =~= text::nested_views(before).push(Seq::empty()));
        k += 1;
    }
    queued
}

/// No agent of which nothing is shown.
fn nothing_suppressed() -> (r: Vec<bool>)
    ensures
        r@ == none_suppressed(),
{
    let mut v: Vec<bool> = Vec::new();
    let mut k: usize = 0;
    while k < AGENT_COUNT
        invariant
            k <= AGENT_COUNT,
            v@ =~= Seq::new(k as nat, |j: int| false),
        decreases AGENT_COUNT - k,
    {
        v.push(false);
        k += 1;
    }
    v
}

/// Notes that messages with a number were handed over.
fn mark_all(subs: &mut Vec<PendingSubmission>, id: u64)
    ensures
        app_state::submission_views(final(subs)@) == app_state::submission_views(
            old(subs)@,
        ).map_values(
            |p: SubmissionView| SubmissionView { submitted: p.submitted || p.id == id, ..p },
        ),
{
    let ghost all = app_state::submission_views(subs@);
    let ghost goal = all.map_values(
        |p: SubmissionView| SubmissionView { submitted: p.submitted || p.id == id, ..p },
    );
    let mut i: usize = 0;
    while i < subs.len()
        invariant
            i <= subs@.len(),
            all.len() == subs@.len(),
            goal == all.map_values(
                |p: SubmissionView| SubmissionView { submitted: p.submitted || p.id == id, ..p },
            ),
            app_state::submission_views(subs@) =~= goal.take(i as int) + all.skip(i as int),
        decreases subs@.len() - i,
    {
        let ghost before = app_state::submission_views(subs@);
        assert(before[i as int] == subs@[i as int]@);
        assert(before[i as int] == all[i as int]);
        if subs[i].id == id {
            let mut p = subs.remove(i);
            p.submitted = true;
            subs.insert(i, p);
            assert(p@ == goal[i as int]);
            assert(app_state::submission_views(subs@) =~= before.update(i as int, p@));
        } else {
            assert(all[i as int] == goal[i as int]);
        }
        assert(goal.take(i + 1) + all.skip(i + 1) =~= before.update(i as int, goal[i as int]));
        i += 1;
    }
    assert(goal.take(i as int) + all.skip(i as int) =~= goal);
}

/// A text with others behind it, each on lines of its own.
pub fn stack_texts(s: &str, more: &Vec<String>) -> (r: String)
    ensures
        r@ == stacked(s@, text::views(more@), 0),
{
    let mut out = s.to_string();
    let mut i: usize = 0;
    while i < more.len()
        invariant
            i <= more@.len(),
            stacked(out@, text::views(more@), i as int) == stacked(s@, text::views(more@), 0),
        decreases more@.len() - i,
    {
        let ghost before = out@;
        assert(text::views(more@)[i as int] == more@[i as int]@);
        if !out.as_str().is_empty() {
            out.push_str("\n");
        }
        out.push_str(&more[i]);
        assert(out@ =~= if before.len() == 0 {
            more@[i as int]@
        } else {
            before + "\n"@ + more@[i as int]@
        });
        i += 1;
    }
    out
}

// ---------------------------------------------------------------------------
// Laws
// ---------------------------------------------------------------------------

/// Messages for an agent go out in the order in which they were queued: what was
/// queued last waits behind all others.
pub proof fn law_queue_is_first_in_first_out(v: DeskView, who: AgentType, s: Seq<char>, ide: bool)
    requires
        v.wf(),
        v.queued[agent::index_of(who)].len() > 0,
    ensures
        ({
            let q = v.queued[agent::index_of(who)];
            let after = drained(queued_for(v, who, s), who, ide);
            &&& after.queued[agent::index_of(who)] == q.skip(1).push(s)
            &&& after.history.last() == (CellView::User { agent: who, text: q[0] })
        }),
{
    let q = v.queued[agent::index_of(who)];
    assert(q.push(s).skip(1) =~= q.skip(1).push(s));
}

/// An agent that becomes idle gets the next message that waits for it, and only
/// that one.
pub proof fn law_idle_agent_gets_next_message(v: DeskView, who: AgentType, now: u64, ide: bool)
    requires
        v.wf(),
        v.since[agent::index_of(who)] is Some,
    ensures
        ({
            let q = v.queued[agent::index_of(who)];
            let after = with_status(v, who, AgentStatus::Idle, now, ide);
            &&& after.wf()
            &&& q.len() > 0 ==> after.queued[agent::index_of(who)] == q.skip(1) && after.history
                == v.history.push(CellView::User { agent: who, text: q[0] })
            &&& q.len() == 0 ==> after.history == v.history && after.outbox == v.outbox
            &&& !after.suppressed[agent::index_of(who)]
        }),
{
}

/// A status of one agent changes nothing of another: its status, its queue and
/// whether what comes from it is shown.
pub proof fn law_agents_are_independent(
    v: DeskView,
    who: AgentType,
    other: AgentType,
    status: AgentStatus,
    now: u64,
    ide: bool,
)
    requires
        v.wf(),
        who != other,
    ensures
        ({
            let after = with_status(v, who, status, now, ide);
            let k = agent::index_of(other);
            &&& after.statuses[k] == v.statuses[k]
            &&& after.since[k] == v.since[k]
            &&& after.queued[k] == v.queued[k]
            &&& after.suppressed[k] == v.suppressed[k]
        }),
{
}

/// A message on its way: it is the last row of the transcript, as what the user wrote to that
/// agent, it is handed over to that agent with the text as it is, and it makes the agent busy.
/// Nothing else of the transcript, of the work asked for or of the queues changes.
pub proof fn law_sent_messages_are_handed_over(v: DeskView, who: AgentType, s: Seq<char>, ide: bool)
    requires
        v.wf(),
    ensures
        ({
            let after = sent(v, who, s, ide);
            &&& after.history == v.history.push(CellView::User { agent: who, text: s })
            &&& after.outbox.len() == v.outbox.len() + 1
            &&& after.outbox.drop_last() == v.outbox
            &&& after.outbox.last() matches EffectView::Submit { agent, text, ide: shared, id }
            &&& agent == who && text == s && shared == ide
            &&& after.submissions.len() == v.submissions.len() + 1
            &&& after.submissions.drop_last() == v.submissions
            &&& after.submissions.last().id == id
            &&& after.submissions.last().agent == who
            &&& after.submissions.last().text == s
            &&& !after.submissions.last().tool_started
            &&& !after.submissions.last().submitted
            &&& after.next_submission != id
            &&& after.queued == v.queued
            &&& after.statuses == v.statuses
            &&& after.since == v.since
            &&& after.suppressed == v.suppressed
            &&& is_busy(after, who)
        }),
{
    let after = sent(v, who, s, ide);
    assert(after.outbox.drop_last() =~= v.outbox);
    assert(after.submissions.drop_last() =~= v.submissions);
    law_first_submission_is_the_oldest(after.submissions, who, v.submissions.len() as int);
}

/// The first submission to an agent is one to that agent, none before it is, and there is one
/// wherever the agent has any.
pub proof fn law_first_submission_is_the_oldest(subs: Seq<SubmissionView>, who: AgentType, k: int)
    ensures
        match first_submission(subs, 0, who) {
            Some(i) => {
                &&& 0 <= i < subs.len()
                &&& subs[i].agent == who
                &&& 0 <= k < i ==> subs[k].agent != who
            },
            None => 0 <= k < subs.len() ==> subs[k].agent != who,
        },
{
    first_submission_found(subs, 0, who, k);
}

/// The first submission to an agent from `i` on.
proof fn first_submission_found(subs: Seq<SubmissionView>, i: int, who: AgentType, k: int)
    requires
        0 <= i,
    ensures
        match first_submission(subs, i, who) {
            Some(j) => {
                &&& i <= j < subs.len()
                &&& subs[j].agent == who
                &&& i <= k < j ==> subs[k].agent != who
            },
            None => i <= k < subs.len() ==> subs[k].agent != who,
        },
    decreases subs.len() - i,
{
    if i < subs.len() && subs[i].agent != who {
        first_submission_found(subs, i + 1, who, k);
    }
}

/// The message that can be taken back is the newest to that agent among those that have led to
/// no tool call.
pub proof fn law_untouched_message_is_the_newest(subs: Seq<SubmissionView>, who: AgentType, k: int)
    ensures
        match last_untouched(subs, subs.len() as int, who) {
            Some(i) => {
                &&& 0 <= i < subs.len()
                &&& subs[i].agent == who
                &&& !subs[i].tool_started
                &&& i < k < subs.len() && subs[k].agent == who ==> subs[k].tool_started
            },
            None => 0 <= k < subs.len() && subs[k].agent == who ==> subs[k].tool_started,
        },
{
    last_untouched_found(subs, subs.len() as int, who, k);
}

/// The newest message among the first ones that can be taken back.
proof fn last_untouched_found(subs: Seq<SubmissionView>, n: int, who: AgentType, k: int)
    requires
        0 <= n <= subs.len(),
    ensures
        match last_untouched(subs, n, who) {
            Some(i) => {
                &&& 0 <= i < n
                &&& subs[i].agent == who
                &&& !subs[i].tool_started
                &&& i < k < n && subs[k].agent == who ==> subs[k].tool_started
            },
            None => 0 <= k < n && subs[k].agent == who ==> subs[k].tool_started,
        },
    decreases n,
{
    if n > 0 && !(subs[n - 1].agent == who && !subs[n - 1].tool_started) {
        last_untouched_found(subs, n - 1, who, k);
    }
}

/// An agent is busy while a message to it is on its way, and while it thinks or runs a tool;
/// else it is free.
pub proof fn law_busy_agents(v: DeskView, who: AgentType, k: int)
    requires
        v.wf(),
    ensures
        0 <= k < v.submissions.len() && v.submissions[k].agent == who ==> is_busy(v, who),
        agent::is_active(v.statuses[agent::index_of(who)]) ==> is_busy(v, who),
        (forall|j: int| 0 <= j < v.submissions.len() ==> (#[trigger] v.submissions[j]).agent != who)
            && !agent::is_active(v.statuses[agent::index_of(who)]) ==> !is_busy(v, who),
{
    law_first_submission_is_the_oldest(v.submissions, who, k);
}

/// A status is noted. The clock of a turn starts when the agent begins to work, runs on while
/// it works, and stops when it ends.
pub proof fn law_status_is_noted(
    v: DeskView,
    who: AgentType,
    status: AgentStatus,
    now: u64,
    ide: bool,
)
    requires
        v.wf(),
    ensures
        ({
            let k = agent::index_of(who);
            let after = with_status(v, who, status, now, ide);
            &&& after.statuses[k] == status
            &&& agent::is_active(status) && v.since[k] is None ==> after.since[k] == Some(now)
            &&& agent::is_active(status) && v.since[k] is Some ==> after.since[k] == v.since[k]
            &&& !agent::is_active(status) ==> after.since[k] is None
            &&& agent::is_active(status) || v.since[k] is None ==> {
                &&& after.history == v.history
                &&& after.outbox == v.outbox
                &&& after.queued == v.queued
                &&& after.submissions == v.submissions
                &&& after.suppressed == v.suppressed
            }
        }),
{
}

/// Once an agent is through with its turn, the message that it worked on is done: the oldest
/// one to it, and no other. The next one that waits for it is on its way.
pub proof fn law_ended_turn_is_done_with_its_message(
    v: DeskView,
    who: AgentType,
    status: AgentStatus,
    now: u64,
    ide: bool,
    i: int,
)
    requires
        v.wf(),
        !agent::is_active(status),
        v.since[agent::index_of(who)] is Some,
        0 <= i < v.submissions.len(),
        v.submissions[i].agent == who,
        forall|j: int| 0 <= j < i ==> (#[trigger] v.submissions[j]).agent != who,
    ensures
        ({
            let q = v.queued[agent::index_of(who)];
            let after = with_status(v, who, status, now, ide);
            let rest = v.submissions.remove(i);
            &&& q.len() == 0 ==> after.submissions == rest && after.outbox == v.outbox
            &&& q.len() > 0 ==> {
                &&& after.submissions.len() == rest.len() + 1
                &&& after.submissions.drop_last() == rest
                &&& after.submissions.last().agent == who
                &&& after.submissions.last().text == q[0]
                &&& after.outbox.len() == v.outbox.len() + 1
                &&& after.outbox.last() matches EffectView::Submit { agent, text, .. }
                &&& agent == who && text == q[0]
            }
        }),
{
    law_first_submission_is_the_oldest(v.submissions, who, i);
    if let Some(f) = first_submission(v.submissions, 0, who) {
        law_first_submission_is_the_oldest(v.submissions, who, f);
        if f < i {
            assert(v.submissions[f].agent != who);
        }
    }
    let q = v.queued[agent::index_of(who)];
    if q.len() > 0 {
        let after = with_status(v, who, status, now, ide);
        assert(after.submissions.drop_last() =~= v.submissions.remove(i));
    }
}

/// A tool call marks the oldest message to its agent, and only that one, as no longer to be
/// taken back.
pub proof fn law_tool_call_marks_its_message(v: DeskView, who: AgentType, k: int)
    requires
        0 <= k < v.submissions.len(),
    ensures
        ({
            let after = tool_noted(v, who);
            let oldest = v.submissions[k].agent == who && forall|j: int|
                0 <= j < k ==> (#[trigger] v.submissions[j]).agent != who;
            &&& after.submissions.len() == v.submissions.len()
            &&& after.submissions[k].id == v.submissions[k].id
            &&& after.submissions[k].agent == v.submissions[k].agent
            &&& after.submissions[k].text == v.submissions[k].text
            &&& oldest ==> after.submissions[k].tool_started
            &&& !oldest ==> after.submissions[k] == v.submissions[k]
            &&& after.history == v.history
            &&& after.outbox == v.outbox
            &&& after.queued == v.queued
        }),
{
    law_first_submission_is_the_oldest(v.submissions, who, k);
    assert forall|j: int| 0 <= j < k implies (first_submission(v.submissions, 0, who) matches Some(i)
        && j < i ==> (#[trigger] v.submissions[j]).agent != who) by {
        law_first_submission_is_the_oldest(v.submissions, who, j);
    }
}

/// Messages that are brought together stand one below the other, in order.
pub proof fn law_stacked_messages_stand_in_order(s: Seq<char>, more: Seq<Seq<char>>)
    requires
        forall|k: int| 0 <= k < more.len() ==> (#[trigger] more[k]).len() > 0,
    ensures
        s.len() > 0 ==> stacked(s, more, 0) == text::joined(seq![s] + more, seq!['\n']),
        s.len() == 0 ==> stacked(s, more, 0) == text::joined(more, seq!['\n']),
{
    reveal_strlit("\n");
    assert("\n"@ =~= seq!['\n']);
    if s.len() > 0 {
        assert(seq![s].drop_last() =~= Seq::<Seq<char>>::empty());
        assert(text::joined(seq![s], seq!['\n']) =~= s);
        assert((seq![s] + more).take(1) =~= seq![s]);
        stacked_from(seq![s] + more, more, 0);
    } else if more.len() > 0 {
        assert(more.take(1).drop_last() =~= Seq::<Seq<char>>::empty());
        assert(text::joined(more.take(1), seq!['\n']) =~= more[0]);
        stacked_from(more, more, 1);
    } else {
        assert(text::joined(more, seq!['\n']) =~= s);
    }
}

/// Messages brought together from the `i`th on, behind those that stand there already.
proof fn stacked_from(all: Seq<Seq<char>>, more: Seq<Seq<char>>, i: int)
    requires
        0 <= i <= more.len() <= all.len() <= more.len() + 1,
        all.len() > more.len() || i > 0,
        forall|k: int| 0 <= k < all.len() ==> (#[trigger] all[k]).len() > 0,
        forall|k: int|
            0 <= k < more.len() ==> more[k] == #[trigger] all[k + (all.len() - more.len())],
        "\n"@ == seq!['\n'],
    ensures
        stacked(
            text::joined(all.take(i + (all.len() - more.len())), seq!['\n']),
            more,
            i,
        ) == text::joined(all, seq!['\n']),
    decreases more.len() - i,
{
    let n = i + (all.len() - more.len());
    let front = all.take(n);
    let s = text::joined(front, seq!['\n']);
    assert(front.last() == all[n - 1]);
    assert(s.len() > 0);
    if i < more.len() {
        assert(more[i] == all[i + (all.len() - more.len())]);
        let next = all.take(n + 1);
        assert(next.drop_last() =~= front);
        assert(next.last() == more[i]);
        assert(text::joined(next, seq!['\n']) =~= s + "\n"@ + more[i]);
        stacked_from(all, more, i + 1);
    } else {
        assert(front =~= all);
    }
}

} // verus!
