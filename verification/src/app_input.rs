//! What the user does with messages: sending, queueing, taking them back, and
//! choosing whom to write to.

use crate::agent;
use crate::agent::{AgentType, AGENT_COUNT};
use crate::app_command;
use crate::app_state;
use crate::app_state::{Effect, EffectView, Screen, SubmissionView, Tui, TuiView};
use crate::bottom_pane::chat_composer;
use crate::bottom_pane::chat_composer::ComposerView;
use crate::bottom_pane::completion;
use crate::bottom_pane::history_search;
use crate::bottom_pane::popup_state;
use crate::bottom_pane::popup_state::PopupView;
use crate::desk;
use crate::desk::{Desk, DeskView};
use crate::editor;
use crate::editor::{Editor, EditorView};
use crate::text;
use crate::transcript;
use crate::transcript::{CellView, SysKind};
use vstd::prelude::*;

verus! {

/// The state with another composer.
pub open spec fn with_composer(v: TuiView, c: ComposerView) -> TuiView {
    app_state::with_editor(v, editor::with_composer(v.editor, c))
}

/// The state with a text as the draft, the cursor at its end.
pub open spec fn redrafted(v: TuiView, s: Seq<char>) -> TuiView {
    with_composer(v, completion::replaced(v.editor.composer, history_search::recalled(s)))
}

// ---------------------------------------------------------------------------
// Popups
// ---------------------------------------------------------------------------

/// The state with the popup that fits the draft. Where a mention is being
/// completed, files are looked for.
#[verifier::opaque]
pub open spec fn recomputed(v: TuiView) -> TuiView {
    let c = completion::slash_shown(v.editor.composer);
    let w = with_composer(v, completion::mention_shown(c));
    match completion::mention_query(c) {
        Some(query) => app_state::asking(w, EffectView::SearchFiles { query }),
        None => w,
    }
}

/// The draft with the command popup closed.
pub open spec fn slash_closed(e: EditorView) -> EditorView {
    editor::with_composer(
        e,
        completion::with_popups(e.composer, e.composer.popups.without_slash()),
    )
}

/// The draft after its line was taken as a command.
pub open spec fn command_taken(e: EditorView) -> EditorView {
    let t = editor::line_taken(e);
    editor::with_composer(
        t,
        completion::with_popups(
            t.composer,
            PopupView { dismissed_slash: None, ..t.composer.popups },
        ),
    )
}

/// The state with the marked command run. Without one, only the popup is closed.
#[verifier::opaque]
pub open spec fn slash_run(v: TuiView) -> TuiView {
    let closed = slash_closed(v.editor);
    match completion::marked_command(v.editor.composer.popups) {
        None => app_state::with_editor(v, closed),
        Some(name) => app_command::command_run(
            app_state::with_editor(v, command_taken(closed)),
            completion::chosen_command(name, editor::flushed(closed).composer.draft.text),
        ),
    }
}

impl Tui {
    /// Opens or closes popups as the draft asks for it.
    pub fn recompute_popups(&mut self)
        requires
            old(self)@.wf(),
        ensures
            final(self)@ == recomputed(old(self)@),
            final(self)@.wf(),
    {
        reveal(recomputed);
        self.editor.composer.recompute_slash();
        if let Some(query) = self.editor.composer.recompute_mention() {
            self.ask(Effect::SearchFiles { query });
        }
    }

    /// Offers the files that were found for the open mention.
    pub fn set_mention_matches(&mut self, found: Vec<String>)
        requires
            old(self)@.wf(),
        ensures
            final(self)@ == with_composer(
                old(self)@,
                completion::mention_found(old(self)@.editor.composer, text::views(found@)),
            ),
            final(self)@.wf(),
    {
        self.editor.composer.set_mention_matches(found);
    }

    /// Runs the marked command. Tells whether there was one.
    pub fn run_selected_slash(&mut self) -> (r: bool)
        requires
            old(self)@.wf(),
        ensures
            final(self)@ == slash_run(old(self)@),
            r == (completion::marked_command(old(self)@.editor.composer.popups) is Some),
            final(self)@.wf(),
    {
        reveal(slash_run);
        match take_command(&mut self.editor) {
            None => false,
            Some(command) => {
                self.run_command(&command);
                true
            },
        }
    }
}

/// Takes the command that is marked, with its arguments, out of the draft. Without
/// one, only the popup is closed.
fn take_command(e: &mut Editor) -> (r: Option<String>)
    requires
        old(e)@.wf(),
    ensures
        match completion::marked_command(old(e)@.composer.popups) {
            None => r is None && final(e)@ == slash_closed(old(e)@),
            Some(name) => {
                &&& r is Some
                &&& r->0@ == completion::chosen_command(
                    name,
                    editor::flushed(slash_closed(old(e)@)).composer.draft.text,
                )
                &&& final(e)@ == command_taken(slash_closed(old(e)@))
            },
        },
        final(e)@.wf(),
{
    match e.composer.take_command() {
        None => None,
        Some(name) => {
            let line = e.take_line();
            e.composer.forget_dismissed_slash();
            Some(completion::choose_command(&name, &line))
        },
    }
}

// ---------------------------------------------------------------------------
// Which agent is written to
// ---------------------------------------------------------------------------

/// The state with another agent to write to.
#[verifier::opaque]
pub open spec fn focused_on(v: TuiView, who: AgentType) -> TuiView {
    let c = v.editor.composer;
    app_state::refreshed(
        with_composer(
            TuiView { focused: who, ..v },
            ComposerView { focused_agent: agent::agent_label(who), ..c },
        ),
    )
}

/// The agent one step further or back in the order, round and round.
pub open spec fn neighbour(who: AgentType, forward: bool) -> AgentType {
    agent::agent_at(popup_state::stepped(agent::index_of(who), AGENT_COUNT as int, forward))
}

impl Tui {
    /// Writes to another agent.
    pub fn focus_agent(&mut self, who: AgentType)
        requires
            old(self)@.wf(),
        ensures
            final(self)@ == focused_on(old(self)@, who),
            final(self)@.wf(),
    {
        reveal(focused_on);
        self.focused = who;
        self.editor.composer.set_focused_agent(who.label());
        self.refresh_pending_input_preview();
    }

    /// Writes to the next or the previous agent.
    pub fn cycle_agent(&mut self, forward: bool)
        requires
            old(self)@.wf(),
        ensures
            final(self)@ == focused_on(old(self)@, neighbour(old(self)@.focused, forward)),
            final(self)@.wf(),
    {
        let i: usize = popup_state::step(self.focused.index(), AGENT_COUNT, forward);
        self.focus_agent(AgentType::at(i));
    }
}

// ---------------------------------------------------------------------------
// Messages
// ---------------------------------------------------------------------------

/// What happens to a message or command that was taken from the draft.
#[verifier::opaque]
pub open spec fn dispatched(v: TuiView, s: Seq<char>) -> TuiView {
    if s.len() == 0 {
        v
    } else {
        match text::after_prefix(s, "/"@) {
            Some(rest) => app_command::command_run(v, text::trimmed(rest)),
            None => if desk::is_busy(v.desk, v.focused) {
                app_state::refreshed(
                    app_state::with_desk(v, desk::queued_for(v.desk, v.focused, s)),
                )
            } else {
                app_state::with_desk(
                    v,
                    desk::sent(v.desk, v.focused, s, v.screen.ide_enabled),
                )
            },
        }
    }
}

/// The draft with its popups closed.
pub open spec fn popups_closed(e: EditorView) -> EditorView {
    editor::with_composer(
        e,
        completion::with_popups(
            e.composer,
            e.composer.popups.without_mention().without_slash(),
        ),
    )
}

/// The state after the draft is sent: a command is run, a message goes to the
/// agent, or waits for it.
#[verifier::opaque]
pub open spec fn submitted(v: TuiView) -> TuiView {
    let closed = popups_closed(v.editor);
    dispatched(
        app_state::with_editor(v, editor::line_taken(closed)),
        text::trimmed(editor::flushed(closed).composer.draft.text),
    )
}

/// The agents with a message taken back: it is not handed over any more, and its
/// row is dropped.
pub open spec fn desk_retracted(d: DeskView, i: int) -> DeskView {
    let p = d.submissions[i];
    let asked = desk::asked(
        DeskView { submissions: d.submissions.remove(i), ..d },
        EffectView::CancelSubmission { id: p.id },
    );
    let cleared = desk::with_queue(
        desk::with_history(asked, desk::row_removed(d.history, p)),
        p.agent,
        Seq::empty(),
    );
    if p.submitted {
        DeskView {
            suppressed: cleared.suppressed.update(agent::index_of(p.agent), true),
            ..cleared
        }
    } else {
        cleared
    }
}

/// The last message to an agent that can be taken back.
pub open spec fn retractable(v: TuiView, who: AgentType) -> Option<int> {
    desk::last_untouched(v.desk.submissions, v.desk.submissions.len() as int, who)
}

/// The state with the latest message to an agent taken back, as long as it has led
/// to no tool call: the message and all that was queued behind it are the draft
/// again. Of a message that was handed over already, what still comes is not shown.
#[verifier::opaque]
pub open spec fn retracted(v: TuiView, who: AgentType) -> TuiView {
    match retractable(v, who) {
        None => v,
        Some(i) => app_state::refreshed(
            redrafted(
                app_state::with_desk(v, desk_retracted(v.desk, i)),
                desk::stacked(
                    v.desk.submissions[i].text,
                    v.desk.queued[agent::index_of(who)],
                    0,
                ),
            ),
        ),
    }
}

/// The state with the messages queued for an agent put behind the draft.
#[verifier::opaque]
pub open spec fn requeued_to_draft(v: TuiView, who: AgentType) -> TuiView {
    let q = v.desk.queued[agent::index_of(who)];
    if q.len() == 0 {
        v
    } else {
        app_state::refreshed(
            redrafted(
                app_state::with_desk(v, desk::with_queue(v.desk, who, Seq::empty())),
                desk::stacked(v.editor.composer.draft.text, q, 0),
            ),
        )
    }
}

/// The state with the last message that waits for the focused agent as the draft.
#[verifier::opaque]
pub open spec fn reedited(v: TuiView) -> TuiView {
    let q = v.desk.queued[agent::index_of(v.focused)];
    if q.len() == 0 {
        v
    } else {
        app_state::refreshed(
            redrafted(
                app_state::with_desk(v, desk::with_queue(v.desk, v.focused, q.drop_last())),
                q.last(),
            ),
        )
    }
}

/// Takes the draft for sending and closes the popups.
fn take_message(e: &mut Editor) -> (r: String)
    requires
        old(e)@.wf(),
    ensures
        r@ == editor::flushed(popups_closed(old(e)@)).composer.draft.text,
        final(e)@ == editor::line_taken(popups_closed(old(e)@)),
        final(e)@.wf(),
{
    e.composer.close_popup();
    e.take_line()
}

impl Tui {
    /// Sends the draft.
    pub fn submit(&mut self)
        requires
            old(self)@.wf(),
        ensures
            final(self)@ == submitted(old(self)@),
            final(self)@.wf(),
    {
        reveal(submitted);
        let line = take_message(&mut self.editor);
        let s = text::trim(&line);
        self.dispatch(&s);
    }

    /// Runs a command, or sends or queues a message.
    fn dispatch(&mut self, s: &str)
        requires
            old(self)@.wf(),
        ensures
            final(self)@ == dispatched(old(self)@, s@),
            final(self)@.wf(),
    {
        reveal(dispatched);
        if s.is_empty() {
            return ;
        }
        if let Some(rest) = text::strip_prefix(s, "/") {
            self.run_command(&text::trim(&rest));
            return ;
        }
        let who = self.focused;
        if self.desk.busy(who) {
            self.desk.enqueue(who, s);
            self.refresh_pending_input_preview();
        } else {
            self.desk.send(who, s, self.screen.ide_enabled);
        }
    }

    /// Takes the latest message to an agent back. Tells whether there was one.
    pub fn retract_pending_submission(&mut self, who: AgentType) -> (r: bool)
        requires
            old(self)@.wf(),
        ensures
            final(self)@ == retracted(old(self)@, who),
            r == (retractable(old(self)@, who) is Some),
            final(self)@.wf(),
    {
        reveal(retracted);
        match retract(&mut self.desk, who) {
            None => false,
            Some(restored) => {
                self.editor.composer.set_text(&restored);
                self.refresh_pending_input_preview();
                true
            },
        }
    }

    /// Puts the messages queued for an agent behind the draft.
    pub fn restore_queued_inputs_after_interrupt(&mut self, who: AgentType)
        requires
            old(self)@.wf(),
        ensures
            final(self)@ == requeued_to_draft(old(self)@, who),
            final(self)@.wf(),
    {
        reveal(requeued_to_draft);
        proof {
            let k = agent::index_of(who);
            assert(self@.desk.queued[k].len() == self.desk.queued_inputs@[k]@.len());
        }
        if self.desk.queued_inputs[who.index()].len() == 0 {
            return ;
        }
        let queue = self.desk.take_queue(who);
        let restored = desk::stack_texts(&self.editor.composer.text(), &queue);
        self.editor.composer.set_text(&restored);
        self.refresh_pending_input_preview();
    }

    /// Takes the last message that waits for the focused agent back into the draft.
    /// Tells whether there was one.
    pub fn edit_last_queued_input(&mut self) -> (r: bool)
        requires
            old(self)@.wf(),
        ensures
            final(self)@ == reedited(old(self)@),
            r == (old(self)@.desk.queued[agent::index_of(old(self)@.focused)].len() > 0),
            final(self)@.wf(),
    {
        reveal(reedited);
        let who = self.focused;
        match self.desk.take_last_queued(who) {
            None => false,
            Some(s) => {
                self.editor.composer.set_text(&s);
                self.refresh_pending_input_preview();
                true
            },
        }
    }
}

/// Takes the latest message to an agent back. Gives its text and all that was
/// queued behind it.
fn retract(d: &mut Desk, who: AgentType) -> (r: Option<String>)
    requires
        old(d)@.wf(),
    ensures
        match desk::last_untouched(old(d)@.submissions, old(d)@.submissions.len() as int, who) {
            None => r is None && final(d)@ == old(d)@,
            Some(i) => {
                &&& r is Some
                &&& r->0@ == desk::stacked(
                    old(d)@.submissions[i].text,
                    old(d)@.queued[agent::index_of(who)],
                    0,
                )
                &&& final(d)@ == desk_retracted(old(d)@, i)
            },
        },
        final(d)@.wf(),
{
    proof {
        untouched_is_to(d@.submissions, d@.submissions.len() as int, who);
    }
    match d.take_untouched(who) {
        None => None,
        Some(p) => {
            d.ask(Effect::CancelSubmission { id: p.id });
            d.remove_row(&p);
            let queue = d.take_queue(who);
            let restored = desk::stack_texts(&p.text, &queue);
            if p.submitted {
                d.suppress_until_idle.set(who.index(), true);
            }
            Some(restored)
        },
    }
}

/// A message that can be taken back is one to the agent.
pub proof fn untouched_is_to(subs: Seq<SubmissionView>, n: int, who: AgentType)
    requires
        n <= subs.len(),
    ensures
        desk::last_untouched(subs, n, who) matches Some(i) ==> 0 <= i < n && subs[i].agent == who,
    decreases n,
{
    if n > 0 {
        untouched_is_to(subs, n - 1, who);
    }
}

// ---------------------------------------------------------------------------
// The clipboard and the pager
// ---------------------------------------------------------------------------

/// The state with the last response of the focused agent on its way to the
/// clipboard.
#[verifier::opaque]
pub open spec fn copying(v: TuiView) -> TuiView {
    match transcript::last_response(v.desk.history, v.desk.history.len() as int, v.focused) {
        Some(s) => app_state::asking(v, EffectView::Copy { text: s }),
        None => app_state::said(v, "no assistant response to copy"@, SysKind::Info),
    }
}

/// The state with the transcript in the pager, unless a screen is open.
#[verifier::opaque]
pub open spec fn paging(v: TuiView) -> TuiView {
    if v.screen.overlay is Some {
        v
    } else {
        app_state::asking(
            app_state::with_screen(v, Screen { pager: true, ..v.screen }),
            EffectView::OpenPager,
        )
    }
}

impl Tui {
    /// Copies the last response of the focused agent.
    pub fn copy_last_response(&mut self)
        requires
            old(self)@.wf(),
        ensures
            final(self)@ == copying(old(self)@),
            final(self)@.wf(),
    {
        reveal(copying);
        assert(transcript::cell_views(self.desk.history@).len() == self.desk.history@.len());
        match transcript::find_last_response(&self.desk.history, self.focused) {
            Some(s) => self.ask(Effect::Copy { text: s }),
            None => self.system("no assistant response to copy", SysKind::Info),
        }
    }

    /// Says how copying went.
    pub fn report_copy(&mut self, outcome: Result<(), String>)
        requires
            old(self)@.wf(),
        ensures
            final(self)@ == (match outcome {
                Ok(_) => app_state::said(old(self)@, "copied last response"@, SysKind::Info),
                Err(e) => app_state::said(old(self)@, "copy failed: "@ + e@, SysKind::Error),
            }),
            final(self)@.wf(),
    {
        match outcome {
            Ok(_) => self.system("copied last response", SysKind::Info),
            Err(e) => {
                let mut line = "copy failed: ".to_string();
                line.push_str(&e);
                self.system(&line, SysKind::Error);
            },
        }
    }

    /// Shows the transcript in the pager.
    pub fn open_pager(&mut self)
        requires
            old(self)@.wf(),
        ensures
            final(self)@ == paging(old(self)@),
            final(self)@.wf(),
    {
        reveal(paging);
        if self.screen.overlay.is_some() {
            return ;
        }
        self.screen.pager = true;
        self.ask(Effect::OpenPager);
    }
}

// ---------------------------------------------------------------------------
// Laws
// ---------------------------------------------------------------------------

/// A message that was just sent and is taken back at once is the draft again, with
/// the messages that waited behind it, and the transcript is as it was.
pub proof fn law_retract_undoes_send(v: TuiView, who: AgentType, s: Seq<char>, ide: bool)
    requires
        v.wf(),
    ensures
        ({
            let q = v.desk.queued[agent::index_of(who)];
            let w = retracted(app_state::with_desk(v, desk::sent(v.desk, who, s, ide)), who);
            &&& w.desk.history == v.desk.history
            &&& w.desk.submissions == v.desk.submissions
            &&& w.editor.composer.draft.text == desk::stacked(s, q, 0)
            &&& q.len() == 0 ==> w.editor.composer.draft.text == s
        }),
{
    reveal(retracted);
    let d = desk::sent(v.desk, who, s, ide);
    let n = v.desk.submissions.len() as int;
    assert(d.submissions[n].agent == who);
    assert(desk::last_untouched(d.submissions, n + 1, who) == Some(n));
    assert(d.submissions.remove(n) =~= v.desk.submissions);
    assert(d.history[v.desk.history.len() as int] == d.history.last());
    assert(d.history.remove(v.desk.history.len() as int) =~= v.desk.history);
}

/// Going through the agents forward and back ends where it began.
pub proof fn law_agent_cycle_returns(who: AgentType, forward: bool)
    ensures
        neighbour(neighbour(who, forward), !forward) == who,
{
    agent::law_agents_are_listed_once(who);
    popup_state::law_steps_undo_each_other(agent::index_of(who), AGENT_COUNT as int, forward);
    let i = popup_state::stepped(agent::index_of(who), AGENT_COUNT as int, forward);
    assert(agent::index_of(agent::agent_at(i)) == i);
}

/// What is sent reaches the agent that is written to: a message that is no command goes on its
/// way to the focused agent as it was written, or waits at the end of the queue of that agent
/// while it is busy, where the preview shows it. Nothing else is touched.
pub proof fn law_messages_reach_the_focused_agent(v: TuiView, s: Seq<char>)
    requires
        v.wf(),
        s.len() > 0,
        s[0] != '/',
    ensures
        ({
            let k = agent::index_of(v.focused);
            let after = dispatched(v, s);
            &&& !desk::is_busy(v.desk, v.focused) ==> {
                &&& after.desk.history == v.desk.history.push(
                    CellView::User { agent: v.focused, text: s },
                )
                &&& after.desk.outbox.len() == v.desk.outbox.len() + 1
                &&& after.desk.outbox.last() matches EffectView::Submit { agent, text, ide, .. }
                &&& agent == v.focused && text == s && ide == v.screen.ide_enabled
                &&& after.desk.queued == v.desk.queued
            }
            &&& desk::is_busy(v.desk, v.focused) ==> {
                &&& after.desk.queued[k] == v.desk.queued[k].push(s)
                &&& after.preview == after.desk.queued[k]
                &&& after.desk.outbox == v.desk.outbox
                &&& after.desk.history == v.desk.history
                &&& after.desk.submissions == v.desk.submissions
                &&& forall|i: int|
                    0 <= i < v.desk.queued.len() && i != k ==> #[trigger] after.desk.queued[i]
                        == v.desk.queued[i]
            }
            &&& after.screen == v.screen
            &&& after.editor == v.editor
            &&& after.focused == v.focused
            &&& after.prompts == v.prompts
        }),
{
    reveal(dispatched);
    reveal_strlit("/");
    assert("/"@.len() == 1 && "/"@[0] == '/');
    if s.take(1) =~= "/"@ {
        assert(s.take(1)[0] == s[0]);
    }
}

/// Text behind a slash is a command, with the white space round it left out.
pub proof fn law_slash_makes_a_command(v: TuiView, s: Seq<char>)
    ensures
        s.len() == 0 ==> dispatched(v, s) == v,
        dispatched(v, seq!['/'] + s) == app_command::command_run(v, text::trimmed(s)),
{
    reveal(dispatched);
    reveal_strlit("/");
    assert("/"@ =~= seq!['/']);
    let all = seq!['/'] + s;
    assert(all.take(1) =~= "/"@);
    assert(all.skip(1) =~= s);
}

/// To send the draft empties it. What goes out is what stands in it, without the white space
/// round it, and it is kept for being recalled.
pub proof fn law_sending_takes_the_draft(v: TuiView)
    requires
        v.wf(),
    ensures
        ({
            let e = editor::flushed(popups_closed(v.editor));
            let s = e.composer.draft.text;
            let w = app_state::with_editor(v, editor::line_taken(popups_closed(v.editor)));
            &&& submitted(v) == dispatched(w, text::trimmed(s))
            &&& w.editor.composer.draft.text.len() == 0
            &&& w.editor.composer.draft.cursor == 0
            &&& w.editor.composer.history == chat_composer::kept(e.composer.history, s)
            &&& text::trimmed(s).len() == 0 ==> submitted(v).desk == v.desk
            &&& text::trimmed(s).len() == 0 ==> submitted(v).screen == v.screen
        }),
{
    reveal(submitted);
    reveal(dispatched);
}

/// The agents come in turn: forward is the next in the order, and the first follows the last.
pub proof fn law_agents_come_in_turn(who: AgentType)
    ensures
        agent::index_of(neighbour(who, true)) == (agent::index_of(who) + 1) % 5,
        agent::index_of(neighbour(who, false)) == (agent::index_of(who) + 4) % 5,
{
}

/// Another agent to write to: it is the focused one, the composer names it, and the preview
/// shows what waits for it. No message is touched.
pub proof fn law_focus_follows_the_choice(v: TuiView, who: AgentType)
    ensures
        ({
            let after = focused_on(v, who);
            &&& after.focused == who
            &&& after.editor.composer.focused_agent == agent::agent_label(who)
            &&& after.editor.composer.draft == v.editor.composer.draft
            &&& after.preview == v.desk.queued[agent::index_of(who)]
            &&& after.desk == v.desk
            &&& after.screen == v.screen
            &&& after.prompts == v.prompts
        }),
{
    reveal(focused_on);
}

/// The last message that waits for the focused agent comes back for editing: it is the draft,
/// with the cursor behind it, and the others wait on.
pub proof fn law_last_queued_message_is_edited(v: TuiView, s: Seq<char>)
    requires
        v.wf(),
    ensures
        ({
            let k = agent::index_of(v.focused);
            let after = reedited(
                app_state::with_desk(v, desk::queued_for(v.desk, v.focused, s)),
            );
            &&& after.desk.queued == v.desk.queued
            &&& after.editor.composer.draft.text == s
            &&& after.editor.composer.draft.cursor == s.len()
            &&& after.preview == v.desk.queued[k]
            &&& after.desk.history == v.desk.history
            &&& after.desk.outbox == v.desk.outbox
            &&& v.desk.queued[k].len() == 0 ==> reedited(v) == v
        }),
{
    reveal(reedited);
    let k = agent::index_of(v.focused);
    assert(v.desk.queued[k].push(s).drop_last() =~= v.desk.queued[k]);
    assert(v.desk.queued.update(k, v.desk.queued[k].push(s)).update(k, v.desk.queued[k])
        =~= v.desk.queued);
}

/// What waits for an agent that is told to stop comes back into the draft, behind what stands
/// there, and waits no more. What waits for others is left alone.
pub proof fn law_queue_comes_back_to_the_draft(v: TuiView, who: AgentType, other: AgentType)
    requires
        v.wf(),
        who != other,
        forall|i: int|
            0 <= i < v.desk.queued[agent::index_of(who)].len() ==> (
            #[trigger] v.desk.queued[agent::index_of(who)][i]).len() > 0,
    ensures
        ({
            let q = v.desk.queued[agent::index_of(who)];
            let d = v.editor.composer.draft.text;
            let after = requeued_to_draft(v, who);
            &&& after.desk.queued[agent::index_of(who)].len() == 0
            &&& after.desk.queued[agent::index_of(other)] == v.desk.queued[agent::index_of(other)]
            &&& after.desk.history == v.desk.history
            &&& after.desk.outbox == v.desk.outbox
            &&& q.len() == 0 ==> after == v
            &&& q.len() > 0 && d.len() == 0 ==> after.editor.composer.draft.text == text::joined(
                q,
                seq!['\n'],
            )
            &&& q.len() > 0 && d.len() > 0 ==> after.editor.composer.draft.text == text::joined(
                seq![d] + q,
                seq!['\n'],
            )
        }),
{
    reveal(requeued_to_draft);
    desk::law_stacked_messages_stand_in_order(
        v.editor.composer.draft.text,
        v.desk.queued[agent::index_of(who)],
    );
}

/// A message that is taken back is not handed over any more: it is the newest to that agent
/// that has led to no tool call, it leaves the messages on their way, its handing over is
/// cancelled, and it is the draft, with what waited behind it below. Of one that was handed
/// over, what still comes is not shown.
pub proof fn law_retracted_message_is_cancelled(v: TuiView, who: AgentType, i: int)
    requires
        v.wf(),
        0 <= i < v.desk.submissions.len(),
        v.desk.submissions[i].agent == who,
        !v.desk.submissions[i].tool_started,
        forall|j: int|
            i < j < v.desk.submissions.len() ==> (#[trigger] v.desk.submissions[j]).agent != who
                || v.desk.submissions[j].tool_started,
    ensures
        ({
            let p = v.desk.submissions[i];
            let after = retracted(v, who);
            &&& after.desk.submissions == v.desk.submissions.remove(i)
            &&& after.desk.outbox == v.desk.outbox.push(EffectView::CancelSubmission { id: p.id })
            &&& after.desk.queued[agent::index_of(who)].len() == 0
            &&& p.submitted ==> after.desk.suppressed[agent::index_of(who)]
            &&& !p.submitted ==> after.desk.suppressed == v.desk.suppressed
            &&& v.desk.queued[agent::index_of(who)].len() == 0
                ==> after.editor.composer.draft.text == p.text
        }),
{
    reveal(retracted);
    desk::law_untouched_message_is_the_newest(v.desk.submissions, who, i);
    if let Some(f) = retractable(v, who) {
        desk::law_untouched_message_is_the_newest(v.desk.submissions, who, f);
        if i < f {
            assert(v.desk.submissions[f].agent != who || v.desk.submissions[f].tool_started);
        }
    }
}

} // verus!
