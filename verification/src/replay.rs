//! The transcript of earlier sessions, put together again from what was recorded.

use crate::agent::AgentType;
use crate::app_event;
use crate::app_state;
use crate::app_state::{InputRecord, PromptsView, RecordView, Tui, TuiView};
use crate::bottom_pane::chat_composer;
use crate::bottom_pane::chat_composer::ComposerView;
use crate::desk;
use crate::editor;
use crate::json;
use crate::json::{Arg, Json, JsonView, Shape, ShapeView};
use crate::request_user_input::Question;
use crate::text;
use crate::transcript;
use crate::transcript::{
    Cell, CellView, ToolArgs, ToolArgsView, ToolEntry, ToolValueView, ToolView,
};
use crate::user_input;
use crate::user_input::{Answer, AnswerView, QuestionView};
use vstd::prelude::*;

verus! {

/// Something that was recorded.
#[derive(Debug)]
pub enum HistoryItem {
    Message { role: String, parts: Vec<String> },
    Reasoning { body: String },
    FunctionCall {
        call_id: String,
        name: String,
        /// The arguments as they were recorded: JSON, or else any text.
        arguments: String,
        /// The questions of the call, where it asks the user and they can be read.
        questions: Option<Vec<Question>>,
    },
    FunctionCallOutput { call_id: String, output: String, answers: Vec<Answer> },
    Other,
}

/// What was recorded of one agent.
#[derive(Debug)]
pub struct SessionHistory {
    pub agent: AgentType,
    pub items: Vec<HistoryItem>,
}

/// The parts of a message, one behind the other.
pub open spec fn concat(parts: Seq<Seq<char>>, n: int) -> Seq<char>
    decreases n,
{
    if n <= 0 {
        Seq::empty()
    } else {
        concat(parts, n - 1) + parts[n - 1]
    }
}

/// The parts of a message, one behind the other.
fn concat_parts(parts: &Vec<String>) -> (r: String)
    ensures
        r@ == concat(text::views(parts@), parts@.len() as int),
{
    let mut out = String::new();
    let mut i: usize = 0;
    assert(out@ =~= concat(text::views(parts@), 0));
    while i < parts.len()
        invariant
            i <= parts@.len(),
            out@ == concat(text::views(parts@), i as int),
        decreases parts@.len() - i,
    {
        assert(text::views(parts@)[i as int] == parts@[i as int]@);
        out.push_str(&parts[i]);
        i += 1;
    }
    out
}

/// The arguments of a recorded call, given what their text is as JSON. A text that is
/// no JSON is kept as a JSON string; only an object has arguments by name.
pub open spec fn args_of(raw: Seq<char>, json: Option<JsonView>) -> ToolArgsView {
    match json {
        None => ToolArgsView { json: json::json_string(raw), args: Seq::empty() },
        Some(j) => ToolArgsView {
            json: j.text,
            args: match j.shape {
                ShapeView::Object(m) => m,
                _ => Seq::empty(),
            },
        },
    }
}

/// The arguments of a recorded call, given what their text is as JSON.
pub fn choose_args(raw: &str, json: Option<Json>) -> (r: ToolArgs)
    ensures
        r@ == args_of(raw@, json::opt_json(json)),
{
    match json {
        None => {
            let none: Vec<Arg> = Vec::new();
            assert(json::arg_views(none@) =~= Seq::empty());
            ToolArgs { json: json::quote_json(raw), args: none }
        },
        Some(j) => {
            let args = match j.shape {
                Shape::Object(m) => m,
                _ => {
                    let none: Vec<Arg> = Vec::new();
                    assert(json::arg_views(none@) =~= Seq::empty());
                    none
                },
            };
            ToolArgs { json: j.text, args }
        },
    }
}

/// The arguments of a recorded call.
pub fn read_args(raw: &str) -> (r: ToolArgs)
    ensures
        r@ == args_of(raw@, json::json_of(raw@)),
{
    choose_args(raw, json::read_json(raw))
}

/// The state with a message of the user: in the transcript, and to be recalled in
/// the composer.
#[verifier::opaque]
pub open spec fn user_replayed(v: TuiView, who: AgentType, s: Seq<char>) -> TuiView {
    let c = v.editor.composer;
    TuiView {
        editor: editor::with_composer(
            v.editor,
            ComposerView { history: chat_composer::recorded(c.history, s), ..c },
        ),
        desk: desk::with_cell(v.desk, CellView::User { agent: who, text: s }),
        ..v
    }
}

/// The state with one more cell.
#[verifier::opaque]
pub open spec fn cell_replayed(v: TuiView, c: CellView) -> TuiView {
    app_state::with_desk(v, desk::with_cell(v.desk, c))
}

/// The state after a recorded message. An empty one is left out.
#[verifier::opaque]
pub open spec fn message_replayed(v: TuiView, who: AgentType, role: Seq<char>, s: Seq<char>) -> TuiView {
    if s.len() == 0 {
        v
    } else if role == "user"@ {
        user_replayed(v, who, s)
    } else if role == "assistant"@ {
        cell_replayed(v, CellView::AgentMarkdown { agent: who, text: s })
    } else {
        v
    }
}

/// The state after recorded thoughts. Blank ones are left out.
#[verifier::opaque]
pub open spec fn reasoning_replayed(v: TuiView, who: AgentType, body: Seq<char>) -> TuiView {
    if text::trimmed(body).len() == 0 {
        v
    } else {
        cell_replayed(
            v,
            CellView::Reasoning { agent: who, text: body, transcript_only: false },
        )
    }
}

/// The state after a recorded call. Questions to the user wait for their answers.
#[verifier::opaque]
pub open spec fn call_replayed(
    v: TuiView,
    who: AgentType,
    call_id: Seq<char>,
    name: Seq<char>,
    arguments: Seq<char>,
    questions: Option<Seq<QuestionView>>,
) -> TuiView {
    if app_event::asks_user(name) && questions is Some {
        TuiView {
            prompts: PromptsView {
                requests: app_event::with_record(
                    v.prompts.requests,
                    RecordView { call_id, agent: who, questions: questions->0 },
                ),
                ..v.prompts
            },
            ..v
        }
    } else {
        app_state::with_desk(
            v,
            desk::with_history(
                v.desk,
                transcript::with_call(
                    v.desk.history,
                    who,
                    ToolView {
                        name,
                        args: args_of(arguments, json::json_of(arguments)),
                        result: None,
                        error: None,
                        started_at: None,
                        call_id: Some(call_id),
                    },
                ),
            ),
        )
    }
}

/// The state after a recorded output: the answers to questions, or what a call gave
/// back.
#[verifier::opaque]
pub open spec fn output_replayed(
    v: TuiView,
    who: AgentType,
    call_id: Seq<char>,
    output: Seq<char>,
    answers: Seq<AnswerView>,
) -> TuiView {
    if app_event::find_record(v.prompts.requests, 0, call_id) is Some {
        app_event::questions_answered(v, call_id, answers, false)
    } else {
        app_state::with_desk(
            v,
            desk::with_history(
                v.desk,
                transcript::with_output(v.desk.history, who, call_id, output),
            ),
        )
    }
}

/// What questions hold, if there are any.
pub open spec fn opt_questions(o: Option<Vec<Question>>) -> Option<Seq<QuestionView>> {
    match o {
        Some(v) => Some(user_input::question_views(v@)),
        None => None,
    }
}

/// The state after something that was recorded.
pub open spec fn replayed(v: TuiView, who: AgentType, item: HistoryItem) -> TuiView {
    match item {
        HistoryItem::Message { role, parts } => message_replayed(
            v,
            who,
            role@,
            concat(text::views(parts@), parts@.len() as int),
        ),
        HistoryItem::Reasoning { body } => reasoning_replayed(v, who, body@),
        HistoryItem::FunctionCall { call_id, name, arguments, questions } => call_replayed(
            v,
            who,
            call_id@,
            name@,
            arguments@,
            opt_questions(questions),
        ),
        HistoryItem::FunctionCallOutput { call_id, output, answers } => output_replayed(
            v,
            who,
            call_id@,
            output@,
            user_input::answer_views(answers@),
        ),
        HistoryItem::Other => v,
    }
}

/// The state after the first `n` items of an agent.
pub open spec fn items_replayed(v: TuiView, who: AgentType, items: Seq<HistoryItem>, n: int) -> TuiView
    decreases n,
{
    if n <= 0 {
        v
    } else {
        replayed(items_replayed(v, who, items, n - 1), who, items[n - 1])
    }
}

/// The state after the first `n` agents.
pub open spec fn sessions_replayed(v: TuiView, sessions: Seq<SessionHistory>, n: int) -> TuiView
    decreases n,
{
    if n <= 0 {
        v
    } else {
        let s = sessions[n - 1];
        items_replayed(
            sessions_replayed(v, sessions, n - 1),
            s.agent,
            s.items@,
            s.items@.len() as int,
        )
    }
}

impl Tui {
    /// Adds a message of the user.
    fn replay_user(&mut self, who: AgentType, s: String)
        requires
            old(self)@.wf(),
        ensures
            final(self)@ == user_replayed(old(self)@, who, s@),
            final(self)@.wf(),
    {
        reveal(user_replayed);
        self.editor.composer.record_history(&s);
        self.desk.add_cell(Cell::User { agent: who, text: s });
    }

    /// Adds a cell.
    fn replay_cell(&mut self, cell: Cell)
        requires
            old(self)@.wf(),
        ensures
            final(self)@ == cell_replayed(old(self)@, cell@),
            final(self)@.wf(),
    {
        reveal(cell_replayed);
        self.desk.add_cell(cell);
    }

    /// Takes a recorded message.
    fn replay_message(&mut self, who: AgentType, role: &str, s: String)
        requires
            old(self)@.wf(),
        ensures
            final(self)@ == message_replayed(old(self)@, who, role@, s@),
            final(self)@.wf(),
    {
        reveal(message_replayed);
        if s.as_str().is_empty() {
            return ;
        }
        if text::same(role, "user") {
            self.replay_user(who, s);
        } else if text::same(role, "assistant") {
            self.replay_cell(Cell::AgentMarkdown { agent: who, text: s });
        }
    }

    /// Takes recorded thoughts.
    fn replay_reasoning(&mut self, who: AgentType, body: String)
        requires
            old(self)@.wf(),
        ensures
            final(self)@ == reasoning_replayed(old(self)@, who, body@),
            final(self)@.wf(),
    {
        reveal(reasoning_replayed);
        if text::trim(&body).as_str().is_empty() {
            return ;
        }
        self.replay_cell(Cell::Reasoning { agent: who, text: body, transcript_only: false });
    }

    /// Takes a recorded call.
    fn replay_call(
        &mut self,
        who: AgentType,
        call_id: String,
        name: String,
        arguments: &str,
        questions: Option<Vec<Question>>,
    )
        requires
            old(self)@.wf(),
        ensures
            final(self)@ == call_replayed(
                old(self)@,
                who,
                call_id@,
                name@,
                arguments@,
                opt_questions(questions),
            ),
            final(self)@.wf(),
    {
        reveal(call_replayed);
        if text::same(&name, "request_user_input") {
            if let Some(questions) = questions {
                app_event::insert_record(
                    &mut self.prompts.requests,
                    InputRecord { call_id, agent: who, questions },
                );
                return ;
            }
        }
        let entry = ToolEntry {
            name,
            args: read_args(arguments),
            result: None,
            error: None,
            started_at: None,
            call_id: Some(call_id),
        };
        transcript::append_call(&mut self.desk.history, who, entry);
    }

    /// Takes a recorded output.
    fn replay_output(
        &mut self,
        who: AgentType,
        call_id: String,
        output: String,
        answers: Vec<Answer>,
    )
        requires
            old(self)@.wf(),
        ensures
            final(self)@ == output_replayed(
                old(self)@,
                who,
                call_id@,
                output@,
                user_input::answer_views(answers@),
            ),
            final(self)@.wf(),
    {
        reveal(output_replayed);
        if app_event::has_record(&self.prompts.requests, &call_id) {
            self.add_answers(&call_id, answers, false);
        } else {
            transcript::attach_output(&mut self.desk.history, who, &call_id, output);
        }
    }

    /// Takes something that was recorded.
    fn replay(&mut self, who: AgentType, item: HistoryItem)
        requires
            old(self)@.wf(),
        ensures
            final(self)@ == replayed(old(self)@, who, item),
            final(self)@.wf(),
    {
        match item {
            HistoryItem::Message { role, parts } => {
                let s = concat_parts(&parts);
                self.replay_message(who, &role, s);
            },
            HistoryItem::Reasoning { body } => self.replay_reasoning(who, body),
            HistoryItem::FunctionCall { call_id, name, arguments, questions } => self.replay_call(
                who,
                call_id,
                name,
                &arguments,
                questions,
            ),
            HistoryItem::FunctionCallOutput { call_id, output, answers } => self.replay_output(
                who,
                call_id,
                output,
                answers,
            ),
            HistoryItem::Other => {},
        }
    }

    /// Takes all that was recorded of an agent.
    fn replay_items(&mut self, who: AgentType, items: Vec<HistoryItem>)
        requires
            old(self)@.wf(),
        ensures
            final(self)@ == items_replayed(old(self)@, who, items@, items@.len() as int),
            final(self)@.wf(),
    {
        let ghost v = self@;
        let ghost all = items@;
        let mut rest = items;
        let ghost mut i: int = 0;
        assert(rest@ =~= all.skip(0));
        while rest.len() > 0
            invariant
                0 <= i <= all.len(),
                rest@ == all.skip(i),
                self@.wf(),
                self@ == items_replayed(v, who, all, i),
            decreases rest@.len(),
        {
            let item = rest.remove(0);
            assert(item == all[i]);
            assert(rest@ =~= all.skip(i + 1));
            self.replay(who, item);
            proof {
                i = i + 1;
            }
        }
    }

    /// Puts the transcript of earlier sessions together again.
    pub fn restore_history(&mut self, sessions: Vec<SessionHistory>)
        requires
            old(self)@.wf(),
        ensures
            final(self)@ == sessions_replayed(old(self)@, sessions@, sessions@.len() as int),
            final(self)@.wf(),
    {
        let ghost v = self@;
        let ghost all = sessions@;
        let mut rest = sessions;
        let ghost mut i: int = 0;
        assert(rest@ =~= all.skip(0));
        while rest.len() > 0
            invariant
                0 <= i <= all.len(),
                rest@ == all.skip(i),
                self@.wf(),
                self@ == sessions_replayed(v, all, i),
            decreases rest@.len(),
        {
            let s = rest.remove(0);
            assert(s == all[i]);
            assert(rest@ =~= all.skip(i + 1));
            self.replay_items(s.agent, s.items);
            proof {
                i = i + 1;
            }
        }
    }
}

// ---------------------------------------------------------------------------
// Laws
// ---------------------------------------------------------------------------

/// Replay never sends anything and never changes what an agent is doing: work for
/// others, statuses, queues and messages on their way stay as they are.
pub proof fn law_replay_is_quiet(v: TuiView, who: AgentType, item: HistoryItem)
    ensures
        ({
            let w = replayed(v, who, item);
            &&& w.desk.outbox == v.desk.outbox
            &&& w.desk.statuses == v.desk.statuses
            &&& w.desk.queued == v.desk.queued
            &&& w.desk.submissions == v.desk.submissions
            &&& w.editor.composer.draft == v.editor.composer.draft
            &&& w.screen == v.screen
            &&& w.focused == v.focused
        }),
{
    reveal(message_replayed);
    reveal(user_replayed);
    reveal(cell_replayed);
    reveal(reasoning_replayed);
    reveal(call_replayed);
    reveal(output_replayed);
    reveal(app_event::questions_answered);
}

/// A recorded output finds the call that it belongs to by its id, also when other
/// calls were recorded in between.
pub proof fn law_outputs_find_their_calls(
    items: Seq<ToolView>,
    n: int,
    k: int,
    call_id: Seq<char>,
)
    requires
        0 <= k < n <= items.len(),
        items[k].call_id == Some(call_id),
        forall|j: int| k < j < n ==> (#[trigger] items[j]).call_id != Some(call_id),
    ensures
        transcript::find_id(items, n, call_id) == Some(k),
    decreases n,
{
    if n - 1 != k {
        law_outputs_find_their_calls(items, n - 1, k, call_id);
    }
}

/// What was said is in the transcript again: a message of the user as one, which can be recalled
/// in the composer too, and one of the assistant as an answer of its agent. Other roles, and
/// messages without text, leave nothing.
pub proof fn law_recorded_messages_are_shown_again(
    v: TuiView,
    who: AgentType,
    role: Seq<char>,
    s: Seq<char>,
)
    ensures
        ({
            let after = message_replayed(v, who, role, s);
            let h = v.editor.composer.history;
            &&& s.len() > 0 && role == "user"@ ==> {
                &&& after.desk.history == v.desk.history.push(
                    CellView::User { agent: who, text: s },
                )
                &&& text::trimmed(s).len() > 0 ==> after.editor.composer.history.len() > 0
                    && after.editor.composer.history.last() == s
                &&& h.len() > 0 && h.last() == s ==> after.editor.composer.history == h
            }
            &&& s.len() > 0 && role == "assistant"@ ==> {
                &&& after.desk.history == v.desk.history.push(
                    CellView::AgentMarkdown { agent: who, text: s },
                )
                &&& after.editor == v.editor
            }
            &&& s.len() == 0 || (role != "user"@ && role != "assistant"@) ==> after == v
        }),
{
    reveal(message_replayed);
    reveal(user_replayed);
    reveal(cell_replayed);
    reveal_strlit("user");
    reveal_strlit("assistant");
    assert("user"@.len() != "assistant"@.len());
}

/// Recorded thoughts stand in the transcript as they were, blank ones do not.
pub proof fn law_recorded_thoughts_are_shown_again(v: TuiView, who: AgentType, body: Seq<char>)
    ensures
        text::trimmed(body).len() == 0 ==> reasoning_replayed(v, who, body) == v,
        text::trimmed(body).len() > 0 ==> reasoning_replayed(v, who, body).desk.history
            == v.desk.history.push(
            CellView::Reasoning { agent: who, text: body, transcript_only: false },
        ),
{
    reveal(reasoning_replayed);
    reveal(cell_replayed);
}

/// A recorded call and the output recorded after it come together: the call has its name, its
/// arguments and its id, and the output as its result.
pub proof fn law_recorded_outputs_join_their_calls(
    v: TuiView,
    who: AgentType,
    call_id: Seq<char>,
    name: Seq<char>,
    arguments: Seq<char>,
    output: Seq<char>,
    answers: Seq<AnswerView>,
)
    requires
        name != "request_user_input"@,
        app_event::find_record(v.prompts.requests, 0, call_id) is None,
    ensures
        ({
            let called = call_replayed(v, who, call_id, name, arguments, None);
            let after = output_replayed(called, who, call_id, output, answers);
            &&& after.desk.history.len() == called.desk.history.len()
            &&& after.desk.history.len() > 0
            &&& after.desk.history.last() matches CellView::ToolGroup { agent, items }
            &&& agent == who
            &&& items.len() > 0
            &&& items.last().name == name
            &&& items.last().call_id == Some(call_id)
            &&& items.last().result == Some(ToolValueView::Text(output))
            &&& items.last().error is None
            &&& items.last().args == args_of(arguments, json::json_of(arguments))
        }),
{
    reveal(call_replayed);
    reveal(output_replayed);
    let called = call_replayed(v, who, call_id, name, arguments, None);
    let cells = called.desk.history;
    let n = cells.len() as int;
    let items = transcript::calls_of(cells[n - 1]);
    assert(transcript::find_id(items, items.len() as int, call_id) == Some(items.len() - 1));
    assert(transcript::find_id_cell(cells, n, who, call_id) == Some((n - 1, items.len() - 1)));
}

/// The items of an agent are taken one after the other, and the agents one after the other.
pub proof fn law_replay_goes_in_order(
    v: TuiView,
    who: AgentType,
    items: Seq<HistoryItem>,
    item: HistoryItem,
    sessions: Seq<SessionHistory>,
    session: SessionHistory,
)
    ensures
        items_replayed(v, who, items.push(item), items.len() as int + 1) == replayed(
            items_replayed(v, who, items, items.len() as int),
            who,
            item,
        ),
        items_replayed(v, who, items, 0) == v,
        sessions_replayed(v, sessions, 0) == v,
        sessions_replayed(v, sessions.push(session), sessions.len() as int + 1) == items_replayed(
            sessions_replayed(v, sessions, sessions.len() as int),
            session.agent,
            session.items@,
            session.items@.len() as int,
        ),
{
    first_items(v, who, items, item, items.len() as int);
    first_sessions(v, sessions, session, sessions.len() as int);
}

/// An item behind does not touch those before.
proof fn first_items(
    v: TuiView,
    who: AgentType,
    items: Seq<HistoryItem>,
    item: HistoryItem,
    n: int,
)
    requires
        n <= items.len(),
    ensures
        items_replayed(v, who, items.push(item), n) == items_replayed(v, who, items, n),
    decreases n,
{
    if n > 0 {
        first_items(v, who, items, item, n - 1);
        assert(items.push(item)[n - 1] == items[n - 1]);
    }
}

/// An agent behind does not touch those before.
proof fn first_sessions(
    v: TuiView,
    sessions: Seq<SessionHistory>,
    session: SessionHistory,
    n: int,
)
    requires
        n <= sessions.len(),
    ensures
        sessions_replayed(v, sessions.push(session), n) == sessions_replayed(v, sessions, n),
    decreases n,
{
    if n > 0 {
        first_sessions(v, sessions, session, n - 1);
        assert(sessions.push(session)[n - 1] == sessions[n - 1]);
    }
}

} // verus!
