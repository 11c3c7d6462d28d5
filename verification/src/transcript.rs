//! The transcript: what was said and done, cell by cell.

use crate::agent::AgentType;
use crate::json;
use crate::json::{Arg, ArgView};
use crate::request_user_input::Question;
use crate::text;
use crate::user_input;
use crate::user_input::{Answer, AnswerView, QuestionView};
use vstd::prelude::*;

verus! {

/// How a notice of the program itself is meant.
#[derive(Debug, Clone, Copy, PartialEq, Eq, Structural)]
pub enum SysKind {
    Info,
    Error,
}

/// Where a message comes from.
#[derive(Debug, Clone, Copy, PartialEq, Eq, Structural)]
pub enum MessageSource {
    User,
    System,
    Agent(AgentType),
}

/// The arguments of a tool: their JSON text, and each by its name.
#[derive(Debug)]
pub struct ToolArgs {
    pub json: String,
    pub args: Vec<Arg>,
}

/// The arguments of a tool.
#[verifier::ext_equal]
pub struct ToolArgsView {
    pub json: Seq<char>,
    pub args: Seq<ArgView>,
}

impl View for ToolArgs {
    type V = ToolArgsView;

    open spec fn view(&self) -> ToolArgsView {
        ToolArgsView { json: self.json@, args: json::arg_views(self.args@) }
    }
}

/// What a tool gave back: a text, or some other value in its JSON form.
#[derive(Debug)]
pub enum ToolValue {
    Text(String),
    Json(String),
}

/// What a tool gave back.
pub enum ToolValueView {
    Text(Seq<char>),
    Json(Seq<char>),
}

impl View for ToolValue {
    type V = ToolValueView;

    open spec fn view(&self) -> ToolValueView {
        match self {
            ToolValue::Text(s) => ToolValueView::Text(s@),
            ToolValue::Json(s) => ToolValueView::Json(s@),
        }
    }
}

/// What a tool gave back, if it is through.
pub open spec fn opt_value(o: Option<ToolValue>) -> Option<ToolValueView> {
    match o {
        Some(v) => Some(v@),
        None => None,
    }
}

/// A call of a tool.
#[derive(Debug)]
pub struct ToolEntry {
    pub name: String,
    pub args: ToolArgs,
    pub result: Option<ToolValue>,
    pub error: Option<String>,
    pub started_at: Option<u64>,
    pub call_id: Option<String>,
}

/// A call of a tool.
#[verifier::ext_equal]
pub struct ToolView {
    pub name: Seq<char>,
    pub args: ToolArgsView,
    pub result: Option<ToolValueView>,
    pub error: Option<Seq<char>>,
    pub started_at: Option<u64>,
    pub call_id: Option<Seq<char>>,
}

impl View for ToolEntry {
    type V = ToolView;

    open spec fn view(&self) -> ToolView {
        ToolView {
            name: self.name@,
            args: self.args@,
            result: opt_value(self.result),
            error: text::opt_view(self.error),
            started_at: self.started_at,
            call_id: text::opt_view(self.call_id),
        }
    }
}

/// What calls hold.
pub open spec fn tool_views(v: Seq<ToolEntry>) -> Seq<ToolView> {
    v.map_values(|t: ToolEntry| t@)
}

/// Something between two agents.
#[derive(Debug)]
pub enum CollabEvent {
    Message { source: MessageSource, content: String },
    Failed { error: String },
    Replied { summary: String, content: String },
    Blocked { report_type: String, summary: String, content: String },
    Waiting,
}

/// Something between two agents.
pub enum CollabView {
    Message { source: MessageSource, content: Seq<char> },
    Failed { error: Seq<char> },
    Replied { summary: Seq<char>, content: Seq<char> },
    Blocked { report_type: Seq<char>, summary: Seq<char>, content: Seq<char> },
    Waiting,
}

impl View for CollabEvent {
    type V = CollabView;

    open spec fn view(&self) -> CollabView {
        match self {
            CollabEvent::Message { source, content } => CollabView::Message {
                source: *source,
                content: content@,
            },
            CollabEvent::Failed { error } => CollabView::Failed { error: error@ },
            CollabEvent::Replied { summary, content } => CollabView::Replied {
                summary: summary@,
                content: content@,
            },
            CollabEvent::Blocked { report_type, summary, content } => CollabView::Blocked {
                report_type: report_type@,
                summary: summary@,
                content: content@,
            },
            CollabEvent::Waiting => CollabView::Waiting,
        }
    }
}

/// A step of a plan.
#[derive(Debug)]
pub struct PlanStep {
    pub text: String,
    pub status: String,
}

/// A step of a plan.
pub struct PlanStepView {
    pub text: Seq<char>,
    pub status: Seq<char>,
}

impl View for PlanStep {
    type V = PlanStepView;

    open spec fn view(&self) -> PlanStepView {
        PlanStepView { text: self.text@, status: self.status@ }
    }
}

/// What steps hold.
pub open spec fn step_views(v: Seq<PlanStep>) -> Seq<PlanStepView> {
    v.map_values(|s: PlanStep| s@)
}

/// A cell of the transcript.
#[derive(Debug)]
pub enum Cell {
    User { agent: AgentType, text: String },
    AgentMessage { agent: AgentType, text: String, is_first_line: bool },
    AgentMarkdown { agent: AgentType, text: String },
    Reasoning { agent: AgentType, text: String, transcript_only: bool },
    ToolGroup { agent: AgentType, items: Vec<ToolEntry> },
    Collab { agent: AgentType, event: CollabEvent },
    TurnSeparator {
        agent: AgentType,
        elapsed_seconds: Option<u64>,
        runtime_metrics: Option<String>,
    },
    PlanUpdate { agent: AgentType, explanation: Option<String>, steps: Vec<PlanStep> },
    UserInputResult {
        agent: AgentType,
        questions: Vec<Question>,
        answers: Vec<Answer>,
        interrupted: bool,
    },
    System { text: String, kind: SysKind },
}

/// A cell of the transcript.
pub enum CellView {
    User { agent: AgentType, text: Seq<char> },
    AgentMessage { agent: AgentType, text: Seq<char>, is_first_line: bool },
    AgentMarkdown { agent: AgentType, text: Seq<char> },
    Reasoning { agent: AgentType, text: Seq<char>, transcript_only: bool },
    ToolGroup { agent: AgentType, items: Seq<ToolView> },
    Collab { agent: AgentType, event: CollabView },
    TurnSeparator {
        agent: AgentType,
        elapsed_seconds: Option<u64>,
        runtime_metrics: Option<Seq<char>>,
    },
    PlanUpdate {
        agent: AgentType,
        explanation: Option<Seq<char>>,
        steps: Seq<PlanStepView>,
    },
    UserInputResult {
        agent: AgentType,
        questions: Seq<QuestionView>,
        answers: Seq<AnswerView>,
        interrupted: bool,
    },
    System { text: Seq<char>, kind: SysKind },
}

impl View for Cell {
    type V = CellView;

    open spec fn view(&self) -> CellView {
        match self {
            Cell::User { agent, text } => CellView::User { agent: *agent, text: text@ },
            Cell::AgentMessage { agent, text, is_first_line } => CellView::AgentMessage {
                agent: *agent,
                text: text@,
                is_first_line: *is_first_line,
            },
            Cell::AgentMarkdown { agent, text } => CellView::AgentMarkdown {
                agent: *agent,
                text: text@,
            },
            Cell::Reasoning { agent, text, transcript_only } => CellView::Reasoning {
                agent: *agent,
                text: text@,
                transcript_only: *transcript_only,
            },
            Cell::ToolGroup { agent, items } => CellView::ToolGroup {
                agent: *agent,
                items: tool_views(items@),
            },
            Cell::Collab { agent, event } => CellView::Collab { agent: *agent, event: event@ },
            Cell::TurnSeparator { agent, elapsed_seconds, runtime_metrics } =>
            CellView::TurnSeparator {
                agent: *agent,
                elapsed_seconds: *elapsed_seconds,
                runtime_metrics: text::opt_view(*runtime_metrics),
            },
            Cell::PlanUpdate { agent, explanation, steps } => CellView::PlanUpdate {
                agent: *agent,
                explanation: text::opt_view(*explanation),
                steps: step_views(steps@),
            },
            Cell::UserInputResult { agent, questions, answers, interrupted } =>
            CellView::UserInputResult {
                agent: *agent,
                questions: user_input::question_views(questions@),
                answers: user_input::answer_views(answers@),
                interrupted: *interrupted,
            },
            Cell::System { text, kind } => CellView::System { text: text@, kind: *kind },
        }
    }
}

/// What cells hold.
pub open spec fn cell_views(v: Seq<Cell>) -> Seq<CellView> {
    v.map_values(|c: Cell| c@)
}

/// Puts a cell behind others.
pub fn push_cell(cells: &mut Vec<Cell>, cell: Cell)
    ensures
        cell_views(final(cells)@) == cell_views(old(cells)@).push(cell@),
{
    let ghost before = cells@;
    cells.push(cell);
    assert(cell_views(cells@) =~= cell_views(before).push(cell@));
}

// ---------------------------------------------------------------------------
// Cells that still change
// ---------------------------------------------------------------------------

/// Whether a call is still under way.
pub open spec fn is_open(t: ToolView) -> bool {
    t.result is None && t.error is None
}

/// Whether one of the calls is under way.
pub open spec fn has_open(items: Seq<ToolView>) -> bool {
    exists|i: int| 0 <= i < items.len() && is_open(#[trigger] items[i])
}

/// Whether a cell may still change: a message that is being streamed, or calls of
/// which one is under way.
pub open spec fn is_live(c: CellView) -> bool {
    match c {
        CellView::AgentMessage { .. } => true,
        CellView::ToolGroup { items, .. } => has_open(items),
        _ => false,
    }
}

/// How many of the first `n` cells stand before those at the end that may still
/// change.
pub open spec fn committed(cells: Seq<CellView>, n: int) -> int
    decreases n,
{
    if n <= 0 {
        0
    } else if is_live(cells[n - 1]) {
        committed(cells, n - 1)
    } else {
        n
    }
}

/// Whether one of the calls is under way.
fn any_open(items: &Vec<ToolEntry>) -> (r: bool)
    ensures
        r == has_open(tool_views(items@)),
{
    let mut i: usize = 0;
    while i < items.len()
        invariant
            i <= items@.len(),
            forall|k: int| 0 <= k < i ==> !is_open(#[trigger] tool_views(items@)[k]),
        decreases items@.len() - i,
    {
        assert(tool_views(items@)[i as int] == items@[i as int]@);
        if items[i].result.is_none() && items[i].error.is_none() {
            assert(is_open(tool_views(items@)[i as int]));
            return true;
        }
        i += 1;
    }
    false
}

/// Whether a cell may still change.
fn cell_is_live(cell: &Cell) -> (r: bool)
    ensures
        r == is_live(cell@),
{
    match cell {
        Cell::AgentMessage { .. } => true,
        Cell::ToolGroup { items, .. } => any_open(items),
        _ => false,
    }
}

/// How many cells will not change any more.
pub fn committed_len(cells: &Vec<Cell>) -> (r: usize)
    ensures
        r as int == committed(cell_views(cells@), cells@.len() as int),
        r <= cells@.len(),
{
    let mut end: usize = cells.len();
    while end > 0
        invariant
            end <= cells@.len(),
            committed(cell_views(cells@), end as int) == committed(
                cell_views(cells@),
                cells@.len() as int,
            ),
        decreases end,
    {
        assert(cell_views(cells@)[end - 1] == cells@[end - 1]@);
        if !cell_is_live(&cells[end - 1]) {
            return end;
        }
        end -= 1;
    }
    0
}

// ---------------------------------------------------------------------------
// Streamed messages
// ---------------------------------------------------------------------------

/// Whether a cell is a message that the agent streams.
pub open spec fn streams(c: CellView, who: AgentType) -> bool {
    c matches CellView::AgentMessage { agent, .. } && agent == who
}

/// The text of a message that is being streamed.
pub open spec fn streamed_text(c: CellView) -> Seq<char> {
    match c {
        CellView::AgentMessage { text, .. } => text,
        _ => Seq::empty(),
    }
}

/// The transcript with a piece of a streamed message: behind the message that the
/// agent streams, if that is the last cell, else in a new one.
pub open spec fn streamed(cells: Seq<CellView>, who: AgentType, delta: Seq<char>) -> Seq<CellView> {
    if cells.len() > 0 && streams(cells.last(), who) {
        cells.drop_last().push(
            CellView::AgentMessage {
                agent: who,
                text: streamed_text(cells.last()) + delta,
                is_first_line: cells.last()->is_first_line,
            },
        )
    } else {
        cells.push(CellView::AgentMessage { agent: who, text: delta, is_first_line: true })
    }
}

/// Adds a piece of a streamed message.
pub fn append_stream(cells: &mut Vec<Cell>, who: AgentType, delta: String)
    ensures
        cell_views(final(cells)@) == streamed(cell_views(old(cells)@), who, delta@),
{
    let ghost before = cells@;
    let ghost all = cell_views(before);
    match cells.pop() {
        None => {
            assert(cells@ =~= before);
        },
        Some(Cell::AgentMessage { agent, text, is_first_line }) => {
            assert(cell_views(cells@) =~= all.drop_last());
            assert(all.last() == before.last()@);
            if agent == who {
                let mut more = text;
                more.push_str(&delta);
                push_cell(cells, Cell::AgentMessage { agent, text: more, is_first_line });
                return ;
            }
            cells.push(Cell::AgentMessage { agent, text, is_first_line });
            assert(cell_views(cells@) =~= all);
        },
        Some(cell) => {
            assert(all.last() == before.last()@);
            cells.push(cell);
            assert(cells@ =~= before);
        },
    }
    push_cell(cells, Cell::AgentMessage { agent: who, text: delta, is_first_line: true });
}

/// Where the messages begin that the agent streamed at the end of the first `n`
/// cells.
pub open spec fn stream_start(cells: Seq<CellView>, n: int, who: AgentType) -> int
    decreases n,
{
    if n > 0 && streams(cells[n - 1], who) {
        stream_start(cells, n - 1, who)
    } else {
        n
    }
}

/// The texts of streamed messages, one behind the other.
pub open spec fn stream_text(cells: Seq<CellView>, from: int, to: int) -> Seq<char>
    decreases to - from,
{
    if from >= to {
        Seq::empty()
    } else {
        stream_text(cells, from, to - 1) + streamed_text(cells[to - 1])
    }
}

/// The transcript with the messages that an agent streamed at its end made into
/// one finished message.
pub open spec fn consolidated(cells: Seq<CellView>, who: AgentType) -> Seq<CellView> {
    let n = cells.len() as int;
    let start = stream_start(cells, n, who);
    if start >= n {
        cells
    } else {
        cells.take(start).push(
            CellView::AgentMarkdown { agent: who, text: stream_text(cells, start, n) },
        )
    }
}

/// Streamed messages begin inside the transcript.
proof fn stream_start_inside(cells: Seq<CellView>, n: int, who: AgentType)
    requires
        0 <= n,
    ensures
        0 <= stream_start(cells, n, who) <= n,
    decreases n,
{
    if n > 0 && streams(cells[n - 1], who) {
        stream_start_inside(cells, n - 1, who);
    }
}

/// Makes what an agent streamed at the end into one finished message.
pub fn consolidate_agent_message(cells: &mut Vec<Cell>, who: AgentType)
    ensures
        cell_views(final(cells)@) == consolidated(cell_views(old(cells)@), who),
{
    let ghost all = cell_views(cells@);
    let end: usize = cells.len();
    let mut start: usize = end;
    let mut found = true;
    while start > 0 && found
        invariant
            start <= end,
            end == cells@.len(),
            all == cell_views(cells@),
            stream_start(all, start as int, who) == stream_start(all, end as int, who),
            !found ==> stream_start(all, start as int, who) == start,
        decreases start, found as int,
    {
        assert(all[start - 1] == cells@[start - 1]@);
        found = match &cells[start - 1] {
            Cell::AgentMessage { agent, .. } => *agent == who,
            _ => false,
        };
        if found {
            start -= 1;
        }
    }
    if start == end {
        return ;
    }
    let mut whole = String::new();
    let mut i: usize = start;
    assert(whole@ =~= stream_text(all, start as int, start as int));
    while i < end
        invariant
            start <= i <= end,
            end == cells@.len(),
            all == cell_views(cells@),
            whole@ == stream_text(all, start as int, i as int),
        decreases end - i,
    {
        assert(all[i as int] == cells@[i as int]@);
        if let Cell::AgentMessage { text, .. } = &cells[i] {
            whole.push_str(text);
        }
        assert(whole@ =~= stream_text(all, start as int, i + 1));
        i += 1;
    }
    cells.truncate(start);
    assert(cell_views(cells@) =~= all.take(start as int));
    push_cell(cells, Cell::AgentMarkdown { agent: who, text: whole });
}

// ---------------------------------------------------------------------------
// Tool calls
// ---------------------------------------------------------------------------

/// Whether a cell holds calls of the agent.
pub open spec fn groups(c: CellView, who: AgentType) -> bool {
    c matches CellView::ToolGroup { agent, .. } && agent == who
}

/// The calls in a cell.
pub open spec fn calls_of(c: CellView) -> Seq<ToolView> {
    match c {
        CellView::ToolGroup { items, .. } => items,
        _ => Seq::empty(),
    }
}

/// The transcript with one more call: in the last cell, if that holds calls of
/// the agent, else in a new one.
pub open spec fn with_call(cells: Seq<CellView>, who: AgentType, entry: ToolView) -> Seq<CellView> {
    if cells.len() > 0 && groups(cells.last(), who) {
        cells.drop_last().push(
            CellView::ToolGroup { agent: who, items: calls_of(cells.last()).push(entry) },
        )
    } else {
        cells.push(CellView::ToolGroup { agent: who, items: seq![entry] })
    }
}

/// Adds a cell with one call.
fn push_group(cells: &mut Vec<Cell>, who: AgentType, entry: ToolEntry)
    ensures
        cell_views(final(cells)@) == cell_views(old(cells)@).push(
            CellView::ToolGroup { agent: who, items: seq![entry@] },
        ),
{
    let mut items: Vec<ToolEntry> = Vec::new();
    items.push(entry);
    assert(tool_views(items@) =~= seq![entry@]);
    push_cell(cells, Cell::ToolGroup { agent: who, items });
}

/// Adds a call.
pub fn append_call(cells: &mut Vec<Cell>, who: AgentType, entry: ToolEntry)
    ensures
        cell_views(final(cells)@) == with_call(cell_views(old(cells)@), who, entry@),
{
    let ghost before = cells@;
    let ghost all = cell_views(before);
    match cells.pop() {
        None => {
            assert(cells@ =~= before);
        },
        Some(Cell::ToolGroup { agent, items }) => {
            assert(cell_views(cells@) =~= all.drop_last());
            assert(all.last() == before.last()@);
            if agent == who {
                let mut more = items;
                more.push(entry);
                assert(tool_views(more@) =~= tool_views(items@).push(entry@));
                push_cell(cells, Cell::ToolGroup { agent, items: more });
                return ;
            }
            cells.push(Cell::ToolGroup { agent, items });
            assert(cell_views(cells@) =~= all);
        },
        Some(cell) => {
            assert(all.last() == before.last()@);
            cells.push(cell);
            assert(cells@ =~= before);
        },
    }
    push_group(cells, who, entry);
}

/// Whether a result belongs to a call: the call is under way without a result, and
/// has the same id, or has no id and the same tool.
pub open spec fn answers_call(t: ToolView, name: Seq<char>, call_id: Seq<char>) -> bool {
    t.result is None && match t.call_id {
        Some(id) => id == call_id,
        None => t.name == name,
    }
}

/// The last of the first `n` calls that a result belongs to.
pub open spec fn find_call(items: Seq<ToolView>, n: int, name: Seq<char>, call_id: Seq<char>) -> Option<
    int,
>
    decreases n,
{
    if n <= 0 {
        None
    } else if answers_call(items[n - 1], name, call_id) {
        Some(n - 1)
    } else {
        find_call(items, n - 1, name, call_id)
    }
}

/// The last of the first `n` cells with a call of the agent that a result belongs
/// to, and the place of that call.
pub open spec fn find_cell(
    cells: Seq<CellView>,
    n: int,
    who: AgentType,
    name: Seq<char>,
    call_id: Seq<char>,
) -> Option<(int, int)>
    decreases n,
{
    if n <= 0 {
        None
    } else {
        let items = calls_of(cells[n - 1]);
        match find_call(items, items.len() as int, name, call_id) {
            Some(k) => if groups(cells[n - 1], who) {
                Some((n - 1, k))
            } else {
                find_cell(cells, n - 1, who, name, call_id)
            },
            None => find_cell(cells, n - 1, who, name, call_id),
        }
    }
}

/// A cell with the result of one of its calls filled in.
pub open spec fn resolved(
    cell: CellView,
    k: int,
    result: Option<ToolValueView>,
    error: Option<Seq<char>>,
) -> CellView {
    match cell {
        CellView::ToolGroup { agent, items } => CellView::ToolGroup {
            agent,
            items: items.update(k, ToolView { result, error, ..items[k] }),
        },
        _ => cell,
    }
}

/// The transcript with a result: at the call that it belongs to, else in a cell of
/// its own.
pub open spec fn with_result(
    cells: Seq<CellView>,
    who: AgentType,
    name: Seq<char>,
    call_id: Seq<char>,
    result: ToolValueView,
    error: Option<Seq<char>>,
) -> Seq<CellView> {
    match find_cell(cells, cells.len() as int, who, name, call_id) {
        Some((i, k)) => cells.update(i, resolved(cells[i], k, Some(result), error)),
        None => cells.push(
            CellView::ToolGroup {
                agent: who,
                items: seq![
                    ToolView {
                        name,
                        args: no_args(),
                        result: Some(result),
                        error,
                        started_at: None,
                        call_id: Some(call_id),
                    },
                ],
            },
        ),
    }
}

/// The arguments of a call that was not seen.
pub open spec fn no_args() -> ToolArgsView {
    ToolArgsView { json: "null"@, args: Seq::empty() }
}

/// The place of the last call that a result belongs to.
fn locate_call(items: &Vec<ToolEntry>, name: &str, call_id: &str) -> (r: Option<usize>)
    ensures
        (match r {
            Some(k) => Some(k as int),
            None => None::<int>,
        }) == find_call(tool_views(items@), items@.len() as int, name@, call_id@),
        r matches Some(k) ==> k < items@.len(),
{
    let mut n: usize = items.len();
    while n > 0
        invariant
            n <= items@.len(),
            find_call(tool_views(items@), n as int, name@, call_id@) == find_call(
                tool_views(items@),
                items@.len() as int,
                name@,
                call_id@,
            ),
        decreases n,
    {
        let item = &items[n - 1];
        assert(tool_views(items@)[n - 1] == item@);
        let hit = item.result.is_none() && match &item.call_id {
            Some(id) => text::same(id, call_id),
            None => text::same(&item.name, name),
        };
        if hit {
            return Some(n - 1);
        }
        n -= 1;
    }
    None
}

/// The place of the last cell with a call that a result belongs to.
fn locate_cell(cells: &Vec<Cell>, who: AgentType, name: &str, call_id: &str) -> (r: Option<
    (usize, usize),
>)
    ensures
        (match r {
            Some(p) => Some((p.0 as int, p.1 as int)),
            None => None::<(int, int)>,
        }) == find_cell(cell_views(cells@), cells@.len() as int, who, name@, call_id@),
        r matches Some(p) ==> p.0 < cells@.len() && cells@[p.0 as int] is ToolGroup && p.1
            < cells@[p.0 as int]->ToolGroup_items@.len(),
{
    let mut n: usize = cells.len();
    while n > 0
        invariant
            n <= cells@.len(),
            find_cell(cell_views(cells@), n as int, who, name@, call_id@) == find_cell(
                cell_views(cells@),
                cells@.len() as int,
                who,
                name@,
                call_id@,
            ),
        decreases n,
    {
        assert(cell_views(cells@)[n - 1] == cells@[n - 1]@);
        if let Cell::ToolGroup { agent, items } = &cells[n - 1] {
            if *agent == who {
                assert(tool_views(items@).len() == items@.len());
                if let Some(k) = locate_call(items, name, call_id) {
                    return Some((n - 1, k));
                }
            }
        }
        n -= 1;
    }
    None
}

/// Fills in the result of a call.
fn resolve_at(
    cells: &mut Vec<Cell>,
    i: usize,
    k: usize,
    result: Option<ToolValue>,
    error: Option<String>,
)
    requires
        i < old(cells)@.len(),
        old(cells)@[i as int] is ToolGroup,
        k < old(cells)@[i as int]->ToolGroup_items@.len(),
    ensures
        cell_views(final(cells)@) == cell_views(old(cells)@).update(
            i as int,
            resolved(
                cell_views(old(cells)@)[i as int],
                k as int,
                opt_value(result),
                text::opt_view(error),
            ),
        ),
{
    let ghost before = cells@;
    let ghost all = cell_views(before);
    assert(all[i as int] == before[i as int]@);
    let cell = cells.remove(i);
    match cell {
        Cell::ToolGroup { agent, items } => {
            let mut list = items;
            let ghost calls = list@;
            let mut entry = list.remove(k);
            entry.result = result;
            entry.error = error;
            list.insert(k, entry);
            assert(tool_views(list@) =~= tool_views(calls).update(
                k as int,
                ToolView {
                    result: opt_value(result),
                    error: text::opt_view(error),
                    ..tool_views(calls)[k as int]
                },
            ));
            let done = Cell::ToolGroup { agent, items: list };
            cells.insert(i, done);
            assert(cell_views(cells@) =~= all.update(i as int, done@));
        },
        other => {
            cells.insert(i, other);
        },
    }
}

/// Adds the result of a call.
pub fn attach_result(
    cells: &mut Vec<Cell>,
    who: AgentType,
    name: String,
    call_id: String,
    result: ToolValue,
    error: Option<String>,
)
    ensures
        cell_views(final(cells)@) == with_result(
            cell_views(old(cells)@),
            who,
            name@,
            call_id@,
            result@,
            text::opt_view(error),
        ),
{
    match locate_cell(cells, who, &name, &call_id) {
        Some((i, k)) => resolve_at(cells, i, k, Some(result), error),
        None => {
            let args = ToolArgs { json: "null".to_string(), args: Vec::new() };
            assert(args@ =~= no_args());
            let entry = ToolEntry {
                name,
                args,
                result: Some(result),
                error,
                started_at: None,
                call_id: Some(call_id),
            };
            push_group(cells, who, entry);
        },
    }
}

// ---------------------------------------------------------------------------
// Replay
// ---------------------------------------------------------------------------

/// The last of the first `n` calls with an id.
pub open spec fn find_id(items: Seq<ToolView>, n: int, call_id: Seq<char>) -> Option<int>
    decreases n,
{
    if n <= 0 {
        None
    } else if items[n - 1].call_id == Some(call_id) {
        Some(n - 1)
    } else {
        find_id(items, n - 1, call_id)
    }
}

/// The last of the first `n` cells with a call of the agent that has an id, and
/// the place of that call.
pub open spec fn find_id_cell(cells: Seq<CellView>, n: int, who: AgentType, call_id: Seq<char>) -> Option<
    (int, int),
>
    decreases n,
{
    if n <= 0 {
        None
    } else {
        let items = calls_of(cells[n - 1]);
        match find_id(items, items.len() as int, call_id) {
            Some(k) => if groups(cells[n - 1], who) {
                Some((n - 1, k))
            } else {
                find_id_cell(cells, n - 1, who, call_id)
            },
            None => find_id_cell(cells, n - 1, who, call_id),
        }
    }
}

/// The transcript with a recorded output at the call with its id. Without such a
/// call the output is dropped.
pub open spec fn with_output(
    cells: Seq<CellView>,
    who: AgentType,
    call_id: Seq<char>,
    output: Seq<char>,
) -> Seq<CellView> {
    match find_id_cell(cells, cells.len() as int, who, call_id) {
        Some((i, k)) => {
            let error = calls_of(cells[i])[k].error;
            cells.update(i, resolved(cells[i], k, Some(ToolValueView::Text(output)), error))
        },
        None => cells,
    }
}

/// Adds a recorded output.
pub fn attach_output(cells: &mut Vec<Cell>, who: AgentType, call_id: &str, output: String)
    ensures
        cell_views(final(cells)@) == with_output(
            cell_views(old(cells)@),
            who,
            call_id@,
            output@,
        ),
{
    let ghost all = cell_views(cells@);
    let mut n: usize = cells.len();
    while n > 0
        invariant
            n <= cells@.len(),
            all == cell_views(cells@),
            all == cell_views(old(cells)@),
            find_id_cell(all, n as int, who, call_id@) == find_id_cell(
                all,
                cells@.len() as int,
                who,
                call_id@,
            ),
        decreases n,
    {
        assert(all[n - 1] == cells@[n - 1]@);
        let mut hit: Option<usize> = None;
        let mut kept: Option<String> = None;
        if let Cell::ToolGroup { agent, items } = &cells[n - 1] {
            if *agent == who {
                hit = locate_id(items, call_id);
                assert(tool_views(items@).len() == items@.len());
                if let Some(k) = hit {
                    kept = text::copy_opt(&items[k].error);
                    assert(tool_views(items@)[k as int] == items@[k as int]@);
                }
            }
        }
        if let Some(k) = hit {
            resolve_at(cells, n - 1, k, Some(ToolValue::Text(output)), kept);
            return ;
        }
        n -= 1;
    }
}

/// The place of the last call with an id.
fn locate_id(items: &Vec<ToolEntry>, call_id: &str) -> (r: Option<usize>)
    ensures
        (match r {
            Some(k) => Some(k as int),
            None => None::<int>,
        }) == find_id(tool_views(items@), items@.len() as int, call_id@),
        r matches Some(k) ==> k < items@.len(),
{
    let mut n: usize = items.len();
    while n > 0
        invariant
            n <= items@.len(),
            find_id(tool_views(items@), n as int, call_id@) == find_id(
                tool_views(items@),
                items@.len() as int,
                call_id@,
            ),
        decreases n,
    {
        assert(tool_views(items@)[n - 1] == items@[n - 1]@);
        let hit = match &items[n - 1].call_id {
            Some(id) => text::same(id, call_id),
            None => false,
        };
        if hit {
            return Some(n - 1);
        }
        n -= 1;
    }
    None
}

// ---------------------------------------------------------------------------
// Metrics and responses
// ---------------------------------------------------------------------------

/// The last of the first `n` cells that ends a turn of the agent and has no
/// metrics yet.
pub open spec fn open_separator(cells: Seq<CellView>, n: int, who: AgentType) -> Option<int>
    decreases n,
{
    if n <= 0 {
        None
    } else if cells[n - 1] matches CellView::TurnSeparator { agent, runtime_metrics, .. } && agent
        == who && runtime_metrics is None {
        Some(n - 1)
    } else {
        open_separator(cells, n - 1, who)
    }
}

/// The transcript with metrics at the turn of the agent that ended last.
pub open spec fn with_metrics(cells: Seq<CellView>, who: AgentType, metrics: Seq<char>) -> Seq<
    CellView,
> {
    match open_separator(cells, cells.len() as int, who) {
        None => cells,
        Some(i) => cells.update(
            i,
            CellView::TurnSeparator {
                agent: who,
                elapsed_seconds: match cells[i] {
                    CellView::TurnSeparator { elapsed_seconds, .. } => elapsed_seconds,
                    _ => None,
                },
                runtime_metrics: Some(metrics),
            },
        ),
    }
}

/// Adds metrics to the turn of the agent that ended last.
pub fn attach_metrics(cells: &mut Vec<Cell>, who: AgentType, metrics: String)
    ensures
        cell_views(final(cells)@) == with_metrics(cell_views(old(cells)@), who, metrics@),
{
    let ghost all = cell_views(cells@);
    let mut n: usize = cells.len();
    while n > 0
        invariant
            n <= cells@.len(),
            all == cell_views(cells@),
            all == cell_views(old(cells)@),
            open_separator(all, n as int, who) == open_separator(all, cells@.len() as int, who),
        decreases n,
    {
        assert(all[n - 1] == cells@[n - 1]@);
        let mut hit = false;
        let mut elapsed: Option<u64> = None;
        if let Cell::TurnSeparator { agent, elapsed_seconds, runtime_metrics } = &cells[n - 1] {
            if *agent == who && runtime_metrics.is_none() {
                hit = true;
                elapsed = *elapsed_seconds;
            }
        }
        if hit {
            let cell = Cell::TurnSeparator {
                agent: who,
                elapsed_seconds: elapsed,
                runtime_metrics: Some(metrics),
            };
            let ghost before = cells@;
            cells.set(n - 1, cell);
            assert(cell_views(cells@) =~= all.update(n - 1, cell@));
            return ;
        }
        n -= 1;
    }
}

/// The text of a cell that is a response of the agent, if it is not empty.
pub open spec fn response_text(c: CellView, who: AgentType) -> Option<Seq<char>> {
    match c {
        CellView::AgentMarkdown { agent, text } => if agent == who && text.len() > 0 {
            Some(text)
        } else {
            None
        },
        CellView::AgentMessage { agent, text, .. } => if agent == who && text.len() > 0 {
            Some(text)
        } else {
            None
        },
        _ => None,
    }
}

/// The last response of an agent among the first `n` cells.
pub open spec fn last_response(cells: Seq<CellView>, n: int, who: AgentType) -> Option<Seq<char>>
    decreases n,
{
    if n <= 0 {
        None
    } else if response_text(cells[n - 1], who) is Some {
        response_text(cells[n - 1], who)
    } else {
        last_response(cells, n - 1, who)
    }
}

/// The last response of an agent.
pub fn find_last_response(cells: &Vec<Cell>, who: AgentType) -> (r: Option<String>)
    ensures
        text::opt_view(r) == last_response(cell_views(cells@), cells@.len() as int, who),
{
    let mut n: usize = cells.len();
    while n > 0
        invariant
            n <= cells@.len(),
            last_response(cell_views(cells@), n as int, who) == last_response(
                cell_views(cells@),
                cells@.len() as int,
                who,
            ),
        decreases n,
    {
        assert(cell_views(cells@)[n - 1] == cells@[n - 1]@);
        match &cells[n - 1] {
            Cell::AgentMarkdown { agent, text } => {
                if *agent == who && !text.as_str().is_empty() {
                    return Some(text.as_str().to_string());
                }
            },
            Cell::AgentMessage { agent, text, .. } => {
                if *agent == who && !text.as_str().is_empty() {
                    return Some(text.as_str().to_string());
                }
            },
            _ => {},
        }
        n -= 1;
    }
    None
}

// ---------------------------------------------------------------------------
// Laws
// ---------------------------------------------------------------------------

/// Streaming a message in pieces and then finishing it gives the message that the
/// pieces add up to.
pub proof fn law_stream_adds_up(
    cells: Seq<CellView>,
    who: AgentType,
    first: Seq<char>,
    second: Seq<char>,
)
    requires
        stream_start(cells, cells.len() as int, who) == cells.len(),
    ensures
        consolidated(streamed(streamed(cells, who, first), who, second), who) == cells.push(
            CellView::AgentMarkdown { agent: who, text: first + second },
        ),
        streamed(streamed(cells, who, first), who, second) == streamed(cells, who, first + second),
{
    let n = cells.len() as int;
    let one = streamed(cells, who, first);
    if n > 0 {
        stream_start_inside(cells, n - 1, who);
    }
    assert(one =~= cells.push(
        CellView::AgentMessage { agent: who, text: first, is_first_line: true },
    ));
    let two = streamed(one, who, second);
    assert(one.drop_last() =~= cells);
    assert(two =~= cells.push(
        CellView::AgentMessage { agent: who, text: first + second, is_first_line: true },
    ));
    stream_start_prefix(cells, two, n, who);
    assert(stream_start(two, n + 1, who) == stream_start(two, n, who));
    assert(stream_text(two, n, n) =~= Seq::<char>::empty());
    assert(stream_text(two, n, n + 1) =~= first + second) by {
        reveal_with_fuel(stream_text, 2);
    }
    assert(two.take(n) =~= cells);
}

/// Where streamed messages begin depends on the cells before alone.
proof fn stream_start_prefix(a: Seq<CellView>, b: Seq<CellView>, n: int, who: AgentType)
    requires
        0 <= n <= a.len(),
        n <= b.len(),
        forall|i: int| 0 <= i < n ==> a[i] == b[i],
    ensures
        stream_start(a, n, who) == stream_start(b, n, who),
    decreases n,
{
    if n > 0 {
        stream_start_prefix(a, b, n - 1, who);
    }
}

/// Cells that count as finished are so: the last one of them does not change any
/// more, and all cells behind them may.
pub proof fn law_committed_cells_are_settled(cells: Seq<CellView>, n: int)
    requires
        0 <= n <= cells.len(),
    ensures
        0 <= committed(cells, n) <= n,
        committed(cells, n) > 0 ==> !is_live(cells[committed(cells, n) - 1]),
        forall|i: int| committed(cells, n) <= i < n ==> is_live(#[trigger] cells[i]),
    decreases n,
{
    if n > 0 && is_live(cells[n - 1]) {
        law_committed_cells_are_settled(cells, n - 1);
    }
}

/// A result goes to the call with its id, even if other calls of the same tool
/// came later: as long as calls have ids, results find their calls in any order.
pub proof fn law_results_find_their_calls(
    items: Seq<ToolView>,
    n: int,
    k: int,
    name: Seq<char>,
    call_id: Seq<char>,
)
    requires
        0 <= k < n <= items.len(),
        items[k].result is None,
        items[k].call_id == Some(call_id),
        forall|j: int|
            0 <= j < n && j != k ==> (#[trigger] items[j]).call_id is Some && items[j].call_id->0
                != call_id,
    ensures
        find_call(items, n, name, call_id) == Some(k),
    decreases n,
{
    if n - 1 != k {
        law_results_find_their_calls(items, n - 1, k, name, call_id);
    }
}

/// A result changes no cell but the one with its call, and adds one cell at most.
pub proof fn law_results_keep_other_cells(
    cells: Seq<CellView>,
    who: AgentType,
    name: Seq<char>,
    call_id: Seq<char>,
    result: ToolValueView,
    error: Option<Seq<char>>,
)
    ensures
        ({
            let after = with_result(cells, who, name, call_id, result, error);
            &&& cells.len() <= after.len() <= cells.len() + 1
            &&& forall|i: int|
                0 <= i < cells.len() && (find_cell(
                    cells,
                    cells.len() as int,
                    who,
                    name,
                    call_id,
                ) matches Some(p) ==> p.0 != i) ==> #[trigger] after[i] == cells[i]
        }),
{
    find_cell_inside(cells, cells.len() as int, who, name, call_id);
}

/// A call that is found stands in one of the cells.
proof fn find_cell_inside(
    cells: Seq<CellView>,
    n: int,
    who: AgentType,
    name: Seq<char>,
    call_id: Seq<char>,
)
    ensures
        find_cell(cells, n, who, name, call_id) matches Some(p) ==> 0 <= p.0 < n,
    decreases n,
{
    if n > 0 {
        find_cell_inside(cells, n - 1, who, name, call_id);
    }
}

/// What a cell shows of a response of an agent: a message or rendered text that is not empty.
pub open spec fn response_of(cell: CellView, who: AgentType) -> Option<Seq<char>> {
    let shown = if cell is AgentMessage && cell->AgentMessage_agent == who {
        cell->AgentMessage_text
    } else if cell is AgentMarkdown && cell->AgentMarkdown_agent == who {
        cell->AgentMarkdown_text
    } else {
        Seq::empty()
    };
    if shown.len() > 0 {
        Some(shown)
    } else {
        None
    }
}

/// Whether the cell at `i` is the newest response of an agent.
pub open spec fn is_newest_response(cells: Seq<CellView>, who: AgentType, i: int) -> bool {
    &&& 0 <= i < cells.len()
    &&& response_of(cells[i], who) is Some
    &&& forall|j: int| i < j < cells.len() ==> response_of(#[trigger] cells[j], who) is None
}

/// The last response of an agent is the text of its newest response cell.
pub proof fn law_last_response_is_the_newest(cells: Seq<CellView>, who: AgentType, i: int)
    ensures
        is_newest_response(cells, who, i) ==> last_response(cells, cells.len() as int, who)
            == response_of(cells[i], who),
        (forall|j: int| 0 <= j < cells.len() ==> response_of(#[trigger] cells[j], who) is None)
            ==> last_response(cells, cells.len() as int, who) is None,
{
    last_response_found(cells, cells.len() as int, who);
}

/// The last response among the first cells.
proof fn last_response_found(cells: Seq<CellView>, n: int, who: AgentType)
    requires
        0 <= n <= cells.len(),
    ensures
        forall|i: int|
            #![trigger cells[i]]
            0 <= i < n && response_of(cells[i], who) is Some && (forall|j: int|
                i < j < n ==> response_of(#[trigger] cells[j], who) is None) ==> last_response(
                cells,
                n,
                who,
            ) == response_of(cells[i], who),
        (forall|j: int| 0 <= j < n ==> response_of(#[trigger] cells[j], who) is None)
            ==> last_response(cells, n, who) is None,
    decreases n,
{
    if n > 0 {
        last_response_found(cells, n - 1, who);
        assert(response_text(cells[n - 1], who) == response_of(cells[n - 1], who));
    }
}

} // verus!
