//! The `request_user_input` tool: questions to the user, checked and brought
//! into shape before they are asked.

use crate::agent::AgentType;
use crate::text;
use vstd::prelude::*;

verus! {

/// The shortest time after which a question may answer itself, in milliseconds.
/// With less, a question could be gone before the user sees it.
pub const MIN_AUTO_RESOLUTION_MS: u64 = 60_000;

/// The longest time after which a question may answer itself, in milliseconds.
pub const MAX_AUTO_RESOLUTION_MS: u64 = 240_000;

/// A time brought into the supported range.
pub open spec fn clamped(ms: u64) -> u64 {
    if ms < MIN_AUTO_RESOLUTION_MS {
        MIN_AUTO_RESOLUTION_MS
    } else if ms > MAX_AUTO_RESOLUTION_MS {
        MAX_AUTO_RESOLUTION_MS
    } else {
        ms
    }
}

/// An optional time brought into the supported range.
pub open spec fn clamped_opt(ms: Option<u64>) -> Option<u64> {
    match ms {
        Some(v) => Some(clamped(v)),
        None => None,
    }
}

/// Brings an optional time into the supported range.
pub fn clamp_auto_resolution(ms: Option<u64>) -> (r: Option<u64>)
    ensures
        r == clamped_opt(ms),
{
    match ms {
        None => None,
        Some(v) => {
            if v < MIN_AUTO_RESOLUTION_MS {
                Some(MIN_AUTO_RESOLUTION_MS)
            } else if v > MAX_AUTO_RESOLUTION_MS {
                Some(MAX_AUTO_RESOLUTION_MS)
            } else {
                Some(v)
            }
        },
    }
}

/// A time in range stays, and every time ends up in range.
pub proof fn law_clamp_is_into_range(ms: u64)
    ensures
        MIN_AUTO_RESOLUTION_MS <= clamped(ms) <= MAX_AUTO_RESOLUTION_MS,
        MIN_AUTO_RESOLUTION_MS <= ms <= MAX_AUTO_RESOLUTION_MS ==> clamped(ms) == ms,
        clamped(clamped(ms)) == clamped(ms),
{
}

/// One answer that a question offers.
#[derive(Debug, Clone)]
pub struct QuestionOption {
    pub label: String,
    pub description: String,
}

/// A question to the user.
#[derive(Debug, Clone)]
pub struct Question {
    pub id: String,
    pub header: String,
    pub question: String,
    pub is_other: bool,
    pub is_secret: bool,
    pub options: Option<Vec<QuestionOption>>,
}

/// A question with a free answer among those that it offers.
pub open spec fn with_other(q: Question) -> Question {
    Question { is_other: true, ..q }
}

/// Whether a text is blank.
pub open spec fn is_blank(s: Seq<char>) -> bool {
    text::trimmed(s).len() == 0
}

/// What is wrong with the first bad question from `i` on, if there is one.
pub open spec fn question_fault(qs: Seq<Question>, i: int) -> Option<Seq<char>>
    decreases qs.len() - i,
{
    if i < 0 || i >= qs.len() {
        None
    } else if is_blank(qs[i].id@) || is_blank(qs[i].header@) || is_blank(qs[i].question@) {
        Some("each question requires non-empty id, header, and question"@)
    } else if qs[i].options is None || qs[i].options->0@.len() == 0 {
        Some("each question requires non-empty options"@)
    } else {
        question_fault(qs, i + 1)
    }
}

/// What is wrong with the questions of a call, if anything.
pub open spec fn request_fault(qs: Seq<Question>) -> Option<Seq<char>> {
    if qs.len() == 0 || qs.len() > 3 {
        Some("questions must contain between 1 and 3 items"@)
    } else {
        question_fault(qs, 0)
    }
}

/// Questions that are ready to be asked.
#[derive(Debug)]
pub struct UserInputRequest {
    pub questions: Vec<Question>,
    pub auto_resolution_ms: Option<u64>,
}

/// The tool that asks the user.
pub struct RequestUserInputTool {
    pub agent: AgentType,
}

/// A tool for the given agent.
pub fn make(agent: AgentType) -> (r: RequestUserInputTool)
    ensures
        r.agent == agent,
{
    RequestUserInputTool::new(agent)
}

impl RequestUserInputTool {
    /// A tool for the given agent.
    pub fn new(agent: AgentType) -> (r: Self)
        ensures
            r.agent == agent,
    {
        RequestUserInputTool { agent }
    }

    /// The name of the tool.
    pub fn name(&self) -> (r: &'static str)
        ensures
            r@ == "request_user_input"@,
    {
        "request_user_input"
    }

    /// Checks questions and brings them into shape: each offers a free answer,
    /// and the time after which they answer themselves is in range.
    pub fn call(&self, questions: Vec<Question>, auto_resolution_ms: Option<u64>) -> (r: Result<
        UserInputRequest,
        String,
    >)
        ensures
            match r {
                Ok(request) => {
                    &&& request_fault(questions@) is None
                    &&& request.questions@ == questions@.map_values(|q: Question| with_other(q))
                    &&& request.auto_resolution_ms == clamped_opt(auto_resolution_ms)
                },
                Err(e) => request_fault(questions@) == Some(e@),
            },
    {
        if questions.len() == 0 || questions.len() > 3 {
            return Err("questions must contain between 1 and 3 items".to_owned());
        }
        let mut i: usize = 0;
        while i < questions.len()
            invariant
                i <= questions@.len(),
                1 <= questions@.len() <= 3,
                question_fault(questions@, i as int) == question_fault(questions@, 0),
            decreases questions@.len() - i,
        {
            if text::trim(&questions[i].id).as_str().is_empty() || text::trim(
                &questions[i].header,
            ).as_str().is_empty() || text::trim(&questions[i].question).as_str().is_empty() {
                return Err("each question requires non-empty id, header, and question".to_owned());
            }
            let missing = match &questions[i].options {
                Some(options) => options.len() == 0,
                None => true,
            };
            if missing {
                return Err("each question requires non-empty options".to_owned());
            }
            i += 1;
        }
        let ghost all = questions@;
        let ghost marked = all.map_values(|q: Question| with_other(q));
        let mut rest = questions;
        let mut out: Vec<Question> = Vec::new();
        assert(all.skip(0) =~= all);
        while rest.len() > 0
            invariant
                rest@.len() + out@.len() == all.len(),
                rest@ == all.skip(out@.len() as int),
                marked == all.map_values(|q: Question| with_other(q)),
                out@ == marked.take(out@.len() as int),
            decreases rest@.len(),
        {
            let ghost k = out@.len() as int;
            let q = rest.remove(0);
            assert(q == all[k]);
            out.push(
                Question {
                    id: q.id,
                    header: q.header,
                    question: q.question,
                    is_other: true,
                    is_secret: q.is_secret,
                    options: q.options,
                },
            );
            assert(out@.last() == marked[k]);
            assert(marked.take(k + 1) =~= marked.take(k).push(marked[k]));
            assert(rest@ =~= all.skip(k + 1));
        }
        assert(marked.take(marked.len() as int) =~= marked);
        Ok(
            UserInputRequest {
                questions: out,
                auto_resolution_ms: clamp_auto_resolution(auto_resolution_ms),
            },
        )
    }
}

/// Whether a question can be asked: it has an identifier, a header and a text that are not
/// blank, and something to choose from.
pub open spec fn can_be_asked(q: Question) -> bool {
    &&& text::trimmed(q.id@).len() > 0
    &&& text::trimmed(q.header@).len() > 0
    &&& text::trimmed(q.question@).len() > 0
    &&& q.options matches Some(options)
    &&& options@.len() > 0
}

/// A call may ask one, two or three questions, and each of them has to be one that can be
/// asked; then nothing is wrong with it, and else something is.
pub proof fn law_requests_hold_questions_that_can_be_asked(qs: Seq<Question>)
    ensures
        request_fault(qs) is None <==> 1 <= qs.len() <= 3 && forall|i: int|
            0 <= i < qs.len() ==> can_be_asked(#[trigger] qs[i]),
{
    faultless_from(qs, 0);
}

/// What is wrong with the questions from `i` on.
proof fn faultless_from(qs: Seq<Question>, i: int)
    requires
        0 <= i,
    ensures
        question_fault(qs, i) is None <==> forall|k: int|
            i <= k < qs.len() ==> can_be_asked(#[trigger] qs[k]),
    decreases qs.len() - i,
{
    if i < qs.len() {
        faultless_from(qs, i + 1);
        if can_be_asked(qs[i]) {
            assert forall|k: int|
                (forall|j: int| i + 1 <= j < qs.len() ==> can_be_asked(#[trigger] qs[j])) && i <= k
                    < qs.len() implies can_be_asked(#[trigger] qs[k]) by {
            }
        }
    }
}

/// A question waits at least a minute and at most four before it answers itself, a longer wish
/// never makes it wait less, and a wish in between is kept.
pub proof fn law_questions_wait_one_to_four_minutes(a: u64, b: u64)
    ensures
        60_000 <= clamped(a) <= 240_000,
        a <= b ==> clamped(a) <= clamped(b),
        60_000 <= a <= 240_000 ==> clamped(a) == a,
        clamped_opt(None) is None,
        clamped_opt(Some(a)) == Some(clamped(a)),
{
}

/// A question is asked as it was put, with a free answer besides those that it offers.
pub proof fn law_asked_questions_offer_a_free_answer(q: Question)
    ensures
        with_other(q).is_other,
        with_other(q).id == q.id,
        with_other(q).header == q.header,
        with_other(q).question == q.question,
        with_other(q).is_secret == q.is_secret,
        with_other(q).options == q.options,
{
}

} // verus!
