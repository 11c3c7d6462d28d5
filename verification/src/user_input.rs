//! Questions that wait for the user, and their answers.

use crate::agent::AgentType;
use crate::clock;
use crate::request_user_input::{Question, QuestionOption};
use crate::text;
use vstd::prelude::*;

verus! {

/// One answer that a question offers.
#[verifier::ext_equal]
pub struct OptionView {
    pub label: Seq<char>,
    pub description: Seq<char>,
}

/// A question to the user.
#[verifier::ext_equal]
pub struct QuestionView {
    pub id: Seq<char>,
    pub header: Seq<char>,
    pub question: Seq<char>,
    pub is_other: bool,
    pub is_secret: bool,
    pub options: Option<Seq<OptionView>>,
}

/// What an offered answer holds.
pub open spec fn option_view(o: QuestionOption) -> OptionView {
    OptionView { label: o.label@, description: o.description@ }
}

/// What offered answers hold.
pub open spec fn option_views(v: Seq<QuestionOption>) -> Seq<OptionView> {
    v.map_values(|o: QuestionOption| option_view(o))
}

/// What a question holds.
pub open spec fn question_view(q: Question) -> QuestionView {
    QuestionView {
        id: q.id@,
        header: q.header@,
        question: q.question@,
        is_other: q.is_other,
        is_secret: q.is_secret,
        options: match q.options {
            Some(v) => Some(option_views(v@)),
            None => None,
        },
    }
}

/// What questions hold.
pub open spec fn question_views(v: Seq<Question>) -> Seq<QuestionView> {
    v.map_values(|q: Question| question_view(q))
}

/// The same offered answers again.
fn copy_options(v: &Vec<QuestionOption>) -> (r: Vec<QuestionOption>)
    ensures
        option_views(r@) == option_views(v@),
{
    let mut out: Vec<QuestionOption> = Vec::new();
    let mut i: usize = 0;
    let ghost all = option_views(v@);
    assert(option_views(out@) =~= all.take(0));
    while i < v.len()
        invariant
            i <= v@.len(),
            all == option_views(v@),
            option_views(out@) == all.take(i as int),
        decreases v@.len() - i,
    {
        let ghost before = out@;
        let o = QuestionOption {
            label: v[i].label.as_str().to_string(),
            description: v[i].description.as_str().to_string(),
        };
        assert(option_view(o) =~= all[i as int]);
        out.push(o);
        assert(option_views(out@) =~= option_views(before).push(option_view(o)));
        assert(all.take(i + 1) =~= all.take(i as int).push(all[i as int]));
        i += 1;
    }
    assert(all.take(i as int) =~= all);
    out
}

/// The same questions again.
pub fn copy_questions(v: &Vec<Question>) -> (r: Vec<Question>)
    ensures
        question_views(r@) == question_views(v@),
{
    let mut out: Vec<Question> = Vec::new();
    let mut i: usize = 0;
    let ghost all = question_views(v@);
    assert(question_views(out@) =~= all.take(0));
    while i < v.len()
        invariant
            i <= v@.len(),
            all == question_views(v@),
            question_views(out@) == all.take(i as int),
        decreases v@.len() - i,
    {
        let ghost before = out@;
        let q = Question {
            id: v[i].id.as_str().to_string(),
            header: v[i].header.as_str().to_string(),
            question: v[i].question.as_str().to_string(),
            is_other: v[i].is_other,
            is_secret: v[i].is_secret,
            options: match &v[i].options {
                Some(o) => Some(copy_options(o)),
                None => None,
            },
        };
        assert(question_view(q) =~= all[i as int]);
        out.push(q);
        assert(question_views(out@) =~= question_views(before).push(question_view(q)));
        assert(all.take(i + 1) =~= all.take(i as int).push(all[i as int]));
        i += 1;
    }
    assert(all.take(i as int) =~= all);
    out
}

/// What was answered to one question.
#[derive(Debug)]
pub struct Answer {
    pub question: String,
    pub given: Vec<String>,
}

/// What was answered to one question.
#[verifier::ext_equal]
pub struct AnswerView {
    pub question: Seq<char>,
    pub given: Seq<Seq<char>>,
}

impl View for Answer {
    type V = AnswerView;

    open spec fn view(&self) -> AnswerView {
        AnswerView { question: self.question@, given: text::views(self.given@) }
    }
}

/// What answers hold.
pub open spec fn answer_views(v: Seq<Answer>) -> Seq<AnswerView> {
    v.map_values(|a: Answer| a@)
}

/// Questions that an agent waits on, and how far the user has come with them.
#[derive(Debug)]
pub struct PendingUserInput {
    pub agent: AgentType,
    pub call_id: String,
    pub questions: Vec<Question>,
    pub auto_resolution_ms: Option<u64>,
    pub question_index: usize,
    pub selected: usize,
    pub draft: String,
    pub cursor: usize,
    pub answers: Vec<Answer>,
    pub started_at: u64,
}

/// Questions that an agent waits on, and how far the user has come with them.
#[verifier::ext_equal]
pub struct PendingInputView {
    pub agent: AgentType,
    pub call_id: Seq<char>,
    pub questions: Seq<QuestionView>,
    pub auto_resolution_ms: Option<u64>,
    pub question_index: int,
    pub selected: int,
    pub draft: Seq<char>,
    pub cursor: int,
    pub answers: Seq<AnswerView>,
    pub started_at: u64,
}

impl View for PendingUserInput {
    type V = PendingInputView;

    open spec fn view(&self) -> PendingInputView {
        PendingInputView {
            agent: self.agent,
            call_id: self.call_id@,
            questions: question_views(self.questions@),
            auto_resolution_ms: self.auto_resolution_ms,
            question_index: self.question_index as int,
            selected: self.selected as int,
            draft: self.draft@,
            cursor: self.cursor as int,
            answers: answer_views(self.answers@),
            started_at: self.started_at,
        }
    }
}

/// What pending questions hold.
pub open spec fn pending_views(v: Seq<PendingUserInput>) -> Seq<PendingInputView> {
    v.map_values(|p: PendingUserInput| p@)
}

/// Questions that were just asked.
pub open spec fn asked(
    agent: AgentType,
    call_id: Seq<char>,
    questions: Seq<QuestionView>,
    auto_resolution_ms: Option<u64>,
    now: u64,
) -> PendingInputView {
    PendingInputView {
        agent,
        call_id,
        questions,
        auto_resolution_ms,
        question_index: 0,
        selected: 0,
        draft: Seq::empty(),
        cursor: 0,
        answers: Seq::empty(),
        started_at: now,
    }
}

/// Whether the time for an answer is over.
pub open spec fn is_overdue(p: PendingInputView, now: u64) -> bool {
    p.auto_resolution_ms matches Some(ms) && clock::elapsed(now, p.started_at) >= ms
        * clock::NANOS_PER_MILLI
}

impl PendingUserInput {
    /// Questions that are asked now.
    pub fn new(
        agent: AgentType,
        call_id: String,
        questions: Vec<Question>,
        auto_resolution_ms: Option<u64>,
        now: u64,
    ) -> (r: Self)
        ensures
            r@ == asked(
                agent,
                call_id@,
                question_views(questions@),
                auto_resolution_ms,
                now,
            ),
    {
        let r = PendingUserInput {
            agent,
            call_id,
            questions,
            auto_resolution_ms,
            question_index: 0,
            selected: 0,
            draft: String::new(),
            cursor: 0,
            answers: Vec::new(),
            started_at: now,
        };
        assert(r@ =~= asked(
            agent,
            call_id@,
            question_views(questions@),
            auto_resolution_ms,
            now,
        ));
        r
    }

    /// The question that is asked.
    pub fn question(&self) -> (r: Option<&Question>)
        ensures
            match r {
                Some(q) => self.question_index < self.questions@.len() && *q
                    == self.questions@[self.question_index as int],
                None => self.question_index >= self.questions@.len(),
            },
    {
        if self.question_index < self.questions.len() {
            Some(&self.questions[self.question_index])
        } else {
            None
        }
    }

    /// Whether the time for an answer is over.
    pub fn timed_out(&self, now: u64) -> (r: bool)
        ensures
            r == is_overdue(self@, now),
    {
        match self.auto_resolution_ms {
            None => false,
            Some(ms) => {
                let waited: u64 = clock::since(now, self.started_at);
                waited as u128 >= ms as u128 * 1_000_000
            },
        }
    }
}

/// Questions answer themselves once the time for an answer is over, and not before; without
/// such a time they never do.
pub proof fn law_questions_wait_for_their_time(p: PendingInputView, now: u64, ms: u64)
    ensures
        p.auto_resolution_ms is None ==> !is_overdue(p, now),
        p.auto_resolution_ms == Some(ms) && now >= p.started_at ==> (is_overdue(p, now) <==> now
            - p.started_at >= ms * 1_000_000),
        p.auto_resolution_ms == Some(ms) && ms > 0 && now < p.started_at ==> !is_overdue(p, now),
{
}

} // verus!
