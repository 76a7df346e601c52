//! Entering a batch of recall questions.
//!
//! The count, then every question, then for every question its answer as
//! free text.

use crate::entry::laws::{asked, lemma_run_take, texts};
use crate::entry::session::{PhaseView, SessionView};
use crate::entry::{
    make_number, make_numbered, make_question_count_prompt, number_text, numbered_text,
    question_count_prompt, Progress, Prompt, PromptView, Response, ResponseView,
};
use crate::exercise::{lemma_views_push, views, ExerciseView, Recall, RecallView};
use vstd::prelude::*;

verus! {

/// Value of a [`RecallPhase`].
pub enum RecallPhaseView {
    Count,
    Questions { total: nat, questions: Seq<Seq<char>> },
    Answers { questions: Seq<Seq<char>>, entries: Seq<RecallView> },
}

impl RecallPhaseView {
    /// What holds of every phase that a session reaches.
    pub open spec fn wf(self) -> bool {
        match self {
            RecallPhaseView::Count => true,
            RecallPhaseView::Questions { total, questions } => questions.len() < total,
            RecallPhaseView::Answers { questions, entries } => {
                &&& entries.len() < questions.len()
                &&& forall|i: int|
                    0 <= i < entries.len() ==> (#[trigger] entries[i]).question == questions[i]
            },
        }
    }

    /// The prompt that is shown in a phase.
    pub open spec fn prompt(self) -> PromptView {
        match self {
            RecallPhaseView::Count => question_count_prompt(true),
            RecallPhaseView::Questions { total, questions } => PromptView::Text {
                message: number_text(questions.len()),
            },
            RecallPhaseView::Answers { questions, entries } => PromptView::Text {
                message: numbered_text(entries.len(), questions[entries.len() as int]),
            },
        }
    }

    /// Whether a response answers the prompt of a phase.
    pub open spec fn accepts(self, response: ResponseView) -> bool {
        match self {
            RecallPhaseView::Count => response is Count,
            RecallPhaseView::Questions { .. } => response is Text,
            RecallPhaseView::Answers { .. } => response is Text,
        }
    }

    /// Where a response leads. One that does not answer the prompt changes
    /// nothing.
    pub open spec fn step(self, response: ResponseView) -> Progress<RecallPhaseView, Seq<RecallView>> {
        if !self.accepts(response) {
            Progress::Continue(self)
        } else {
            match self {
                RecallPhaseView::Count => {
                    let total = response->Count_0;
                    if total == 0 {
                        Progress::Complete(Seq::empty())
                    } else {
                        Progress::Continue(
                            RecallPhaseView::Questions { total, questions: Seq::empty() },
                        )
                    }
                },
                RecallPhaseView::Questions { total, questions } => {
                    let questions = questions.push(response->Text_0);
                    if questions.len() < total {
                        Progress::Continue(RecallPhaseView::Questions { total, questions })
                    } else {
                        Progress::Continue(
                            RecallPhaseView::Answers { questions, entries: Seq::empty() },
                        )
                    }
                },
                RecallPhaseView::Answers { questions, entries } => {
                    let entries = entries.push(
                        RecallView {
                            question: questions[entries.len() as int],
                            answer: response->Text_0,
                        },
                    );
                    if entries.len() < questions.len() {
                        Progress::Continue(RecallPhaseView::Answers { questions, entries })
                    } else {
                        Progress::Complete(entries)
                    }
                },
            }
        }
    }
}

/// A step keeps a phase well formed.
pub proof fn lemma_step_wf(phase: RecallPhaseView, response: ResponseView)
    requires
        phase.wf(),
    ensures
        phase.step(response) matches Progress::Continue(next) ==> next.wf(),
{
}

/// Where a batch of recall questions stands.
pub(crate) enum RecallPhase {
    Count,
    Questions { total: usize, questions: Vec<String> },
    Answers { questions: Vec<String>, entries: Vec<Recall> },
}

impl View for RecallPhase {
    type V = RecallPhaseView;

    closed spec fn view(&self) -> RecallPhaseView {
        match *self {
            RecallPhase::Count => RecallPhaseView::Count,
            RecallPhase::Questions { total, questions } => RecallPhaseView::Questions {
                total: total as nat,
                questions: views(questions@),
            },
            RecallPhase::Answers { questions, entries } => RecallPhaseView::Answers {
                questions: views(questions@),
                entries: views(entries@),
            },
        }
    }
}

impl RecallPhase {
    /// The phase in which a batch begins.
    pub(crate) fn start() -> (phase: RecallPhase)
        ensures
            phase@ == RecallPhaseView::Count,
    {
        RecallPhase::Count
    }

    pub(crate) fn prompt(&self) -> (prompt: Prompt)
        requires
            self@.wf(),
        ensures
            prompt@ == self@.prompt(),
    {
        match self {
            RecallPhase::Count => make_question_count_prompt(true),
            RecallPhase::Questions { total, questions } => Prompt::Text {
                message: make_number(questions.len()),
            },
            RecallPhase::Answers { questions, entries } => {
                assert(views(entries@).len() == entries.len());
                assert(views(questions@).len() == questions.len());
                Prompt::Text {
                    message: make_numbered(entries.len(), &questions[entries.len()]),
                }
            },
        }
    }

    pub(crate) fn accepts(&self, response: &Response) -> (accepted: bool)
        ensures
            accepted == self@.accepts(response@),
    {
        match self {
            RecallPhase::Count => match response {
                Response::Count(_) => true,
                _ => false,
            },
            RecallPhase::Questions { .. } => match response {
                Response::Text(_) => true,
                _ => false,
            },
            RecallPhase::Answers { .. } => match response {
                Response::Text(_) => true,
                _ => false,
            },
        }
    }

    pub(crate) fn step(self, response: Response) -> (next: Progress<RecallPhase, Vec<Recall>>)
        requires
            self@.wf(),
        ensures
            match next {
                Progress::Continue(phase) => self@.step(response@) == Progress::<
                    RecallPhaseView,
                    Seq<RecallView>,
                >::Continue(phase@),
                Progress::Complete(entries) => self@.step(response@) == Progress::<
                    RecallPhaseView,
                    Seq<RecallView>,
                >::Complete(views(entries@)),
            },
    {
        match self {
            RecallPhase::Count => match response {
                Response::Count(total) => {
                    if total == 0 {
                        let entries: Vec<Recall> = Vec::new();
                        assert(views(entries@) =~= Seq::<RecallView>::empty());
                        Progress::Complete(entries)
                    } else {
                        let questions: Vec<String> = Vec::new();
                        assert(views(questions@) =~= Seq::<Seq<char>>::empty());
                        Progress::Continue(RecallPhase::Questions { total, questions })
                    }
                },
                _ => Progress::Continue(RecallPhase::Count),
            },
            RecallPhase::Questions { total, mut questions } => match response {
                Response::Text(text) => {
                    proof {
                        lemma_views_push(questions@, text);
                    }
                    questions.push(text);
                    if questions.len() < total {
                        Progress::Continue(RecallPhase::Questions { total, questions })
                    } else {
                        let entries: Vec<Recall> = Vec::new();
                        assert(views(entries@) =~= Seq::<RecallView>::empty());
                        Progress::Continue(RecallPhase::Answers { questions, entries })
                    }
                },
                _ => Progress::Continue(RecallPhase::Questions { total, questions }),
            },
            RecallPhase::Answers { questions, mut entries } => match response {
                Response::Text(answer) => {
                    assert(views(entries@).len() == entries.len());
                    assert(views(questions@).len() == questions.len());
                    let entry = Recall::new(questions[entries.len()].clone(), answer);
                    proof {
                        lemma_views_push(entries@, entry);
                    }
                    entries.push(entry);
                    if entries.len() < questions.len() {
                        Progress::Continue(RecallPhase::Answers { questions, entries })
                    } else {
                        Progress::Complete(entries)
                    }
                },
                _ => Progress::Continue(RecallPhase::Answers { questions, entries }),
            },
        }
    }
}

/// The script of a batch of recall questions.
pub open spec fn recall_script(questions: Seq<Seq<char>>, answers: Seq<Seq<char>>) -> Seq<
    ResponseView,
> {
    seq![ResponseView::Count(questions.len())] + texts(questions) + texts(answers)
}

/// The batch that the script gives: every question with its answer.
pub open spec fn recall_entries(questions: Seq<Seq<char>>, answers: Seq<Seq<char>>) -> Seq<RecallView> {
    Seq::new(questions.len(), |i: int| RecallView { question: questions[i], answer: answers[i] })
}

proof fn lemma_recall_script(questions: Seq<Seq<char>>, answers: Seq<Seq<char>>)
    requires
        questions.len() == answers.len(),
    ensures
        ({
            let n = questions.len() as int;
            let script = recall_script(questions, answers);
            &&& script.len() == 1 + 2 * n
            &&& script[0] == ResponseView::Count(n as nat)
            &&& forall|j: int|
                1 <= j <= n ==> #[trigger] script[j] == ResponseView::Text(questions[j - 1])
            &&& forall|j: int|
                n < j <= 2 * n ==> #[trigger] script[j] == ResponseView::Text(
                    answers[j - n - 1],
                )
        }),
{
}

proof fn lemma_recall_questions(
    start: SessionView,
    questions: Seq<Seq<char>>,
    answers: Seq<Seq<char>>,
    k: int,
)
    requires
        start.phase == PhaseView::Recall(RecallPhaseView::Count),
        questions.len() == answers.len(),
        0 <= k < questions.len(),
    ensures
        start.run(recall_script(questions, answers).take(1 + k)) == start.within(
            PhaseView::Recall(
                RecallPhaseView::Questions { total: questions.len(), questions: questions.take(k) },
            ),
        ),
    decreases k,
{
    let script = recall_script(questions, answers);
    lemma_recall_script(questions, answers);
    lemma_run_take(start, script, k);
    if k == 0 {
        assert(script.take(0) =~= Seq::empty());
        assert(questions.take(0) =~= Seq::empty());
    } else {
        lemma_recall_questions(start, questions, answers, k - 1);
        assert(questions.take(k - 1).push(questions[k - 1]) =~= questions.take(k));
    }
}

proof fn lemma_recall_answers(
    start: SessionView,
    questions: Seq<Seq<char>>,
    answers: Seq<Seq<char>>,
    k: int,
)
    requires
        start.phase == PhaseView::Recall(RecallPhaseView::Count),
        questions.len() == answers.len(),
        0 <= k < questions.len(),
    ensures
        start.run(recall_script(questions, answers).take(1 + questions.len() + k)) == start.within(
            PhaseView::Recall(
                RecallPhaseView::Answers {
                    questions,
                    entries: recall_entries(questions, answers).take(k),
                },
            ),
        ),
    decreases k,
{
    let n = questions.len() as int;
    let script = recall_script(questions, answers);
    let entries = recall_entries(questions, answers);
    lemma_recall_script(questions, answers);
    lemma_run_take(start, script, n + k);
    if k == 0 {
        lemma_recall_questions(start, questions, answers, n - 1);
        assert(questions.take(n - 1).push(questions[n - 1]) =~= questions);
        assert(entries.take(0) =~= Seq::empty());
    } else {
        lemma_recall_answers(start, questions, answers, k - 1);
        assert(entries.take(k - 1).push(entries[k - 1]) =~= entries.take(k));
    }
}

/// A batch of recall questions. From the count on, the script of any
/// questions and as many answers gives the batch that holds every question
/// with its answer, in order; none where the count is zero. The questions are
/// asked for under the numbers from one on, and so are the answers, each under
/// its question.
pub proof fn law_recall_batch(start: SessionView, questions: Seq<Seq<char>>, answers: Seq<Seq<char>>)
    requires
        start.phase == PhaseView::Recall(RecallPhaseView::Count),
        questions.len() == answers.len(),
    ensures
        ({
            let n = questions.len() as int;
            let script = recall_script(questions, answers);
            &&& start.run(script) == start.after(
                ExerciseView::Recall(recall_entries(questions, answers)),
            )
            &&& asked(start, script, 0) == Some(question_count_prompt(true))
            &&& forall|position: int|
                1 <= position <= n ==> #[trigger] asked(start, script, position) == Some(
                    PromptView::Text { message: number_text((position - 1) as nat) },
                )
            &&& forall|position: int|
                n < position <= 2 * n ==> #[trigger] asked(start, script, position) == Some(
                    PromptView::Text {
                        message: numbered_text(
                            (position - n - 1) as nat,
                            questions[position - n - 1],
                        ),
                    },
                )
        }),
{
    let n = questions.len() as int;
    let script = recall_script(questions, answers);
    let entries = recall_entries(questions, answers);
    lemma_recall_script(questions, answers);
    assert(script.take(0) =~= Seq::empty());
    assert(script.take(1 + 2 * n) =~= script);
    if n == 0 {
        lemma_run_take(start, script, 0);
        assert(entries =~= Seq::empty());
    } else {
        lemma_recall_answers(start, questions, answers, n - 1);
        lemma_run_take(start, script, 2 * n);
        assert(entries.take(n - 1).push(entries[n - 1]) =~= entries);
    }
    assert forall|position: int| 1 <= position <= n implies #[trigger] asked(
        start,
        script,
        position,
    ) == Some(PromptView::Text { message: number_text((position - 1) as nat) }) by {
        lemma_recall_questions(start, questions, answers, position - 1);
    }
    assert forall|position: int| n < position <= 2 * n implies #[trigger] asked(
        start,
        script,
        position,
    ) == Some(
        PromptView::Text {
            message: numbered_text((position - n - 1) as nat, questions[position - n - 1]),
        },
    ) by {
        lemma_recall_answers(start, questions, answers, position - n - 1);
    }
}

} // verus!
