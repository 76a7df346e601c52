//! Entering a batch of recognize-the-root questions.
//!
//! The count, then question by question: its text, an example, and the answer,
//! which is asked for under the question and the example.

use crate::entry::laws::{asked, lemma_run_add, lemma_run_take};
use crate::entry::session::{PhaseView, SessionView};
use crate::entry::{
    exemplified_text, make_exemplified, make_number, make_question_count_prompt, number_text,
    question_count_prompt, Progress, Prompt, PromptView, Response, ResponseView,
};
use crate::exercise::{lemma_views_push, views, ExerciseView, RecognizeRoot, RecognizeRootView};
use vstd::prelude::*;
use vstd::string::*;

verus! {

/// Value of a [`RecognizeRootPhase`].
pub enum RecognizeRootPhaseView {
    Count,
    Question { total: nat, entries: Seq<RecognizeRootView> },
    Example { total: nat, entries: Seq<RecognizeRootView>, question: Seq<char> },
    Answer {
        total: nat,
        entries: Seq<RecognizeRootView>,
        question: Seq<char>,
        example: Seq<char>,
    },
}

/// The prompt for the example of a question.
pub open spec fn example_prompt() -> PromptView {
    PromptView::Text { message: "Example"@ }
}

impl RecognizeRootPhaseView {
    /// What holds of every phase that a session reaches.
    pub open spec fn wf(self) -> bool {
        match self {
            RecognizeRootPhaseView::Count => true,
            RecognizeRootPhaseView::Question { total, entries } => entries.len() < total,
            RecognizeRootPhaseView::Example { total, entries, question } => entries.len() < total,
            RecognizeRootPhaseView::Answer { total, entries, question, example } => entries.len()
                < total,
        }
    }

    /// The prompt that is shown in a phase.
    pub open spec fn prompt(self) -> PromptView {
        match self {
            RecognizeRootPhaseView::Count => question_count_prompt(false),
            RecognizeRootPhaseView::Question { total, entries } => PromptView::Text {
                message: number_text(entries.len()),
            },
            RecognizeRootPhaseView::Example { total, entries, question } => example_prompt(),
            RecognizeRootPhaseView::Answer {
                total,
                entries,
                question,
                example,
            } => PromptView::Text { message: exemplified_text(entries.len(), question, example) },
        }
    }

    /// Whether a response answers the prompt of a phase.
    pub open spec fn accepts(self, response: ResponseView) -> bool {
        match self {
            RecognizeRootPhaseView::Count => response is Count,
            _ => response is Text,
        }
    }

    /// Where a response leads. One that does not answer the prompt changes
    /// nothing.
    pub open spec fn step(self, response: ResponseView) -> Progress<
        RecognizeRootPhaseView,
        Seq<RecognizeRootView>,
    > {
        if !self.accepts(response) {
            Progress::Continue(self)
        } else {
            match self {
                RecognizeRootPhaseView::Count => {
                    let total = response->Count_0;
                    if total == 0 {
                        Progress::Complete(Seq::empty())
                    } else {
                        Progress::Continue(
                            RecognizeRootPhaseView::Question { total, entries: Seq::empty() },
                        )
                    }
                },
                RecognizeRootPhaseView::Question { total, entries } => Progress::Continue(
                    RecognizeRootPhaseView::Example { total, entries, question: response->Text_0 },
                ),
                RecognizeRootPhaseView::Example { total, entries, question } => Progress::Continue(
                    RecognizeRootPhaseView::Answer {
                        total,
                        entries,
                        question,
                        example: response->Text_0,
                    },
                ),
                RecognizeRootPhaseView::Answer { total, entries, question, example } => {
                    let entries = entries.push(
                        RecognizeRootView { question, answer: response->Text_0, example },
                    );
                    if entries.len() < total {
                        Progress::Continue(RecognizeRootPhaseView::Question { total, entries })
                    } else {
                        Progress::Complete(entries)
                    }
                },
            }
        }
    }
}

/// A step keeps a phase well formed.
pub proof fn lemma_step_wf(phase: RecognizeRootPhaseView, response: ResponseView)
    requires
        phase.wf(),
    ensures
        phase.step(response) matches Progress::Continue(next) ==> next.wf(),
{
}

/// Where a batch of recognize-the-root questions stands.
pub(crate) enum RecognizeRootPhase {
    Count,
    Question { total: usize, entries: Vec<RecognizeRoot> },
    Example { total: usize, entries: Vec<RecognizeRoot>, question: String },
    Answer { total: usize, entries: Vec<RecognizeRoot>, question: String, example: String },
}

impl View for RecognizeRootPhase {
    type V = RecognizeRootPhaseView;

    closed spec fn view(&self) -> RecognizeRootPhaseView {
        match *self {
            RecognizeRootPhase::Count => RecognizeRootPhaseView::Count,
            RecognizeRootPhase::Question { total, entries } => RecognizeRootPhaseView::Question {
                total: total as nat,
                entries: views(entries@),
            },
            RecognizeRootPhase::Example {
                total,
                entries,
                question,
            } => RecognizeRootPhaseView::Example {
                total: total as nat,
                entries: views(entries@),
                question: question@,
            },
            RecognizeRootPhase::Answer {
                total,
                entries,
                question,
                example,
            } => RecognizeRootPhaseView::Answer {
                total: total as nat,
                entries: views(entries@),
                question: question@,
                example: example@,
            },
        }
    }
}

impl RecognizeRootPhase {
    /// The phase in which a batch begins.
    pub(crate) fn start() -> (phase: RecognizeRootPhase)
        ensures
            phase@ == RecognizeRootPhaseView::Count,
    {
        RecognizeRootPhase::Count
    }

    pub(crate) fn prompt(&self) -> (prompt: Prompt)
        requires
            self@.wf(),
        ensures
            prompt@ == self@.prompt(),
    {
        match self {
            RecognizeRootPhase::Count => make_question_count_prompt(false),
            RecognizeRootPhase::Question { total, entries } => {
                assert(views(entries@).len() == entries.len());
                Prompt::Text { message: make_number(entries.len()) }
            },
            RecognizeRootPhase::Example { total, entries, question } => Prompt::Text {
                message: String::from_str("Example"),
            },
            RecognizeRootPhase::Answer { total, entries, question, example } => {
                assert(views(entries@).len() == entries.len());
                Prompt::Text { message: make_exemplified(entries.len(), question, example) }
            },
        }
    }

    pub(crate) fn accepts(&self, response: &Response) -> (accepted: bool)
        ensures
            accepted == self@.accepts(response@),
    {
        match self {
            RecognizeRootPhase::Count => match response {
                Response::Count(_) => true,
                _ => false,
            },
            _ => match response {
                Response::Text(_) => true,
                _ => false,
            },
        }
    }

    pub(crate) fn step(self, response: Response) -> (next: Progress<
        RecognizeRootPhase,
        Vec<RecognizeRoot>,
    >)
        requires
            self@.wf(),
        ensures
            match next {
                Progress::Continue(phase) => self@.step(response@) == Progress::<
                    RecognizeRootPhaseView,
                    Seq<RecognizeRootView>,
                >::Continue(phase@),
                Progress::Complete(entries) => self@.step(response@) == Progress::<
                    RecognizeRootPhaseView,
                    Seq<RecognizeRootView>,
                >::Complete(views(entries@)),
            },
    {
        match self {
            RecognizeRootPhase::Count => match response {
                Response::Count(total) => {
                    let entries: Vec<RecognizeRoot> = Vec::new();
                    assert(views(entries@) =~= Seq::<RecognizeRootView>::empty());
                    if total == 0 {
                        Progress::Complete(entries)
                    } else {
                        Progress::Continue(RecognizeRootPhase::Question { total, entries })
                    }
                },
                _ => Progress::Continue(RecognizeRootPhase::Count),
            },
            RecognizeRootPhase::Question { total, entries } => match response {
                Response::Text(question) => Progress::Continue(
                    RecognizeRootPhase::Example { total, entries, question },
                ),
                _ => Progress::Continue(RecognizeRootPhase::Question { total, entries }),
            },
            RecognizeRootPhase::Example { total, entries, question } => match response {
                Response::Text(example) => Progress::Continue(
                    RecognizeRootPhase::Answer { total, entries, question, example },
                ),
                _ => Progress::Continue(RecognizeRootPhase::Example { total, entries, question }),
            },
            RecognizeRootPhase::Answer { total, mut entries, question, example } => match response {
                Response::Text(answer) => {
                    let entry = RecognizeRoot::new(question, answer, example);
                    proof {
                        lemma_views_push(entries@, entry);
                    }
                    entries.push(entry);
                    if entries.len() < total {
                        Progress::Continue(RecognizeRootPhase::Question { total, entries })
                    } else {
                        Progress::Complete(entries)
                    }
                },
                _ => Progress::Continue(
                    RecognizeRootPhase::Answer { total, entries, question, example },
                ),
            },
        }
    }
}

/// The script of one question: its text, its example, its answer.
pub open spec fn recognize_root_question_script(
    question: Seq<char>,
    example: Seq<char>,
    answer: Seq<char>,
) -> Seq<ResponseView> {
    seq![ResponseView::Text(question), ResponseView::Text(example), ResponseView::Text(answer)]
}

/// The scripts of the first `k` questions, one behind the other.
pub open spec fn recognize_root_questions_script(
    questions: Seq<Seq<char>>,
    examples: Seq<Seq<char>>,
    answers: Seq<Seq<char>>,
    k: int,
) -> Seq<ResponseView>
    decreases k,
{
    if k <= 0 {
        Seq::empty()
    } else {
        recognize_root_questions_script(questions, examples, answers, k - 1)
            + recognize_root_question_script(questions[k - 1], examples[k - 1], answers[k - 1])
    }
}

/// The script of a batch up to its question `k`: the count and the scripts of
/// the questions before it.
pub open spec fn recognize_root_script_before(
    questions: Seq<Seq<char>>,
    examples: Seq<Seq<char>>,
    answers: Seq<Seq<char>>,
    k: int,
) -> Seq<ResponseView> {
    seq![ResponseView::Count(questions.len())] + recognize_root_questions_script(
        questions,
        examples,
        answers,
        k,
    )
}

/// The script of a batch: the count and the scripts of all its questions.
pub open spec fn recognize_root_script(
    questions: Seq<Seq<char>>,
    examples: Seq<Seq<char>>,
    answers: Seq<Seq<char>>,
) -> Seq<ResponseView> {
    recognize_root_script_before(questions, examples, answers, questions.len() as int)
}

/// The batch that the script gives: every question with its answer and its
/// example.
pub open spec fn recognize_root_entries(
    questions: Seq<Seq<char>>,
    examples: Seq<Seq<char>>,
    answers: Seq<Seq<char>>,
) -> Seq<RecognizeRootView> {
    Seq::new(
        questions.len(),
        |i: int|
            RecognizeRootView { question: questions[i], answer: answers[i], example: examples[i] },
    )
}

/// One question of a batch. Where a question is due, the script of a
/// question, an example and an answer adds the entry that holds the three. The
/// batch is finished with it where it was the last question, and else goes on
/// with the next. The question is asked for under its number, which counts the
/// entries of this batch from one on, the example under a fixed word, and the
/// answer under the numbered question and the example.
pub proof fn law_recognize_root_question(
    start: SessionView,
    question: Seq<char>,
    example: Seq<char>,
    answer: Seq<char>,
)
    requires
        start.phase is RecognizeRoot,
        start.phase->RecognizeRoot_0 is Question,
        start.phase.wf(),
    ensures
        ({
            let total = start.phase->RecognizeRoot_0->Question_total;
            let before = start.phase->RecognizeRoot_0->Question_entries;
            let entries = before.push(RecognizeRootView { question, answer, example });
            let script = recognize_root_question_script(question, example, answer);
            &&& start.run(script) == if entries.len() < total {
                start.within(
                    PhaseView::RecognizeRoot(RecognizeRootPhaseView::Question { total, entries }),
                )
            } else {
                start.after(ExerciseView::RecognizeRoot(entries))
            }
            &&& asked(start, script, 0) == Some(
                PromptView::Text { message: number_text(before.len()) },
            )
            &&& asked(start, script, 1) == Some(example_prompt())
            &&& asked(start, script, 2) == Some(
                PromptView::Text { message: exemplified_text(before.len(), question, example) },
            )
        }),
{
    let script = recognize_root_question_script(question, example, answer);
    assert(script.take(0) =~= Seq::empty());
    assert(script.take(3) =~= script);
    lemma_run_take(start, script, 0);
    lemma_run_take(start, script, 1);
    lemma_run_take(start, script, 2);
}

proof fn lemma_recognize_root_before(
    start: SessionView,
    questions: Seq<Seq<char>>,
    examples: Seq<Seq<char>>,
    answers: Seq<Seq<char>>,
    k: int,
)
    requires
        start.phase == PhaseView::RecognizeRoot(RecognizeRootPhaseView::Count),
        examples.len() == questions.len(),
        answers.len() == questions.len(),
        0 <= k <= questions.len(),
    ensures
        start.run(recognize_root_script_before(questions, examples, answers, k)) == if k
            < questions.len() {
            start.within(
                PhaseView::RecognizeRoot(
                    RecognizeRootPhaseView::Question {
                        total: questions.len(),
                        entries: recognize_root_entries(questions, examples, answers).take(k),
                    },
                ),
            )
        } else {
            start.after(
                ExerciseView::RecognizeRoot(recognize_root_entries(questions, examples, answers)),
            )
        },
    decreases k,
{
    let n = questions.len() as int;
    let entries = recognize_root_entries(questions, examples, answers);
    let head = seq![ResponseView::Count(questions.len())];
    if k == 0 {
        let script = recognize_root_script_before(questions, examples, answers, 0);
        assert(script =~= head);
        assert(head.take(0) =~= Seq::empty());
        assert(head.take(1) =~= head);
        lemma_run_take(start, head, 0);
        assert(entries.take(0) =~= Seq::empty());
        if n == 0 {
            assert(entries =~= Seq::empty());
        }
    } else {
        let earlier = recognize_root_script_before(questions, examples, answers, k - 1);
        let block = recognize_root_question_script(questions[k - 1], examples[k - 1], answers[k - 1]);
        lemma_recognize_root_before(start, questions, examples, answers, k - 1);
        assert(recognize_root_script_before(questions, examples, answers, k) =~= earlier + block);
        lemma_run_add(start, earlier, block);
        law_recognize_root_question(
            start.run(earlier),
            questions[k - 1],
            examples[k - 1],
            answers[k - 1],
        );
        assert(entries.take(k - 1).push(entries[k - 1]) =~= entries.take(k));
        assert(entries.take(n) =~= entries);
    }
}

/// A batch of recognize-the-root questions. From the count on, the script of
/// any questions with an example and an answer each gives the batch that holds
/// every question with its answer and its example, in order; none where the
/// count is zero. Before each question the batch stands where that question is
/// due, with the entries of the questions before it.
pub proof fn law_recognize_root_batch(
    start: SessionView,
    questions: Seq<Seq<char>>,
    examples: Seq<Seq<char>>,
    answers: Seq<Seq<char>>,
)
    requires
        start.phase == PhaseView::RecognizeRoot(RecognizeRootPhaseView::Count),
        examples.len() == questions.len(),
        answers.len() == questions.len(),
    ensures
        ({
            let entries = recognize_root_entries(questions, examples, answers);
            &&& start.run(recognize_root_script(questions, examples, answers)) == start.after(
                ExerciseView::RecognizeRoot(entries),
            )
            &&& start.prompt() == Some(question_count_prompt(false))
            &&& forall|k: int|
                0 <= k < questions.len() ==> #[trigger] start.run(
                    recognize_root_script_before(questions, examples, answers, k),
                ) == start.within(
                    PhaseView::RecognizeRoot(
                        RecognizeRootPhaseView::Question {
                            total: questions.len(),
                            entries: entries.take(k),
                        },
                    ),
                )
        }),
{
    lemma_recognize_root_before(start, questions, examples, answers, questions.len() as int);
    assert forall|k: int| 0 <= k < questions.len() implies #[trigger] start.run(
        recognize_root_script_before(questions, examples, answers, k),
    ) == start.within(
        PhaseView::RecognizeRoot(
            RecognizeRootPhaseView::Question {
                total: questions.len(),
                entries: recognize_root_entries(questions, examples, answers).take(k),
            },
        ),
    ) by {
        lemma_recognize_root_before(start, questions, examples, answers, k);
    }
}

} // verus!
