//! Entering a batch of matching questions.
//!
//! The count, then every question, then a pool of options that all questions
//! share, one for each question, then for every question the pick of its answer
//! from the pool. Every option is asked for under a letter; a batch that wants
//! more options than there are letters cannot go on behind the last letter.

use crate::entry::laws::{asked, choices, lemma_run_take, texts};
use crate::entry::session::{PhaseView, SessionView};
use crate::entry::{
    letter_text, lettered_texts, make_lettered_all, make_number, make_numbered, make_option_prompt,
    make_question_count_prompt, number_text, numbered_text, option_prompt,
    question_count_prompt, Progress, Prompt, PromptView, Response, ResponseView,
};
use crate::exercise::{lemma_views_push, views, ExerciseView, Matching, MatchingView};
use crate::text::LETTERS;
use vstd::prelude::*;

verus! {

/// Value of a [`MatchingPhase`].
pub enum MatchingPhaseView {
    Count,
    Questions { total: nat, questions: Seq<Seq<char>> },
    Options { questions: Seq<Seq<char>>, options: Seq<Seq<char>> },
    Answers { questions: Seq<Seq<char>>, options: Seq<Seq<char>>, entries: Seq<MatchingView> },
}

impl MatchingPhaseView {
    /// What holds of every phase that a session reaches.
    pub open spec fn wf(self) -> bool {
        match self {
            MatchingPhaseView::Count => true,
            MatchingPhaseView::Questions { total, questions } => questions.len() < total,
            MatchingPhaseView::Options { questions, options } => options.len() < questions.len(),
            MatchingPhaseView::Answers { questions, options, entries } => {
                &&& entries.len() < questions.len()
                &&& options.len() == questions.len()
                &&& options.len() <= LETTERS
                &&& forall|i: int|
                    0 <= i < entries.len() ==> {
                        &&& (#[trigger] entries[i]).question == questions[i]
                        &&& options.contains(entries[i].answer)
                    }
            },
        }
    }

    /// The prompt that is shown in a phase; none where the batch cannot go on.
    pub open spec fn prompt(self) -> Option<PromptView> {
        match self {
            MatchingPhaseView::Count => Some(question_count_prompt(true)),
            MatchingPhaseView::Questions { total, questions } => Some(
                PromptView::Text { message: number_text(questions.len()) },
            ),
            MatchingPhaseView::Options { questions, options } => option_prompt(options.len()),
            MatchingPhaseView::Answers { questions, options, entries } => Some(
                PromptView::Select {
                    message: numbered_text(entries.len(), questions[entries.len() as int]),
                    entries: lettered_texts(options),
                },
            ),
        }
    }

    /// Whether a response answers the prompt of a phase.
    pub open spec fn accepts(self, response: ResponseView) -> bool {
        match self {
            MatchingPhaseView::Count => response is Count,
            MatchingPhaseView::Questions { .. } => response is Text,
            MatchingPhaseView::Options { options, .. } => {
                &&& response is Text
                &&& options.len() < LETTERS
            },
            MatchingPhaseView::Answers { options, .. } => {
                &&& response matches ResponseView::Choice(index)
                &&& index < options.len()
            },
        }
    }

    /// Where a response leads. One that does not answer the prompt changes
    /// nothing.
    pub open spec fn step(self, response: ResponseView) -> Progress<
        MatchingPhaseView,
        Seq<MatchingView>,
    > {
        if !self.accepts(response) {
            Progress::Continue(self)
        } else {
            match self {
                MatchingPhaseView::Count => {
                    let total = response->Count_0;
                    if total == 0 {
                        Progress::Complete(Seq::empty())
                    } else {
                        Progress::Continue(
                            MatchingPhaseView::Questions { total, questions: Seq::empty() },
                        )
                    }
                },
                MatchingPhaseView::Questions { total, questions } => {
                    let questions = questions.push(response->Text_0);
                    if questions.len() < total {
                        Progress::Continue(MatchingPhaseView::Questions { total, questions })
                    } else {
                        Progress::Continue(
                            MatchingPhaseView::Options { questions, options: Seq::empty() },
                        )
                    }
                },
                MatchingPhaseView::Options { questions, options } => {
                    let options = options.push(response->Text_0);
                    if options.len() < questions.len() {
                        Progress::Continue(MatchingPhaseView::Options { questions, options })
                    } else {
                        Progress::Continue(
                            MatchingPhaseView::Answers { questions, options, entries: Seq::empty() },
                        )
                    }
                },
                MatchingPhaseView::Answers { questions, options, entries } => {
                    let entries = entries.push(
                        MatchingView {
                            question: questions[entries.len() as int],
                            answer: options[response->Choice_0 as int],
                        },
                    );
                    if entries.len() < questions.len() {
                        Progress::Continue(
                            MatchingPhaseView::Answers { questions, options, entries },
                        )
                    } else {
                        Progress::Complete(entries)
                    }
                },
            }
        }
    }
}

/// A step keeps a phase well formed.
pub proof fn lemma_step_wf(phase: MatchingPhaseView, response: ResponseView)
    requires
        phase.wf(),
    ensures
        phase.step(response) matches Progress::Continue(next) ==> next.wf(),
{
}

/// Every answer of a batch that a step finishes is one of the options of the
/// pool, and stands with the question that it was picked for.
pub proof fn law_answers_from_pool(phase: MatchingPhaseView, response: ResponseView)
    requires
        phase.wf(),
        phase.step(response) is Complete,
    ensures
        forall|i: int|
            0 <= i < phase.step(response)->Complete_0.len() ==> {
                &&& phase is Answers
                &&& (#[trigger] phase.step(response)->Complete_0[i]).question
                    == phase->Answers_questions[i]
                &&& phase->Answers_options.contains(phase.step(response)->Complete_0[i].answer)
            },
{
}

/// Where a batch of matching questions stands.
pub(crate) enum MatchingPhase {
    Count,
    Questions { total: usize, questions: Vec<String> },
    Options { questions: Vec<String>, options: Vec<String> },
    Answers { questions: Vec<String>, options: Vec<String>, entries: Vec<Matching> },
}

impl View for MatchingPhase {
    type V = MatchingPhaseView;

    closed spec fn view(&self) -> MatchingPhaseView {
        match *self {
            MatchingPhase::Count => MatchingPhaseView::Count,
            MatchingPhase::Questions { total, questions } => MatchingPhaseView::Questions {
                total: total as nat,
                questions: views(questions@),
            },
            MatchingPhase::Options { questions, options } => MatchingPhaseView::Options {
                questions: views(questions@),
                options: views(options@),
            },
            MatchingPhase::Answers { questions, options, entries } => MatchingPhaseView::Answers {
                questions: views(questions@),
                options: views(options@),
                entries: views(entries@),
            },
        }
    }
}

impl MatchingPhase {
    /// The phase in which a batch begins.
    pub(crate) fn start() -> (phase: MatchingPhase)
        ensures
            phase@ == MatchingPhaseView::Count,
    {
        MatchingPhase::Count
    }

    pub(crate) fn prompt(&self) -> (prompt: Option<Prompt>)
        requires
            self@.wf(),
        ensures
            match prompt {
                Some(prompt) => self@.prompt() == Some(prompt@),
                None => self@.prompt().is_none(),
            },
    {
        match self {
            MatchingPhase::Count => Some(make_question_count_prompt(true)),
            MatchingPhase::Questions { total, questions } => Some(
                Prompt::Text { message: make_number(questions.len()) },
            ),
            MatchingPhase::Options { questions, options } => make_option_prompt(options.len()),
            MatchingPhase::Answers { questions, options, entries } => {
                assert(views(options@).len() == options.len());
                assert(views(entries@).len() == entries.len());
                assert(views(questions@).len() == questions.len());
                Some(
                    Prompt::Select {
                        message: make_numbered(entries.len(), &questions[entries.len()]),
                        entries: make_lettered_all(options),
                    },
                )
            },
        }
    }

    pub(crate) fn accepts(&self, response: &Response) -> (accepted: bool)
        ensures
            accepted == self@.accepts(response@),
    {
        match self {
            MatchingPhase::Count => match response {
                Response::Count(_) => true,
                _ => false,
            },
            MatchingPhase::Questions { .. } => match response {
                Response::Text(_) => true,
                _ => false,
            },
            MatchingPhase::Options { questions, options } => match response {
                Response::Text(_) => options.len() < LETTERS,
                _ => false,
            },
            MatchingPhase::Answers { questions, options, entries } => match response {
                Response::Choice(index) => *index < options.len(),
                _ => false,
            },
        }
    }

    pub(crate) fn step(self, response: Response) -> (next: Progress<MatchingPhase, Vec<Matching>>)
        requires
            self@.wf(),
        ensures
            match next {
                Progress::Continue(phase) => self@.step(response@) == Progress::<
                    MatchingPhaseView,
                    Seq<MatchingView>,
                >::Continue(phase@),
                Progress::Complete(entries) => self@.step(response@) == Progress::<
                    MatchingPhaseView,
                    Seq<MatchingView>,
                >::Complete(views(entries@)),
            },
    {
        match self {
            MatchingPhase::Count => match response {
                Response::Count(total) => {
                    if total == 0 {
                        let entries: Vec<Matching> = Vec::new();
                        assert(views(entries@) =~= Seq::<MatchingView>::empty());
                        Progress::Complete(entries)
                    } else {
                        let questions: Vec<String> = Vec::new();
                        assert(views(questions@) =~= Seq::<Seq<char>>::empty());
                        Progress::Continue(MatchingPhase::Questions { total, questions })
                    }
                },
                _ => Progress::Continue(MatchingPhase::Count),
            },
            MatchingPhase::Questions { total, mut questions } => match response {
                Response::Text(text) => {
                    proof {
                        lemma_views_push(questions@, text);
                    }
                    questions.push(text);
                    if questions.len() < total {
                        Progress::Continue(MatchingPhase::Questions { total, questions })
                    } else {
                        let options: Vec<String> = Vec::new();
                        assert(views(options@) =~= Seq::<Seq<char>>::empty());
                        Progress::Continue(MatchingPhase::Options { questions, options })
                    }
                },
                _ => Progress::Continue(MatchingPhase::Questions { total, questions }),
            },
            MatchingPhase::Options { questions, mut options } => match response {
                Response::Text(text) => {
                    if options.len() < LETTERS {
                        proof {
                            lemma_views_push(options@, text);
                        }
                        options.push(text);
                        if options.len() < questions.len() {
                            Progress::Continue(MatchingPhase::Options { questions, options })
                        } else {
                            let entries: Vec<Matching> = Vec::new();
                            assert(views(entries@) =~= Seq::<MatchingView>::empty());
                            Progress::Continue(
                                MatchingPhase::Answers { questions, options, entries },
                            )
                        }
                    } else {
                        Progress::Continue(MatchingPhase::Options { questions, options })
                    }
                },
                _ => Progress::Continue(MatchingPhase::Options { questions, options }),
            },
            MatchingPhase::Answers { questions, options, mut entries } => match response {
                Response::Choice(index) => {
                    if index < options.len() {
                        let entry = Matching::new(
                            questions[entries.len()].clone(),
                            options[index].clone(),
                        );
                        proof {
                            lemma_views_push(entries@, entry);
                        }
                        entries.push(entry);
                        if entries.len() < questions.len() {
                            Progress::Continue(
                                MatchingPhase::Answers { questions, options, entries },
                            )
                        } else {
                            Progress::Complete(entries)
                        }
                    } else {
                        Progress::Continue(MatchingPhase::Answers { questions, options, entries })
                    }
                },
                _ => Progress::Continue(MatchingPhase::Answers { questions, options, entries }),
            },
        }
    }
}

/// The script of a batch of matching questions: the count, the questions, as
/// many options, and for every question the position of the option that is
/// picked.
pub open spec fn matching_script(
    questions: Seq<Seq<char>>,
    options: Seq<Seq<char>>,
    picks: Seq<nat>,
) -> Seq<ResponseView> {
    seq![ResponseView::Count(questions.len())] + texts(questions) + texts(options) + choices(picks)
}

/// The batch that the script gives: every question with the option that was
/// picked for it.
pub open spec fn matching_entries(
    questions: Seq<Seq<char>>,
    options: Seq<Seq<char>>,
    picks: Seq<nat>,
) -> Seq<MatchingView> {
    Seq::new(
        questions.len(),
        |i: int| MatchingView { question: questions[i], answer: options[picks[i] as int] },
    )
}

/// Whether questions, options and picks make a script: there are as many of
/// each, no more than there are letters, and every pick is the position of an
/// option.
pub open spec fn matching_scripted(
    questions: Seq<Seq<char>>,
    options: Seq<Seq<char>>,
    picks: Seq<nat>,
) -> bool {
    &&& options.len() == questions.len()
    &&& picks.len() == questions.len()
    &&& questions.len() <= LETTERS
    &&& forall|i: int| 0 <= i < picks.len() ==> picks[i] < options.len()
}

proof fn lemma_matching_script(questions: Seq<Seq<char>>, options: Seq<Seq<char>>, picks: Seq<nat>)
    requires
        matching_scripted(questions, options, picks),
    ensures
        ({
            let n = questions.len() as int;
            let script = matching_script(questions, options, picks);
            &&& script.len() == 1 + 3 * n
            &&& script[0] == ResponseView::Count(n as nat)
            &&& forall|j: int|
                1 <= j <= n ==> #[trigger] script[j] == ResponseView::Text(questions[j - 1])
            &&& forall|j: int|
                n < j <= 2 * n ==> #[trigger] script[j] == ResponseView::Text(options[j - n - 1])
            &&& forall|j: int|
                2 * n < j <= 3 * n ==> #[trigger] script[j] == ResponseView::Choice(
                    picks[j - 2 * n - 1],
                )
        }),
{
}

proof fn lemma_matching_questions(
    start: SessionView,
    questions: Seq<Seq<char>>,
    options: Seq<Seq<char>>,
    picks: Seq<nat>,
    k: int,
)
    requires
        start.phase == PhaseView::Matching(MatchingPhaseView::Count),
        matching_scripted(questions, options, picks),
        0 <= k < questions.len(),
    ensures
        start.run(matching_script(questions, options, picks).take(1 + k)) == start.within(
            PhaseView::Matching(
                MatchingPhaseView::Questions {
                    total: questions.len(),
                    questions: questions.take(k),
                },
            ),
        ),
    decreases k,
{
    let script = matching_script(questions, options, picks);
    lemma_matching_script(questions, options, picks);
    lemma_run_take(start, script, k);
    if k == 0 {
        assert(script.take(0) =~= Seq::empty());
        assert(questions.take(0) =~= Seq::empty());
    } else {
        lemma_matching_questions(start, questions, options, picks, k - 1);
        assert(questions.take(k - 1).push(questions[k - 1]) =~= questions.take(k));
    }
}

proof fn lemma_matching_options(
    start: SessionView,
    questions: Seq<Seq<char>>,
    options: Seq<Seq<char>>,
    picks: Seq<nat>,
    k: int,
)
    requires
        start.phase == PhaseView::Matching(MatchingPhaseView::Count),
        matching_scripted(questions, options, picks),
        0 <= k < questions.len(),
    ensures
        start.run(matching_script(questions, options, picks).take(1 + questions.len() + k))
            == start.within(
            PhaseView::Matching(MatchingPhaseView::Options { questions, options: options.take(k) }),
        ),
    decreases k,
{
    let n = questions.len() as int;
    let script = matching_script(questions, options, picks);
    lemma_matching_script(questions, options, picks);
    lemma_run_take(start, script, n + k);
    if k == 0 {
        lemma_matching_questions(start, questions, options, picks, n - 1);
        assert(questions.take(n - 1).push(questions[n - 1]) =~= questions);
        assert(options.take(0) =~= Seq::empty());
    } else {
        lemma_matching_options(start, questions, options, picks, k - 1);
        assert(options.take(k - 1).push(options[k - 1]) =~= options.take(k));
    }
}

proof fn lemma_matching_answers(
    start: SessionView,
    questions: Seq<Seq<char>>,
    options: Seq<Seq<char>>,
    picks: Seq<nat>,
    k: int,
)
    requires
        start.phase == PhaseView::Matching(MatchingPhaseView::Count),
        matching_scripted(questions, options, picks),
        0 <= k < questions.len(),
    ensures
        start.run(matching_script(questions, options, picks).take(1 + 2 * questions.len() + k))
            == start.within(
            PhaseView::Matching(
                MatchingPhaseView::Answers {
                    questions,
                    options,
                    entries: matching_entries(questions, options, picks).take(k),
                },
            ),
        ),
    decreases k,
{
    let n = questions.len() as int;
    let script = matching_script(questions, options, picks);
    let entries = matching_entries(questions, options, picks);
    lemma_matching_script(questions, options, picks);
    lemma_run_take(start, script, 2 * n + k);
    if k == 0 {
        lemma_matching_options(start, questions, options, picks, n - 1);
        assert(options.take(n - 1).push(options[n - 1]) =~= options);
        assert(entries.take(0) =~= Seq::empty());
    } else {
        lemma_matching_answers(start, questions, options, picks, k - 1);
        assert(entries.take(k - 1).push(entries[k - 1]) =~= entries.take(k));
    }
}

/// A batch of matching questions. From the count on, the script of any
/// questions, as many options and a pick for every question gives the batch
/// that holds every question with the option picked for it, in order; none
/// where the count is zero. Every answer of the batch is one of the options of
/// the pool. The questions are asked for under the numbers from one on, the
/// options under the letters from `a` on, and the picks under the numbered
/// questions, each from the whole pool behind its letters.
pub proof fn law_matching_batch(
    start: SessionView,
    questions: Seq<Seq<char>>,
    options: Seq<Seq<char>>,
    picks: Seq<nat>,
)
    requires
        start.phase == PhaseView::Matching(MatchingPhaseView::Count),
        matching_scripted(questions, options, picks),
    ensures
        ({
            let n = questions.len() as int;
            let script = matching_script(questions, options, picks);
            let entries = matching_entries(questions, options, picks);
            &&& start.run(script) == start.after(ExerciseView::Matching(entries))
            &&& forall|i: int| 0 <= i < n ==> options.contains((#[trigger] entries[i]).answer)
            &&& asked(start, script, 0) == Some(question_count_prompt(true))
            &&& forall|position: int|
                1 <= position <= n ==> #[trigger] asked(start, script, position) == Some(
                    PromptView::Text { message: number_text((position - 1) as nat) },
                )
            &&& forall|position: int|
                n < position <= 2 * n ==> #[trigger] asked(start, script, position) == Some(
                    PromptView::Text { message: letter_text((position - n - 1) as nat) },
                )
            &&& forall|position: int|
                2 * n < position <= 3 * n ==> #[trigger] asked(start, script, position) == Some(
                    PromptView::Select {
                        message: numbered_text(
                            (position - 2 * n - 1) as nat,
                            questions[position - 2 * n - 1],
                        ),
                        entries: lettered_texts(options),
                    },
                )
        }),
{
    let n = questions.len() as int;
    let script = matching_script(questions, options, picks);
    let entries = matching_entries(questions, options, picks);
    lemma_matching_script(questions, options, picks);
    assert(script.take(0) =~= Seq::empty());
    assert(script.take(1 + 3 * n) =~= script);
    if n == 0 {
        lemma_run_take(start, script, 0);
        assert(entries =~= Seq::empty());
    } else {
        lemma_matching_answers(start, questions, options, picks, n - 1);
        lemma_run_take(start, script, 3 * n);
        assert(entries.take(n - 1).push(entries[n - 1]) =~= entries);
    }
    assert forall|position: int| 1 <= position <= n implies #[trigger] asked(
        start,
        script,
        position,
    ) == Some(PromptView::Text { message: number_text((position - 1) as nat) }) by {
        lemma_matching_questions(start, questions, options, picks, position - 1);
    }
    assert forall|position: int| n < position <= 2 * n implies #[trigger] asked(
        start,
        script,
        position,
    ) == Some(PromptView::Text { message: letter_text((position - n - 1) as nat) }) by {
        lemma_matching_options(start, questions, options, picks, position - n - 1);
    }
    assert forall|position: int| 2 * n < position <= 3 * n implies #[trigger] asked(
        start,
        script,
        position,
    ) == Some(
        PromptView::Select {
            message: numbered_text((position - 2 * n - 1) as nat, questions[position - 2 * n - 1]),
            entries: lettered_texts(options),
        },
    ) by {
        lemma_matching_answers(start, questions, options, picks, position - 2 * n - 1);
    }
}

} // verus!
