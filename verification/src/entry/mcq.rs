//! Entering a batch of multiple-choice questions.
//!
//! The count of questions and the count of options of each, then question by
//! question: its text, its own options, and the pick of its answer from them.
//! Every option is asked for under a letter; a question that wants more options
//! than there are letters cannot go on behind the last letter, and one that
//! wants none has nothing to pick its answer from.

use crate::entry::laws::{asked, lemma_run_add, lemma_run_take, texts};
use crate::entry::session::{PhaseView, SessionView};
use crate::entry::{
    copy_texts, letter_text, make_number, make_numbered, make_option_count_prompt,
    make_option_prompt, make_question_count_prompt, number_text, numbered_text,
    option_count_prompt, option_prompt, question_count_prompt, Progress, Prompt, PromptView,
    Response, ResponseView,
};
use crate::exercise::{lemma_views_push, views, ExerciseView, Mcq, McqView};
use crate::text::LETTERS;
use vstd::prelude::*;

verus! {

/// Value of an [`McqPhase`].
pub enum McqPhaseView {
    Count,
    OptionCount { total: nat },
    Question { total: nat, per: nat, entries: Seq<McqView> },
    Options {
        total: nat,
        per: nat,
        entries: Seq<McqView>,
        question: Seq<char>,
        options: Seq<Seq<char>>,
    },
    Answer {
        total: nat,
        per: nat,
        entries: Seq<McqView>,
        question: Seq<char>,
        options: Seq<Seq<char>>,
    },
}

/// Every entry has as many options as each question gets, and an answer that
/// is one of its own options.
pub open spec fn answered(entries: Seq<McqView>, per: nat) -> bool {
    forall|i: int|
        0 <= i < entries.len() ==> {
            &&& (#[trigger] entries[i]).options.len() == per
            &&& entries[i].options.contains(entries[i].answer)
        }
}

impl McqPhaseView {
    /// What holds of every phase that a session reaches.
    pub open spec fn wf(self) -> bool {
        match self {
            McqPhaseView::Count => true,
            McqPhaseView::OptionCount { total } => true,
            McqPhaseView::Question { total, per, entries } => {
                &&& entries.len() < total
                &&& answered(entries, per)
            },
            McqPhaseView::Options { total, per, entries, question, options } => {
                &&& entries.len() < total
                &&& answered(entries, per)
                &&& options.len() < per
            },
            McqPhaseView::Answer { total, per, entries, question, options } => {
                &&& entries.len() < total
                &&& answered(entries, per)
                &&& options.len() == per
            },
        }
    }

    /// The prompt that is shown in a phase; none where the batch cannot go on.
    pub open spec fn prompt(self) -> Option<PromptView> {
        match self {
            McqPhaseView::Count => Some(question_count_prompt(true)),
            McqPhaseView::OptionCount { total } => Some(option_count_prompt()),
            McqPhaseView::Question { total, per, entries } => Some(
                PromptView::Text { message: number_text(entries.len()) },
            ),
            McqPhaseView::Options { total, per, entries, question, options } => option_prompt(
                options.len(),
            ),
            McqPhaseView::Answer { total, per, entries, question, options } => Some(
                PromptView::Select {
                    message: numbered_text(entries.len(), question),
                    entries: options,
                },
            ),
        }
    }

    /// Whether a response answers the prompt of a phase. Where a question has
    /// no options, nothing answers the pick of its answer.
    pub open spec fn accepts(self, response: ResponseView) -> bool {
        match self {
            McqPhaseView::Count => response is Count,
            McqPhaseView::OptionCount { .. } => response is Count,
            McqPhaseView::Question { .. } => response is Text,
            McqPhaseView::Options { options, .. } => {
                &&& response is Text
                &&& options.len() < LETTERS
            },
            McqPhaseView::Answer { options, .. } => {
                &&& response matches ResponseView::Choice(index)
                &&& index < options.len()
            },
        }
    }

    /// Where a response leads. One that does not answer the prompt changes
    /// nothing.
    pub open spec fn step(self, response: ResponseView) -> Progress<McqPhaseView, Seq<McqView>> {
        if !self.accepts(response) {
            Progress::Continue(self)
        } else {
            match self {
                McqPhaseView::Count => Progress::Continue(
                    McqPhaseView::OptionCount { total: response->Count_0 },
                ),
                McqPhaseView::OptionCount { total } => {
                    if total == 0 {
                        Progress::Complete(Seq::empty())
                    } else {
                        Progress::Continue(
                            McqPhaseView::Question {
                                total,
                                per: response->Count_0,
                                entries: Seq::empty(),
                            },
                        )
                    }
                },
                McqPhaseView::Question { total, per, entries } => {
                    let question = response->Text_0;
                    if per == 0 {
                        Progress::Continue(
                            McqPhaseView::Answer {
                                total,
                                per,
                                entries,
                                question,
                                options: Seq::empty(),
                            },
                        )
                    } else {
                        Progress::Continue(
                            McqPhaseView::Options {
                                total,
                                per,
                                entries,
                                question,
                                options: Seq::empty(),
                            },
                        )
                    }
                },
                McqPhaseView::Options { total, per, entries, question, options } => {
                    let options = options.push(response->Text_0);
                    if options.len() < per {
                        Progress::Continue(
                            McqPhaseView::Options { total, per, entries, question, options },
                        )
                    } else {
                        Progress::Continue(
                            McqPhaseView::Answer { total, per, entries, question, options },
                        )
                    }
                },
                McqPhaseView::Answer { total, per, entries, question, options } => {
                    let entries = entries.push(
                        McqView { question, answer: options[response->Choice_0 as int], options },
                    );
                    if entries.len() < total {
                        Progress::Continue(McqPhaseView::Question { total, per, entries })
                    } else {
                        Progress::Complete(entries)
                    }
                },
            }
        }
    }
}

/// A step keeps a phase well formed.
pub proof fn lemma_step_wf(phase: McqPhaseView, response: ResponseView)
    requires
        phase.wf(),
    ensures
        phase.step(response) matches Progress::Continue(next) ==> next.wf(),
{
}

/// In a finished batch the answer of every question is one of the options of
/// that same question.
pub proof fn law_answers_from_own_options(phase: McqPhaseView, response: ResponseView)
    requires
        phase.wf(),
        phase.step(response) is Complete,
    ensures
        forall|i: int|
            0 <= i < phase.step(response)->Complete_0.len() ==> (
            #[trigger] phase.step(response)->Complete_0[i]).options.contains(
                phase.step(response)->Complete_0[i].answer,
            ),
{
}

/// Where a batch of multiple-choice questions stands.
pub(crate) enum McqPhase {
    Count,
    OptionCount { total: usize },
    Question { total: usize, per: usize, entries: Vec<Mcq> },
    Options { total: usize, per: usize, entries: Vec<Mcq>, question: String, options: Vec<String> },
    Answer { total: usize, per: usize, entries: Vec<Mcq>, question: String, options: Vec<String> },
}

impl View for McqPhase {
    type V = McqPhaseView;

    closed spec fn view(&self) -> McqPhaseView {
        match *self {
            McqPhase::Count => McqPhaseView::Count,
            McqPhase::OptionCount { total } => McqPhaseView::OptionCount { total: total as nat },
            McqPhase::Question { total, per, entries } => McqPhaseView::Question {
                total: total as nat,
                per: per as nat,
                entries: views(entries@),
            },
            McqPhase::Options { total, per, entries, question, options } => McqPhaseView::Options {
                total: total as nat,
                per: per as nat,
                entries: views(entries@),
                question: question@,
                options: views(options@),
            },
            McqPhase::Answer { total, per, entries, question, options } => McqPhaseView::Answer {
                total: total as nat,
                per: per as nat,
                entries: views(entries@),
                question: question@,
                options: views(options@),
            },
        }
    }
}

impl McqPhase {
    /// The phase in which a batch begins.
    pub(crate) fn start() -> (phase: McqPhase)
        ensures
            phase@ == McqPhaseView::Count,
    {
        McqPhase::Count
    }

    pub(crate) fn prompt(&self) -> (prompt: Option<Prompt>)
        requires
            self@.wf(),
        ensures
            match prompt {
                Some(prompt) => self@.prompt() == Some(prompt@),
                None => self@.prompt().is_none(),
            },
    {
        match self {
            McqPhase::Count => Some(make_question_count_prompt(true)),
            McqPhase::OptionCount { total } => Some(make_option_count_prompt()),
            McqPhase::Question { total, per, entries } => {
                assert(views(entries@).len() == entries.len());
                Some(Prompt::Text { message: make_number(entries.len()) })
            },
            McqPhase::Options { total, per, entries, question, options } => {
                assert(views(options@).len() == options.len());
                make_option_prompt(options.len())
            },
            McqPhase::Answer { total, per, entries, question, options } => {
                assert(views(entries@).len() == entries.len());
                Some(
                    Prompt::Select {
                        message: make_numbered(entries.len(), question),
                        entries: copy_texts(options),
                    },
                )
            },
        }
    }

    pub(crate) fn accepts(&self, response: &Response) -> (accepted: bool)
        ensures
            accepted == self@.accepts(response@),
    {
        match self {
            McqPhase::Count => match response {
                Response::Count(_) => true,
                _ => false,
            },
            McqPhase::OptionCount { .. } => match response {
                Response::Count(_) => true,
                _ => false,
            },
            McqPhase::Question { .. } => match response {
                Response::Text(_) => true,
                _ => false,
            },
            McqPhase::Options { total, per, entries, question, options } => match response {
                Response::Text(_) => {
                    assert(views(options@).len() == options.len());
                    options.len() < LETTERS
                },
                _ => false,
            },
            McqPhase::Answer { total, per, entries, question, options } => match response {
                Response::Choice(index) => {
                    assert(views(options@).len() == options.len());
                    *index < options.len()
                },
                _ => false,
            },
        }
    }

    pub(crate) fn step(self, response: Response) -> (next: Progress<McqPhase, Vec<Mcq>>)
        requires
            self@.wf(),
        ensures
            match next {
                Progress::Continue(phase) => self@.step(response@) == Progress::<
                    McqPhaseView,
                    Seq<McqView>,
                >::Continue(phase@),
                Progress::Complete(entries) => self@.step(response@) == Progress::<
                    McqPhaseView,
                    Seq<McqView>,
                >::Complete(views(entries@)),
            },
    {
        match self {
            McqPhase::Count => match response {
                Response::Count(total) => Progress::Continue(McqPhase::OptionCount { total }),
                _ => Progress::Continue(McqPhase::Count),
            },
            McqPhase::OptionCount { total } => match response {
                Response::Count(per) => {
                    let entries: Vec<Mcq> = Vec::new();
                    assert(views(entries@) =~= Seq::<McqView>::empty());
                    if total == 0 {
                        Progress::Complete(entries)
                    } else {
                        Progress::Continue(McqPhase::Question { total, per, entries })
                    }
                },
                _ => Progress::Continue(McqPhase::OptionCount { total }),
            },
            McqPhase::Question { total, per, entries } => match response {
                Response::Text(question) => {
                    let options: Vec<String> = Vec::new();
                    assert(views(options@) =~= Seq::<Seq<char>>::empty());
                    if per == 0 {
                        Progress::Continue(
                            McqPhase::Answer { total, per, entries, question, options },
                        )
                    } else {
                        Progress::Continue(
                            McqPhase::Options { total, per, entries, question, options },
                        )
                    }
                },
                _ => Progress::Continue(McqPhase::Question { total, per, entries }),
            },
            McqPhase::Options { total, per, entries, question, mut options } => match response {
                Response::Text(text) => {
                    assert(views(options@).len() == options.len());
                    if options.len() < LETTERS {
                        proof {
                            lemma_views_push(options@, text);
                        }
                        options.push(text);
                        if options.len() < per {
                            Progress::Continue(
                                McqPhase::Options { total, per, entries, question, options },
                            )
                        } else {
                            Progress::Continue(
                                McqPhase::Answer { total, per, entries, question, options },
                            )
                        }
                    } else {
                        Progress::Continue(
                            McqPhase::Options { total, per, entries, question, options },
                        )
                    }
                },
                _ => Progress::Continue(
                    McqPhase::Options { total, per, entries, question, options },
                ),
            },
            McqPhase::Answer { total, per, mut entries, question, options } => match response {
                Response::Choice(index) => {
                    assert(views(options@).len() == options.len());
                    if index < options.len() {
                        let answer = options[index].clone();
                        let entry = Mcq::new(question, answer, options);
                        proof {
                            lemma_views_push(entries@, entry);
                        }
                        entries.push(entry);
                        if entries.len() < total {
                            Progress::Continue(McqPhase::Question { total, per, entries })
                        } else {
                            Progress::Complete(entries)
                        }
                    } else {
                        Progress::Continue(
                            McqPhase::Answer { total, per, entries, question, options },
                        )
                    }
                },
                _ => Progress::Continue(McqPhase::Answer { total, per, entries, question, options }),
            },
        }
    }
}

/// The script of one question: its text, its options, and the position of
/// the option that is picked.
pub open spec fn mcq_question_script(question: Seq<char>, options: Seq<Seq<char>>, pick: nat) -> Seq<
    ResponseView,
> {
    seq![ResponseView::Text(question)] + texts(options) + seq![ResponseView::Choice(pick)]
}

/// The entry that the script of one question gives.
pub open spec fn mcq_entry(question: Seq<char>, options: Seq<Seq<char>>, pick: nat) -> McqView {
    McqView { question, answer: options[pick as int], options }
}

/// The scripts of the first `k` questions, one behind the other.
pub open spec fn mcq_questions_script(
    questions: Seq<Seq<char>>,
    options: Seq<Seq<Seq<char>>>,
    picks: Seq<nat>,
    k: int,
) -> Seq<ResponseView>
    decreases k,
{
    if k <= 0 {
        Seq::empty()
    } else {
        mcq_questions_script(questions, options, picks, k - 1) + mcq_question_script(
            questions[k - 1],
            options[k - 1],
            picks[k - 1],
        )
    }
}

/// The script of a batch up to its question `k`: the two counts and the
/// scripts of the questions before it.
pub open spec fn mcq_script_before(
    per: nat,
    questions: Seq<Seq<char>>,
    options: Seq<Seq<Seq<char>>>,
    picks: Seq<nat>,
    k: int,
) -> Seq<ResponseView> {
    seq![ResponseView::Count(questions.len()), ResponseView::Count(per)] + mcq_questions_script(
        questions,
        options,
        picks,
        k,
    )
}

/// The script of a batch: the two counts and the scripts of all its
/// questions.
pub open spec fn mcq_script(
    per: nat,
    questions: Seq<Seq<char>>,
    options: Seq<Seq<Seq<char>>>,
    picks: Seq<nat>,
) -> Seq<ResponseView> {
    mcq_script_before(per, questions, options, picks, questions.len() as int)
}

/// The batch that the script gives: every question with its own options and
/// the one of them that was picked.
pub open spec fn mcq_entries(
    questions: Seq<Seq<char>>,
    options: Seq<Seq<Seq<char>>>,
    picks: Seq<nat>,
) -> Seq<McqView> {
    Seq::new(questions.len(), |i: int| mcq_entry(questions[i], options[i], picks[i]))
}

/// Whether questions, options and picks make a script: every question has
/// options of its own, as many as each question gets, which is at least one
/// and no more than there are letters, and a pick that is the position of one
/// of them.
pub open spec fn mcq_scripted(
    per: nat,
    questions: Seq<Seq<char>>,
    options: Seq<Seq<Seq<char>>>,
    picks: Seq<nat>,
) -> bool {
    &&& options.len() == questions.len()
    &&& picks.len() == questions.len()
    &&& questions.len() > 0 ==> 0 < per <= LETTERS
    &&& forall|i: int| 0 <= i < questions.len() ==> (#[trigger] options[i]).len() == per
    &&& forall|i: int| 0 <= i < questions.len() ==> #[trigger] picks[i] < per
}

proof fn lemma_mcq_question_script(question: Seq<char>, options: Seq<Seq<char>>, pick: nat)
    ensures
        ({
            let m = options.len() as int;
            let script = mcq_question_script(question, options, pick);
            &&& script.len() == m + 2
            &&& script[0] == ResponseView::Text(question)
            &&& forall|j: int| 1 <= j <= m ==> #[trigger] script[j] == ResponseView::Text(options[j - 1])
            &&& script[m + 1] == ResponseView::Choice(pick)
        }),
{
}

proof fn lemma_mcq_options(
    start: SessionView,
    question: Seq<char>,
    options: Seq<Seq<char>>,
    pick: nat,
    k: int,
)
    requires
        start.phase is Mcq,
        start.phase->Mcq_0 is Question,
        start.phase.wf(),
        options.len() == start.phase->Mcq_0->Question_per,
        options.len() <= LETTERS,
        0 <= k < options.len(),
    ensures
        start.run(mcq_question_script(question, options, pick).take(1 + k)) == start.within(
            PhaseView::Mcq(
                McqPhaseView::Options {
                    total: start.phase->Mcq_0->Question_total,
                    per: start.phase->Mcq_0->Question_per,
                    entries: start.phase->Mcq_0->Question_entries,
                    question,
                    options: options.take(k),
                },
            ),
        ),
    decreases k,
{
    let script = mcq_question_script(question, options, pick);
    lemma_mcq_question_script(question, options, pick);
    lemma_run_take(start, script, k);
    if k == 0 {
        assert(script.take(0) =~= Seq::empty());
        assert(options.take(0) =~= Seq::empty());
    } else {
        lemma_mcq_options(start, question, options, pick, k - 1);
        assert(options.take(k - 1).push(options[k - 1]) =~= options.take(k));
    }
}

/// One question of a batch. Where a question is due, the script of a
/// question, its options and a pick among them adds the entry that holds the
/// question, these options and the picked one as the answer. The batch is
/// finished with it where it was the last question, and else goes on with the
/// next. The question is asked for under its number, which counts the entries
/// of this batch from one on, the options under the letters from `a` on, and
/// the pick under the numbered question, from these options alone.
pub proof fn law_mcq_question(
    start: SessionView,
    question: Seq<char>,
    options: Seq<Seq<char>>,
    pick: nat,
)
    requires
        start.phase is Mcq,
        start.phase->Mcq_0 is Question,
        start.phase.wf(),
        options.len() == start.phase->Mcq_0->Question_per,
        0 < options.len() <= LETTERS,
        pick < options.len(),
    ensures
        ({
            let total = start.phase->Mcq_0->Question_total;
            let per = start.phase->Mcq_0->Question_per;
            let before = start.phase->Mcq_0->Question_entries;
            let entries = before.push(mcq_entry(question, options, pick));
            let script = mcq_question_script(question, options, pick);
            &&& start.run(script) == if entries.len() < total {
                start.within(PhaseView::Mcq(McqPhaseView::Question { total, per, entries }))
            } else {
                start.after(ExerciseView::Mcq(entries))
            }
            &&& asked(start, script, 0) == Some(
                PromptView::Text { message: number_text(before.len()) },
            )
            &&& forall|position: int|
                1 <= position <= per ==> #[trigger] asked(start, script, position) == Some(
                    PromptView::Text { message: letter_text((position - 1) as nat) },
                )
            &&& asked(start, script, (per + 1) as int) == Some(
                PromptView::Select {
                    message: numbered_text(before.len(), question),
                    entries: options,
                },
            )
        }),
{
    let m = options.len() as int;
    let script = mcq_question_script(question, options, pick);
    lemma_mcq_question_script(question, options, pick);
    assert(script.take(0) =~= Seq::empty());
    assert(script.take(m + 2) =~= script);
    lemma_mcq_options(start, question, options, pick, m - 1);
    lemma_run_take(start, script, m);
    assert(options.take(m - 1).push(options[m - 1]) =~= options);
    lemma_run_take(start, script, m + 1);
    assert forall|position: int| 1 <= position <= m implies #[trigger] asked(
        start,
        script,
        position,
    ) == Some(PromptView::Text { message: letter_text((position - 1) as nat) }) by {
        lemma_mcq_options(start, question, options, pick, position - 1);
    }
}

proof fn lemma_mcq_before(
    start: SessionView,
    per: nat,
    questions: Seq<Seq<char>>,
    options: Seq<Seq<Seq<char>>>,
    picks: Seq<nat>,
    k: int,
)
    requires
        start.phase == PhaseView::Mcq(McqPhaseView::Count),
        mcq_scripted(per, questions, options, picks),
        0 <= k <= questions.len(),
    ensures
        start.run(mcq_script_before(per, questions, options, picks, k)) == if k < questions.len() {
            start.within(
                PhaseView::Mcq(
                    McqPhaseView::Question {
                        total: questions.len(),
                        per,
                        entries: mcq_entries(questions, options, picks).take(k),
                    },
                ),
            )
        } else {
            start.after(ExerciseView::Mcq(mcq_entries(questions, options, picks)))
        },
    decreases k,
{
    let n = questions.len() as int;
    let entries = mcq_entries(questions, options, picks);
    let head = seq![ResponseView::Count(questions.len()), ResponseView::Count(per)];
    if k == 0 {
        let script = mcq_script_before(per, questions, options, picks, 0);
        assert(script =~= head);
        assert(head.take(0) =~= Seq::empty());
        assert(head.take(2) =~= head);
        lemma_run_take(start, head, 0);
        lemma_run_take(start, head, 1);
        assert(entries.take(0) =~= Seq::empty());
        if n == 0 {
            assert(entries =~= Seq::empty());
        }
    } else {
        let earlier = mcq_script_before(per, questions, options, picks, k - 1);
        let block = mcq_question_script(questions[k - 1], options[k - 1], picks[k - 1]);
        lemma_mcq_before(start, per, questions, options, picks, k - 1);
        assert(mcq_script_before(per, questions, options, picks, k) =~= earlier + block);
        lemma_run_add(start, earlier, block);
        assert(answered(entries.take(k - 1), per)) by {
            assert forall|i: int| 0 <= i < k - 1 implies {
                &&& (#[trigger] entries.take(k - 1)[i]).options.len() == per
                &&& entries.take(k - 1)[i].options.contains(entries.take(k - 1)[i].answer)
            } by {
                assert(options[i][picks[i] as int] == entries[i].answer);
            }
        }
        law_mcq_question(start.run(earlier), questions[k - 1], options[k - 1], picks[k - 1]);
        assert(entries.take(k - 1).push(entries[k - 1]) =~= entries.take(k));
        assert(entries.take(n) =~= entries);
    }
}

/// A batch of multiple-choice questions. From the count on, the script of
/// the count of options and of any questions, each with options of its own and
/// a pick among them, gives the batch that holds every question with its
/// options and with the picked one as its answer, in order; none where the
/// count of questions is zero. Every answer is one of the options of its own
/// question. Before each question the batch stands where that question is due,
/// with the entries of the questions before it.
pub proof fn law_mcq_batch(
    start: SessionView,
    per: nat,
    questions: Seq<Seq<char>>,
    options: Seq<Seq<Seq<char>>>,
    picks: Seq<nat>,
)
    requires
        start.phase == PhaseView::Mcq(McqPhaseView::Count),
        mcq_scripted(per, questions, options, picks),
    ensures
        ({
            let entries = mcq_entries(questions, options, picks);
            let script = mcq_script(per, questions, options, picks);
            &&& start.run(script) == start.after(ExerciseView::Mcq(entries))
            &&& forall|i: int|
                0 <= i < questions.len() ==> {
                    &&& (#[trigger] entries[i]).options == options[i]
                    &&& entries[i].options.contains(entries[i].answer)
                }
            &&& asked(start, script, 0) == Some(question_count_prompt(true))
            &&& asked(start, script, 1) == Some(option_count_prompt())
            &&& forall|k: int|
                0 <= k < questions.len() ==> #[trigger] start.run(
                    mcq_script_before(per, questions, options, picks, k),
                ) == start.within(
                    PhaseView::Mcq(
                        McqPhaseView::Question {
                            total: questions.len(),
                            per,
                            entries: entries.take(k),
                        },
                    ),
                )
        }),
{
    let entries = mcq_entries(questions, options, picks);
    let script = mcq_script(per, questions, options, picks);
    lemma_mcq_before(start, per, questions, options, picks, questions.len() as int);
    assert forall|i: int| 0 <= i < questions.len() implies {
        &&& (#[trigger] entries[i]).options == options[i]
        &&& entries[i].options.contains(entries[i].answer)
    } by {
        assert(options[i][picks[i] as int] == entries[i].answer);
    }
    assert(script.take(0) =~= Seq::empty());
    assert(script.take(1).drop_last() =~= Seq::empty());
    assert forall|k: int| 0 <= k < questions.len() implies #[trigger] start.run(
        mcq_script_before(per, questions, options, picks, k),
    ) == start.within(
        PhaseView::Mcq(
            McqPhaseView::Question { total: questions.len(), per, entries: entries.take(k) },
        ),
    ) by {
        lemma_mcq_before(start, per, questions, options, picks, k);
    }
}

} // verus!
