//! The session: a menu from which batch after batch is entered, until the
//! user stops; or one batch alone, without a menu.

use crate::entry::matching::{MatchingPhase, MatchingPhaseView};
use crate::entry::mcq::{McqPhase, McqPhaseView};
use crate::entry::recall::{RecallPhase, RecallPhaseView};
use crate::entry::recognize_root::{RecognizeRootPhase, RecognizeRootPhaseView};
use crate::entry::yes_no::{YesNoPhase, YesNoPhaseView};
use crate::entry::laws::lemma_run_take;
use crate::entry::{
    kind_prompt, make_kind_prompt, Entry, EntryOptions, Progress, Prompt, PromptView, Response,
    ResponseView,
};
use crate::exercise::{
    lemma_views_push, views, Exercise, ExerciseView, Matching, Mcq, Recall, RecognizeRoot, YesNo,
};
use vstd::prelude::*;

verus! {

/// Value of where a session stands: at the menu, within a batch of one kind,
/// or at its end.
pub enum PhaseView {
    Menu,
    Matching(MatchingPhaseView),
    YesNo(YesNoPhaseView),
    Recall(RecallPhaseView),
    Mcq(McqPhaseView),
    RecognizeRoot(RecognizeRootPhaseView),
    Finished,
}

impl PhaseView {
    /// What holds of every phase that a session reaches.
    pub open spec fn wf(self) -> bool {
        match self {
            PhaseView::Menu => true,
            PhaseView::Matching(batch) => batch.wf(),
            PhaseView::YesNo(batch) => batch.wf(),
            PhaseView::Recall(batch) => batch.wf(),
            PhaseView::Mcq(batch) => batch.wf(),
            PhaseView::RecognizeRoot(batch) => batch.wf(),
            PhaseView::Finished => true,
        }
    }

    /// The phase to which a pick from the menu leads.
    pub open spec fn picked(option: EntryOptions) -> PhaseView {
        match option {
            EntryOptions::Matching => PhaseView::Matching(MatchingPhaseView::Count),
            EntryOptions::YesNo => PhaseView::YesNo(YesNoPhaseView::Count),
            EntryOptions::Recall => PhaseView::Recall(RecallPhaseView::Count),
            EntryOptions::Mcq => PhaseView::Mcq(McqPhaseView::Count),
            EntryOptions::RecognizeRoot => PhaseView::RecognizeRoot(RecognizeRootPhaseView::Count),
            EntryOptions::SaveAndQuit => PhaseView::Finished,
        }
    }
}

/// Whether a batch is one that a session can have produced: of a kind that
/// the menu offers and, where its entries carry their options, with every
/// answer among the options of its own entry.
pub open spec fn authored(exercise: ExerciseView) -> bool {
    match exercise {
        ExerciseView::Matching(entries) => true,
        ExerciseView::YesNo(entries) => true,
        ExerciseView::Recall(entries) => true,
        ExerciseView::Mcq(entries) => forall|i: int|
            0 <= i < entries.len() ==> (#[trigger] entries[i]).options.contains(entries[i].answer),
        ExerciseView::RecognizeRoot(entries) => true,
        ExerciseView::FillInTheBlank(entries) => false,
        ExerciseView::SameOrOpposite(entries) => false,
    }
}

/// Value of a [`Session`]: the finished batches, oldest first, the phase, and
/// whether the session is over with its first batch.
pub struct SessionView {
    pub done: Seq<ExerciseView>,
    pub phase: PhaseView,
    pub single: bool,
}

impl SessionView {
    /// A session that has just begun: nothing is finished, the menu is shown.
    pub open spec fn initial() -> SessionView {
        SessionView { done: Seq::empty(), phase: PhaseView::Menu, single: false }
    }

    /// A session that has just begun, in which one batch is entered without a
    /// menu before or after it.
    pub open spec fn only(phase: PhaseView) -> SessionView {
        SessionView { done: Seq::empty(), phase, single: true }
    }

    /// What holds of every session.
    pub open spec fn wf(self) -> bool {
        &&& self.phase.wf()
        &&& forall|i: int| 0 <= i < self.done.len() ==> authored(#[trigger] self.done[i])
    }

    /// Whether the session is over: the user has stopped at the menu, or the
    /// one batch of the session is finished.
    pub open spec fn finished(self) -> bool {
        self.phase is Finished
    }

    /// The prompt that is shown next; none once the session is over, and none
    /// where the batch that is under way cannot go on.
    pub open spec fn prompt(self) -> Option<PromptView> {
        match self.phase {
            PhaseView::Menu => Some(kind_prompt()),
            PhaseView::Matching(batch) => batch.prompt(),
            PhaseView::YesNo(batch) => Some(batch.prompt()),
            PhaseView::Recall(batch) => Some(batch.prompt()),
            PhaseView::Mcq(batch) => batch.prompt(),
            PhaseView::RecognizeRoot(batch) => Some(batch.prompt()),
            PhaseView::Finished => None,
        }
    }

    /// Whether a response answers the prompt that is shown next.
    pub open spec fn accepts(self, response: ResponseView) -> bool {
        match self.phase {
            PhaseView::Menu => response is Kind,
            PhaseView::Matching(batch) => batch.accepts(response),
            PhaseView::YesNo(batch) => batch.accepts(response),
            PhaseView::Recall(batch) => batch.accepts(response),
            PhaseView::Mcq(batch) => batch.accepts(response),
            PhaseView::RecognizeRoot(batch) => batch.accepts(response),
            PhaseView::Finished => false,
        }
    }

    /// The session in which a batch goes on.
    pub open spec fn within(self, phase: PhaseView) -> SessionView {
        SessionView { done: self.done, phase, single: self.single }
    }

    /// The session after a batch is finished: the batch is the newest of the
    /// finished ones, and the menu is shown again, unless the session is over
    /// with the batch.
    pub open spec fn after(self, exercise: ExerciseView) -> SessionView {
        SessionView {
            done: self.done.push(exercise),
            phase: if self.single {
                PhaseView::Finished
            } else {
                PhaseView::Menu
            },
            single: self.single,
        }
    }

    /// The session after a response. One that does not answer the prompt
    /// changes nothing.
    pub open spec fn step(self, response: ResponseView) -> SessionView {
        match self.phase {
            PhaseView::Menu => match response {
                ResponseView::Kind(option) => self.within(PhaseView::picked(option)),
                _ => self,
            },
            PhaseView::Matching(batch) => match batch.step(response) {
                Progress::Continue(next) => self.within(PhaseView::Matching(next)),
                Progress::Complete(entries) => self.after(ExerciseView::Matching(entries)),
            },
            PhaseView::YesNo(batch) => match batch.step(response) {
                Progress::Continue(next) => self.within(PhaseView::YesNo(next)),
                Progress::Complete(entries) => self.after(ExerciseView::YesNo(entries)),
            },
            PhaseView::Recall(batch) => match batch.step(response) {
                Progress::Continue(next) => self.within(PhaseView::Recall(next)),
                Progress::Complete(entries) => self.after(ExerciseView::Recall(entries)),
            },
            PhaseView::Mcq(batch) => match batch.step(response) {
                Progress::Continue(next) => self.within(PhaseView::Mcq(next)),
                Progress::Complete(entries) => self.after(ExerciseView::Mcq(entries)),
            },
            PhaseView::RecognizeRoot(batch) => match batch.step(response) {
                Progress::Continue(next) => self.within(PhaseView::RecognizeRoot(next)),
                Progress::Complete(entries) => self.after(ExerciseView::RecognizeRoot(entries)),
            },
            PhaseView::Finished => self,
        }
    }

    /// The session after a run of responses, the first of them first.
    pub open spec fn run(self, responses: Seq<ResponseView>) -> SessionView
        decreases responses.len(),
    {
        if responses.len() == 0 {
            self
        } else {
            self.run(responses.drop_last()).step(responses.last())
        }
    }
}

/// A step keeps a session well formed.
pub proof fn lemma_step_wf(session: SessionView, response: ResponseView)
    requires
        session.wf(),
    ensures
        session.step(response).wf(),
{
    match session.phase {
        PhaseView::Matching(batch) => {
            crate::entry::matching::lemma_step_wf(batch, response);
        },
        PhaseView::YesNo(batch) => {
            crate::entry::yes_no::lemma_step_wf(batch, response);
        },
        PhaseView::Recall(batch) => {
            crate::entry::recall::lemma_step_wf(batch, response);
        },
        PhaseView::Mcq(batch) => {
            crate::entry::mcq::lemma_step_wf(batch, response);
            if batch.step(response) is Complete {
                crate::entry::mcq::law_answers_from_own_options(batch, response);
            }
        },
        PhaseView::RecognizeRoot(batch) => {
            crate::entry::recognize_root::lemma_step_wf(batch, response);
        },
        _ => {},
    }
}

enum Phase {
    Menu,
    Matching(MatchingPhase),
    YesNo(YesNoPhase),
    Recall(RecallPhase),
    Mcq(McqPhase),
    RecognizeRoot(RecognizeRootPhase),
    Finished,
}

impl View for Phase {
    type V = PhaseView;

    closed spec fn view(&self) -> PhaseView {
        match *self {
            Phase::Menu => PhaseView::Menu,
            Phase::Matching(batch) => PhaseView::Matching(batch@),
            Phase::YesNo(batch) => PhaseView::YesNo(batch@),
            Phase::Recall(batch) => PhaseView::Recall(batch@),
            Phase::Mcq(batch) => PhaseView::Mcq(batch@),
            Phase::RecognizeRoot(batch) => PhaseView::RecognizeRoot(batch@),
            Phase::Finished => PhaseView::Finished,
        }
    }
}

/// An entry session. It says which prompt is to be shown and takes the answer
/// to it; the batches that are finished so far can be had at any time.
pub struct Session {
    done: Vec<Exercise>,
    phase: Phase,
    single: bool,
}

impl View for Session {
    type V = SessionView;

    closed spec fn view(&self) -> SessionView {
        SessionView { done: views(self.done@), phase: self.phase@, single: self.single }
    }
}

impl Session {
    #[verifier::type_invariant]
    spec fn well_formed(self) -> bool {
        self@.wf()
    }

    /// Begins a session at the menu.
    pub fn new() -> (session: Session)
        ensures
            session@ == SessionView::initial(),
            session@.wf(),
    {
        let done: Vec<Exercise> = Vec::new();
        assert(views(done@) =~= Seq::<ExerciseView>::empty());
        Session { done, phase: Phase::Menu, single: false }
    }

    fn only(phase: Phase) -> (session: Session)
        requires
            phase@.wf(),
        ensures
            session@ == SessionView::only(phase@),
            session@.wf(),
    {
        let done: Vec<Exercise> = Vec::new();
        assert(views(done@) =~= Seq::<ExerciseView>::empty());
        Session { done, phase, single: true }
    }

    fn after(done: Vec<Exercise>, exercise: Exercise, single: bool) -> (session: Session)
        requires
            forall|i: int| 0 <= i < done.len() ==> authored(#[trigger] views(done@)[i]),
            authored(exercise@),
        ensures
            session@ == (SessionView { done: views(done@), phase: PhaseView::Menu, single }).after(
                exercise@,
            ),
    {
        let mut done = done;
        proof {
            lemma_views_push(done@, exercise);
        }
        done.push(exercise);
        let phase = if single {
            Phase::Finished
        } else {
            Phase::Menu
        };
        Session { done, phase, single }
    }

    /// Whether the session is over: the user has stopped at the menu, or the
    /// one batch of the session is finished.
    pub fn is_finished(&self) -> (finished: bool)
        ensures
            finished == self@.finished(),
    {
        match self.phase {
            Phase::Finished => true,
            _ => false,
        }
    }

    /// The prompt to show next; none once the session is over, and none where
    /// the batch that is under way cannot go on.
    pub fn prompt(&self) -> (prompt: Option<Prompt>)
        ensures
            match prompt {
                Some(prompt) => self@.prompt() == Some(prompt@),
                None => self@.prompt().is_none(),
            },
    {
        proof {
            use_type_invariant(self);
        }
        match &self.phase {
            Phase::Menu => Some(make_kind_prompt()),
            Phase::Matching(batch) => batch.prompt(),
            Phase::YesNo(batch) => Some(batch.prompt()),
            Phase::Recall(batch) => Some(batch.prompt()),
            Phase::Mcq(batch) => batch.prompt(),
            Phase::RecognizeRoot(batch) => Some(batch.prompt()),
            Phase::Finished => None,
        }
    }

    /// Whether a response answers the prompt that is shown next.
    pub fn accepts(&self, response: &Response) -> (accepted: bool)
        ensures
            accepted == self@.accepts(response@),
    {
        match &self.phase {
            Phase::Menu => match response {
                Response::Kind(_) => true,
                _ => false,
            },
            Phase::Matching(batch) => batch.accepts(response),
            Phase::YesNo(batch) => batch.accepts(response),
            Phase::Recall(batch) => batch.accepts(response),
            Phase::Mcq(batch) => batch.accepts(response),
            Phase::RecognizeRoot(batch) => batch.accepts(response),
            Phase::Finished => false,
        }
    }

    /// Takes the answer to the prompt. A response that does not answer it
    /// changes nothing.
    pub fn step(self, response: Response) -> (next: Session)
        ensures
            next@ == self@.step(response@),
            next@.wf(),
    {
        proof {
            use_type_invariant(&self);
            lemma_step_wf(self@, response@);
        }
        let done = self.done;
        let single = self.single;
        match self.phase {
            Phase::Menu => match response {
                Response::Kind(option) => {
                    let phase = match option {
                        EntryOptions::Matching => Phase::Matching(MatchingPhase::start()),
                        EntryOptions::YesNo => Phase::YesNo(YesNoPhase::start()),
                        EntryOptions::Recall => Phase::Recall(RecallPhase::start()),
                        EntryOptions::Mcq => Phase::Mcq(McqPhase::start()),
                        EntryOptions::RecognizeRoot => Phase::RecognizeRoot(
                            RecognizeRootPhase::start(),
                        ),
                        EntryOptions::SaveAndQuit => Phase::Finished,
                    };
                    Session { done, phase, single }
                },
                _ => Session { done, phase: Phase::Menu, single },
            },
            Phase::Matching(batch) => match batch.step(response) {
                Progress::Continue(batch) => Session { done, phase: Phase::Matching(batch), single },
                Progress::Complete(entries) => Session::after(
                    done,
                    Exercise::Matching(entries),
                    single,
                ),
            },
            Phase::YesNo(batch) => match batch.step(response) {
                Progress::Continue(batch) => Session { done, phase: Phase::YesNo(batch), single },
                Progress::Complete(entries) => Session::after(
                    done,
                    Exercise::YesNo(entries),
                    single,
                ),
            },
            Phase::Recall(batch) => match batch.step(response) {
                Progress::Continue(batch) => Session { done, phase: Phase::Recall(batch), single },
                Progress::Complete(entries) => Session::after(
                    done,
                    Exercise::Recall(entries),
                    single,
                ),
            },
            Phase::Mcq(batch) => {
                proof {
                    if batch@.step(response@) is Complete {
                        crate::entry::mcq::law_answers_from_own_options(batch@, response@);
                    }
                }
                match batch.step(response) {
                    Progress::Continue(batch) => Session { done, phase: Phase::Mcq(batch), single },
                    Progress::Complete(entries) => Session::after(
                        done,
                        Exercise::Mcq(entries),
                        single,
                    ),
                }
            },
            Phase::RecognizeRoot(batch) => match batch.step(response) {
                Progress::Continue(batch) => Session {
                    done,
                    phase: Phase::RecognizeRoot(batch),
                    single,
                },
                Progress::Complete(entries) => Session::after(
                    done,
                    Exercise::RecognizeRoot(entries),
                    single,
                ),
            },
            Phase::Finished => Session { done, phase: Phase::Finished, single },
        }
    }

    /// Takes a run of answers, the first of them first.
    pub fn run(self, responses: Vec<Response>) -> (last: Session)
        ensures
            last@ == self@.run(views(responses@)),
            last@.wf(),
    {
        proof {
            use_type_invariant(&self);
        }
        let ghost start = self@;
        let ghost all = views(responses@);
        let ghost items = responses@;
        let mut session = self;
        assert(all.take(0) =~= Seq::empty());
        for response in it: responses.into_iter()
            invariant
                it.seq() == items,
                all == views(items),
                session@ == start.run(all.take(it.index() as int)),
                session@.wf(),
        {
            proof {
                lemma_run_take(start, all, it.index() as int);
            }
            session = session.step(response);
        }
        assert(all.take(all.len() as int) =~= all);
        session
    }

    /// The batches that are finished, oldest first.
    pub fn exercises(&self) -> (done: &Vec<Exercise>)
        ensures
            views(done@) == self@.done,
    {
        &self.done
    }

    /// Ends the session and hands out the batches that are finished, oldest
    /// first. A batch that is under way is dropped.
    pub fn into_exercises(self) -> (done: Vec<Exercise>)
        ensures
            views(done@) == self@.done,
    {
        self.done
    }
}

impl Entry for Exercise {
    open spec fn opening() -> SessionView {
        SessionView::initial()
    }

    /// Begins a session at the menu, in which batch after batch is entered
    /// until the user stops.
    fn read() -> (session: Session) {
        Session::new()
    }
}

impl Entry for Matching {
    open spec fn opening() -> SessionView {
        SessionView::only(PhaseView::Matching(MatchingPhaseView::Count))
    }

    fn read() -> (session: Session) {
        Session::only(Phase::Matching(MatchingPhase::start()))
    }
}

impl Entry for YesNo {
    open spec fn opening() -> SessionView {
        SessionView::only(PhaseView::YesNo(YesNoPhaseView::Count))
    }

    fn read() -> (session: Session) {
        Session::only(Phase::YesNo(YesNoPhase::start()))
    }
}

impl Entry for Recall {
    open spec fn opening() -> SessionView {
        SessionView::only(PhaseView::Recall(RecallPhaseView::Count))
    }

    fn read() -> (session: Session) {
        Session::only(Phase::Recall(RecallPhase::start()))
    }
}

impl Entry for Mcq {
    open spec fn opening() -> SessionView {
        SessionView::only(PhaseView::Mcq(McqPhaseView::Count))
    }

    fn read() -> (session: Session) {
        Session::only(Phase::Mcq(McqPhase::start()))
    }
}

impl Entry for RecognizeRoot {
    open spec fn opening() -> SessionView {
        SessionView::only(PhaseView::RecognizeRoot(RecognizeRootPhaseView::Count))
    }

    fn read() -> (session: Session) {
        Session::only(Phase::RecognizeRoot(RecognizeRootPhase::start()))
    }
}

} // verus!
