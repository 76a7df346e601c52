//! What holds of every session, and the means to speak of whole runs of
//! answers.
//!
//! A script is the run of responses that enters one batch, from the count on.
//! The module of every kind of batch holds the law of its scripts: which batch
//! a script gives and under which prompts its responses are asked for.

use crate::entry::session::{authored, PhaseView, SessionView};
use crate::entry::{EntryOptions, PromptView, ResponseView};
use crate::exercise::ExerciseView;
use vstd::prelude::*;

verus! {

/// Texts as responses.
pub open spec fn texts(items: Seq<Seq<char>>) -> Seq<ResponseView> {
    Seq::new(items.len(), |i: int| ResponseView::Text(items[i]))
}

/// Answers of yes or no as responses.
pub open spec fn confirms(answers: Seq<bool>) -> Seq<ResponseView> {
    Seq::new(answers.len(), |i: int| ResponseView::Confirm(answers[i]))
}

/// Picked positions as responses.
pub open spec fn choices(picks: Seq<nat>) -> Seq<ResponseView> {
    Seq::new(picks.len(), |i: int| ResponseView::Choice(picks[i]))
}

/// The prompt under which the response at a position of a run is asked for.
pub open spec fn asked(start: SessionView, responses: Seq<ResponseView>, position: int) -> Option<
    PromptView,
> {
    start.run(responses.take(position)).prompt()
}

/// A run that is one response longer ends one step later.
pub proof fn lemma_run_take(start: SessionView, responses: Seq<ResponseView>, position: int)
    requires
        0 <= position < responses.len(),
    ensures
        start.run(responses.take(position + 1)) == start.run(responses.take(position)).step(
            responses[position],
        ),
{
    assert(responses.take(position + 1).drop_last() =~= responses.take(position));
}

/// A run of two parts is the run of the second part behind the run of the
/// first.
pub proof fn lemma_run_add(start: SessionView, first: Seq<ResponseView>, second: Seq<ResponseView>)
    ensures
        start.run(first + second) == start.run(first).run(second),
    decreases second.len(),
{
    if second.len() == 0 {
        assert(first + second =~= first);
    } else {
        lemma_run_add(start, first, second.drop_last());
        assert((first + second).drop_last() =~= first + second.drop_last());
    }
}

/// The prompt depends on the phase alone: whatever was finished before, a
/// batch is asked for in the same words and under the same numbers.
pub proof fn law_prompt_of_phase(one: SessionView, other: SessionView)
    requires
        one.phase == other.phase,
    ensures
        one.prompt() == other.prompt(),
{
}

/// What is finished stays: a step keeps the finished batches as they are and
/// in their order, and adds at most one behind them.
pub proof fn law_finished_batches_stay(session: SessionView, response: ResponseView)
    ensures
        session.step(response).done == session.done || session.step(response).done.drop_last()
            == session.done,
{
    let next = session.step(response);
    if next.done != session.done {
        assert(next.done.drop_last() =~= session.done);
    }
}

/// A run keeps a session well formed.
pub proof fn lemma_run_wf(start: SessionView, responses: Seq<ResponseView>)
    requires
        start.wf(),
    ensures
        start.run(responses).wf(),
    decreases responses.len(),
{
    if responses.len() > 0 {
        lemma_run_wf(start, responses.drop_last());
        crate::entry::session::lemma_step_wf(
            start.run(responses.drop_last()),
            responses.last(),
        );
    }
}

/// Whatever the answers, a session that began with nothing finished holds
/// only batches of the kinds that the menu offers, and in every batch whose
/// entries carry their options, every answer is one of the options of its own
/// entry.
pub proof fn law_only_authored_batches(start: SessionView, responses: Seq<ResponseView>)
    requires
        start.wf(),
        start.done.len() == 0,
    ensures
        forall|i: int|
            0 <= i < start.run(responses).done.len() ==> authored(
                #[trigger] start.run(responses).done[i],
            ),
{
    lemma_run_wf(start, responses);
}

/// From the menu, a pick and the script of a batch lead where the script
/// leads from the first phase of that batch.
pub proof fn law_pick_then_batch(
    start: SessionView,
    option: EntryOptions,
    script: Seq<ResponseView>,
)
    requires
        start.phase is Menu,
    ensures
        start.run(seq![ResponseView::Kind(option)] + script) == start.within(
            PhaseView::picked(option),
        ).run(script),
{
    let pick = seq![ResponseView::Kind(option)];
    lemma_run_add(start, pick, script);
    assert(pick.take(0) =~= Seq::empty());
    assert(pick.take(1) =~= pick);
    lemma_run_take(start, pick, 0);
}

/// Stopping at the menu ends the session with everything that was finished,
/// in order, and with nothing else.
pub proof fn law_stop_keeps_finished(start: SessionView)
    requires
        start.phase is Menu,
    ensures
        start.step(ResponseView::Kind(EntryOptions::SaveAndQuit)).finished(),
        start.step(ResponseView::Kind(EntryOptions::SaveAndQuit)).done == start.done,
{
}

/// Once a session is over, nothing changes any more.
pub proof fn law_finished_is_final(start: SessionView, responses: Seq<ResponseView>)
    requires
        start.finished(),
    ensures
        start.run(responses) == start,
        start.prompt().is_none(),
    decreases responses.len(),
{
    if responses.len() > 0 {
        law_finished_is_final(start, responses.drop_last());
    }
}

/// The answers that ask for a batch of no questions: the count zero, and for
/// multiple-choice questions a count of options besides.
pub open spec fn empty_script(option: EntryOptions, per: nat) -> Seq<ResponseView> {
    if option == EntryOptions::Mcq {
        seq![ResponseView::Count(0), ResponseView::Count(per)]
    } else {
        seq![ResponseView::Count(0)]
    }
}

/// The batch of a kind that holds no entry.
pub open spec fn empty_batch(option: EntryOptions) -> ExerciseView
    recommends
        option != EntryOptions::SaveAndQuit,
{
    match option {
        EntryOptions::Matching => ExerciseView::Matching(Seq::empty()),
        EntryOptions::YesNo => ExerciseView::YesNo(Seq::empty()),
        EntryOptions::Recall => ExerciseView::Recall(Seq::empty()),
        EntryOptions::Mcq => ExerciseView::Mcq(Seq::empty()),
        EntryOptions::RecognizeRoot => ExerciseView::RecognizeRoot(Seq::empty()),
        EntryOptions::SaveAndQuit => arbitrary(),
    }
}

/// Zero questions are no error and leave no gap: for every kind, the pick of
/// the kind and the count zero finish a batch of that kind with no entry, which
/// is added behind the batches finished before, and the menu is shown again.
pub proof fn law_zero_count(start: SessionView, option: EntryOptions, per: nat)
    requires
        start.phase is Menu,
        option != EntryOptions::SaveAndQuit,
    ensures
        start.run(seq![ResponseView::Kind(option)] + empty_script(option, per)) == start.after(
            empty_batch(option),
        ),
        start.after(empty_batch(option)).done == start.done.push(empty_batch(option)),
{
    let script = empty_script(option, per);
    law_pick_then_batch(start, option, script);
    let batch = start.within(PhaseView::picked(option));
    assert(script.take(0) =~= Seq::empty());
    lemma_run_take(batch, script, 0);
    if option == EntryOptions::Mcq {
        assert(script.take(2) =~= script);
        lemma_run_take(batch, script, 1);
    } else {
        assert(script.take(1) =~= script);
    }
}

} // verus!
