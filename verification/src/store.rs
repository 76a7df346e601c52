//! Joining newly authored exercises to the ones already stored.
//!
//! Reading and writing the storage location is left to the caller. The caller
//! says what it found there; this module says what is to be written back, or
//! why nothing is.

use crate::exercise::{lemma_views_add, views, Exercise, ExerciseView};
use vstd::prelude::*;

verus! {

/// Value of a [`Stored`].
pub enum StoredView {
    Missing,
    Unreadable(Seq<char>),
    Invalid(Seq<char>),
    Collection(Seq<ExerciseView>),
}

/// What was found at the storage location.
#[derive(Clone, Debug, PartialEq, Eq)]
pub enum Stored {
    /// Nothing is there.
    Missing,
    /// Something is there and could not be read; the text says why.
    Unreadable(String),
    /// What is there is no exercise collection; the text says why.
    Invalid(String),
    /// The collection that is there, in stored order.
    Collection(Vec<Exercise>),
}

impl View for Stored {
    type V = StoredView;

    open spec fn view(&self) -> StoredView {
        match *self {
            Stored::Missing => StoredView::Missing,
            Stored::Unreadable(reason) => StoredView::Unreadable(reason@),
            Stored::Invalid(reason) => StoredView::Invalid(reason@),
            Stored::Collection(exercises) => StoredView::Collection(views(exercises@)),
        }
    }
}

/// Value of a [`StoreError`].
pub enum StoreErrorView {
    Io(Seq<char>),
    Parse(Seq<char>),
}

/// Why nothing is written back.
#[derive(Clone, Debug, PartialEq, Eq)]
pub enum StoreError {
    /// The storage location could not be read.
    Io(String),
    /// What the storage location holds is no exercise collection.
    Parse(String),
}

impl View for StoreError {
    type V = StoreErrorView;

    open spec fn view(&self) -> StoreErrorView {
        match *self {
            StoreError::Io(reason) => StoreErrorView::Io(reason@),
            StoreError::Parse(reason) => StoreErrorView::Parse(reason@),
        }
    }
}

impl StoreError {
    /// The reason, as it was given.
    pub fn reason(&self) -> (reason: &String)
        ensures
            reason@ == match self@ {
                StoreErrorView::Io(reason) => reason,
                StoreErrorView::Parse(reason) => reason,
            },
    {
        match self {
            StoreError::Io(reason) => reason,
            StoreError::Parse(reason) => reason,
        }
    }
}

/// The collection that is written back: what was stored, followed by what was
/// authored. Where the stored content could not be read or is no collection,
/// nothing is written and the storage location stays as it is.
pub open spec fn merged(stored: StoredView, authored: Seq<ExerciseView>) -> Result<
    Seq<ExerciseView>,
    StoreErrorView,
> {
    match stored {
        StoredView::Missing => Ok(authored),
        StoredView::Unreadable(reason) => Err(StoreErrorView::Io(reason)),
        StoredView::Invalid(reason) => Err(StoreErrorView::Parse(reason)),
        StoredView::Collection(exercises) => Ok(exercises + authored),
    }
}

/// Value of what [`merge`] gives.
pub open spec fn merge_view(result: Result<Vec<Exercise>, StoreError>) -> Result<
    Seq<ExerciseView>,
    StoreErrorView,
> {
    match result {
        Ok(exercises) => Ok(views(exercises@)),
        Err(error) => Err(error@),
    }
}

/// Joins what was authored to what was stored.
pub fn merge(stored: Stored, authored: Vec<Exercise>) -> (result: Result<
    Vec<Exercise>,
    StoreError,
>)
    ensures
        merge_view(result) == merged(stored@, views(authored@)),
{
    match stored {
        Stored::Missing => Ok(authored),
        Stored::Unreadable(reason) => Err(StoreError::Io(reason)),
        Stored::Invalid(reason) => Err(StoreError::Parse(reason)),
        Stored::Collection(mut exercises) => {
            let mut authored = authored;
            proof {
                lemma_views_add(exercises@, authored@);
            }
            exercises.append(&mut authored);
            Ok(exercises)
        },
    }
}

/// Storing only appends: against a stored collection of `m` batches, `n`
/// authored batches give a collection of `m + n`, in which the first `m` are
/// the stored ones, unchanged and in their order, and the rest are the
/// authored ones in theirs.
pub proof fn law_append_only(exercises: Seq<ExerciseView>, authored: Seq<ExerciseView>)
    ensures
        merged(StoredView::Collection(exercises), authored) matches Ok(all) && {
            &&& all.len() == exercises.len() + authored.len()
            &&& all.subrange(0, exercises.len() as int) == exercises
            &&& all.subrange(exercises.len() as int, all.len() as int) == authored
        },
{
    let all = exercises + authored;
    assert(all.subrange(0, exercises.len() as int) =~= exercises);
    assert(all.subrange(exercises.len() as int, all.len() as int) =~= authored);
}

/// Where nothing was authored, the stored collection is written back as it
/// is.
pub proof fn law_nothing_authored_keeps_stored(exercises: Seq<ExerciseView>)
    ensures
        merged(StoredView::Collection(exercises), Seq::empty()) == Ok::<
            Seq<ExerciseView>,
            StoreErrorView,
        >(exercises),
{
    assert(exercises + Seq::<ExerciseView>::empty() =~= exercises);
}

/// Where nothing was stored, exactly what was authored is written.
pub proof fn law_missing_gives_authored(authored: Seq<ExerciseView>)
    ensures
        merged(StoredView::Missing, authored) == Ok::<Seq<ExerciseView>, StoreErrorView>(authored),
{
}

/// Where the stored content is no collection, the outcome is the parse error
/// and there is nothing to write, whatever was authored.
pub proof fn law_invalid_gives_parse_error(reason: Seq<char>, authored: Seq<ExerciseView>)
    ensures
        merged(StoredView::Invalid(reason), authored) == Err::<
            Seq<ExerciseView>,
            StoreErrorView,
        >(StoreErrorView::Parse(reason)),
{
}

} // verus!
