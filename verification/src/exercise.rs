//! The exercise data model.
//!
//! Every entry type is plain data. Its mathematical value is its view: the same
//! record with every string taken as a sequence of characters.

use vstd::prelude::*;

verus! {

/// The values of a sequence of items, in order.
pub open spec fn views<T: View>(items: Seq<T>) -> Seq<T::V> {
    Seq::new(items.len(), |i: int| items[i]@)
}

/// Appending an item appends its value.
pub proof fn lemma_views_push<T: View>(items: Seq<T>, item: T)
    ensures
        views(items.push(item)) == views(items).push(item@),
{
    assert(views(items.push(item)) =~= views(items).push(item@));
}

/// The values of a concatenation are the concatenated values.
pub proof fn lemma_views_add<T: View>(left: Seq<T>, right: Seq<T>)
    ensures
        views(left + right) == views(left) + views(right),
{
    assert(views(left + right) =~= views(left) + views(right));
}

/// Value of a [`Matching`] entry.
pub struct MatchingView {
    pub question: Seq<char>,
    pub answer: Seq<char>,
}

/// A question whose answer was picked from a pool of options shared by the
/// whole batch. Only the chosen option's text is kept.
#[derive(Clone, Debug, PartialEq, Eq)]
pub struct Matching {
    question: String,
    answer: String,
}

impl View for Matching {
    type V = MatchingView;

    closed spec fn view(&self) -> MatchingView {
        MatchingView { question: self.question@, answer: self.answer@ }
    }
}

impl Matching {
    pub fn new(question: String, answer: String) -> (entry: Matching)
        ensures
            entry@ == (MatchingView { question: question@, answer: answer@ }),
    {
        Matching { question, answer }
    }

    pub fn question(&self) -> (text: &String)
        ensures
            text@ == self@.question,
    {
        &self.question
    }

    pub fn answer(&self) -> (text: &String)
        ensures
            text@ == self@.answer,
    {
        &self.answer
    }
}

/// Value of a [`YesNo`] entry.
pub struct YesNoView {
    pub question: Seq<char>,
    pub answer: bool,
}

/// A question answered by yes or no.
#[derive(Clone, Debug, PartialEq, Eq)]
pub struct YesNo {
    question: String,
    answer: bool,
}

impl View for YesNo {
    type V = YesNoView;

    closed spec fn view(&self) -> YesNoView {
        YesNoView { question: self.question@, answer: self.answer }
    }
}

impl YesNo {
    pub fn new(question: String, answer: bool) -> (entry: YesNo)
        ensures
            entry@ == (YesNoView { question: question@, answer }),
    {
        YesNo { question, answer }
    }

    pub fn question(&self) -> (text: &String)
        ensures
            text@ == self@.question,
    {
        &self.question
    }

    pub fn answer(&self) -> (answer: bool)
        ensures
            answer == self@.answer,
    {
        self.answer
    }
}

/// Value of a [`Recall`] entry.
pub struct RecallView {
    pub question: Seq<char>,
    pub answer: Seq<char>,
}

/// A question with a free-text answer.
#[derive(Clone, Debug, PartialEq, Eq)]
pub struct Recall {
    question: String,
    answer: String,
}

impl View for Recall {
    type V = RecallView;

    closed spec fn view(&self) -> RecallView {
        RecallView { question: self.question@, answer: self.answer@ }
    }
}

impl Recall {
    pub fn new(question: String, answer: String) -> (entry: Recall)
        ensures
            entry@ == (RecallView { question: question@, answer: answer@ }),
    {
        Recall { question, answer }
    }

    pub fn question(&self) -> (text: &String)
        ensures
            text@ == self@.question,
    {
        &self.question
    }

    pub fn answer(&self) -> (text: &String)
        ensures
            text@ == self@.answer,
    {
        &self.answer
    }
}

/// Value of an [`Mcq`] entry.
pub struct McqView {
    pub question: Seq<char>,
    pub answer: Seq<char>,
    pub options: Seq<Seq<char>>,
}

/// A multiple-choice question that carries its own options, in the order in
/// which they were offered. The type does not demand that the answer is among
/// them.
#[derive(Clone, Debug, PartialEq, Eq)]
pub struct Mcq {
    question: String,
    answer: String,
    options: Vec<String>,
}

impl View for Mcq {
    type V = McqView;

    closed spec fn view(&self) -> McqView {
        McqView {
            question: self.question@,
            answer: self.answer@,
            options: views(self.options@),
        }
    }
}

impl Mcq {
    pub fn new(question: String, answer: String, options: Vec<String>) -> (entry: Mcq)
        ensures
            entry@ == (McqView {
                question: question@,
                answer: answer@,
                options: views(options@),
            }),
    {
        Mcq { question, answer, options }
    }

    pub fn question(&self) -> (text: &String)
        ensures
            text@ == self@.question,
    {
        &self.question
    }

    pub fn answer(&self) -> (text: &String)
        ensures
            text@ == self@.answer,
    {
        &self.answer
    }

    pub fn options(&self) -> (options: &Vec<String>)
        ensures
            views(options@) == self@.options,
    {
        &self.options
    }
}

/// Value of a [`RecognizeRoot`] entry.
pub struct RecognizeRootView {
    pub question: Seq<char>,
    pub answer: Seq<char>,
    pub example: Seq<char>,
}

/// A question shown with an example; the answer is typed, not derived.
#[derive(Clone, Debug, PartialEq, Eq)]
pub struct RecognizeRoot {
    question: String,
    answer: String,
    example: String,
}

impl View for RecognizeRoot {
    type V = RecognizeRootView;

    closed spec fn view(&self) -> RecognizeRootView {
        RecognizeRootView {
            question: self.question@,
            answer: self.answer@,
            example: self.example@,
        }
    }
}

impl RecognizeRoot {
    pub fn new(question: String, answer: String, example: String) -> (entry: RecognizeRoot)
        ensures
            entry@ == (RecognizeRootView {
                question: question@,
                answer: answer@,
                example: example@,
            }),
    {
        RecognizeRoot { question, answer, example }
    }

    pub fn question(&self) -> (text: &String)
        ensures
            text@ == self@.question,
    {
        &self.question
    }

    pub fn answer(&self) -> (text: &String)
        ensures
            text@ == self@.answer,
    {
        &self.answer
    }

    pub fn example(&self) -> (text: &String)
        ensures
            text@ == self@.example,
    {
        &self.example
    }
}

/// Value of a [`FillInTheBlank`] entry.
pub struct FillInTheBlankView {
    pub question: Seq<char>,
    pub answer: Seq<char>,
    pub blank: Seq<char>,
}

/// A sentence with a blank to fill. No entry session produces it; it exists so
/// that stored collections which hold it keep it.
#[derive(Clone, Debug, PartialEq, Eq)]
pub struct FillInTheBlank {
    question: String,
    answer: String,
    blank: String,
}

impl View for FillInTheBlank {
    type V = FillInTheBlankView;

    closed spec fn view(&self) -> FillInTheBlankView {
        FillInTheBlankView {
            question: self.question@,
            answer: self.answer@,
            blank: self.blank@,
        }
    }
}

impl FillInTheBlank {
    pub fn new(question: String, answer: String, blank: String) -> (entry: FillInTheBlank)
        ensures
            entry@ == (FillInTheBlankView {
                question: question@,
                answer: answer@,
                blank: blank@,
            }),
    {
        FillInTheBlank { question, answer, blank }
    }

    pub fn question(&self) -> (text: &String)
        ensures
            text@ == self@.question,
    {
        &self.question
    }

    pub fn answer(&self) -> (text: &String)
        ensures
            text@ == self@.answer,
    {
        &self.answer
    }

    pub fn blank(&self) -> (text: &String)
        ensures
            text@ == self@.blank,
    {
        &self.blank
    }
}

/// Value of a [`SameOrOpposite`] entry.
pub struct SameOrOppositeView {
    pub first_word: Seq<char>,
    pub second_word: Seq<char>,
    pub answer: bool,
}

/// Two words and whether they mean the same. No entry session produces it; it
/// exists so that stored collections which hold it keep it.
#[derive(Clone, Debug, PartialEq, Eq)]
pub struct SameOrOpposite {
    first_word: String,
    second_word: String,
    answer: bool,
}

impl View for SameOrOpposite {
    type V = SameOrOppositeView;

    closed spec fn view(&self) -> SameOrOppositeView {
        SameOrOppositeView {
            first_word: self.first_word@,
            second_word: self.second_word@,
            answer: self.answer,
        }
    }
}

impl SameOrOpposite {
    pub fn new(first_word: String, second_word: String, answer: bool) -> (entry: SameOrOpposite)
        ensures
            entry@ == (SameOrOppositeView {
                first_word: first_word@,
                second_word: second_word@,
                answer,
            }),
    {
        SameOrOpposite { first_word, second_word, answer }
    }

    pub fn first_word(&self) -> (text: &String)
        ensures
            text@ == self@.first_word,
    {
        &self.first_word
    }

    pub fn second_word(&self) -> (text: &String)
        ensures
            text@ == self@.second_word,
    {
        &self.second_word
    }

    pub fn answer(&self) -> (answer: bool)
        ensures
            answer == self@.answer,
    {
        self.answer
    }
}

/// Value of an [`Exercise`]: the kind and the values of its entries, in order.
pub enum ExerciseView {
    Matching(Seq<MatchingView>),
    YesNo(Seq<YesNoView>),
    Recall(Seq<RecallView>),
    Mcq(Seq<McqView>),
    RecognizeRoot(Seq<RecognizeRootView>),
    FillInTheBlank(Seq<FillInTheBlankView>),
    SameOrOpposite(Seq<SameOrOppositeView>),
}

/// One batch of entries of a single kind, in the order in which they were
/// entered.
#[derive(Clone, Debug, PartialEq, Eq)]
pub enum Exercise {
    Matching(Vec<Matching>),
    YesNo(Vec<YesNo>),
    Recall(Vec<Recall>),
    Mcq(Vec<Mcq>),
    RecognizeRoot(Vec<RecognizeRoot>),
    FillInTheBlank(Vec<FillInTheBlank>),
    SameOrOpposite(Vec<SameOrOpposite>),
}

impl View for Exercise {
    type V = ExerciseView;

    open spec fn view(&self) -> ExerciseView {
        match *self {
            Exercise::Matching(entries) => ExerciseView::Matching(views(entries@)),
            Exercise::YesNo(entries) => ExerciseView::YesNo(views(entries@)),
            Exercise::Recall(entries) => ExerciseView::Recall(views(entries@)),
            Exercise::Mcq(entries) => ExerciseView::Mcq(views(entries@)),
            Exercise::RecognizeRoot(entries) => ExerciseView::RecognizeRoot(views(entries@)),
            Exercise::FillInTheBlank(entries) => ExerciseView::FillInTheBlank(views(entries@)),
            Exercise::SameOrOpposite(entries) => ExerciseView::SameOrOpposite(views(entries@)),
        }
    }
}

} // verus!
