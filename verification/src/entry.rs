//! The entry session: what is asked of the user, what the user may answer,
//! and how the answers become exercises.
//!
//! Nothing here talks to a terminal. A session says which prompt comes next
//! and takes the answer to it; whoever drives it shows the prompt and hands the
//! answer back.

pub mod laws;
pub mod matching;
pub mod mcq;
pub mod recall;
pub mod recognize_root;
pub mod session;
pub mod yes_no;

pub use session::{Session, SessionView};

use crate::exercise::views;
use crate::text::{decimal, decimal_string, letter, letter_char, LETTERS};
use vstd::prelude::*;
use vstd::string::*;

verus! {

/// What the menu of a session offers.
#[derive(Clone, Copy, Debug, PartialEq, Eq, Structural)]
pub enum EntryOptions {
    Matching,
    YesNo,
    Recall,
    Mcq,
    RecognizeRoot,
    SaveAndQuit,
}

impl EntryOptions {
    /// The menu, in the order in which it is shown.
    pub open spec fn menu() -> Seq<EntryOptions> {
        seq![
            EntryOptions::Matching,
            EntryOptions::YesNo,
            EntryOptions::Recall,
            EntryOptions::Mcq,
            EntryOptions::RecognizeRoot,
            EntryOptions::SaveAndQuit,
        ]
    }

    /// The text under which an option is shown: its name.
    pub open spec fn name(self) -> Seq<char> {
        match self {
            EntryOptions::Matching => "Matching"@,
            EntryOptions::YesNo => "YesNo"@,
            EntryOptions::Recall => "Recall"@,
            EntryOptions::Mcq => "Mcq"@,
            EntryOptions::RecognizeRoot => "RecognizeRoot"@,
            EntryOptions::SaveAndQuit => "SaveAndQuit"@,
        }
    }

    /// Every option of the menu, in menu order.
    pub fn all() -> (options: Vec<EntryOptions>)
        ensures
            options@ == Self::menu(),
    {
        let mut options: Vec<EntryOptions> = Vec::new();
        options.push(EntryOptions::Matching);
        options.push(EntryOptions::YesNo);
        options.push(EntryOptions::Recall);
        options.push(EntryOptions::Mcq);
        options.push(EntryOptions::RecognizeRoot);
        options.push(EntryOptions::SaveAndQuit);
        assert(options@ =~= Self::menu());
        options
    }

    /// The text under which the option is shown.
    pub fn label(&self) -> (text: String)
        ensures
            text@ == self.name(),
    {
        match self {
            EntryOptions::Matching => String::from_str("Matching"),
            EntryOptions::YesNo => String::from_str("YesNo"),
            EntryOptions::Recall => String::from_str("Recall"),
            EntryOptions::Mcq => String::from_str("Mcq"),
            EntryOptions::RecognizeRoot => String::from_str("RecognizeRoot"),
            EntryOptions::SaveAndQuit => String::from_str("SaveAndQuit"),
        }
    }
}

/// A type whose values are entered in a session of prompts and answers.
pub trait Entry: Sized {
    /// The session in which reading begins.
    spec fn opening() -> SessionView;

    /// Begins to read values of the type: the session that asks for them. For
    /// an entry type the session takes one batch of entries and is finished
    /// with it.
    fn read() -> (session: Session)
        ensures
            session@ == Self::opening(),
            session@.wf(),
    ;
}

/// What a step of a batch gives: the phase in which the batch goes on, or the
/// finished batch.
pub enum Progress<P, E> {
    Continue(P),
    Complete(E),
}

/// Value of a [`Prompt`].
pub enum PromptView {
    Kind { message: Seq<char>, options: Seq<EntryOptions> },
    Count { message: Seq<char>, error_message: Option<Seq<char>> },
    Text { message: Seq<char> },
    Confirm { message: Seq<char> },
    Select { message: Seq<char>, entries: Seq<Seq<char>> },
}

/// One question to the user.
#[derive(Clone, Debug, PartialEq, Eq)]
pub enum Prompt {
    /// Pick what to enter next, or to stop.
    Kind { message: String, options: Vec<EntryOptions> },
    /// Give a count. Input that is no number is asked for again, under
    /// `error_message` where there is one.
    Count { message: String, error_message: Option<String> },
    /// Give free text.
    Text { message: String },
    /// Answer yes or no.
    Confirm { message: String },
    /// Pick one of `entries`; the answer is the position of the pick.
    Select { message: String, entries: Vec<String> },
}

impl View for Prompt {
    type V = PromptView;

    open spec fn view(&self) -> PromptView {
        match *self {
            Prompt::Kind { message, options } => PromptView::Kind {
                message: message@,
                options: options@,
            },
            Prompt::Count { message, error_message } => PromptView::Count {
                message: message@,
                error_message: match error_message {
                    Some(text) => Some(text@),
                    None => None,
                },
            },
            Prompt::Text { message } => PromptView::Text { message: message@ },
            Prompt::Confirm { message } => PromptView::Confirm { message: message@ },
            Prompt::Select { message, entries } => PromptView::Select {
                message: message@,
                entries: views(entries@),
            },
        }
    }
}

/// Value of a [`Response`].
pub enum ResponseView {
    Kind(EntryOptions),
    Count(nat),
    Text(Seq<char>),
    Confirm(bool),
    Choice(nat),
}

/// One answer of the user.
#[derive(Clone, Debug, PartialEq, Eq)]
pub enum Response {
    /// The menu option that was picked.
    Kind(EntryOptions),
    Count(usize),
    Text(String),
    Confirm(bool),
    /// The position of the entry that was picked, counted from zero.
    Choice(usize),
}

impl View for Response {
    type V = ResponseView;

    open spec fn view(&self) -> ResponseView {
        match *self {
            Response::Kind(option) => ResponseView::Kind(option),
            Response::Count(n) => ResponseView::Count(n as nat),
            Response::Text(text) => ResponseView::Text(text@),
            Response::Confirm(answer) => ResponseView::Confirm(answer),
            Response::Choice(index) => ResponseView::Choice(index as nat),
        }
    }
}

/// The menu prompt.
pub open spec fn kind_prompt() -> PromptView {
    PromptView::Kind { message: "Exercise type"@, options: EntryOptions::menu() }
}

/// The prompt for the number of questions.
pub open spec fn question_count_prompt(with_error_message: bool) -> PromptView {
    PromptView::Count {
        message: "How many questions?"@,
        error_message: if with_error_message {
            Some("Please enter a valid number"@)
        } else {
            None
        },
    }
}

/// The prompt for the number of options of each question.
pub open spec fn option_count_prompt() -> PromptView {
    PromptView::Count {
        message: "How many options?"@,
        error_message: Some("Please enter a valid number"@),
    }
}

/// The number under which the item at a position is asked for: positions
/// count from zero, numbers from one.
pub open spec fn number_text(index: nat) -> Seq<char> {
    decimal(index + 1) + ". "@
}

/// A text behind its number.
pub open spec fn numbered_text(index: nat, text: Seq<char>) -> Seq<char> {
    number_text(index) + text
}

/// The prompt for the option at a position, under its letter; none where the
/// letters have run out.
pub open spec fn option_prompt(index: nat) -> Option<PromptView> {
    if index < LETTERS {
        Some(PromptView::Text { message: letter_text(index) })
    } else {
        None
    }
}

/// The label under which the option at a position is asked for.
pub open spec fn letter_text(index: nat) -> Seq<char> {
    "("@.push(letter(index)) + ")"@
}

/// An option behind its letter.
pub open spec fn lettered_text(index: nat, text: Seq<char>) -> Seq<char> {
    letter_text(index) + " "@ + text
}

/// Every option behind its letter.
pub open spec fn lettered_texts(options: Seq<Seq<char>>) -> Seq<Seq<char>> {
    Seq::new(options.len(), |i: int| lettered_text(i as nat, options[i]))
}

/// A question behind its number and before its example.
pub open spec fn exemplified_text(index: nat, question: Seq<char>, example: Seq<char>) -> Seq<
    char,
> {
    numbered_text(index, question) + ", Example: "@ + example
}

pub(crate) fn make_kind_prompt() -> (prompt: Prompt)
    ensures
        prompt@ == kind_prompt(),
{
    Prompt::Kind { message: String::from_str("Exercise type"), options: EntryOptions::all() }
}

pub(crate) fn make_question_count_prompt(with_error_message: bool) -> (prompt: Prompt)
    ensures
        prompt@ == question_count_prompt(with_error_message),
{
    let error_message = if with_error_message {
        Some(String::from_str("Please enter a valid number"))
    } else {
        None
    };
    Prompt::Count { message: String::from_str("How many questions?"), error_message }
}

pub(crate) fn make_option_count_prompt() -> (prompt: Prompt)
    ensures
        prompt@ == option_count_prompt(),
{
    Prompt::Count {
        message: String::from_str("How many options?"),
        error_message: Some(String::from_str("Please enter a valid number")),
    }
}

pub(crate) fn make_number(index: usize) -> (text: String)
    requires
        index < usize::MAX,
    ensures
        text@ == number_text(index as nat),
{
    let mut text = decimal_string(index + 1);
    text.append(". ");
    text
}

pub(crate) fn make_numbered(index: usize, tail: &String) -> (text: String)
    requires
        index < usize::MAX,
    ensures
        text@ == numbered_text(index as nat, tail@),
{
    let mut text = make_number(index);
    text.append(tail.as_str());
    text
}

pub(crate) fn make_letter(index: usize) -> (text: String)
    requires
        index < LETTERS,
    ensures
        text@ == letter_text(index as nat),
{
    let mut text = String::from_str("(");
    text.push(letter_char(index));
    text.append(")");
    text
}

pub(crate) fn make_option_prompt(index: usize) -> (prompt: Option<Prompt>)
    ensures
        match prompt {
            Some(prompt) => option_prompt(index as nat) == Some(prompt@),
            None => option_prompt(index as nat).is_none(),
        },
{
    if index < LETTERS {
        Some(Prompt::Text { message: make_letter(index) })
    } else {
        None
    }
}

pub(crate) fn make_lettered(index: usize, tail: &String) -> (text: String)
    requires
        index < LETTERS,
    ensures
        text@ == lettered_text(index as nat, tail@),
{
    let mut text = make_letter(index);
    text.append(" ");
    text.append(tail.as_str());
    text
}

pub(crate) fn make_lettered_all(options: &Vec<String>) -> (entries: Vec<String>)
    requires
        options.len() <= LETTERS,
    ensures
        views(entries@) == lettered_texts(views(options@)),
{
    let mut entries: Vec<String> = Vec::new();
    let mut i: usize = 0;
    while i < options.len()
        invariant
            i <= options.len() <= LETTERS,
            entries.len() == i,
            forall|j: int| 0 <= j < i ==> entries[j]@ == lettered_text(j as nat, options[j]@),
        decreases options.len() - i,
    {
        entries.push(make_lettered(i, &options[i]));
        i += 1;
    }
    assert(views(entries@) =~= lettered_texts(views(options@)));
    entries
}

pub(crate) fn make_exemplified(index: usize, question: &String, example: &String) -> (text: String)
    requires
        index < usize::MAX,
    ensures
        text@ == exemplified_text(index as nat, question@, example@),
{
    let mut text = make_numbered(index, question);
    text.append(", Example: ");
    text.append(example.as_str());
    text
}

pub(crate) fn copy_texts(texts: &Vec<String>) -> (copy: Vec<String>)
    ensures
        views(copy@) == views(texts@),
{
    let mut copy: Vec<String> = Vec::new();
    let mut i: usize = 0;
    while i < texts.len()
        invariant
            i <= texts.len(),
            copy.len() == i,
            forall|j: int| 0 <= j < i ==> copy[j]@ == texts[j]@,
        decreases texts.len() - i,
    {
        copy.push(texts[i].clone());
        i += 1;
    }
    assert(views(copy@) =~= views(texts@));
    copy
}

} // verus!
