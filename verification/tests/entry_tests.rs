use exercise_entry::entry::{Entry, EntryOptions, Prompt, Response, Session};
use exercise_entry::text::LETTERS;
use exercise_entry::exercise::{Exercise, Matching, Mcq, Recall, RecognizeRoot, YesNo};

fn s(text: &str) -> String {
    text.to_string()
}

fn text(value: &str) -> Response {
    Response::Text(s(value))
}

fn ask_text(message: &str) -> Prompt {
    Prompt::Text { message: s(message) }
}

fn ask_count(message: &str) -> Prompt {
    Prompt::Count { message: s(message), error_message: Some(s("Please enter a valid number")) }
}

fn ask_kind() -> Prompt {
    Prompt::Kind {
        message: s("Exercise type"),
        options: vec![
            EntryOptions::Matching,
            EntryOptions::YesNo,
            EntryOptions::Recall,
            EntryOptions::Mcq,
            EntryOptions::RecognizeRoot,
            EntryOptions::SaveAndQuit,
        ],
    }
}

/// Feeds the responses to the session and gives back the prompt that each of
/// them answered.
fn drive(session: Session, responses: Vec<Response>) -> (Session, Vec<Prompt>) {
    let mut session = session;
    let mut shown = Vec::new();
    for response in responses {
        shown.push(session.prompt().unwrap());
        assert!(session.accepts(&response));
        session = session.step(response);
    }
    (session, shown)
}

#[test]
fn menu_lists_every_option_in_order() {
    assert_eq!(
        EntryOptions::all(),
        vec![
            EntryOptions::Matching,
            EntryOptions::YesNo,
            EntryOptions::Recall,
            EntryOptions::Mcq,
            EntryOptions::RecognizeRoot,
            EntryOptions::SaveAndQuit,
        ]
    );
}

#[test]
fn menu_options_are_shown_by_name() {
    let labels: Vec<String> = EntryOptions::all().iter().map(|option| option.label()).collect();
    assert_eq!(labels, vec!["Matching", "YesNo", "Recall", "Mcq", "RecognizeRoot", "SaveAndQuit"]);
}

#[test]
fn new_session_shows_the_menu() {
    let session = Session::new();
    assert!(!session.is_finished());
    assert!(session.exercises().is_empty());
    assert_eq!(session.prompt(), Some(ask_kind()));
}

#[test]
fn stop_ends_the_session_with_nothing() {
    let (session, shown) =
        drive(Session::new(), vec![Response::Kind(EntryOptions::SaveAndQuit)]);
    assert_eq!(shown, vec![ask_kind()]);
    assert!(session.is_finished());
    assert_eq!(session.prompt(), None);
    assert!(!session.accepts(&Response::Kind(EntryOptions::Recall)));
    assert_eq!(session.into_exercises(), Vec::new());
}

#[test]
fn finished_session_takes_nothing_more() {
    let (session, _) = drive(Session::new(), vec![Response::Kind(EntryOptions::SaveAndQuit)]);
    let session = session.step(Response::Kind(EntryOptions::Recall));
    assert!(session.is_finished());
    assert_eq!(session.prompt(), None);
    assert_eq!(session.into_exercises(), Vec::new());
}

#[test]
fn matching_asks_questions_then_pool_then_picks() {
    let (session, shown) = drive(
        Session::new(),
        vec![
            Response::Kind(EntryOptions::Matching),
            Response::Count(2),
            text("casa"),
            text("perro"),
            text("dog"),
            text("house"),
            Response::Choice(1),
            Response::Choice(0),
        ],
    );
    let pool = vec![s("(a) dog"), s("(b) house")];
    assert_eq!(
        shown,
        vec![
            ask_kind(),
            ask_count("How many questions?"),
            ask_text("1. "),
            ask_text("2. "),
            ask_text("(a)"),
            ask_text("(b)"),
            Prompt::Select { message: s("1. casa"), entries: pool.clone() },
            Prompt::Select { message: s("2. perro"), entries: pool },
        ]
    );
    assert_eq!(session.prompt(), Some(ask_kind()));
    assert_eq!(
        session.into_exercises(),
        vec![Exercise::Matching(vec![
            Matching::new(s("casa"), s("house")),
            Matching::new(s("perro"), s("dog")),
        ])]
    );
}

#[test]
fn matching_answers_are_options_of_the_pool() {
    let options = ["uno", "dos", "tres"];
    let picks = [2, 2, 0];
    let mut responses = vec![
        Response::Kind(EntryOptions::Matching),
        Response::Count(3),
        text("three"),
        text("again three"),
        text("one"),
    ];
    for option in options {
        responses.push(text(option));
    }
    for pick in picks {
        responses.push(Response::Choice(pick));
    }
    let (session, _) = drive(Session::new(), responses);
    match &session.exercises()[0] {
        Exercise::Matching(entries) => {
            assert_eq!(entries.len(), 3);
            for (entry, pick) in entries.iter().zip(picks) {
                assert_eq!(entry.answer(), options[pick]);
                assert!(options.contains(&entry.answer().as_str()));
            }
        }
        other => panic!("a matching batch was entered, not {:?}", other),
    }
}

#[test]
fn matching_asks_as_many_options_as_questions() {
    let mut responses = vec![Response::Kind(EntryOptions::Matching), Response::Count(27)];
    for _ in 0..27 {
        responses.push(text("q"));
    }
    for _ in 0..27 {
        responses.push(text("o"));
    }
    let (session, shown) = drive(Session::new(), responses);
    assert_eq!(shown[2 + 26], ask_text("27. "));
    assert_eq!(shown[2 + 27], ask_text("(a)"));
    assert_eq!(shown[2 + 27 + 25], ask_text("(z)"));
    assert_eq!(shown[2 + 27 + 26], ask_text("({)"));
    match session.prompt() {
        Some(Prompt::Select { message, entries }) => {
            assert_eq!(message, "1. q");
            assert_eq!(entries.len(), 27);
            assert_eq!(entries[26], "({) o");
        }
        other => panic!("the first pick was due, not {:?}", other),
    }
}

#[test]
fn matching_pick_outside_the_pool_is_not_taken() {
    let (session, _) = drive(
        Session::new(),
        vec![Response::Kind(EntryOptions::Matching), Response::Count(1), text("q"), text("o")],
    );
    let due = session.prompt();
    assert!(!session.accepts(&Response::Choice(1)));
    assert!(session.accepts(&Response::Choice(0)));
    let session = session.step(Response::Choice(1));
    assert_eq!(session.prompt(), due);
    assert!(session.exercises().is_empty());
    let session = session.step(Response::Choice(0));
    assert_eq!(
        session.into_exercises(),
        vec![Exercise::Matching(vec![Matching::new(s("q"), s("o"))])]
    );
}

#[test]
fn yes_no_asks_questions_then_answers() {
    let (session, shown) = drive(
        Session::new(),
        vec![
            Response::Kind(EntryOptions::YesNo),
            Response::Count(2),
            text("Is agua water?"),
            text("Is agua fire?"),
            Response::Confirm(true),
            Response::Confirm(false),
        ],
    );
    assert_eq!(
        shown,
        vec![
            ask_kind(),
            ask_count("How many questions?"),
            ask_text("1. "),
            ask_text("2. "),
            Prompt::Confirm { message: s("1. Is agua water?") },
            Prompt::Confirm { message: s("2. Is agua fire?") },
        ]
    );
    assert_eq!(
        session.into_exercises(),
        vec![Exercise::YesNo(vec![
            YesNo::new(s("Is agua water?"), true),
            YesNo::new(s("Is agua fire?"), false),
        ])]
    );
}

#[test]
fn recall_asks_questions_then_answers() {
    let (session, shown) = drive(
        Session::new(),
        vec![
            Response::Kind(EntryOptions::Recall),
            Response::Count(2),
            text("dog"),
            text("cat"),
            text("perro"),
            text("gato"),
        ],
    );
    assert_eq!(
        shown,
        vec![
            ask_kind(),
            ask_count("How many questions?"),
            ask_text("1. "),
            ask_text("2. "),
            ask_text("1. dog"),
            ask_text("2. cat"),
        ]
    );
    assert_eq!(
        session.into_exercises(),
        vec![Exercise::Recall(vec![
            Recall::new(s("dog"), s("perro")),
            Recall::new(s("cat"), s("gato")),
        ])]
    );
}

#[test]
fn mcq_asks_both_counts_then_question_by_question() {
    let (session, shown) = drive(
        Session::new(),
        vec![
            Response::Kind(EntryOptions::Mcq),
            Response::Count(2),
            Response::Count(3),
            text("cat"),
            text("perro"),
            text("gato"),
            text("pez"),
            Response::Choice(1),
            text("red"),
            text("rojo"),
            text("azul"),
            text("verde"),
            Response::Choice(0),
        ],
    );
    assert_eq!(
        shown,
        vec![
            ask_kind(),
            ask_count("How many questions?"),
            ask_count("How many options?"),
            ask_text("1. "),
            ask_text("(a)"),
            ask_text("(b)"),
            ask_text("(c)"),
            Prompt::Select {
                message: s("1. cat"),
                entries: vec![s("perro"), s("gato"), s("pez")],
            },
            ask_text("2. "),
            ask_text("(a)"),
            ask_text("(b)"),
            ask_text("(c)"),
            Prompt::Select {
                message: s("2. red"),
                entries: vec![s("rojo"), s("azul"), s("verde")],
            },
        ]
    );
    assert_eq!(
        session.into_exercises(),
        vec![Exercise::Mcq(vec![
            Mcq::new(s("cat"), s("gato"), vec![s("perro"), s("gato"), s("pez")]),
            Mcq::new(s("red"), s("rojo"), vec![s("rojo"), s("azul"), s("verde")]),
        ])]
    );
}

#[test]
fn mcq_questions_have_options_of_their_own() {
    let (session, _) = drive(
        Session::new(),
        vec![
            Response::Kind(EntryOptions::Mcq),
            Response::Count(2),
            Response::Count(2),
            text("first"),
            text("a1"),
            text("a2"),
            Response::Choice(0),
            text("second"),
            text("b1"),
            text("b2"),
            Response::Choice(0),
        ],
    );
    match &session.exercises()[0] {
        Exercise::Mcq(entries) => {
            assert_eq!(entries[0].options(), &vec![s("a1"), s("a2")]);
            assert_eq!(entries[1].options(), &vec![s("b1"), s("b2")]);
            assert_eq!(entries[0].answer(), "a1");
            assert_eq!(entries[1].answer(), "b1");
            assert!(entries[0].options().contains(entries[0].answer()));
            assert!(!entries[1].options().contains(entries[0].answer()));
            assert!(entries[1].options().contains(entries[1].answer()));
            assert!(!entries[0].options().contains(entries[1].answer()));
        }
        other => panic!("a multiple-choice batch was entered, not {:?}", other),
    }
}

#[test]
fn mcq_without_options_cannot_be_answered() {
    let (session, _) = drive(
        Session::new(),
        vec![
            Response::Kind(EntryOptions::Mcq),
            Response::Count(1),
            Response::Count(0),
            text("cat"),
        ],
    );
    assert_eq!(
        session.prompt(),
        Some(Prompt::Select { message: s("1. cat"), entries: Vec::new() })
    );
    assert!(!session.accepts(&Response::Choice(0)));
    assert!(!session.accepts(&text("gato")));
    let session = session.step(Response::Choice(0));
    assert_eq!(
        session.prompt(),
        Some(Prompt::Select { message: s("1. cat"), entries: Vec::new() })
    );
    assert_eq!(session.into_exercises(), Vec::new());
}

#[test]
fn recognize_root_asks_question_example_and_answer_in_turn() {
    let (session, shown) = drive(
        Session::new(),
        vec![
            Response::Kind(EntryOptions::RecognizeRoot),
            Response::Count(2),
            text("kataba"),
            text("kitab"),
            text("k-t-b"),
            text("darasa"),
            text("madrasa"),
            text("d-r-s"),
        ],
    );
    assert_eq!(
        shown,
        vec![
            ask_kind(),
            Prompt::Count { message: s("How many questions?"), error_message: None },
            ask_text("1. "),
            ask_text("Example"),
            ask_text("1. kataba, Example: kitab"),
            ask_text("2. "),
            ask_text("Example"),
            ask_text("2. darasa, Example: madrasa"),
        ]
    );
    assert_eq!(
        session.into_exercises(),
        vec![Exercise::RecognizeRoot(vec![
            RecognizeRoot::new(s("kataba"), s("k-t-b"), s("kitab")),
            RecognizeRoot::new(s("darasa"), s("d-r-s"), s("madrasa")),
        ])]
    );
}

#[test]
fn zero_questions_give_an_empty_batch_of_each_kind() {
    let (session, shown) = drive(
        Session::new(),
        vec![
            Response::Kind(EntryOptions::Matching),
            Response::Count(0),
            Response::Kind(EntryOptions::YesNo),
            Response::Count(0),
            Response::Kind(EntryOptions::Recall),
            Response::Count(0),
            Response::Kind(EntryOptions::Mcq),
            Response::Count(0),
            Response::Count(4),
            Response::Kind(EntryOptions::RecognizeRoot),
            Response::Count(0),
            Response::Kind(EntryOptions::SaveAndQuit),
        ],
    );
    assert_eq!(shown[8], ask_count("How many options?"));
    assert_eq!(shown[9], ask_kind());
    assert!(session.is_finished());
    assert_eq!(
        session.into_exercises(),
        vec![
            Exercise::Matching(Vec::new()),
            Exercise::YesNo(Vec::new()),
            Exercise::Recall(Vec::new()),
            Exercise::Mcq(Vec::new()),
            Exercise::RecognizeRoot(Vec::new()),
        ]
    );
}

#[test]
fn numbering_starts_at_one_in_every_batch() {
    let (session, shown) = drive(
        Session::new(),
        vec![
            Response::Kind(EntryOptions::YesNo),
            Response::Count(3),
            text("a"),
            text("b"),
            text("c"),
            Response::Confirm(true),
            Response::Confirm(true),
            Response::Confirm(true),
            Response::Kind(EntryOptions::Recall),
            Response::Count(1),
            text("d"),
            text("e"),
            Response::Kind(EntryOptions::Recall),
            Response::Count(1),
        ],
    );
    assert_eq!(shown[4], ask_text("3. "));
    assert_eq!(shown[10], ask_text("1. "));
    assert_eq!(shown[11], ask_text("1. d"));
    assert_eq!(session.prompt(), Some(ask_text("1. ")));
}

#[test]
fn same_kind_twice_gives_two_batches() {
    let (session, _) = drive(
        Session::new(),
        vec![
            Response::Kind(EntryOptions::Recall),
            Response::Count(1),
            text("dog"),
            text("perro"),
            Response::Kind(EntryOptions::Recall),
            Response::Count(1),
            text("cat"),
            text("gato"),
            Response::Kind(EntryOptions::SaveAndQuit),
        ],
    );
    assert_eq!(
        session.into_exercises(),
        vec![
            Exercise::Recall(vec![Recall::new(s("dog"), s("perro"))]),
            Exercise::Recall(vec![Recall::new(s("cat"), s("gato"))]),
        ]
    );
}

#[test]
fn batch_under_way_is_not_handed_out() {
    let (session, _) = drive(
        Session::new(),
        vec![
            Response::Kind(EntryOptions::YesNo),
            Response::Count(1),
            text("kept"),
            Response::Confirm(true),
            Response::Kind(EntryOptions::Recall),
            Response::Count(2),
            text("dropped"),
            text("dropped too"),
            text("an answer"),
        ],
    );
    assert!(!session.is_finished());
    assert_eq!(
        session.into_exercises(),
        vec![Exercise::YesNo(vec![YesNo::new(s("kept"), true)])]
    );
}

#[test]
fn response_of_another_sort_changes_nothing() {
    let (session, _) = drive(
        Session::new(),
        vec![Response::Kind(EntryOptions::YesNo), Response::Count(1), text("q")],
    );
    let due = Some(Prompt::Confirm { message: s("1. q") });
    assert_eq!(session.prompt(), due);
    let mut session = session;
    for wrong in
        [text("yes"), Response::Count(1), Response::Choice(0), Response::Kind(EntryOptions::Mcq)]
    {
        assert!(!session.accepts(&wrong));
        session = session.step(wrong);
        assert_eq!(session.prompt(), due);
        assert!(session.exercises().is_empty());
    }
    let session = session.step(Response::Confirm(false));
    assert_eq!(session.into_exercises(), vec![Exercise::YesNo(vec![YesNo::new(s("q"), false)])]);
}

#[test]
fn menu_takes_only_a_pick() {
    let session = Session::new();
    assert!(!session.accepts(&Response::Count(1)));
    assert!(!session.accepts(&text("Recall")));
    let session = session.step(Response::Count(1));
    assert_eq!(session.prompt(), Some(ask_kind()));
}

#[test]
fn reading_exercises_begins_at_the_menu() {
    let session = Exercise::read();
    assert!(!session.is_finished());
    assert_eq!(session.prompt(), Some(ask_kind()));
    let (session, _) = drive(
        session,
        vec![
            Response::Kind(EntryOptions::YesNo),
            Response::Count(0),
            Response::Kind(EntryOptions::SaveAndQuit),
        ],
    );
    assert!(session.is_finished());
    assert_eq!(session.into_exercises(), vec![Exercise::YesNo(Vec::new())]);
}

#[test]
fn reading_matching_takes_one_batch_and_is_finished() {
    let (session, shown) = drive(
        Matching::read(),
        vec![Response::Count(1), text("casa"), text("house"), Response::Choice(0)],
    );
    assert_eq!(
        shown,
        vec![
            ask_count("How many questions?"),
            ask_text("1. "),
            ask_text("(a)"),
            Prompt::Select { message: s("1. casa"), entries: vec![s("(a) house")] },
        ]
    );
    assert!(session.is_finished());
    assert_eq!(session.prompt(), None);
    assert_eq!(
        session.into_exercises(),
        vec![Exercise::Matching(vec![Matching::new(s("casa"), s("house"))])]
    );
}

#[test]
fn reading_yes_no_takes_one_batch_and_is_finished() {
    let (session, _) =
        drive(YesNo::read(), vec![Response::Count(1), text("q"), Response::Confirm(true)]);
    assert!(session.is_finished());
    assert_eq!(session.into_exercises(), vec![Exercise::YesNo(vec![YesNo::new(s("q"), true)])]);
}

#[test]
fn reading_recall_takes_one_batch_and_is_finished() {
    let (session, _) = drive(Recall::read(), vec![Response::Count(1), text("q"), text("a")]);
    assert!(session.is_finished());
    assert_eq!(
        session.into_exercises(),
        vec![Exercise::Recall(vec![Recall::new(s("q"), s("a"))])]
    );
}

#[test]
fn reading_mcq_takes_one_batch_and_is_finished() {
    let (session, _) = drive(
        Mcq::read(),
        vec![Response::Count(1), Response::Count(1), text("q"), text("o"), Response::Choice(0)],
    );
    assert!(session.is_finished());
    assert_eq!(
        session.into_exercises(),
        vec![Exercise::Mcq(vec![Mcq::new(s("q"), s("o"), vec![s("o")])])]
    );
}

#[test]
fn reading_recognize_root_takes_one_batch_and_is_finished() {
    let (session, shown) = drive(
        RecognizeRoot::read(),
        vec![Response::Count(1), text("q"), text("e"), text("a")],
    );
    assert_eq!(shown[0], Prompt::Count { message: s("How many questions?"), error_message: None });
    assert!(session.is_finished());
    assert_eq!(
        session.into_exercises(),
        vec![Exercise::RecognizeRoot(vec![RecognizeRoot::new(s("q"), s("a"), s("e"))])]
    );
}

#[test]
fn reading_zero_entries_is_finished_with_an_empty_batch() {
    let (session, _) = drive(Recall::read(), vec![Response::Count(0)]);
    assert!(session.is_finished());
    assert_eq!(session.into_exercises(), vec![Exercise::Recall(Vec::new())]);
}

#[test]
fn options_beyond_the_letters_cannot_be_asked_for() {
    let mut session = Mcq::read();
    for response in [Response::Count(1), Response::Count(LETTERS + 1), text("q")] {
        assert!(session.accepts(&response));
        session = session.step(response);
    }
    for _ in 0..LETTERS - 1 {
        session = session.step(Response::Text(String::new()));
    }
    assert_eq!(session.prompt(), Some(ask_text("(\u{10FFFE})")));
    assert!(session.accepts(&text("last")));
    session = session.step(text("last"));
    assert_eq!(session.prompt(), None);
    assert!(!session.is_finished());
    assert!(!session.accepts(&text("one more")));
    assert!(!session.accepts(&Response::Choice(0)));
    session = session.step(text("one more"));
    assert_eq!(session.prompt(), None);
    assert_eq!(session.into_exercises(), Vec::new());
}

#[test]
fn as_many_options_as_letters_can_be_picked_from() {
    let mut session = Mcq::read();
    for response in [Response::Count(1), Response::Count(LETTERS), text("q")] {
        session = session.step(response);
    }
    for _ in 0..LETTERS - 1 {
        session = session.step(Response::Text(String::new()));
    }
    session = session.step(text("last"));
    assert!(session.accepts(&Response::Choice(LETTERS - 1)));
    assert!(!session.accepts(&Response::Choice(LETTERS)));
    session = session.step(Response::Choice(LETTERS - 1));
    assert!(session.is_finished());
    match &session.exercises()[0] {
        Exercise::Mcq(entries) => {
            assert_eq!(entries[0].answer(), "last");
            assert_eq!(entries[0].options().len(), LETTERS);
        }
        other => panic!("a multiple-choice batch was entered, not {:?}", other),
    }
}

#[test]
fn run_takes_the_answers_in_order() {
    let session = Exercise::read().run(vec![
        Response::Kind(EntryOptions::Recall),
        Response::Count(2),
        text("dog"),
        text("cat"),
        text("perro"),
        text("gato"),
        Response::Kind(EntryOptions::YesNo),
        Response::Count(1),
        text("Is agua water?"),
        Response::Confirm(true),
        Response::Kind(EntryOptions::SaveAndQuit),
    ]);
    assert!(session.is_finished());
    assert_eq!(
        session.into_exercises(),
        vec![
            Exercise::Recall(vec![
                Recall::new(s("dog"), s("perro")),
                Recall::new(s("cat"), s("gato")),
            ]),
            Exercise::YesNo(vec![YesNo::new(s("Is agua water?"), true)]),
        ]
    );
}

#[test]
fn run_of_nothing_changes_nothing() {
    let session = Exercise::read().run(Vec::new());
    assert_eq!(session.prompt(), Some(ask_kind()));
    assert!(session.exercises().is_empty());
}

#[test]
fn run_passes_over_answers_that_are_not_asked_for() {
    let session = YesNo::read().run(vec![
        text("too early"),
        Response::Count(1),
        Response::Confirm(true),
        text("q"),
        Response::Choice(3),
        Response::Confirm(false),
        Response::Confirm(true),
    ]);
    assert!(session.is_finished());
    assert_eq!(session.into_exercises(), vec![Exercise::YesNo(vec![YesNo::new(s("q"), false)])]);
}
