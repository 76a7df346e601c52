use exercise_entry::entry::{Entry, EntryOptions, Response};
use exercise_entry::exercise::{Exercise, FillInTheBlank, Recall, SameOrOpposite, YesNo};
use exercise_entry::store::{merge, StoreError, Stored};

fn s(text: &str) -> String {
    text.to_string()
}

fn stored_sample() -> Vec<Exercise> {
    vec![
        Exercise::FillInTheBlank(vec![FillInTheBlank::new(s("I ___ home"), s("go"), s("___"))]),
        Exercise::SameOrOpposite(vec![SameOrOpposite::new(s("big"), s("large"), true)]),
        Exercise::YesNo(vec![YesNo::new(s("q"), false)]),
    ]
}

fn authored_sample() -> Vec<Exercise> {
    vec![Exercise::Recall(vec![Recall::new(s("dog"), s("perro"))]), Exercise::YesNo(Vec::new())]
}

#[test]
fn missing_location_gets_exactly_the_authored() {
    assert_eq!(merge(Stored::Missing, authored_sample()), Ok(authored_sample()));
}

#[test]
fn missing_location_and_nothing_authored_gives_empty_collection() {
    assert_eq!(merge(Stored::Missing, Vec::new()), Ok(Vec::new()));
}

#[test]
fn authored_follow_the_stored() {
    let all = merge(Stored::Collection(stored_sample()), authored_sample()).unwrap();
    assert_eq!(all.len(), 5);
    assert_eq!(all[..3], stored_sample()[..]);
    assert_eq!(all[3..], authored_sample()[..]);
}

#[test]
fn batches_of_one_kind_are_not_joined() {
    let stored = vec![Exercise::YesNo(vec![YesNo::new(s("old"), true)])];
    let authored = vec![Exercise::YesNo(vec![YesNo::new(s("new"), false)])];
    let all = merge(Stored::Collection(stored), authored).unwrap();
    assert_eq!(
        all,
        vec![
            Exercise::YesNo(vec![YesNo::new(s("old"), true)]),
            Exercise::YesNo(vec![YesNo::new(s("new"), false)]),
        ]
    );
}

#[test]
fn nothing_authored_keeps_the_stored() {
    assert_eq!(merge(Stored::Collection(stored_sample()), Vec::new()), Ok(stored_sample()));
}

#[test]
fn invalid_content_is_a_parse_error() {
    let result = merge(Stored::Invalid(s("expected value at line 1 column 1")), authored_sample());
    assert_eq!(result, Err(StoreError::Parse(s("expected value at line 1 column 1"))));
}

#[test]
fn unreadable_content_is_an_io_error() {
    let result = merge(Stored::Unreadable(s("permission denied")), authored_sample());
    assert_eq!(result, Err(StoreError::Io(s("permission denied"))));
}

#[test]
fn error_gives_its_reason() {
    assert_eq!(StoreError::Parse(s("bad")).reason(), "bad");
    assert_eq!(StoreError::Io(s("worse")).reason(), "worse");
}

#[test]
fn session_output_joins_what_was_stored() {
    let mut session = Exercise::read();
    for response in [
        Response::Kind(EntryOptions::Recall),
        Response::Count(1),
        Response::Text(s("dog")),
        Response::Text(s("perro")),
        Response::Kind(EntryOptions::SaveAndQuit),
    ] {
        session = session.step(response);
    }
    let all = merge(Stored::Collection(stored_sample()), session.into_exercises()).unwrap();
    assert_eq!(all.len(), 4);
    assert_eq!(all[..3], stored_sample()[..]);
    assert_eq!(all[3], Exercise::Recall(vec![Recall::new(s("dog"), s("perro"))]));
}
