use exercise_entry::exercise::{
    Exercise, FillInTheBlank, Matching, Mcq, Recall, RecognizeRoot, SameOrOpposite, YesNo,
};

fn s(text: &str) -> String {
    text.to_string()
}

#[test]
fn matching_keeps_question_and_answer() {
    let entry = Matching::new(s("casa"), s("house"));
    assert_eq!(entry.question(), "casa");
    assert_eq!(entry.answer(), "house");
}

#[test]
fn yes_no_keeps_question_and_answer() {
    let yes = YesNo::new(s("Is agua water?"), true);
    let no = YesNo::new(s("Is agua fire?"), false);
    assert_eq!(yes.question(), "Is agua water?");
    assert!(yes.answer());
    assert_eq!(no.question(), "Is agua fire?");
    assert!(!no.answer());
}

#[test]
fn recall_keeps_question_and_answer() {
    let entry = Recall::new(s("dog"), s("perro"));
    assert_eq!(entry.question(), "dog");
    assert_eq!(entry.answer(), "perro");
}

#[test]
fn mcq_keeps_options_in_order() {
    let entry = Mcq::new(s("cat"), s("gato"), vec![s("perro"), s("gato"), s("pez")]);
    assert_eq!(entry.question(), "cat");
    assert_eq!(entry.answer(), "gato");
    assert_eq!(entry.options(), &vec![s("perro"), s("gato"), s("pez")]);
}

#[test]
fn mcq_does_not_demand_answer_among_options() {
    let entry = Mcq::new(s("cat"), s("elsewhere"), vec![s("perro")]);
    assert_eq!(entry.answer(), "elsewhere");
    assert_eq!(entry.options().len(), 1);
}

#[test]
fn recognize_root_keeps_three_fields_apart() {
    let entry = RecognizeRoot::new(s("question"), s("answer"), s("example"));
    assert_eq!(entry.question(), "question");
    assert_eq!(entry.answer(), "answer");
    assert_eq!(entry.example(), "example");
}

#[test]
fn fill_in_the_blank_keeps_three_fields_apart() {
    let entry = FillInTheBlank::new(s("I ___ home"), s("go"), s("___"));
    assert_eq!(entry.question(), "I ___ home");
    assert_eq!(entry.answer(), "go");
    assert_eq!(entry.blank(), "___");
}

#[test]
fn same_or_opposite_keeps_words_and_answer() {
    let entry = SameOrOpposite::new(s("big"), s("large"), true);
    assert_eq!(entry.first_word(), "big");
    assert_eq!(entry.second_word(), "large");
    assert!(entry.answer());
    assert!(!SameOrOpposite::new(s("big"), s("small"), false).answer());
}

#[test]
fn exercises_of_different_kinds_differ() {
    let matching = Exercise::Matching(vec![Matching::new(s("q"), s("a"))]);
    let recall = Exercise::Recall(vec![Recall::new(s("q"), s("a"))]);
    assert_ne!(matching, recall);
    assert_eq!(matching, Exercise::Matching(vec![Matching::new(s("q"), s("a"))]));
}
