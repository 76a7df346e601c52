use exercise_entry::cli::{invocation, Invocation};

fn args(list: &[&str]) -> Vec<String> {
    list.iter().map(|text| text.to_string()).collect()
}

#[test]
fn input_flag_runs_the_session() {
    assert_eq!(invocation(&args(&["tool", "--input"])), Invocation::Input);
}

#[test]
fn input_flag_counts_at_any_place() {
    assert_eq!(invocation(&args(&["tool", "other", "--input", "more"])), Invocation::Input);
    assert_eq!(invocation(&args(&["--input"])), Invocation::Input);
}

#[test]
fn without_the_flag_the_usage_names_the_program() {
    assert_eq!(
        invocation(&args(&["tool"])),
        Invocation::Usage("Usage: tool --input".to_string())
    );
    assert_eq!(
        invocation(&args(&["./bin/author", "--output", "-input"])),
        Invocation::Usage("Usage: ./bin/author --input".to_string())
    );
}

#[test]
fn without_any_argument_the_usage_names_a_program() {
    assert_eq!(invocation(&args(&[])), Invocation::Usage("Usage: program --input".to_string()));
}

#[test]
fn near_misses_are_no_flag() {
    assert_eq!(
        invocation(&args(&["tool", "--input=x", "--inpu", "--INPUT", " --input"])),
        Invocation::Usage("Usage: tool --input".to_string())
    );
}
