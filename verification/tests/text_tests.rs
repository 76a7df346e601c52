use exercise_entry::text::{decimal_string, letter_char, LETTERS};

#[test]
fn decimal_of_single_digits() {
    assert_eq!(decimal_string(0), "0");
    assert_eq!(decimal_string(7), "7");
    assert_eq!(decimal_string(9), "9");
}

#[test]
fn decimal_of_longer_numbers() {
    assert_eq!(decimal_string(10), "10");
    assert_eq!(decimal_string(99), "99");
    assert_eq!(decimal_string(100), "100");
    assert_eq!(decimal_string(1203), "1203");
    assert_eq!(decimal_string(4294967295), "4294967295");
}

#[test]
fn decimal_agrees_with_std_on_the_largest_number() {
    assert_eq!(decimal_string(usize::MAX), usize::MAX.to_string());
}

#[test]
fn letters_start_at_a() {
    assert_eq!(letter_char(0), 'a');
    assert_eq!(letter_char(1), 'b');
    assert_eq!(letter_char(25), 'z');
}

#[test]
fn letters_go_on_behind_z() {
    assert_eq!(letter_char(26), '{');
    assert_eq!(letter_char(27), '|');
}

#[test]
fn letters_skip_the_surrogates() {
    assert_eq!(letter_char(0xD7FF - 97), '\u{D7FF}');
    assert_eq!(letter_char(0xD800 - 97), '\u{E000}');
}

#[test]
fn letters_end_before_the_last_character() {
    assert_eq!(LETTERS, 1_111_966);
    assert_eq!(letter_char(LETTERS - 1), '\u{10FFFE}');
}

#[test]
fn letters_agree_with_the_character_range() {
    let mut range = 'a'..;
    let mut index = 0;
    while index < 70_000 {
        assert_eq!(Some(letter_char(index)), range.next());
        index += 1;
    }
    assert_eq!(('a'..).take(LETTERS).last(), Some(letter_char(LETTERS - 1)));
    assert_eq!(('a'..).take(LETTERS).count(), LETTERS);
}
