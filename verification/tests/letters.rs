use quick_find::letters::{chars_of, contains_letter, is_same_letter};

#[test]
fn letters_compare_with_and_without_case() {
    assert!(is_same_letter('b', 'B', false));
    assert!(is_same_letter('B', 'b', false));
    assert!(!is_same_letter('b', 'B', true));
    assert!(is_same_letter('b', 'b', true));
    assert!(!is_same_letter('a', 'b', false));
}

#[test]
fn letters_outside_ascii_fold_too() {
    assert!(is_same_letter('Ä', 'ä', false));
    assert!(!is_same_letter('Ä', 'ä', true));
    assert!(is_same_letter('1', '1', false));
}

#[test]
fn a_string_holds_a_letter_in_either_case_when_case_is_ignored() {
    assert!(contains_letter("ABC", 'b', false));
    assert!(contains_letter("abc", 'B', false));
    assert!(!contains_letter("ABC", 'b', true));
    assert!(contains_letter("ABC", 'B', true));
    assert!(!contains_letter("", 'a', false));
    assert!(!contains_letter("abc", 'd', false));
}

#[test]
fn chars_of_lists_characters_not_bytes() {
    assert_eq!(chars_of("añb"), vec!['a', 'ñ', 'b']);
    assert_eq!(chars_of(""), Vec::<char>::new());
}

#[test]
fn a_letter_and_its_lowercase_are_the_same_letter_when_case_is_ignored() {
    for code in 0..=0x10FFFFu32 {
        if let Some(c) = char::from_u32(code) {
            let lower = c.to_lowercase().next().unwrap();
            assert!(is_same_letter(lower, c, false));
            assert!(is_same_letter(c, c, true));
        }
    }
}
