use quick_find::pattern::{accepts_char, Pattern};
use regex::Regex;

#[test]
fn a_valid_text_compiles_and_keeps_its_text() {
    let pattern = Pattern::new("[A-z0-9]").unwrap();
    assert_eq!(pattern.as_str(), "[A-z0-9]");
}

#[test]
fn an_invalid_text_does_not_compile() {
    assert!(Pattern::new("foo(bar").is_none());
    assert!(Pattern::new("[a-").is_none());
    assert!(Pattern::new("*").is_none());
}

#[test]
fn a_text_that_compiles_too_large_does_not_compile() {
    assert!(Pattern::new(r"\w{1000}").is_none());
}

#[test]
fn a_pattern_matches_anywhere_in_the_haystack() {
    let pattern = Pattern::new("b+").unwrap();
    assert!(pattern.is_match("aabbcc"));
    assert!(!pattern.is_match("aacc"));
    assert!(!pattern.is_match(""));
    let empty = Pattern::new("").unwrap();
    assert!(empty.is_match(""));
    assert!(empty.is_match("x"));
}

#[test]
fn a_pattern_answers_as_the_expression_compiled_from_its_text() {
    for source in ["[A-z0-9]", "(?i)[a-f]", r"\p{Greek}", "^.$", r"\d"] {
        let pattern = Pattern::new(source).unwrap();
        let regex = Regex::new(source).unwrap();
        for haystack in ["a", "F", "_", "7", "λ", " ", "ab", ""] {
            assert_eq!(pattern.is_match(haystack), regex.is_match(haystack));
        }
    }
}

#[test]
fn a_character_is_accepted_as_a_string_of_its_own() {
    let pattern = Some(Pattern::new("^[a-z]$").unwrap());
    assert!(accepts_char(&pattern, 'q'));
    assert!(!accepts_char(&pattern, 'Q'));
    assert!(!accepts_char(&pattern, '1'));
    assert!(accepts_char(&None, 'Q'));
    assert!(accepts_char(&None, ' '));
}

#[test]
fn the_default_pattern_accepts_what_lies_between_the_cases_too() {
    let pattern = Some(Pattern::new("[A-z0-9]").unwrap());
    assert!(accepts_char(&pattern, 'a'));
    assert!(accepts_char(&pattern, 'Z'));
    assert!(accepts_char(&pattern, '5'));
    assert!(accepts_char(&pattern, '_'));
    assert!(accepts_char(&pattern, '['));
    assert!(!accepts_char(&pattern, '-'));
    assert!(!accepts_char(&pattern, '.'));
    assert!(!accepts_char(&pattern, 'é'));
}
