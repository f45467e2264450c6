use quick_find::config::Action;
use quick_find::entry::{ActionType, Dispatch, Entry};
use quick_find::menu::{DirRecord, FilterOutcome, Menu};
use quick_find::pattern::Pattern;

fn entries_of(labels: &[&str]) -> Vec<Entry> {
    labels.iter().map(|l| Entry::new(l.to_string(), l.to_string(), ActionType::Open)).collect()
}

fn menu_of(labels: &[&str], match_selection_case: bool, minimize_keys: bool) -> Menu {
    Menu::new(
        "Ctrl+Space".to_string(),
        entries_of(labels),
        Action::Open,
        None,
        String::new(),
        false,
        None,
        match_selection_case,
        minimize_keys,
        false,
        None,
        None,
        Vec::new(),
    )
}

fn opened(labels: &[&str], match_selection_case: bool, minimize_keys: bool) -> Menu {
    let mut menu = menu_of(labels, match_selection_case, minimize_keys);
    menu.get_entries(&Vec::new());
    menu
}

fn labels(menu: &Menu) -> Vec<String> {
    menu.current_entries().iter().map(|e| e.string().to_string()).collect()
}

fn letters(menu: &Menu) -> Vec<Option<char>> {
    menu.current_entries().iter().map(|e| e.selection_letter()).collect()
}

fn cursors(menu: &Menu) -> Vec<usize> {
    menu.current_entries().iter().map(|e| e.pos()).collect()
}

fn offsets(menu: &Menu) -> Vec<Option<usize>> {
    menu.current_entries().iter().map(|e| e.selection_index()).collect()
}

fn file(name: &str) -> DirRecord {
    DirRecord { name: name.to_string(), is_dir: false, path: format!("/dir/{}", name) }
}

fn dir(name: &str) -> DirRecord {
    DirRecord { name: name.to_string(), is_dir: true, path: format!("/dir/{}", name) }
}

#[test]
fn a_new_menu_shows_nothing() {
    let menu = menu_of(&["apple"], false, false);
    assert!(menu.current_entries().is_empty());
    assert_eq!(menu.hotkey(), "Ctrl+Space");
    assert_eq!(menu.directory(), &None);
    assert_eq!(menu.custom_css(), &None);
}

#[test]
fn three_fruits_and_one_keystroke_activate_the_second() {
    let mut menu = opened(&["apple", "banana", "cherry"], false, false);
    assert_eq!(letters(&menu), vec![Some('a'), Some('b'), Some('c')]);
    match menu.filter('B') {
        FilterOutcome::Activated(Dispatch::OpenPath(payload)) => assert_eq!(payload, "banana"),
        _ => panic!("the keystroke selects one entry"),
    }
    assert!(menu.current_entries().is_empty());
}

#[test]
fn cat_and_car_get_different_letters() {
    let menu = opened(&["cat", "car"], false, true);
    assert_eq!(labels(&menu), vec!["cat", "car"]);
    assert_eq!(letters(&menu), vec![Some('c'), Some('a')]);
    assert_ne!(letters(&menu)[0], letters(&menu)[1]);
}

#[test]
fn an_unmatched_keystroke_changes_nothing() {
    let mut menu = opened(&["apple", "avocado", "banana"], false, false);
    let before = (labels(&menu), letters(&menu), cursors(&menu), offsets(&menu));
    assert!(matches!(menu.filter('z'), FilterOutcome::Ignored));
    assert_eq!((labels(&menu), letters(&menu), cursors(&menu), offsets(&menu)), before);
    assert!(matches!(menu.filter(' '), FilterOutcome::Ignored));
    assert_eq!((labels(&menu), letters(&menu), cursors(&menu), offsets(&menu)), before);
}

#[test]
fn a_keystroke_on_an_empty_menu_is_ignored() {
    let mut menu = opened(&[], false, true);
    assert!(matches!(menu.filter('a'), FilterOutcome::Ignored));
    assert!(menu.current_entries().is_empty());
}

#[test]
fn a_shared_letter_narrows_and_moves_the_cursors() {
    let mut menu = opened(&["apple", "avocado", "banana", "apricot"], false, false);
    assert_eq!(letters(&menu), vec![Some('a'), Some('a'), Some('b'), Some('a')]);
    assert!(matches!(menu.filter('a'), FilterOutcome::Updated));
    assert_eq!(labels(&menu), vec!["apple", "avocado", "apricot"]);
    assert_eq!(cursors(&menu), vec![1, 1, 1]);
    assert_eq!(letters(&menu), vec![Some('p'), Some('v'), Some('p')]);
    assert_eq!(offsets(&menu), vec![Some(1), Some(1), Some(1)]);
    assert!(matches!(menu.filter('p'), FilterOutcome::Updated));
    assert_eq!(labels(&menu), vec!["apple", "apricot"]);
    assert_eq!(cursors(&menu), vec![2, 2]);
    assert_eq!(letters(&menu), vec![Some('p'), Some('r')]);
    match menu.filter('r') {
        FilterOutcome::Activated(Dispatch::OpenPath(payload)) => assert_eq!(payload, "apricot"),
        _ => panic!("one entry is left"),
    }
}

#[test]
fn every_survivor_moves_forward() {
    let mut menu = opened(&["a b", "ab", "xa", "a"], false, false);
    let before = cursors(&menu);
    assert!(matches!(menu.filter('A'), FilterOutcome::Updated));
    assert_eq!(labels(&menu), vec!["a b", "ab", "a"]);
    for (cursor, old) in cursors(&menu).iter().zip([before[0], before[1], before[3]]) {
        assert!(*cursor > old);
    }
    assert_eq!(cursors(&menu), vec![1, 1, 1]);
    assert_eq!(letters(&menu), vec![Some('b'), Some('b'), None]);
}

#[test]
fn keystrokes_match_by_case_only_when_asked() {
    let mut strict = opened(&["Apple", "apple"], true, false);
    assert_eq!(letters(&strict), vec![Some('A'), Some('a')]);
    match strict.filter('A') {
        FilterOutcome::Activated(Dispatch::OpenPath(payload)) => assert_eq!(payload, "Apple"),
        _ => panic!("only one entry has the capital letter"),
    }
    let mut loose = opened(&["Apple", "apple"], false, false);
    assert!(matches!(loose.filter('A'), FilterOutcome::Updated));
    assert_eq!(labels(&loose), vec!["Apple", "apple"]);
}

#[test]
fn an_entry_without_a_letter_stays_visible_and_out_of_reach() {
    let mut menu = opened(&["", "   ", "x"], false, false);
    assert_eq!(labels(&menu), vec!["", "   ", "x"]);
    assert_eq!(letters(&menu), vec![None, None, Some('x')]);
    assert!(matches!(menu.filter(' '), FilterOutcome::Ignored));
    assert_eq!(labels(&menu).len(), 3);
}

#[test]
fn a_command_entry_is_activated_with_its_template() {
    let entry = Entry::new(
        "build".to_string(),
        "/src/project".to_string(),
        ActionType::Command("make -C {}".to_string()),
    );
    let mut menu = Menu::new(
        "F1".to_string(),
        vec![entry],
        Action::Command,
        None,
        String::new(),
        false,
        None,
        false,
        false,
        false,
        Some("unused {}".to_string()),
        None,
        Vec::new(),
    );
    menu.get_entries(&Vec::new());
    match menu.filter('b') {
        FilterOutcome::Activated(Dispatch::RunShell(line)) => assert_eq!(line, "make -C /src/project"),
        _ => panic!("the entry runs its command"),
    }
}

#[test]
fn minimized_keys_are_reassigned_after_a_keystroke() {
    let mut menu = opened(&["aa", "ab", "b"], false, true);
    assert_eq!(letters(&menu), vec![Some('a'), Some('b'), Some('b')]);
    assert!(matches!(menu.filter('b'), FilterOutcome::Updated));
    assert_eq!(labels(&menu), vec!["ab", "b"]);
    assert_eq!(cursors(&menu), vec![2, 1]);
    assert_eq!(letters(&menu), vec![None, None]);
}

#[test]
fn opening_lists_the_directory_before_the_static_entries() {
    let mut menu = Menu::new(
        "F2".to_string(),
        entries_of(&["static"]),
        Action::Open,
        Some("/dir".to_string()),
        String::new(),
        false,
        None,
        false,
        false,
        false,
        None,
        None,
        vec![".DS_Store".to_string(), "skip/".to_string()],
    );
    menu.get_entries(&vec![file("notes.txt"), file(".DS_Store"), dir("docs"), dir("skip"), file("skip")]);
    assert_eq!(labels(&menu), vec!["notes.txt", "docs/", "skip", "static"]);
    let payloads: Vec<&str> = menu.current_entries().iter().map(|e| e.full_string()).collect();
    assert_eq!(payloads, vec!["/dir/notes.txt", "/dir/docs", "/dir/skip", "static"]);
    assert_eq!(letters(&menu), vec![Some('n'), Some('d'), Some('s'), Some('s')]);
}

#[test]
fn opening_again_starts_over() {
    let mut menu = opened(&["apple", "avocado"], false, false);
    assert!(matches!(menu.filter('a'), FilterOutcome::Updated));
    assert_eq!(cursors(&menu), vec![1, 1]);
    menu.get_entries(&Vec::new());
    assert_eq!(cursors(&menu), vec![0, 0]);
    assert_eq!(letters(&menu), vec![Some('a'), Some('a')]);
}

#[test]
fn extensions_are_removed_from_files_only() {
    let mut menu = Menu::new(
        "F3".to_string(),
        Vec::new(),
        Action::Open,
        Some("/dir".to_string()),
        String::new(),
        false,
        None,
        false,
        false,
        true,
        None,
        None,
        vec!["thumbs.db".to_string()],
    );
    menu.get_entries(&vec![file("notes.txt"), dir("v1.2"), file("README"), file("thumbs.db"), file("a.tar.gz")]);
    assert_eq!(labels(&menu), vec!["notes", "v1.2/", "README", "a.tar"]);
}

#[test]
fn a_menu_without_a_directory_takes_no_listing() {
    let mut menu = menu_of(&["static"], false, false);
    menu.get_entries(&vec![file("notes.txt")]);
    assert_eq!(labels(&menu), vec!["static"]);
}

#[test]
fn directory_entries_of_a_command_menu_run_its_command() {
    let mut menu = Menu::new(
        "F4".to_string(),
        Vec::new(),
        Action::Command,
        Some("/dir".to_string()),
        String::new(),
        false,
        None,
        false,
        false,
        false,
        Some("edit {}".to_string()),
        None,
        Vec::new(),
    );
    menu.get_entries(&vec![file("notes.txt")]);
    match menu.filter('n') {
        FilterOutcome::Activated(Dispatch::RunShell(line)) => assert_eq!(line, "edit /dir/notes.txt"),
        _ => panic!("the entry runs the menu's command"),
    }
}

#[test]
fn a_command_menu_without_a_command_lists_no_directory_entries() {
    let mut menu = Menu::new(
        "F5".to_string(),
        entries_of(&["static"]),
        Action::Command,
        Some("/dir".to_string()),
        String::new(),
        false,
        None,
        false,
        false,
        false,
        None,
        None,
        Vec::new(),
    );
    menu.get_entries(&vec![file("notes.txt")]);
    assert_eq!(labels(&menu), vec!["static"]);
}

#[test]
fn the_candidate_of_a_record_takes_the_stem_it_is_given() {
    let menu = Menu::new(
        "F6".to_string(),
        Vec::new(),
        Action::Open,
        Some("/dir".to_string()),
        String::new(),
        false,
        None,
        false,
        false,
        true,
        None,
        None,
        vec!["docs/".to_string()],
    );
    let entry = menu.candidate(&file("a.txt"), Some("a".to_string())).unwrap();
    assert_eq!(entry.string(), "a");
    assert_eq!(entry.full_string(), "/dir/a.txt");
    let whole = menu.candidate(&file("a.txt"), None).unwrap();
    assert_eq!(whole.string(), "a.txt");
    let folder = menu.candidate(&dir("src"), Some("ignored".to_string())).unwrap();
    assert_eq!(folder.string(), "src/");
    assert!(menu.candidate(&dir("docs"), None).is_none());
    assert!(menu.candidate(&file("docs"), None).is_some());
}

#[test]
fn closing_takes_the_entries_off_display() {
    let mut menu = opened(&["apple"], false, false);
    assert_eq!(labels(&menu), vec!["apple"]);
    menu.close();
    assert!(menu.current_entries().is_empty());
    menu.get_entries(&Vec::new());
    assert_eq!(labels(&menu), vec!["apple"]);
}

#[test]
fn the_pattern_of_a_menu_restricts_its_letters() {
    let mut menu = Menu::new(
        "F7".to_string(),
        entries_of(&["1 one", "2 two", "three"]),
        Action::Open,
        None,
        String::new(),
        false,
        Some(Pattern::new("[0-9]").unwrap()),
        false,
        false,
        false,
        None,
        None,
        Vec::new(),
    );
    menu.get_entries(&Vec::new());
    assert_eq!(letters(&menu), vec![Some('1'), Some('2'), None]);
}
