use quick_find::config::Action;
use quick_find::entry::{ActionType, Dispatch, Entry};
use quick_find::menu::{DirRecord, FilterOutcome, Menu};
use quick_find::session::{close, filter_entries, Registry};

fn menu_of(hotkey: &str, labels: &[&str]) -> Menu {
    Menu::new(
        hotkey.to_string(),
        labels.iter().map(|l| Entry::new(l.to_string(), l.to_string(), ActionType::Open)).collect(),
        Action::Open,
        None,
        String::new(),
        false,
        None,
        false,
        false,
        false,
        None,
        None,
        Vec::new(),
    )
}

fn registry() -> Registry {
    let mut registry = Registry::new();
    registry.install(vec![menu_of("F1", &["apple", "avocado", "banana"]), menu_of("F2", &["x"])]);
    registry
}

fn shown(registry: &Registry, index: usize) -> Vec<String> {
    registry.menus()[index].current_entries().iter().map(|e| e.string().to_string()).collect()
}

#[test]
fn a_new_registry_has_no_menus_and_none_open() {
    let registry = Registry::new();
    assert!(registry.menus().is_empty());
    assert_eq!(registry.active(), None);
    assert!(!registry.is_open());
}

#[test]
fn installing_sets_the_menus_and_opens_none() {
    let mut registry = Registry::new();
    assert!(!registry.install(vec![menu_of("F1", &["a"])]));
    assert_eq!(registry.menus().len(), 1);
    assert!(!registry.is_open());
}

#[test]
fn opening_shows_the_entries_of_the_menu() {
    let mut registry = registry();
    assert!(registry.open(0, &Vec::new()));
    assert!(registry.is_open());
    assert_eq!(registry.active(), Some(0));
    assert_eq!(shown(&registry, 0), vec!["apple", "avocado", "banana"]);
    assert!(shown(&registry, 1).is_empty());
}

#[test]
fn opening_a_menu_that_is_not_there_changes_nothing() {
    let mut registry = registry();
    assert!(registry.open(1, &Vec::new()));
    assert!(!registry.open(2, &vec![DirRecord {
        name: "n".to_string(),
        is_dir: false,
        path: "p".to_string(),
    }]));
    assert_eq!(registry.active(), Some(1));
    assert_eq!(shown(&registry, 1), vec!["x"]);
}

#[test]
fn opening_another_menu_closes_the_first() {
    let mut registry = registry();
    assert!(registry.open(0, &Vec::new()));
    assert!(registry.open(1, &Vec::new()));
    assert_eq!(registry.active(), Some(1));
    assert!(shown(&registry, 0).is_empty());
    assert_eq!(shown(&registry, 1), vec!["x"]);
}

#[test]
fn a_keystroke_without_an_open_menu_is_ignored() {
    let mut registry = registry();
    assert!(matches!(filter_entries(&mut registry, 'a'), FilterOutcome::Ignored));
    assert!(!registry.is_open());
}

#[test]
fn keystrokes_go_to_the_open_menu() {
    let mut registry = registry();
    registry.open(0, &Vec::new());
    assert!(matches!(filter_entries(&mut registry, 'x'), FilterOutcome::Ignored));
    assert!(registry.is_open());
    assert!(matches!(filter_entries(&mut registry, 'a'), FilterOutcome::Updated));
    assert!(registry.is_open());
    assert_eq!(shown(&registry, 0), vec!["apple", "avocado"]);
    match filter_entries(&mut registry, 'v') {
        FilterOutcome::Activated(Dispatch::OpenPath(payload)) => assert_eq!(payload, "avocado"),
        _ => panic!("one entry is left"),
    }
    assert!(!registry.is_open());
    assert!(shown(&registry, 0).is_empty());
    assert!(matches!(filter_entries(&mut registry, 'a'), FilterOutcome::Ignored));
}

#[test]
fn closing_cancels_the_session() {
    let mut registry = registry();
    registry.open(0, &Vec::new());
    close(&mut registry);
    assert!(!registry.is_open());
    assert!(shown(&registry, 0).is_empty());
    close(&mut registry);
    assert!(!registry.is_open());
    assert_eq!(registry.menus().len(), 2);
}

#[test]
fn installing_while_a_menu_is_open_closes_it() {
    let mut registry = registry();
    registry.open(1, &Vec::new());
    assert!(registry.install(vec![menu_of("F3", &["new"])]));
    assert!(!registry.is_open());
    assert_eq!(registry.menus().len(), 1);
    assert_eq!(registry.menus()[0].hotkey(), "F3");
    assert!(matches!(filter_entries(&mut registry, 'x'), FilterOutcome::Ignored));
}
