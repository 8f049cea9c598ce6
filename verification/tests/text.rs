use arkiv_katalog::address::{copy_path, ItemPath, ViewPath};
use arkiv_katalog::document::{find_field, Field};
use arkiv_katalog::text::{matches_ignoring_case, same_text};
use iced::widget::pane_grid;
use iced::window;

#[test]
fn texts_are_the_same_byte_for_byte() {
    assert!(same_text("", ""));
    assert!(same_text("theme", "theme"));
    assert!(!same_text("theme", "Theme"));
    assert!(!same_text("theme", "themes"));
    assert!(!same_text("themes", "theme"));
    assert!(same_text("Frappé", "Frappé"));
    assert!(!same_text("Frappé", "Frappe"));
}

#[test]
fn ascii_letters_match_in_either_case() {
    assert!(matches_ignoring_case("", ""));
    assert!(matches_ignoring_case("Solarized Light", "sOLARIZED lIGHT"));
    assert!(matches_ignoring_case("AZaz", "azAZ"));
    assert!(!matches_ignoring_case("a", "b"));
    assert!(!matches_ignoring_case("a", "aa"));
    assert!(!matches_ignoring_case("@", "`"));
    assert!(!matches_ignoring_case("[", "{"));
    assert!(matches_ignoring_case("é", "é"));
    assert!(!matches_ignoring_case("é", "É"));
}

#[test]
fn a_path_is_copied_byte_for_byte() {
    assert_eq!(copy_path(&Vec::new()), Vec::<u8>::new());
    assert_eq!(copy_path(&vec![0, 255, 47, 97]), vec![0, 255, 47, 97]);
    let (_, pane) = pane_grid::State::new(());
    let at = ItemPath {
        view_path: ViewPath { window_id: window::Id::unique(), pane_id: pane },
        path: b"a/b".to_vec(),
    };
    assert_eq!(at.clone(), at);
}

#[test]
fn the_first_entry_of_a_key_is_found() {
    let document = vec![
        ("a".to_owned(), Some(Field::Integer(1))),
        ("b".to_owned(), None),
        ("a".to_owned(), Some(Field::Text("late".to_owned()))),
    ];
    assert_eq!(find_field(&document, "a"), Some(&Some(Field::Integer(1))));
    assert_eq!(find_field(&document, "b"), Some(&None));
    assert_eq!(find_field(&document, "c"), None);
    assert_eq!(find_field(&Vec::new(), "a"), None);
}
