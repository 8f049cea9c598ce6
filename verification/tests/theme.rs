use arkiv_katalog::theme_arg::{ThemeArg, ThemeSet};

fn names(list: &[&str]) -> Vec<String> {
    list.iter().map(|name| (*name).to_owned()).collect()
}

fn three() -> ThemeSet {
    ThemeSet::new(names(&["Light", "Dark", "Nord"])).expect("the names differ")
}

#[test]
fn next_wraps_round_the_list() {
    let themes = three();
    let light = ThemeArg::new("Light".to_owned());
    let dark = light.next_cyclic(&themes);
    assert_eq!(dark.name(), "Dark");
    let nord = dark.next_cyclic(&themes);
    assert_eq!(nord.name(), "Nord");
    assert_eq!(nord.next_cyclic(&themes).name(), "Light");
}

#[test]
fn prev_wraps_round_the_list() {
    let themes = three();
    let light = ThemeArg::new("Light".to_owned());
    let nord = light.prev_cyclic(&themes);
    assert_eq!(nord.name(), "Nord");
    assert_eq!(nord.prev_cyclic(&themes).name(), "Dark");
}

#[test]
fn next_then_prev_is_the_start() {
    let themes = three();
    for name in ["Light", "Dark", "Nord"] {
        let theme = ThemeArg::new(name.to_owned());
        assert_eq!(theme.next_cyclic(&themes).prev_cyclic(&themes), theme);
        assert_eq!(theme.prev_cyclic(&themes).next_cyclic(&themes), theme);
    }
}

#[test]
fn as_many_steps_as_themes_lead_back() {
    let themes = three();
    let start = ThemeArg::new("Dark".to_owned());
    let mut theme = start.clone();
    for _ in 0..themes.len() {
        theme = theme.next_cyclic(&themes);
    }
    assert_eq!(theme, start);
}

#[test]
fn a_list_of_one_theme_cycles_to_itself() {
    let themes = ThemeSet::new(names(&["Only"])).expect("one name");
    let only = ThemeArg::new("Only".to_owned());
    assert_eq!(only.next_cyclic(&themes), only);
    assert_eq!(only.prev_cyclic(&themes), only);
}

#[test]
fn a_name_twice_is_no_list() {
    assert!(ThemeSet::new(names(&["Light", "Dark", "Light"])).is_none());
    assert!(ThemeSet::new(names(&[])).is_some());
    assert!(ThemeSet::new(names(&["Light", "light"])).is_some());
}

#[test]
fn the_default_theme_is_dark() {
    assert_eq!(ThemeArg::default().name(), "Dark");
    assert!(ThemeArg::default().is_default());
    assert!(!ThemeArg::new("Light".to_owned()).is_default());
    assert!(!ThemeArg::new("dark".to_owned()).is_default());
}

#[test]
fn from_str_ignores_ascii_case() {
    let themes = three();
    assert_eq!(ThemeArg::from_str("nORD", &themes), Ok(ThemeArg::new("Nord".to_owned())));
    assert_eq!(ThemeArg::from_str("Dark", &themes), Ok(ThemeArg::new("Dark".to_owned())));
    assert_eq!(
        ThemeArg::from_str("Dracula", &themes),
        Err("could not get iced theme Dracula".to_owned())
    );
    assert_eq!(ThemeArg::from_str("", &themes), Err("could not get iced theme ".to_owned()));
}

#[test]
fn lookup_by_exact_name_minds_case() {
    let themes = three();
    assert_eq!(themes.lookup("Nord", false), Ok(ThemeArg::new("Nord".to_owned())));
    assert_eq!(themes.lookup("nord", false), Err("could not get iced theme nord".to_owned()));
    assert_eq!(themes.lookup("nord", true), Ok(ThemeArg::new("Nord".to_owned())));
}

#[test]
fn lookup_takes_the_first_match() {
    let themes = ThemeSet::new(names(&["dark", "Dark"])).expect("the names differ");
    assert_eq!(themes.lookup("DARK", true), Ok(ThemeArg::new("dark".to_owned())));
    assert_eq!(themes.lookup("Dark", false), Ok(ThemeArg::new("Dark".to_owned())));
}

#[test]
fn only_ascii_letters_lose_their_case() {
    let themes = ThemeSet::new(names(&["Catppuccin Frappé"])).expect("one name");
    assert!(themes.lookup("catppuccin frappé", true).is_ok());
    assert!(themes.lookup("catppuccin frappÉ", true).is_err());
}

#[test]
fn position_and_contents() {
    let themes = three();
    assert_eq!(themes.len(), 3);
    assert_eq!(themes.position("Nord"), Some(2));
    assert_eq!(themes.position("nord"), None);
    assert_eq!(themes.name_at(1), "Dark");
    assert!(themes.contains(&ThemeArg::new("Light".to_owned())));
    assert!(!themes.contains(&ThemeArg::new("Ferra".to_owned())));
    let all = themes.value_variants();
    assert_eq!(all.len(), 3);
    assert_eq!(all[0].name(), "Light");
    assert_eq!(all[2], themes.theme_at(2));
}

#[test]
fn the_built_in_themes_are_those_of_the_toolkit() {
    let themes = ThemeSet::builtin().expect("the built-in names differ");
    assert_eq!(themes.len(), iced::Theme::ALL.len());
    assert_eq!(themes.name_at(0), "Light");
    assert_eq!(themes.name_at(1), "Dark");
    assert!(themes.contains(&ThemeArg::default()));
    let last = themes.theme_at(themes.len() - 1);
    assert_eq!(last.name(), "Ferra");
    assert_eq!(last.next_cyclic(&themes).name(), "Light");
    assert_eq!(ThemeArg::default().prev_cyclic(&themes).name(), "Light");
}
