use arkiv_katalog::address::{ItemPath, ViewPath};
use arkiv_katalog::cli::Cli;
use arkiv_katalog::message::{Effect, Key, KeyEvent, Message, Report, WindowRequest};
use arkiv_katalog::pane::Item;
use arkiv_katalog::settings::{ConfigRead, Settings, SettingsError};
use arkiv_katalog::state::AppState;
use arkiv_katalog::theme_arg::{ThemeArg, ThemeSet};
use arkiv_katalog::window_state::WindowKind;
use iced::widget::image::Handle;
use iced::widget::pane_grid::{self, Axis, Pane};
use iced::window::Id;

fn themes() -> ThemeSet {
    let names = ["Light", "Dark", "Nord"].iter().map(|name| (*name).to_owned()).collect();
    ThemeSet::new(names).expect("the names differ")
}

fn start() -> AppState {
    AppState::init(Cli::default(), Settings::default(), themes()).0
}

fn main_window() -> WindowRequest {
    WindowRequest::Main { directory: None }
}

fn open_main(state: &mut AppState) -> ViewPath {
    let id = Id::unique();
    assert_eq!(state.update(Message::WindowOpened(id, main_window())), vec![]);
    let panes = state.window(id).expect("the window").panes().expect("panes");
    let (pane, _) = panes.iter().next().expect("one pane");
    ViewPath { window_id: id, pane_id: *pane }
}

fn open_settings(state: &mut AppState) -> Id {
    let id = Id::unique();
    assert_eq!(state.update(Message::WindowOpened(id, WindowRequest::Settings)), vec![]);
    id
}

fn another_pane() -> Pane {
    let (mut grid, first) = pane_grid::State::new(());
    let (second, _) = grid.split(Axis::Horizontal, first, ()).expect("the first pane is there");
    second
}

fn item(name: &str, cover: Option<u64>) -> Item {
    Item {
        name: name.to_owned(),
        cover: cover.map(|number| Handle::from_path(format!("cover{number}"))),
    }
}

fn item_path(view_path: ViewPath, path: &str) -> ItemPath {
    ItemPath { view_path, path: path.as_bytes().to_vec() }
}

fn f2() -> Message {
    Message::KeyEvent(KeyEvent::Released { key: Key::F2, modifiers: 0 })
}

#[test]
fn the_start_asks_for_one_main_window() {
    let (state, effects) = AppState::init(Cli::default(), Settings::default(), themes());
    assert_eq!(effects, vec![Effect::OpenWindow(WindowRequest::Main { directory: None })]);
    assert_eq!(state.window_count(), 0);
    assert_eq!(state.settings(), &Settings::default());
    assert_eq!(state.theme_scroll(), 0);
    assert_eq!(state.cli(), &Cli::default());
    assert_eq!(state.themes().len(), 3);
}

#[test]
fn the_start_hands_on_the_directory_of_the_command_line() {
    let cli = Cli { directory: Some(b"/srv/comics".to_vec()), ..Cli::default() };
    let (mut state, effects) = AppState::init(cli, Settings::default(), themes());
    let request = WindowRequest::Main { directory: Some(b"/srv/comics".to_vec()) };
    assert_eq!(effects, vec![Effect::OpenWindow(request)]);
    let request = WindowRequest::Main { directory: Some(b"/srv/comics".to_vec()) };
    let id = Id::unique();
    let effects = state.update(Message::WindowOpened(id, request));
    let (_, first) = pane_grid::State::new(());
    let view_path = ViewPath { window_id: id, pane_id: first };
    assert_eq!(
        effects,
        vec![Effect::StartScan { view_path, directory: b"/srv/comics".to_vec() }]
    );
    assert!(state.pane(view_path).expect("the pane").is_empty());
}

#[test]
fn windows_are_counted_as_they_open_and_close() {
    let mut state = start();
    let first = open_main(&mut state).window_id;
    let second = open_settings(&mut state);
    let third = open_main(&mut state).window_id;
    assert_eq!(state.window_count(), 3);
    assert_eq!(state.update(Message::WindowClosed(second)), vec![]);
    assert_eq!(state.update(Message::WindowClosed(Id::unique())), vec![]);
    assert_eq!(state.update(Message::WindowClosed(second)), vec![]);
    assert_eq!(state.window_count(), 2);
    assert_eq!(state.update(Message::WindowClosed(first)), vec![]);
    assert_eq!(state.window_count(), 1);
    assert_eq!(state.update(Message::WindowClosed(third)), vec![Effect::Exit]);
    assert_eq!(state.window_count(), 0);
}

#[test]
fn closing_a_window_while_none_is_open_ends_nothing() {
    let mut state = start();
    let id = Id::unique();
    assert_eq!(state.update(Message::WindowClosed(id)), vec![]);
    assert_eq!(state.update(Message::WindowOpened(id, main_window())), vec![]);
    assert_eq!(state.update(Message::WindowClosed(id)), vec![Effect::Exit]);
    assert_eq!(state.update(Message::WindowClosed(id)), vec![]);
}

#[test]
fn a_window_opened_again_under_its_identifier_is_one_window() {
    let mut state = start();
    let at = open_main(&mut state);
    state.update(Message::ItemDiscovered(item_path(at, "x"), item("x", None)));
    assert_eq!(state.update(Message::WindowOpened(at.window_id, main_window())), vec![]);
    assert_eq!(state.window_count(), 1);
    assert!(state.pane(at).expect("the pane").is_empty());
}

#[test]
fn windows_are_known_by_identifier_and_kind() {
    let mut state = start();
    let main = open_main(&mut state).window_id;
    let settings = open_settings(&mut state);
    let unknown = Id::unique();
    assert_eq!(state.window(main).map(|window| window.kind()), Some(WindowKind::Main));
    assert_eq!(state.window(settings).map(|window| window.kind()), Some(WindowKind::Settings));
    assert!(state.window(main).expect("the window").is_main());
    assert!(state.window(settings).expect("the window").is_settings());
    assert!(state.window(settings).expect("the window").panes().is_none());
    assert_eq!(state.window(main).expect("the window").panes().expect("panes").len(), 1);
    assert!(state.window(unknown).is_none());
    assert_eq!(state.title(main), "Arkiv Katalog");
    assert_eq!(state.title(settings), "Arkiv Katalog: Settings");
    assert_eq!(state.title(unknown), "Arkiv Katalog");
}

#[test]
fn the_settings_key_opens_a_settings_window() {
    let mut state = start();
    open_main(&mut state);
    assert_eq!(state.update(f2()), vec![Effect::OpenWindow(WindowRequest::Settings)]);
    assert_eq!(state.window_count(), 1);
}

#[test]
fn the_settings_key_closes_every_settings_window() {
    let mut state = start();
    open_main(&mut state);
    let second = open_settings(&mut state);
    let third = open_settings(&mut state);
    open_main(&mut state);
    let effects = state.update(f2());
    assert_eq!(effects.len(), 2);
    assert!(effects.contains(&Effect::CloseWindow(second)));
    assert!(effects.contains(&Effect::CloseWindow(third)));
    assert_eq!(state.window_count(), 4);
    state.update(Message::WindowClosed(second));
    state.update(Message::WindowClosed(third));
    assert_eq!(state.update(f2()), vec![Effect::OpenWindow(WindowRequest::Settings)]);
}

#[test]
fn other_keyboard_events_do_nothing() {
    let mut state = start();
    open_settings(&mut state);
    for event in [
        KeyEvent::Released { key: Key::F2, modifiers: 1 },
        KeyEvent::Released { key: Key::Other, modifiers: 0 },
        KeyEvent::Other,
    ] {
        assert_eq!(state.update(Message::KeyEvent(event)), vec![]);
    }
    assert_eq!(state.window_count(), 1);
}

#[test]
fn a_theme_of_the_list_is_set() {
    let mut state = start();
    assert_eq!(state.update(Message::SetTheme(ThemeArg::new("Nord".to_owned()))), vec![]);
    assert_eq!(state.settings().theme.name(), "Nord");
    assert_eq!(state.main_theme().name(), "Nord");
    assert_eq!(state.theme(Id::unique()).name(), "Nord");
}

#[test]
fn a_theme_that_the_list_lacks_is_reported() {
    let mut state = start();
    let ferra = ThemeArg::new("Ferra".to_owned());
    assert_eq!(
        state.update(Message::SetTheme(ferra.clone())),
        vec![Effect::Report(Report::UnknownTheme(ferra))]
    );
    assert_eq!(state.settings(), &Settings::default());
}

#[test]
fn saving_hands_out_the_text_of_the_settings() {
    let mut state = start();
    state.update(Message::SetTheme(ThemeArg::new("Light".to_owned())));
    let effects = state.update(Message::SaveSettings);
    assert_eq!(effects.len(), 1);
    match &effects[0] {
        Effect::WriteConfig(text) => {
            assert_eq!(Settings::from_toml(text, &themes()).as_ref(), Ok(state.settings()));
        }
        other => panic!("unexpected effect {other:?}"),
    }
}

#[test]
fn reloading_replaces_the_settings() {
    let mut state = start();
    let text = "theme = \"nord\"\ncard_width = 300\n".to_owned();
    assert_eq!(state.update(Message::ReloadSettings(ConfigRead::Content(text))), vec![]);
    assert_eq!(state.settings().theme.name(), "Nord");
    assert_eq!(state.settings().card_width, 300);
    assert_eq!(state.settings().max_card_text_width, 12);
    assert_eq!(state.update(Message::ReloadSettings(ConfigRead::Missing)), vec![]);
    assert_eq!(state.settings(), &Settings::default());
}

#[test]
fn a_failed_reload_keeps_the_settings() {
    let mut state = start();
    state.update(Message::SetTheme(ThemeArg::new("Nord".to_owned())));
    let effects = state.update(Message::ReloadSettings(ConfigRead::Content("theme =".to_owned())));
    assert!(matches!(
        effects.as_slice(),
        [Effect::Report(Report::Settings(SettingsError::Syntax(_)))]
    ));
    assert_eq!(state.settings().theme.name(), "Nord");
    let effects =
        state.update(Message::ReloadSettings(ConfigRead::Unreadable("denied".to_owned())));
    assert_eq!(
        effects,
        vec![Effect::Report(Report::Settings(SettingsError::Read("denied".to_owned())))]
    );
    let text = "theme = \"Ferra\"\n".to_owned();
    let effects = state.update(Message::ReloadSettings(ConfigRead::Content(text)));
    assert_eq!(
        effects,
        vec![Effect::Report(Report::Settings(SettingsError::UnknownTheme(
            "could not get iced theme Ferra".to_owned()
        )))]
    );
    assert_eq!(state.settings().theme.name(), "Nord");
}

#[test]
fn a_discovered_item_is_shown_in_its_pane() {
    let mut state = start();
    let at = open_main(&mut state);
    let other = open_main(&mut state);
    assert!(state.pane(at).expect("the pane").is_empty());
    let effects = state.update(Message::ItemDiscovered(item_path(at, "a/b.txt"), item("b", None)));
    assert_eq!(effects, vec![]);
    let pane = state.pane(at).expect("the pane");
    assert!(pane.is_dir());
    assert_eq!(pane.len(), 1);
    assert_eq!(pane.get(b"a/b.txt"), Some(&item("b", None)));
    assert!(state.pane(other).expect("the pane").is_empty());
    assert_eq!(state.window_count(), 2);
}

#[test]
fn an_item_discovered_again_replaces_the_earlier_one() {
    let mut state = start();
    let at = open_main(&mut state);
    state.update(Message::ItemDiscovered(item_path(at, "a/a.txt"), item("a", None)));
    state.update(Message::ItemDiscovered(item_path(at, "a/b.txt"), item("b", Some(1))));
    state.update(Message::ItemDiscovered(item_path(at, "a/b.txt"), item("b", Some(2))));
    let pane = state.pane(at).expect("the pane");
    assert_eq!(pane.len(), 2);
    assert_eq!(pane.get(b"a/b.txt"), Some(&item("b", Some(2))));
    assert_eq!(pane.get(b"a/a.txt"), Some(&item("a", None)));
}

#[test]
fn an_item_for_a_view_that_is_gone_is_dropped() {
    let mut state = start();
    let at = open_main(&mut state);
    let settings = open_settings(&mut state);
    state.update(Message::ItemDiscovered(item_path(at, "kept"), item("kept", None)));
    let stale = [
        ViewPath { window_id: at.window_id, pane_id: another_pane() },
        ViewPath { window_id: settings, pane_id: at.pane_id },
        ViewPath { window_id: Id::unique(), pane_id: at.pane_id },
    ];
    for view_path in stale {
        let effects =
            state.update(Message::ItemDiscovered(item_path(view_path, "x"), item("x", None)));
        assert_eq!(effects, vec![Effect::Report(Report::StaleItem(item_path(view_path, "x")))]);
        assert!(state.pane(view_path).is_none());
    }
    let pane = state.pane(at).expect("the pane");
    assert_eq!(pane.len(), 1);
    assert_eq!(pane.get(b"kept"), Some(&item("kept", None)));
    state.update(Message::WindowClosed(at.window_id));
    let effects = state.update(Message::ItemDiscovered(item_path(at, "late"), item("l", None)));
    assert_eq!(effects, vec![Effect::Report(Report::StaleItem(item_path(at, "late")))]);
    assert_eq!(state.window_count(), 1);
    assert!(state.window(settings).expect("the window").is_settings());
}

#[test]
fn scrolling_steps_through_the_themes() {
    let mut state = start();
    assert_eq!(state.update(Message::ThemeScroll(30)), vec![]);
    assert_eq!(state.settings().theme.name(), "Dark");
    assert_eq!(state.theme_scroll(), 30);
    assert_eq!(state.update(Message::ThemeScroll(30)), vec![]);
    assert_eq!(state.settings().theme.name(), "Nord");
    assert_eq!(state.theme_scroll(), 10);
    assert_eq!(state.update(Message::ThemeScroll(500)), vec![]);
    assert_eq!(state.settings().theme.name(), "Light");
    assert_eq!(state.theme_scroll(), 10);
    assert_eq!(state.update(Message::ThemeScroll(-11)), vec![]);
    assert_eq!(state.settings().theme.name(), "Nord");
    assert_eq!(state.theme_scroll(), 49);
    assert_eq!(state.update(Message::ThemeScroll(0)), vec![]);
    assert_eq!(state.settings().theme.name(), "Nord");
    assert_eq!(state.theme_scroll(), 49);
}

#[test]
fn scrolling_from_a_theme_that_the_list_lacks_is_reported() {
    let settings = Settings { theme: ThemeArg::new("Ferra".to_owned()), ..Settings::default() };
    let (mut state, _) = AppState::init(Cli::default(), settings, themes());
    assert_eq!(state.update(Message::ThemeScroll(10)), vec![]);
    let effects = state.update(Message::ThemeScroll(45));
    let ferra = ThemeArg::new("Ferra".to_owned());
    assert_eq!(effects, vec![Effect::Report(Report::UnknownTheme(ferra))]);
    assert_eq!(state.settings().theme.name(), "Ferra");
    assert_eq!(state.theme_scroll(), 5);
}

#[test]
fn the_command_line_has_its_defaults() {
    let cli = Cli::default();
    assert_eq!(cli.theme, None);
    assert_eq!(cli.app_name, "arkiv-katalog");
    assert_eq!(cli.profile, "default");
    assert_eq!(cli.directory, None);
    assert_eq!(cli.clone(), cli);
}

#[test]
fn the_settings_at_the_start() {
    let list = themes();
    let cli = Cli::default();
    assert_eq!(cli.settings(&ConfigRead::Missing, &list), Ok(Settings::default()));
    let cli = Cli { theme: Some(ThemeArg::new("Light".to_owned())), ..Cli::default() };
    let found = ConfigRead::Content("theme = \"Nord\"\ncard_width = 1\n".to_owned());
    let settings = cli.settings(&found, &list).expect("the file is fine");
    assert_eq!(settings.theme.name(), "Light");
    assert_eq!(settings.card_width, 1);
    assert!(matches!(
        cli.settings(&ConfigRead::Content("x".to_owned()), &list),
        Err(SettingsError::Syntax(_))
    ));
    assert_eq!(
        cli.settings(&ConfigRead::Unreadable("gone".to_owned()), &list),
        Err(SettingsError::Read("gone".to_owned()))
    );
}
