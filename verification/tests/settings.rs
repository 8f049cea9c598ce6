use arkiv_katalog::document::Field;
use arkiv_katalog::settings::{ConfigRead, SettingKey, Settings, SettingsError};
use arkiv_katalog::theme_arg::{ThemeArg, ThemeSet};

fn themes() -> ThemeSet {
    let names = ["Light", "Dark", "Nord"].iter().map(|name| (*name).to_owned()).collect();
    ThemeSet::new(names).expect("the names differ")
}

fn settings(theme: &str, card_width: u16, max_card_text_width: u16) -> Settings {
    Settings { theme: ThemeArg::new(theme.to_owned()), card_width, max_card_text_width }
}

#[test]
fn defaults() {
    assert_eq!(Settings::default(), settings("Dark", 150, 12));
}

#[test]
fn an_empty_document_gives_the_defaults() {
    assert_eq!(Settings::from_toml("", &themes()), Ok(Settings::default()));
    assert_eq!(Settings::from_toml("# nothing\n", &themes()), Ok(Settings::default()));
}

#[test]
fn missing_keys_take_their_defaults() {
    assert_eq!(Settings::from_toml("theme = \"Nord\"\n", &themes()), Ok(settings("Nord", 150, 12)));
    assert_eq!(Settings::from_toml("card_width = 200\n", &themes()), Ok(settings("Dark", 200, 12)));
    assert_eq!(
        Settings::from_toml("max_card_text_width = 0\n", &themes()),
        Ok(settings("Dark", 150, 0))
    );
}

#[test]
fn a_full_document_is_read() {
    let text = "theme = \"light\"\ncard_width = 65535\nmax_card_text_width = 7\nother = true\n";
    assert_eq!(Settings::from_toml(text, &themes()), Ok(settings("Light", 65535, 7)));
}

#[test]
fn an_unknown_theme_is_an_error() {
    assert_eq!(
        Settings::from_toml("theme = \"Ferra\"\n", &themes()),
        Err(SettingsError::UnknownTheme("could not get iced theme Ferra".to_owned()))
    );
}

#[test]
fn a_value_of_the_wrong_kind_is_an_error() {
    assert_eq!(
        Settings::from_toml("theme = 3\n", &themes()),
        Err(SettingsError::InvalidField(SettingKey::Theme))
    );
    assert_eq!(
        Settings::from_toml("card_width = \"wide\"\n", &themes()),
        Err(SettingsError::InvalidField(SettingKey::CardWidth))
    );
    assert_eq!(
        Settings::from_toml("max_card_text_width = 1.5\n", &themes()),
        Err(SettingsError::InvalidField(SettingKey::MaxCardTextWidth))
    );
    assert_eq!(
        Settings::from_toml("[theme]\nname = \"Dark\"\n", &themes()),
        Err(SettingsError::InvalidField(SettingKey::Theme))
    );
}

#[test]
fn a_width_out_of_range_is_an_error() {
    assert_eq!(
        Settings::from_toml("card_width = 65536\n", &themes()),
        Err(SettingsError::InvalidField(SettingKey::CardWidth))
    );
    assert_eq!(
        Settings::from_toml("max_card_text_width = -1\n", &themes()),
        Err(SettingsError::InvalidField(SettingKey::MaxCardTextWidth))
    );
}

#[test]
fn the_first_key_that_fails_gives_the_error() {
    let text = "theme = 1\ncard_width = -1\nmax_card_text_width = -1\n";
    assert_eq!(
        Settings::from_toml(text, &themes()),
        Err(SettingsError::InvalidField(SettingKey::Theme))
    );
    let text = "card_width = -1\nmax_card_text_width = -1\n";
    assert_eq!(
        Settings::from_toml(text, &themes()),
        Err(SettingsError::InvalidField(SettingKey::CardWidth))
    );
}

#[test]
fn a_malformed_text_is_a_syntax_error() {
    assert!(matches!(
        Settings::from_toml("theme = \n", &themes()),
        Err(SettingsError::Syntax(_))
    ));
    assert!(matches!(
        Settings::from_toml("theme = \"Dark\"\ntheme = \"Nord\"\n", &themes()),
        Err(SettingsError::Syntax(_))
    ));
}

#[test]
fn written_settings_are_read_back() {
    let list = themes();
    for value in [
        Settings::default(),
        settings("Light", 0, 0),
        settings("Nord", 65535, 65535),
        settings("Dark", 1, 300),
    ] {
        let text = value.to_toml().expect("settings can be written");
        assert_eq!(Settings::from_toml(&text, &list), Ok(value));
    }
}

#[test]
fn the_written_text_names_each_key() {
    let text = settings("Nord", 200, 9).to_toml().expect("settings can be written");
    assert!(text.contains("theme = \"Nord\""));
    assert!(text.contains("card_width = 200"));
    assert!(text.contains("max_card_text_width = 9"));
}

#[test]
fn the_document_of_settings() {
    assert_eq!(
        settings("Nord", 200, 9).to_document(),
        vec![
            ("theme".to_owned(), Field::Text("Nord".to_owned())),
            ("card_width".to_owned(), Field::Integer(200)),
            ("max_card_text_width".to_owned(), Field::Integer(9)),
        ]
    );
}

#[test]
fn a_document_is_read_key_by_key() {
    let document = vec![
        ("card_width".to_owned(), Some(Field::Integer(10))),
        ("theme".to_owned(), Some(Field::Text("NORD".to_owned()))),
        ("card_width".to_owned(), Some(Field::Integer(20))),
        ("unknown".to_owned(), None),
    ];
    assert_eq!(Settings::from_document(&document, &themes()), Ok(settings("Nord", 10, 12)));
    let document = vec![("max_card_text_width".to_owned(), None)];
    assert_eq!(
        Settings::from_document(&document, &themes()),
        Err(SettingsError::InvalidField(SettingKey::MaxCardTextWidth))
    );
}

#[test]
fn no_settings_file_gives_the_defaults() {
    assert_eq!(Settings::load(&ConfigRead::Missing, &themes()), Ok(Settings::default()));
}

#[test]
fn an_unreadable_settings_file_is_an_error() {
    assert_eq!(
        Settings::load(&ConfigRead::Unreadable("denied".to_owned()), &themes()),
        Err(SettingsError::Read("denied".to_owned()))
    );
}

#[test]
fn the_text_of_the_settings_file_is_read() {
    assert_eq!(
        Settings::load(&ConfigRead::Content("card_width = 99\n".to_owned()), &themes()),
        Ok(settings("Dark", 99, 12))
    );
    assert!(matches!(
        Settings::load(&ConfigRead::Content("= 1".to_owned()), &themes()),
        Err(SettingsError::Syntax(_))
    ));
}

#[test]
fn a_theme_of_the_command_line_replaces_the_loaded_one() {
    let nord = ThemeArg::new("Nord".to_owned());
    assert_eq!(Settings::default().with_theme(Some(nord)), settings("Nord", 150, 12));
    assert_eq!(Settings::default().with_theme(None), Settings::default());
}
