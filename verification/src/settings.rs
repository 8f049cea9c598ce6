//! Application settings and their written form.

use crate::document::{
    field_of, find_field, parse_document, parse_error_message, parsed_document, read_view,
    render_document, render_error_message, rendered_document, written_view, Field, FieldView,
    ReadView, WrittenView,
};
use crate::theme_arg::{
    default_theme_name, selected_name, unknown_theme_message, ThemeArg, ThemeSet,
};
use vstd::prelude::*;

verus! {

/// Width of a card where the document names none.
pub const DEFAULT_CARD_WIDTH: u16 = 150;

/// Greatest width of a card's text where the document names none.
pub const DEFAULT_MAX_CARD_TEXT_WIDTH: u16 = 12;

/// Application settings.
#[derive(Debug, PartialEq, Eq)]
pub struct Settings {
    /// Application theme to use.
    pub theme: ThemeArg,
    /// Width of one card.
    pub card_width: u16,
    /// Greatest width of the text under a card.
    pub max_card_text_width: u16,
}

/// What [`Settings`] hold, as mathematical values.
pub struct SettingsView {
    pub theme: Seq<char>,
    pub card_width: u16,
    pub max_card_text_width: u16,
}

impl View for Settings {
    type V = SettingsView;

    open spec fn view(&self) -> SettingsView {
        SettingsView {
            theme: self.theme@,
            card_width: self.card_width,
            max_card_text_width: self.max_card_text_width,
        }
    }
}

/// The settings that hold where nothing else is said.
pub open spec fn default_settings() -> SettingsView {
    SettingsView { theme: default_theme_name(), card_width: 150, max_card_text_width: 12 }
}

/// The keys of the settings document.
#[derive(Clone, Copy, Debug, PartialEq, Eq, Structural)]
pub enum SettingKey {
    /// `theme`
    Theme,
    /// `card_width`
    CardWidth,
    /// `max_card_text_width`
    MaxCardTextWidth,
}

/// The key as the document writes it.
pub open spec fn key_name(key: SettingKey) -> Seq<char> {
    match key {
        SettingKey::Theme => "theme"@,
        SettingKey::CardWidth => "card_width"@,
        SettingKey::MaxCardTextWidth => "max_card_text_width"@,
    }
}

/// Why settings could not be read or written.
#[derive(Debug, PartialEq, Eq)]
pub enum SettingsError {
    /// The file could not be read; the message says why.
    Read(String),
    /// The text is no TOML document; the message says why.
    Syntax(String),
    /// The document names a theme that the list does not have.
    UnknownTheme(String),
    /// The value of a key is of the wrong kind or out of range.
    InvalidField(SettingKey),
    /// The document could not be written; the message says why.
    Render(String),
}

/// What a [`SettingsError`] holds, as mathematical values. The messages of
/// the TOML parser and writer are left out: they are theirs to word.
pub enum SettingsErrorView {
    Read(Seq<char>),
    Syntax,
    UnknownTheme(Seq<char>),
    InvalidField(SettingKey),
    Render,
}

impl View for SettingsError {
    type V = SettingsErrorView;

    open spec fn view(&self) -> SettingsErrorView {
        match self {
            SettingsError::Read(message) => SettingsErrorView::Read(message@),
            SettingsError::Syntax(_) => SettingsErrorView::Syntax,
            SettingsError::UnknownTheme(message) => SettingsErrorView::UnknownTheme(message@),
            SettingsError::InvalidField(key) => SettingsErrorView::InvalidField(*key),
            SettingsError::Render(_) => SettingsErrorView::Render,
        }
    }
}

/// The theme that a document names: the default where the key is absent,
/// the first theme of the list that the string selects without regard to
/// ASCII case, and an error for a string that selects none and for a value
/// that is no string.
pub open spec fn theme_of(field: Option<Option<FieldView>>, themes: Seq<Seq<char>>) -> Result<
    Seq<char>,
    SettingsErrorView,
> {
    match field {
        None => Ok(default_theme_name()),
        Some(Some(FieldView::Text(name))) => match selected_name(themes, name, true) {
            Some(theme) => Ok(theme),
            None => Err(SettingsErrorView::UnknownTheme(unknown_theme_message(name))),
        },
        Some(_) => Err(SettingsErrorView::InvalidField(SettingKey::Theme)),
    }
}

/// The width that a document names under `key`: `default` where the key is
/// absent, the integer where it fits sixteen bits without sign, else an
/// error.
pub open spec fn width_of(field: Option<Option<FieldView>>, key: SettingKey, default: u16) -> Result<
    u16,
    SettingsErrorView,
> {
    match field {
        None => Ok(default),
        Some(Some(FieldView::Integer(number))) => if 0 <= number <= 0xffff {
            Ok(number as u16)
        } else {
            Err(SettingsErrorView::InvalidField(key))
        },
        Some(_) => Err(SettingsErrorView::InvalidField(key)),
    }
}

/// The settings that a document stands for. The keys are read in the order
/// `theme`, `card_width`, `max_card_text_width`, and the first that fails
/// gives the error; other keys are not looked at.
pub open spec fn settings_of(document: ReadView, themes: Seq<Seq<char>>) -> Result<
    SettingsView,
    SettingsErrorView,
> {
    match theme_of(field_of(document, key_name(SettingKey::Theme)), themes) {
        Err(error) => Err(error),
        Ok(theme) => match width_of(
            field_of(document, key_name(SettingKey::CardWidth)),
            SettingKey::CardWidth,
            150,
        ) {
            Err(error) => Err(error),
            Ok(card_width) => match width_of(
                field_of(document, key_name(SettingKey::MaxCardTextWidth)),
                SettingKey::MaxCardTextWidth,
                12,
            ) {
                Err(error) => Err(error),
                Ok(max_card_text_width) => Ok(
                    SettingsView { theme, card_width, max_card_text_width },
                ),
            },
        },
    }
}

/// The document that is written for the given settings.
pub open spec fn document_of(settings: SettingsView) -> WrittenView {
    seq![
        (key_name(SettingKey::Theme), FieldView::Text(settings.theme)),
        (key_name(SettingKey::CardWidth), FieldView::Integer(settings.card_width as i64)),
        (
            key_name(SettingKey::MaxCardTextWidth),
            FieldView::Integer(settings.max_card_text_width as i64),
        ),
    ]
}

/// A written document as it would be read back, were nothing lost.
pub open spec fn as_read(document: WrittenView) -> ReadView {
    Seq::new(document.len(), |i: int| (document[i].0, Some(document[i].1)))
}

/// The settings that a text stands for: a syntax error where it is no TOML
/// document, else what its entries stand for.
pub open spec fn settings_of_text(text: Seq<char>, themes: Seq<Seq<char>>) -> Result<
    SettingsView,
    SettingsErrorView,
> {
    match parsed_document(text) {
        Some(document) => settings_of(document, themes),
        None => Err(SettingsErrorView::Syntax),
    }
}

/// The text that is written for the given settings.
pub open spec fn text_of(settings: SettingsView) -> Result<Seq<char>, SettingsErrorView> {
    match rendered_document(document_of(settings)) {
        Some(text) => Ok(text),
        None => Err(SettingsErrorView::Render),
    }
}

/// What was found where the settings file is looked for.
#[derive(Debug, PartialEq, Eq)]
pub enum ConfigRead {
    /// There is no settings file.
    Missing,
    /// There is a file, and it could not be read; the message says why.
    Unreadable(String),
    /// The text of the file.
    Content(String),
}

/// What a [`ConfigRead`] holds, as mathematical values.
pub enum ConfigReadView {
    Missing,
    Unreadable(Seq<char>),
    Content(Seq<char>),
}

impl View for ConfigRead {
    type V = ConfigReadView;

    open spec fn view(&self) -> ConfigReadView {
        match self {
            ConfigRead::Missing => ConfigReadView::Missing,
            ConfigRead::Unreadable(message) => ConfigReadView::Unreadable(message@),
            ConfigRead::Content(text) => ConfigReadView::Content(text@),
        }
    }
}

/// The settings after the settings file was looked for: the defaults where
/// there is none, an error where it could not be read, else what its text
/// stands for.
pub open spec fn loaded(found: ConfigReadView, themes: Seq<Seq<char>>) -> Result<
    SettingsView,
    SettingsErrorView,
> {
    match found {
        ConfigReadView::Missing => Ok(default_settings()),
        ConfigReadView::Unreadable(message) => Err(SettingsErrorView::Read(message)),
        ConfigReadView::Content(text) => settings_of_text(text, themes),
    }
}

/// Whether a result is the settings or the error that the view names.
pub open spec fn agrees(
    result: Result<Settings, SettingsError>,
    wanted: Result<SettingsView, SettingsErrorView>,
) -> bool {
    match (result, wanted) {
        (Ok(settings), Ok(view)) => settings@ == view,
        (Err(error), Err(view)) => error@ == view,
        _ => false,
    }
}

fn read_width(found: Option<&Option<Field>>, key: SettingKey, default: u16) -> (width: Result<
    u16,
    SettingsError,
>)
    ensures
        match (
            width,
            width_of(
                match found {
                    Some(Some(field)) => Some(Some(field@)),
                    Some(None) => Some(None),
                    None => None,
                },
                key,
                default,
            ),
        ) {
            (Ok(w), Ok(v)) => w == v,
            (Err(e), Err(v)) => e@ == v,
            _ => false,
        },
{
    match found {
        None => Ok(default),
        Some(Some(Field::Integer(number))) => {
            if 0 <= *number && *number <= 0xffff {
                Ok(*number as u16)
            } else {
                Err(SettingsError::InvalidField(key))
            }
        },
        Some(_) => Err(SettingsError::InvalidField(key)),
    }
}

impl Default for Settings {
    fn default() -> (settings: Self)
        ensures
            settings@ == default_settings(),
    {
        Settings {
            theme: ThemeArg::default(),
            card_width: DEFAULT_CARD_WIDTH,
            max_card_text_width: DEFAULT_MAX_CARD_TEXT_WIDTH,
        }
    }
}

impl Clone for Settings {
    fn clone(&self) -> (copy: Self)
        ensures
            copy@ == self@,
    {
        Settings {
            theme: self.theme.clone(),
            card_width: self.card_width,
            max_card_text_width: self.max_card_text_width,
        }
    }
}

impl Settings {
    /// The settings that a document stands for, with the default for each
    /// key that it does not have.
    pub fn from_document(document: &Vec<(String, Option<Field>)>, themes: &ThemeSet) -> (settings:
        Result<Self, SettingsError>)
        ensures
            agrees(settings, settings_of(read_view(document@), themes@)),
    {
        proof {
            reveal_strlit("theme");
            reveal_strlit("card_width");
            reveal_strlit("max_card_text_width");
        }
        let theme = match find_field(document, "theme") {
            None => ThemeArg::default(),
            Some(Some(Field::Text(name))) => match themes.lookup(name.as_str(), true) {
                Ok(theme) => theme,
                Err(message) => {
                    return Err(SettingsError::UnknownTheme(message));
                },
            },
            Some(_) => {
                return Err(SettingsError::InvalidField(SettingKey::Theme));
            },
        };
        let card_width = match read_width(
            find_field(document, "card_width"),
            SettingKey::CardWidth,
            DEFAULT_CARD_WIDTH,
        ) {
            Ok(width) => width,
            Err(error) => {
                return Err(error);
            },
        };
        let max_card_text_width = match read_width(
            find_field(document, "max_card_text_width"),
            SettingKey::MaxCardTextWidth,
            DEFAULT_MAX_CARD_TEXT_WIDTH,
        ) {
            Ok(width) => width,
            Err(error) => {
                return Err(error);
            },
        };
        Ok(Settings { theme, card_width, max_card_text_width })
    }

    /// The settings that a TOML text stands for. A text that is no TOML
    /// document gives a syntax error; a document gives what
    /// [`Settings::from_document`] gives for its entries.
    pub fn from_toml(text: &str, themes: &ThemeSet) -> (settings: Result<Self, SettingsError>)
        ensures
            agrees(settings, settings_of_text(text@, themes@)),
    {
        match parse_document(text) {
            Ok(document) => Self::from_document(&document, themes),
            Err(error) => Err(SettingsError::Syntax(parse_error_message(&error))),
        }
    }

    /// The settings after the settings file was looked for: the defaults
    /// where there is none, what its text stands for where it was read, and
    /// an error where it could not be read or does not stand for settings.
    pub fn load(found: &ConfigRead, themes: &ThemeSet) -> (settings: Result<Self, SettingsError>)
        ensures
            agrees(settings, loaded(found@, themes@)),
    {
        match found {
            ConfigRead::Missing => Ok(Settings::default()),
            ConfigRead::Unreadable(message) => Err(SettingsError::Read(message.clone())),
            ConfigRead::Content(text) => Self::from_toml(text.as_str(), themes),
        }
    }

    /// The document that is written for the settings.
    pub fn to_document(&self) -> (document: Vec<(String, Field)>)
        ensures
            written_view(document@) == document_of(self@),
    {
        let mut document: Vec<(String, Field)> = Vec::new();
        document.push(("theme".to_owned(), Field::Text(self.theme.name().to_owned())));
        document.push(("card_width".to_owned(), Field::Integer(self.card_width as i64)));
        document.push(
            ("max_card_text_width".to_owned(), Field::Integer(self.max_card_text_width as i64)),
        );
        proof {
            assert(written_view(document@) =~= document_of(self@));
        }
        document
    }

    /// The TOML text of the settings, or the error of the writer.
    pub fn to_toml(&self) -> (text: Result<String, SettingsError>)
        ensures
            match (text, text_of(self@)) {
                (Ok(t), Ok(v)) => t@ == v,
                (Err(e), Err(v)) => e@ == v,
                _ => false,
            },
    {
        let document = self.to_document();
        match render_document(&document) {
            Ok(text) => Ok(text),
            Err(error) => Err(SettingsError::Render(render_error_message(&error))),
        }
    }

    /// The settings with the theme replaced, where one is given.
    pub fn with_theme(self, theme: Option<ThemeArg>) -> (settings: Self)
        ensures
            settings@ == (SettingsView {
                theme: match theme {
                    Some(t) => t@,
                    None => self@.theme,
                },
                ..self@
            }),
    {
        match theme {
            Some(theme) => Settings {
                theme,
                card_width: self.card_width,
                max_card_text_width: self.max_card_text_width,
            },
            None => self,
        }
    }
}

/// The three keys of the settings document are three different texts.
pub proof fn lemma_keys_differ()
    ensures
        key_name(SettingKey::Theme) != key_name(SettingKey::CardWidth),
        key_name(SettingKey::Theme) != key_name(SettingKey::MaxCardTextWidth),
        key_name(SettingKey::CardWidth) != key_name(SettingKey::MaxCardTextWidth),
{
    reveal_strlit("theme");
    reveal_strlit("card_width");
    reveal_strlit("max_card_text_width");
    assert(key_name(SettingKey::Theme).len() == 5);
    assert(key_name(SettingKey::CardWidth).len() == 10);
    assert(key_name(SettingKey::MaxCardTextWidth).len() == 19);
}

/// Settings whose theme the list selects under its own name are read back
/// unchanged from the document that is written for them.
pub proof fn lemma_document_round_trip(settings: SettingsView, themes: Seq<Seq<char>>)
    requires
        selected_name(themes, settings.theme, true) == Some(settings.theme),
    ensures
        settings_of(as_read(document_of(settings)), themes) == Ok::<
            SettingsView,
            SettingsErrorView,
        >(settings),
{
    lemma_keys_differ();
    let document = as_read(document_of(settings));
    let second = document.drop_first();
    let third = second.drop_first();
    assert(document[0].0 == key_name(SettingKey::Theme));
    assert(second[0].0 == key_name(SettingKey::CardWidth));
    assert(third[0].0 == key_name(SettingKey::MaxCardTextWidth));
    assert(field_of(third, key_name(SettingKey::MaxCardTextWidth)) == Some(
        Some(FieldView::Integer(settings.max_card_text_width as i64)),
    ));
    assert(field_of(second, key_name(SettingKey::CardWidth)) == Some(
        Some(FieldView::Integer(settings.card_width as i64)),
    ));
    assert(field_of(second, key_name(SettingKey::MaxCardTextWidth)) == field_of(
        third,
        key_name(SettingKey::MaxCardTextWidth),
    ));
    assert(field_of(document, key_name(SettingKey::Theme)) == Some(
        Some(FieldView::Text(settings.theme)),
    ));
    assert(field_of(document, key_name(SettingKey::CardWidth)) == field_of(
        second,
        key_name(SettingKey::CardWidth),
    ));
    assert(field_of(document, key_name(SettingKey::MaxCardTextWidth)) == field_of(
        second,
        key_name(SettingKey::MaxCardTextWidth),
    ));
}

} // verus!
