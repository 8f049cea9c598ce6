//! What the command line contributes to the state.

use crate::address::copy_path;
use crate::settings::{
    agrees, loaded, ConfigRead, ConfigReadView, Settings, SettingsError, SettingsErrorView,
    SettingsView,
};
use crate::theme_arg::{ThemeArg, ThemeSet};
use vstd::prelude::*;

verus! {

/// Application to display a comic archive catalogue.
#[derive(Debug, PartialEq, Eq)]
pub struct Cli {
    /// Theme to use for application.
    pub theme: Option<ThemeArg>,
    /// Application name used when querying xdg directories.
    pub app_name: String,
    /// Profile to use, separates cache, config and data based on profile.
    pub profile: String,
    /// Directory to open in the first window.
    pub directory: Option<Vec<u8>>,
}

/// What a [`Cli`] holds, as mathematical values.
pub struct CliView {
    pub theme: Option<Seq<char>>,
    pub app_name: Seq<char>,
    pub profile: Seq<char>,
    pub directory: Option<Seq<u8>>,
}

impl View for Cli {
    type V = CliView;

    open spec fn view(&self) -> CliView {
        CliView {
            theme: match self.theme {
                Some(theme) => Some(theme@),
                None => None,
            },
            app_name: self.app_name@,
            profile: self.profile@,
            directory: match self.directory {
                Some(directory) => Some(directory@),
                None => None,
            },
        }
    }
}

/// The settings that the application starts with: those that were loaded,
/// with the theme of the command line in place of theirs where it names one.
pub open spec fn startup_settings(
    theme: Option<Seq<char>>,
    found: ConfigReadView,
    themes: Seq<Seq<char>>,
) -> Result<SettingsView, SettingsErrorView> {
    match loaded(found, themes) {
        Ok(settings) => Ok(
            SettingsView {
                theme: match theme {
                    Some(t) => t,
                    None => settings.theme,
                },
                ..settings
            },
        ),
        Err(error) => Err(error),
    }
}

impl Default for Cli {
    fn default() -> (cli: Self)
        ensures
            cli@ == (CliView {
                theme: None,
                app_name: "arkiv-katalog"@,
                profile: "default"@,
                directory: None,
            }),
    {
        Cli {
            theme: None,
            app_name: "arkiv-katalog".to_owned(),
            profile: "default".to_owned(),
            directory: None,
        }
    }
}

impl Clone for Cli {
    fn clone(&self) -> (copy: Self)
        ensures
            copy@ == self@,
    {
        Cli {
            theme: match &self.theme {
                Some(theme) => Some(theme.clone()),
                None => None,
            },
            app_name: self.app_name.clone(),
            profile: self.profile.clone(),
            directory: match &self.directory {
                Some(directory) => Some(copy_path(directory)),
                None => None,
            },
        }
    }
}

impl Cli {
    /// The settings to start with, from what was found where the settings
    /// file is looked for. An error ends the start.
    pub fn settings(&self, found: &ConfigRead, themes: &ThemeSet) -> (settings: Result<
        Settings,
        SettingsError,
    >)
        ensures
            agrees(settings, startup_settings(self@.theme, found@, themes@)),
    {
        match Settings::load(found, themes) {
            Ok(settings) => {
                let theme = match &self.theme {
                    Some(theme) => Some(theme.clone()),
                    None => None,
                };
                Ok(settings.with_theme(theme))
            },
            Err(error) => Err(error),
        }
    }
}

} // verus!
