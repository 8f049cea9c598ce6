//! State machine of a directory catalogue browser: window registry, pane
//! contents, settings, theme cycling and scroll quantisation.

pub mod address;
pub mod cli;
pub mod document;
pub mod message;
pub mod pane;
pub mod pane_grid;
pub mod path_order;
pub mod registry;
pub mod replay;
pub mod scan;
pub mod scroll;
pub mod settings;
pub mod state;
pub mod text;
pub mod theme_arg;
pub mod window_state;

pub use crate::address::{ItemPath, ViewPath};
pub use crate::cli::Cli;
pub use crate::message::{Effect, Key, KeyEvent, Message, Report, WindowRequest};
pub use crate::pane::{DirView, Item};
pub use crate::settings::{ConfigRead, Settings, SettingsError};
pub use crate::state::AppState;
pub use crate::theme_arg::{ThemeArg, ThemeSet};
pub use crate::window_state::{Window, WindowKind};
