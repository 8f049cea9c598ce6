//! What the state machine is told, and what it asks for in return.

use crate::address::{ItemPath, ItemPathView, ViewPath};
use crate::pane::{Item, ItemView};
use crate::settings::{ConfigRead, ConfigReadView, SettingsError, SettingsErrorView};
use crate::theme_arg::ThemeArg;
use crate::window_state::WindowKind;
use iced::window::Id;
use vstd::prelude::*;

verus! {

/// A window as it is asked for and as it is reported open.
#[derive(Debug, PartialEq, Eq)]
pub enum WindowRequest {
    /// A main window, and the directory that its first pane is to show.
    Main {
        /// The directory to scan, if any.
        directory: Option<Vec<u8>>,
    },
    /// A settings window.
    Settings,
}

/// What a [`WindowRequest`] holds, as mathematical values.
pub enum WindowRequestView {
    Main { directory: Option<Seq<u8>> },
    Settings,
}

impl View for WindowRequest {
    type V = WindowRequestView;

    open spec fn view(&self) -> WindowRequestView {
        match self {
            WindowRequest::Main { directory } => WindowRequestView::Main {
                directory: match directory {
                    Some(d) => Some(d@),
                    None => None,
                },
            },
            WindowRequest::Settings => WindowRequestView::Settings,
        }
    }
}

/// The kind of window that a request asks for.
pub open spec fn requested_kind(request: WindowRequestView) -> WindowKind {
    match request {
        WindowRequestView::Main { .. } => WindowKind::Main,
        WindowRequestView::Settings => WindowKind::Settings,
    }
}

impl WindowRequest {
    /// The kind of window that the request asks for.
    pub fn kind(&self) -> (kind: WindowKind)
        ensures
            kind == requested_kind(self@),
    {
        match self {
            WindowRequest::Main { .. } => WindowKind::Main,
            WindowRequest::Settings => WindowKind::Settings,
        }
    }
}

/// The keys that the state machine tells apart.
#[derive(Clone, Copy, Debug, PartialEq, Eq, Structural)]
pub enum Key {
    /// The function key F2.
    F2,
    /// Any other key.
    Other,
}

/// A keyboard event.
#[derive(Clone, Copy, Debug, PartialEq, Eq, Structural)]
pub enum KeyEvent {
    /// A key was released.
    Released {
        /// The key.
        key: Key,
        /// The modifier keys held meanwhile, one bit each; zero for none.
        modifiers: u32,
    },
    /// Any other keyboard event.
    Other,
}

/// Whether the event is the release of F2 with no modifier held.
pub open spec fn is_settings_toggle(event: KeyEvent) -> bool {
    event == (KeyEvent::Released { key: Key::F2, modifiers: 0 })
}

/// Application message.
#[derive(Debug, PartialEq, Eq)]
pub enum Message {
    /// A window was opened under the given identifier.
    WindowOpened(Id, WindowRequest),
    /// The window of the given identifier was closed.
    WindowClosed(Id),
    /// Keyboard event.
    KeyEvent(KeyEvent),
    /// Set application theme.
    SetTheme(ThemeArg),
    /// Save settings.
    SaveSettings,
    /// Reload settings, from what was found where the settings file is
    /// looked for.
    ReloadSettings(ConfigRead),
    /// A scan found an item.
    ItemDiscovered(ItemPath, Item),
    /// The theme picker was scrolled by the given number of units.
    ThemeScroll(i32),
}

/// What a [`Message`] holds, as mathematical values.
pub enum MessageView {
    WindowOpened(Id, WindowRequestView),
    WindowClosed(Id),
    KeyEvent(KeyEvent),
    SetTheme(Seq<char>),
    SaveSettings,
    ReloadSettings(ConfigReadView),
    ItemDiscovered(ItemPathView, ItemView),
    ThemeScroll(i32),
}

impl View for Message {
    type V = MessageView;

    open spec fn view(&self) -> MessageView {
        match self {
            Message::WindowOpened(id, request) => MessageView::WindowOpened(*id, request@),
            Message::WindowClosed(id) => MessageView::WindowClosed(*id),
            Message::KeyEvent(event) => MessageView::KeyEvent(*event),
            Message::SetTheme(theme) => MessageView::SetTheme(theme@),
            Message::SaveSettings => MessageView::SaveSettings,
            Message::ReloadSettings(found) => MessageView::ReloadSettings(found@),
            Message::ItemDiscovered(item_path, item) => MessageView::ItemDiscovered(
                item_path@,
                item@,
            ),
            Message::ThemeScroll(delta) => MessageView::ThemeScroll(*delta),
        }
    }
}

/// Something that went wrong while a message was handled, and is reported
/// without ending anything.
#[derive(Debug, PartialEq, Eq)]
pub enum Report {
    /// An item arrived for a view that is not there any more.
    StaleItem(ItemPath),
    /// A theme was named that the list does not have.
    UnknownTheme(ThemeArg),
    /// Settings could not be read or written.
    Settings(SettingsError),
}

/// What a [`Report`] holds, as mathematical values.
pub enum ReportView {
    StaleItem(ItemPathView),
    UnknownTheme(Seq<char>),
    Settings(SettingsErrorView),
}

impl View for Report {
    type V = ReportView;

    open spec fn view(&self) -> ReportView {
        match self {
            Report::StaleItem(item_path) => ReportView::StaleItem(item_path@),
            Report::UnknownTheme(theme) => ReportView::UnknownTheme(theme@),
            Report::Settings(error) => ReportView::Settings(error@),
        }
    }
}

/// What the state machine asks its surroundings to do.
#[derive(Debug, PartialEq, Eq)]
pub enum Effect {
    /// End the application.
    Exit,
    /// Open a window.
    OpenWindow(WindowRequest),
    /// Close the window of the given identifier.
    CloseWindow(Id),
    /// Scan a directory for the given view.
    StartScan {
        /// The view that the items belong to.
        view_path: ViewPath,
        /// The directory to scan.
        directory: Vec<u8>,
    },
    /// Write the text to the settings file.
    WriteConfig(String),
    /// Report something that went wrong.
    Report(Report),
}

/// What an [`Effect`] holds, as mathematical values.
pub enum EffectView {
    Exit,
    OpenWindow(WindowRequestView),
    CloseWindow(Id),
    StartScan { view_path: ViewPath, directory: Seq<u8> },
    WriteConfig(Seq<char>),
    Report(ReportView),
}

impl View for Effect {
    type V = EffectView;

    open spec fn view(&self) -> EffectView {
        match self {
            Effect::Exit => EffectView::Exit,
            Effect::OpenWindow(request) => EffectView::OpenWindow(request@),
            Effect::CloseWindow(id) => EffectView::CloseWindow(*id),
            Effect::StartScan { view_path, directory } => EffectView::StartScan {
                view_path: *view_path,
                directory: directory@,
            },
            Effect::WriteConfig(text) => EffectView::WriteConfig(text@),
            Effect::Report(report) => EffectView::Report(report@),
        }
    }
}

/// The views of a list of effects, in the same order.
pub open spec fn effects_view(effects: Seq<Effect>) -> Seq<EffectView> {
    Seq::new(effects.len(), |i: int| effects[i]@)
}

} // verus!
