//! The kinds of window and what each holds.

use crate::pane::DirView;
use crate::pane_grid::{first_pane, grid_new, panes_view, PaneContents, PaneGrid};
use iced::widget::pane_grid::Pane;
use vstd::prelude::*;

verus! {

/// The kind of a window, as it is asked for when a window is opened.
#[derive(Clone, Copy, Debug, PartialEq, Eq, Structural)]
pub enum WindowKind {
    /// A main window.
    Main,
    /// A settings window.
    Settings,
}

/// Window kinds.
#[derive(Debug)]
pub enum Window {
    /// Window is a main window.
    Main {
        /// Panes of window.
        panes: PaneGrid,
    },
    /// Window is a settings window.
    Settings,
}

/// What a [`Window`] holds, as mathematical values.
pub enum WindowView {
    /// A main window, with the contents of each of its panes.
    Main { panes: Map<Pane, PaneContents> },
    /// A settings window.
    Settings,
}

impl View for Window {
    type V = WindowView;

    open spec fn view(&self) -> WindowView {
        match self {
            Window::Main { panes } => WindowView::Main { panes: panes_view(*panes) },
            Window::Settings => WindowView::Settings,
        }
    }
}

/// A window as it is when it has just been opened: a main window has one
/// empty pane, a settings window holds nothing.
pub open spec fn fresh_window(kind: WindowKind) -> WindowView {
    match kind {
        WindowKind::Main => WindowView::Main {
            panes: Map::<Pane, PaneContents>::empty().insert(first_pane(), None),
        },
        WindowKind::Settings => WindowView::Settings,
    }
}

/// The kind of a window.
pub open spec fn kind_of(window: WindowView) -> WindowKind {
    match window {
        WindowView::Main { .. } => WindowKind::Main,
        WindowView::Settings => WindowKind::Settings,
    }
}

/// Title of a window of the given kind; a window that is not known has the
/// title of a main window.
pub open spec fn title_of(kind: Option<WindowKind>) -> Seq<char> {
    match kind {
        Some(WindowKind::Settings) => "Arkiv Katalog: Settings"@,
        _ => "Arkiv Katalog"@,
    }
}

impl Window {
    /// A window of the given kind, as it is when it has just been opened,
    /// and for a main window the identifier of its one pane.
    pub fn open(kind: WindowKind) -> (opened: (Self, Option<Pane>))
        ensures
            opened.0@ == fresh_window(kind),
            opened.1 == (if kind == WindowKind::Main {
                Some(first_pane())
            } else {
                None
            }),
    {
        match kind {
            WindowKind::Main => {
                let (panes, first) = grid_new(DirView::Empty);
                proof {
                    assert(panes_view(panes) =~= Map::<Pane, PaneContents>::empty().insert(
                        first_pane(),
                        None,
                    ));
                }
                (Window::Main { panes }, Some(first))
            },
            WindowKind::Settings => (Window::Settings, None),
        }
    }

    /// The kind of the window.
    pub fn kind(&self) -> (kind: WindowKind)
        ensures
            kind == kind_of(self@),
    {
        match self {
            Window::Main { .. } => WindowKind::Main,
            Window::Settings => WindowKind::Settings,
        }
    }

    /// Whether the window is a main window.
    pub fn is_main(&self) -> (main: bool)
        ensures
            main == (kind_of(self@) == WindowKind::Main),
    {
        match self {
            Window::Main { .. } => true,
            Window::Settings => false,
        }
    }

    /// Whether the window is a settings window.
    pub fn is_settings(&self) -> (settings: bool)
        ensures
            settings == (kind_of(self@) == WindowKind::Settings),
    {
        match self {
            Window::Main { .. } => false,
            Window::Settings => true,
        }
    }

    /// The panes of a main window.
    pub fn panes(&self) -> (panes: Option<&PaneGrid>)
        ensures
            match panes {
                Some(grid) => self@ == (WindowView::Main { panes: panes_view(*grid) }),
                None => self@ == WindowView::Settings,
            },
    {
        match self {
            Window::Main { panes } => Some(panes),
            Window::Settings => None,
        }
    }
}

} // verus!
