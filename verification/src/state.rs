//! The application state and the handling of one message at a time.

use crate::address::{copy_path, ItemPath, ItemPathView, ViewPath};
use crate::cli::{Cli, CliView};
use crate::message::{
    effects_view, is_settings_toggle, requested_kind, Effect, EffectView, Key, KeyEvent, Message,
    MessageView, Report, ReportView, WindowRequest, WindowRequestView,
};
use crate::pane::{shown_items, DirView, Item, ItemView};
use crate::pane_grid::{first_pane, grid_get, insert_item, PaneContents};
use crate::registry::{
    registry_get, registry_get_mut, registry_ids, registry_insert, registry_len, registry_new, registry_remove,
    registry_windows, WindowRegistry,
};
use crate::scroll::{direction_of, ScrollAccumulator, ScrollStep};
use crate::settings::{loaded, text_of, ConfigRead, Settings, SettingsView};
use crate::theme_arg::{cyclic_next, cyclic_prev, ThemeArg, ThemeSet};
use crate::window_state::{fresh_window, kind_of, title_of, Window, WindowView};
use iced::window::Id;
use vstd::prelude::*;

verus! {

/// Scroll units that make one step through the themes.
pub const THEME_SCROLL_STEP: u32 = 50;

/// Application state.
#[derive(Debug)]
pub struct AppState {
    windows: WindowRegistry,
    cli: Cli,
    settings: Settings,
    theme_scroll: ScrollAccumulator,
    themes: ThemeSet,
}

/// What an [`AppState`] holds, as mathematical values.
pub struct StateView {
    /// The open windows by identifier.
    pub windows: Map<Id, WindowView>,
    /// What the command line gave.
    pub cli: CliView,
    /// The settings in use.
    pub settings: SettingsView,
    /// Scroll units of the theme picker that no step has consumed yet.
    pub theme_scroll: nat,
    /// The themes to choose from.
    pub themes: Seq<Seq<char>>,
}

impl View for AppState {
    type V = StateView;

    closed spec fn view(&self) -> StateView {
        StateView {
            windows: self.windows@,
            cli: self.cli@,
            settings: self.settings@,
            theme_scroll: self.theme_scroll.residual_units(),
            themes: self.themes@,
        }
    }
}

/// No window is open.
pub open spec fn vacant(windows: Map<Id, WindowView>) -> bool {
    forall|id: Id| !windows.contains_key(id)
}

/// The window and the pane that the path names are both there.
pub open spec fn addressed(windows: Map<Id, WindowView>, at: ViewPath) -> bool {
    windows.contains_key(at.window_id) && match windows[at.window_id] {
        WindowView::Main { panes } => panes.contains_key(at.pane_id),
        WindowView::Settings => false,
    }
}

/// What the view at `at` shows.
pub open spec fn contents_at(windows: Map<Id, WindowView>, at: ViewPath) -> PaneContents
    recommends
        addressed(windows, at),
{
    match windows[at.window_id] {
        WindowView::Main { panes } => panes[at.pane_id],
        WindowView::Settings => None,
    }
}

/// The windows after an item was discovered: the view that the item is
/// addressed to shows it under its path, in place of what stood there;
/// nothing changes where that view is not there.
pub open spec fn with_item(windows: Map<Id, WindowView>, at: ItemPathView, item: ItemView) -> Map<Id, WindowView> {
    if addressed(windows, at.view_path) {
        match windows[at.view_path.window_id] {
            WindowView::Main { panes } => windows.insert(
                at.view_path.window_id,
                WindowView::Main {
                    panes: panes.insert(
                        at.view_path.pane_id,
                        Some(shown_items(panes[at.view_path.pane_id]).insert(at.path, item)),
                    ),
                },
            ),
            WindowView::Settings => windows,
        }
    } else {
        windows
    }
}

/// The windows after a message.
pub open spec fn windows_after(windows: Map<Id, WindowView>, message: MessageView) -> Map<Id, WindowView> {
    match message {
        MessageView::WindowOpened(id, request) => windows.insert(
            id,
            fresh_window(requested_kind(request)),
        ),
        MessageView::WindowClosed(id) => windows.remove(id),
        MessageView::ItemDiscovered(at, item) => with_item(windows, at, item),
        _ => windows,
    }
}

/// The theme after a step of the theme picker in the given direction; a
/// theme that the list does not have stays.
pub open spec fn theme_stepped(themes: Seq<Seq<char>>, theme: Seq<char>, step: ScrollStep) -> Seq<
    char,
> {
    if themes.contains(theme) {
        match step {
            ScrollStep::Forward => cyclic_next(themes, theme),
            ScrollStep::Backward => cyclic_prev(themes, theme),
            ScrollStep::Stationary => theme,
        }
    } else {
        theme
    }
}

/// The direction that a scroll by `delta` units gives, from a residual.
pub open spec fn scroll_direction(residual: nat, delta: i32) -> ScrollStep {
    direction_of((residual + delta) / (THEME_SCROLL_STEP as int))
}

/// The settings after a message.
pub open spec fn settings_after(state: StateView, message: MessageView) -> SettingsView {
    match message {
        MessageView::SetTheme(theme) => if state.themes.contains(theme) {
            SettingsView { theme, ..state.settings }
        } else {
            state.settings
        },
        MessageView::ReloadSettings(found) => match loaded(found, state.themes) {
            Ok(settings) => settings,
            Err(_) => state.settings,
        },
        MessageView::ThemeScroll(delta) => SettingsView {
            theme: theme_stepped(
                state.themes,
                state.settings.theme,
                scroll_direction(state.theme_scroll, delta),
            ),
            ..state.settings
        },
        _ => state.settings,
    }
}

/// The residual of the theme picker after a message.
pub open spec fn scroll_after(residual: nat, message: MessageView) -> nat {
    match message {
        MessageView::ThemeScroll(delta) => ((residual + delta) % (THEME_SCROLL_STEP as int)) as nat,
        _ => residual,
    }
}

/// The state after a message.
pub open spec fn state_after(state: StateView, message: MessageView) -> StateView {
    StateView {
        windows: windows_after(state.windows, message),
        cli: state.cli,
        settings: settings_after(state, message),
        theme_scroll: scroll_after(state.theme_scroll, message),
        themes: state.themes,
    }
}

/// The window of the given identifier is an open settings window.
pub open spec fn is_settings_window(windows: Map<Id, WindowView>, id: Id) -> bool {
    windows.contains_key(id) && windows[id] is Settings
}

/// The effects ask for each open settings window to be closed, once, and
/// for nothing else.
pub open spec fn closes_settings(windows: Map<Id, WindowView>, effects: Seq<EffectView>) -> bool {
    &&& effects.no_duplicates()
    &&& forall|i: int|
        0 <= i < effects.len() ==> (#[trigger] effects[i]) is CloseWindow && is_settings_window(
            windows,
            effects[i]->CloseWindow_0,
        )
    &&& forall|id: Id|
        #[trigger] is_settings_window(windows, id) ==> effects.contains(EffectView::CloseWindow(id))
}

/// The effects of the settings key: every open settings window is closed,
/// in no stated order; where none is open, one is opened.
pub open spec fn toggles_settings(windows: Map<Id, WindowView>, effects: Seq<EffectView>) -> bool {
    if exists|id: Id| is_settings_window(windows, id) {
        closes_settings(windows, effects)
    } else {
        effects == seq![EffectView::OpenWindow(WindowRequestView::Settings)]
    }
}

/// Whether closing the window `id` ends the application: the last open
/// window goes.
pub open spec fn ends_application(windows: Map<Id, WindowView>, id: Id) -> bool {
    !vacant(windows) && vacant(windows.remove(id))
}

/// The effects of every message but the settings key.
pub open spec fn effects_after(state: StateView, message: MessageView) -> Seq<EffectView> {
    match message {
        MessageView::WindowOpened(id, WindowRequestView::Main { directory: Some(directory) }) => seq![
            EffectView::StartScan {
                view_path: ViewPath { window_id: id, pane_id: first_pane() },
                directory,
            },
        ],
        MessageView::WindowClosed(id) => if ends_application(state.windows, id) {
            seq![EffectView::Exit]
        } else {
            Seq::empty()
        },
        MessageView::SetTheme(theme) => if state.themes.contains(theme) {
            Seq::empty()
        } else {
            seq![EffectView::Report(ReportView::UnknownTheme(theme))]
        },
        MessageView::SaveSettings => match text_of(state.settings) {
            Ok(text) => seq![EffectView::WriteConfig(text)],
            Err(error) => seq![EffectView::Report(ReportView::Settings(error))],
        },
        MessageView::ReloadSettings(found) => match loaded(found, state.themes) {
            Ok(_) => Seq::empty(),
            Err(error) => seq![EffectView::Report(ReportView::Settings(error))],
        },
        MessageView::ItemDiscovered(at, _) => if addressed(state.windows, at.view_path) {
            Seq::empty()
        } else {
            seq![EffectView::Report(ReportView::StaleItem(at))]
        },
        MessageView::ThemeScroll(delta) => if scroll_direction(state.theme_scroll, delta)
            != ScrollStep::Stationary && !state.themes.contains(state.settings.theme) {
            seq![EffectView::Report(ReportView::UnknownTheme(state.settings.theme))]
        } else {
            Seq::empty()
        },
        _ => Seq::empty(),
    }
}

/// Whether `effects` are what the state asks for in answer to a message.
pub open spec fn responds(state: StateView, message: MessageView, effects: Seq<EffectView>) -> bool {
    match message {
        MessageView::KeyEvent(event) if is_settings_toggle(event) => toggles_settings(
            state.windows,
            effects,
        ),
        _ => effects == effects_after(state, message),
    }
}

/// The state at the start, and what it asks for: one main window, for the
/// directory of the command line.
pub open spec fn initial_state(cli: CliView, settings: SettingsView, themes: Seq<Seq<char>>) -> StateView {
    StateView { windows: Map::empty(), cli, settings, theme_scroll: 0, themes }
}

impl AppState {
    /// Initialize state.
    pub fn init(cli: Cli, settings: Settings, themes: ThemeSet) -> (made: (Self, Vec<Effect>))
        ensures
            made.0@ == initial_state(cli@, settings@, themes@),
            effects_view(made.1@) == seq![
                EffectView::OpenWindow(WindowRequestView::Main { directory: cli@.directory }),
            ],
    {
        let directory = match &cli.directory {
            Some(directory) => Some(copy_path(directory)),
            None => None,
        };
        let state = AppState {
            windows: registry_new(),
            cli,
            settings,
            theme_scroll: ScrollAccumulator::new(),
            themes,
        };
        let mut effects: Vec<Effect> = Vec::new();
        effects.push(Effect::OpenWindow(WindowRequest::Main { directory }));
        proof {
            assert(state@.windows =~= Map::<Id, WindowView>::empty());
            assert(effects_view(effects@) =~= seq![
                EffectView::OpenWindow(WindowRequestView::Main { directory: cli@.directory }),
            ]);
        }
        (state, effects)
    }

    /// The settings in use.
    pub fn settings(&self) -> (settings: &Settings)
        ensures
            settings@ == self@.settings,
    {
        &self.settings
    }

    /// What the command line gave.
    pub fn cli(&self) -> (cli: &Cli)
        ensures
            cli@ == self@.cli,
    {
        &self.cli
    }

    /// The themes to choose from.
    pub fn themes(&self) -> (themes: &ThemeSet)
        ensures
            themes@ == self@.themes,
    {
        &self.themes
    }

    /// Scroll units of the theme picker that no step has consumed yet.
    pub fn theme_scroll(&self) -> (residual: u32)
        ensures
            residual == self@.theme_scroll,
    {
        self.theme_scroll.residual()
    }

    /// Get main application theme.
    pub fn main_theme(&self) -> (theme: ThemeArg)
        ensures
            theme@ == self@.settings.theme,
    {
        self.settings.theme.clone()
    }

    /// Get application theme.
    pub fn theme(&self, _id: Id) -> (theme: ThemeArg)
        ensures
            theme@ == self@.settings.theme,
    {
        self.main_theme()
    }

    /// Number of open windows.
    pub fn window_count(&self) -> (count: usize)
        ensures
            self@.windows.dom().finite(),
            count == self@.windows.len(),
    {
        let count = registry_len(&self.windows);
        proof {
            assert(self@.windows.dom() =~= registry_windows(self.windows).dom());
        }
        count
    }

    /// The window of the given identifier, if it is open.
    pub fn window(&self, id: Id) -> (found: Option<&Window>)
        ensures
            match found {
                Some(window) => self@.windows.contains_key(id) && self@.windows[id] == window@,
                None => !self@.windows.contains_key(id),
            },
    {
        registry_get(&self.windows, id)
    }

    /// The directory view that the path names, if window and pane are there.
    pub fn pane(&self, at: ViewPath) -> (found: Option<&DirView>)
        ensures
            match found {
                Some(view) => addressed(self@.windows, at) && contents_at(self@.windows, at)
                    == view@,
                None => !addressed(self@.windows, at),
            },
    {
        match registry_get(&self.windows, at.window_id) {
            Some(Window::Main { panes }) => grid_get(panes, at.pane_id),
            _ => None,
        }
    }

    /// Get Application title.
    pub fn title(&self, id: Id) -> (title: String)
        ensures
            title@ == title_of(
                if self@.windows.contains_key(id) {
                    Some(kind_of(self@.windows[id]))
                } else {
                    None
                },
            ),
    {
        match registry_get(&self.windows, id) {
            Some(Window::Settings) => "Arkiv Katalog: Settings".to_owned(),
            _ => "Arkiv Katalog".to_owned(),
        }
    }

    /// Update application state: handles one message and hands back what the
    /// surroundings are asked to do.
    pub fn update(&mut self, message: Message) -> (effects: Vec<Effect>)
        ensures
            final(self)@ == state_after(old(self)@, message@),
            responds(old(self)@, message@, effects_view(effects@)),
    {
        match message {
            Message::WindowOpened(id, request) => self.window_opened(id, request),
            Message::WindowClosed(id) => self.window_closed(id),
            Message::KeyEvent(event) => self.key_event(event),
            Message::SetTheme(theme) => self.set_theme(theme),
            Message::SaveSettings => self.save_settings(),
            Message::ReloadSettings(found) => self.reload_settings(found),
            Message::ItemDiscovered(item_path, item) => self.item_discovered(item_path, item),
            Message::ThemeScroll(delta) => self.theme_scrolled(delta),
        }
    }

    fn window_opened(&mut self, id: Id, request: WindowRequest) -> (effects: Vec<Effect>)
        ensures
            final(self)@ == state_after(old(self)@, MessageView::WindowOpened(id, request@)),
            effects_view(effects@) == effects_after(
                old(self)@,
                MessageView::WindowOpened(id, request@),
            ),
    {
        let (window, first) = Window::open(request.kind());
        registry_insert(&mut self.windows, id, window);
        proof {
            assert(self@.windows =~= old(self)@.windows.insert(
                id,
                fresh_window(requested_kind(request@)),
            ));
        }
        let mut effects: Vec<Effect> = Vec::new();
        match (request, first) {
            (WindowRequest::Main { directory: Some(directory) }, Some(pane)) => {
                effects.push(
                    Effect::StartScan {
                        view_path: ViewPath { window_id: id, pane_id: pane },
                        directory,
                    },
                );
            },
            _ => {},
        }
        proof {
            assert(effects_view(effects@) =~= effects_after(
                old(self)@,
                MessageView::WindowOpened(id, request@),
            ));
        }
        effects
    }

    fn window_closed(&mut self, id: Id) -> (effects: Vec<Effect>)
        ensures
            final(self)@ == state_after(old(self)@, MessageView::WindowClosed(id)),
            effects_view(effects@) == effects_after(old(self)@, MessageView::WindowClosed(id)),
    {
        let before = self.window_count();
        registry_remove(&mut self.windows, id);
        proof {
            assert(self@.windows =~= old(self)@.windows.remove(id));
        }
        let after = self.window_count();
        let mut effects: Vec<Effect> = Vec::new();
        proof {
            lemma_vacant_is_zero(old(self)@.windows);
            lemma_vacant_is_zero(self@.windows);
        }
        if before > 0 && after == 0 {
            effects.push(Effect::Exit);
        }
        proof {
            assert(effects_view(effects@) =~= effects_after(
                old(self)@,
                MessageView::WindowClosed(id),
            ));
        }
        effects
    }

    fn key_event(&mut self, event: KeyEvent) -> (effects: Vec<Effect>)
        ensures
            final(self)@ == old(self)@,
            responds(old(self)@, MessageView::KeyEvent(event), effects_view(effects@)),
    {
        let mut effects: Vec<Effect> = Vec::new();
        match event {
            KeyEvent::Released { key: Key::F2, modifiers: 0 } => {
                let ids = registry_ids(&self.windows);
                let ghost windows = self@.windows;
                let mut i: usize = 0;
                proof {
                    assert(effects_view(effects@) =~= Seq::<EffectView>::empty());
                }
                while i < ids.len()
                    invariant
                        i <= ids@.len(),
                        windows == self@.windows,
                        ids@.no_duplicates(),
                        forall|id: Id| ids@.contains(id) <==> windows.contains_key(id),
                        effects_view(effects@).no_duplicates(),
                        forall|j: int|
                            0 <= j < effects@.len() ==> {
                                let e = #[trigger] effects_view(effects@)[j];
                                &&& e is CloseWindow
                                &&& is_settings_window(windows, e->CloseWindow_0)
                                &&& exists|k: int| 0 <= k < i && ids@[k] == e->CloseWindow_0
                            },
                        forall|k: int|
                            0 <= k < i && is_settings_window(windows, #[trigger] ids@[k])
                                ==> effects_view(effects@).contains(EffectView::CloseWindow(ids@[k])),
                    decreases ids@.len() - i,
                {
                    let id = ids[i];
                    let ghost so_far = effects_view(effects@);
                    let found = registry_get(&self.windows, id);
                    let settings = match found {
                        Some(window) => window.is_settings(),
                        None => false,
                    };
                    proof {
                        assert(ids@.contains(id));
                    }
                    if settings {
                        effects.push(Effect::CloseWindow(id));
                        proof {
                            let now = effects_view(effects@);
                            assert(now =~= so_far.push(EffectView::CloseWindow(id)));
                            assert forall|k: int|
                                0 <= k < i + 1 && is_settings_window(
                                    windows,
                                    #[trigger] ids@[k],
                                ) implies now.contains(EffectView::CloseWindow(ids@[k])) by {
                                if k < i {
                                    let at = so_far.index_of(EffectView::CloseWindow(ids@[k]));
                                    assert(now[at] == EffectView::CloseWindow(ids@[k]));
                                } else {
                                    assert(now[so_far.len() as int] == EffectView::CloseWindow(id));
                                }
                            }
                        }
                    }
                    i += 1;
                }
                if effects.len() == 0 {
                    effects.push(Effect::OpenWindow(WindowRequest::Settings));
                    proof {
                        assert(effects_view(effects@) =~= seq![
                            EffectView::OpenWindow(WindowRequestView::Settings),
                        ]);
                        assert forall|id: Id| !is_settings_window(windows, id) by {
                            if is_settings_window(windows, id) {
                                let k = ids@.index_of(id);
                                assert(ids@[k] == id);
                            }
                        }
                    }
                } else {
                    proof {
                        let now = effects_view(effects@);
                        assert(is_settings_window(windows, now[0]->CloseWindow_0));
                        assert forall|id: Id| #[trigger]
                            is_settings_window(windows, id) implies now.contains(
                            EffectView::CloseWindow(id),
                        ) by {
                            let k = ids@.index_of(id);
                            assert(ids@[k] == id);
                        }
                    }
                }
            },
            _ => {
                proof {
                    assert(effects_view(effects@) =~= Seq::<EffectView>::empty());
                }
            },
        }
        effects
    }

    fn set_theme(&mut self, theme: ThemeArg) -> (effects: Vec<Effect>)
        ensures
            final(self)@ == state_after(old(self)@, MessageView::SetTheme(theme@)),
            effects_view(effects@) == effects_after(old(self)@, MessageView::SetTheme(theme@)),
    {
        let mut effects: Vec<Effect> = Vec::new();
        if self.themes.contains(&theme) {
            self.settings.theme = theme;
        } else {
            effects.push(Effect::Report(Report::UnknownTheme(theme)));
        }
        proof {
            assert(effects_view(effects@) =~= effects_after(
                old(self)@,
                MessageView::SetTheme(theme@),
            ));
        }
        effects
    }

    fn save_settings(&mut self) -> (effects: Vec<Effect>)
        ensures
            final(self)@ == old(self)@,
            effects_view(effects@) == effects_after(old(self)@, MessageView::SaveSettings),
    {
        let mut effects: Vec<Effect> = Vec::new();
        match self.settings.to_toml() {
            Ok(text) => {
                effects.push(Effect::WriteConfig(text));
            },
            Err(error) => {
                effects.push(Effect::Report(Report::Settings(error)));
            },
        }
        proof {
            assert(effects_view(effects@) =~= effects_after(old(self)@, MessageView::SaveSettings));
        }
        effects
    }

    fn reload_settings(&mut self, found: ConfigRead) -> (effects: Vec<Effect>)
        ensures
            final(self)@ == state_after(old(self)@, MessageView::ReloadSettings(found@)),
            effects_view(effects@) == effects_after(
                old(self)@,
                MessageView::ReloadSettings(found@),
            ),
    {
        let mut effects: Vec<Effect> = Vec::new();
        match Settings::load(&found, &self.themes) {
            Ok(settings) => {
                self.settings = settings;
            },
            Err(error) => {
                effects.push(Effect::Report(Report::Settings(error)));
            },
        }
        proof {
            assert(effects_view(effects@) =~= effects_after(
                old(self)@,
                MessageView::ReloadSettings(found@),
            ));
        }
        effects
    }

    fn item_discovered(&mut self, item_path: ItemPath, item: Item) -> (effects: Vec<Effect>)
        ensures
            final(self)@ == state_after(old(self)@, MessageView::ItemDiscovered(item_path@, item@)),
            effects_view(effects@) == effects_after(
                old(self)@,
                MessageView::ItemDiscovered(item_path@, item@),
            ),
    {
        let mut effects: Vec<Effect> = Vec::new();
        let ItemPath { view_path, path } = item_path;
        let ghost message = MessageView::ItemDiscovered(item_path@, item@);
        let ghost before = registry_windows(self.windows);
        let found = match registry_get_mut(&mut self.windows, view_path.window_id) {
            Some(window) => match window {
                Window::Main { panes } => {
                    if grid_get(panes, view_path.pane_id).is_some() {
                        insert_item(panes, view_path.pane_id, path, item);
                        None
                    } else {
                        Some(path)
                    }
                },
                Window::Settings => Some(path),
            },
            None => Some(path),
        };
        match found {
            None => {
                proof {
                    assert(self@.windows =~= with_item(old(self)@.windows, item_path@, item@));
                }
            },
            Some(path) => {
                proof {
                    assert(registry_windows(self.windows) =~= before);
                }
                effects.push(Effect::Report(Report::StaleItem(ItemPath { view_path, path })));
            },
        }
        proof {
            assert(effects_view(effects@) =~= effects_after(old(self)@, message));
        }
        effects
    }

    fn theme_scrolled(&mut self, delta: i32) -> (effects: Vec<Effect>)
        ensures
            final(self)@ == state_after(old(self)@, MessageView::ThemeScroll(delta)),
            effects_view(effects@) == effects_after(old(self)@, MessageView::ThemeScroll(delta)),
    {
        let mut effects: Vec<Effect> = Vec::new();
        let step = self.theme_scroll.step(delta, THEME_SCROLL_STEP);
        match step {
            ScrollStep::Stationary => {},
            _ => {
                if self.themes.contains(&self.settings.theme) {
                    let theme = match step {
                        ScrollStep::Forward => self.settings.theme.next_cyclic(&self.themes),
                        _ => self.settings.theme.prev_cyclic(&self.themes),
                    };
                    self.settings.theme = theme;
                } else {
                    effects.push(Effect::Report(Report::UnknownTheme(self.settings.theme.clone())));
                }
            },
        }
        proof {
            assert(effects_view(effects@) =~= effects_after(
                old(self)@,
                MessageView::ThemeScroll(delta),
            ));
        }
        effects
    }
}

/// An item for a view that is not there changes nothing, and is reported.
pub proof fn lemma_stale_item_changes_nothing(state: StateView, at: ItemPathView, item: ItemView)
    requires
        !addressed(state.windows, at.view_path),
    ensures
        state_after(state, MessageView::ItemDiscovered(at, item)) == state,
        effects_after(state, MessageView::ItemDiscovered(at, item)) == seq![
            EffectView::Report(ReportView::StaleItem(at)),
        ],
{
}

/// An item changes the view that it is addressed to and no other: every
/// other window stays, and so does every other pane of its window.
pub proof fn lemma_item_touches_one_view(
    windows: Map<Id, WindowView>,
    at: ItemPathView,
    item: ItemView,
    other: ViewPath,
)
    requires
        other != at.view_path,
    ensures
        addressed(with_item(windows, at, item), other) == addressed(windows, other),
        addressed(windows, other) ==> contents_at(with_item(windows, at, item), other)
            == contents_at(windows, other),
{
}

/// An item that is discovered again under the same path of the same view
/// replaces the earlier one: the view shows the path once, with the later
/// item, and as many items as after the first discovery.
pub proof fn lemma_rediscovery_overwrites(
    windows: Map<Id, WindowView>,
    at: ItemPathView,
    first: ItemView,
    second: ItemView,
)
    requires
        addressed(windows, at.view_path),
    ensures
        with_item(with_item(windows, at, first), at, second) == with_item(windows, at, second),
        addressed(with_item(windows, at, second), at.view_path),
        shown_items(contents_at(with_item(windows, at, second), at.view_path))[at.path] == second,
        shown_items(
            contents_at(with_item(with_item(windows, at, first), at, second), at.view_path),
        ).dom() == shown_items(contents_at(with_item(windows, at, first), at.view_path)).dom(),
{
    let once = with_item(windows, at, first);
    let twice = with_item(once, at, second);
    let shown = shown_items(contents_at(windows, at.view_path));
    crate::pane::lemma_reinsert_overwrites(shown, at.path, first, second);
    match windows[at.view_path.window_id] {
        WindowView::Main { panes } => {
            let once_panes = panes.insert(at.view_path.pane_id, Some(shown.insert(at.path, first)));
            assert(once[at.view_path.window_id] == (WindowView::Main { panes: once_panes }));
            assert(once_panes.insert(
                at.view_path.pane_id,
                Some(shown.insert(at.path, first).insert(at.path, second)),
            ) =~= panes.insert(at.view_path.pane_id, Some(shown.insert(at.path, second))));
            assert(twice =~= with_item(windows, at, second));
        },
        WindowView::Settings => {},
    }
}

/// A finite registry is vacant exactly when it counts no window.
pub proof fn lemma_vacant_is_zero(windows: Map<Id, WindowView>)
    requires
        windows.dom().finite(),
    ensures
        vacant(windows) <==> windows.len() == 0,
{
    if windows.len() == 0 {
        assert(windows.dom() =~= Set::empty());
        assert forall|id: Id| !windows.contains_key(id) by {
            assert(!windows.dom().contains(id));
        }
    }
    if vacant(windows) {
        assert(windows.dom() =~= Set::empty());
    }
}

} // verus!
