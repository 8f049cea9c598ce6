//! The open windows, each under the identifier that the windowing system
//! gave it.

use crate::window_state::{Window, WindowView};
use iced::window::Id;
use vstd::prelude::*;

verus! {

/// The toolkit's `window::Id`: the identifier that the windowing system
/// gives to a window.
#[verifier::external_type_specification]
#[verifier::external_body]
pub struct ExWindowId(iced::window::Id);

/// The open windows by identifier, kept in a `hashbrown::HashMap` that
/// hashes with `rustc_hash::FxBuildHasher`. The verifier sees the map only
/// through [`registry_windows`] and the functions below.
#[verifier::external_body]
#[derive(Debug)]
pub struct WindowRegistry {
    map: hashbrown::HashMap<iced::window::Id, Window, rustc_hash::FxBuildHasher>,
}

/// The windows that a registry holds, by identifier.
pub uninterp spec fn registry_windows(registry: WindowRegistry) -> Map<Id, Window>;

/// A registry that holds no window.
pub open spec fn no_windows() -> Map<Id, Window> {
    Map::empty()
}

/// What the window under `id` is, if there is one.
pub open spec fn window_at(windows: Map<Id, Window>, id: Id) -> Option<Window> {
    if windows.contains_key(id) {
        Some(windows[id])
    } else {
        None
    }
}

/// `windows` are finitely many, and `count` is their number.
pub open spec fn counted(windows: Map<Id, Window>, count: nat) -> bool {
    windows.dom().finite() && windows.len() == count
}

impl View for WindowRegistry {
    type V = Map<Id, WindowView>;

    open spec fn view(&self) -> Map<Id, WindowView> {
        registry_windows(*self).map_values(|window: Window| window@)
    }
}

/// `HashMap::with_hasher`: the map it makes is empty.
#[verifier::external_body]
pub(crate) fn registry_new() -> (made: WindowRegistry)
    ensures
        registry_windows(made) == no_windows(),
{
    WindowRegistry { map: hashbrown::HashMap::with_hasher(rustc_hash::FxBuildHasher) }
}

/// `HashMap::insert`: the window stands under `id` afterwards, every other
/// key keeps its window, and the window that stood under `id` before is
/// handed back.
#[verifier::external_body]
pub(crate) fn registry_insert(registry: &mut WindowRegistry, id: Id, window: Window) -> (previous:
    Option<Window>)
    ensures
        registry_windows(*final(registry)) == registry_windows(*old(registry)).insert(id, window),
        previous == window_at(registry_windows(*old(registry)), id),
{
    registry.map.insert(id, window)
}

/// `HashMap::remove`: the key `id` is gone afterwards, every other key keeps
/// its window, and the window that stood under `id` is handed back.
#[verifier::external_body]
pub(crate) fn registry_remove(registry: &mut WindowRegistry, id: Id) -> (removed: Option<Window>)
    ensures
        registry_windows(*final(registry)) == registry_windows(*old(registry)).remove(id),
        removed == window_at(registry_windows(*old(registry)), id),
{
    registry.map.remove(&id)
}

/// `HashMap::get_mut`: the window under `id`, to be changed in place, if
/// there is one. No other key changes, and none comes or goes.
#[verifier::external_body]
pub(crate) fn registry_get_mut(registry: &mut WindowRegistry, id: Id) -> (found: Option<
    &mut Window,
>)
    ensures
        match found {
            Some(window) => window_at(registry_windows(*old(registry)), id) == Some(*window)
                && registry_windows(*final(registry)) == registry_windows(*old(registry)).insert(
                id,
                *final(window),
            ),
            None => window_at(registry_windows(*old(registry)), id) is None && registry_windows(
                *final(registry),
            ) == registry_windows(*old(registry)),
        },
{
    registry.map.get_mut(&id)
}

/// `HashMap::get`: the window under `id`, if there is one.
#[verifier::external_body]
pub(crate) fn registry_get(registry: &WindowRegistry, id: Id) -> (found: Option<&Window>)
    ensures
        match found {
            Some(window) => window_at(registry_windows(*registry), id) == Some(*window),
            None => window_at(registry_windows(*registry), id) is None,
        },
{
    registry.map.get(&id)
}

/// `HashMap::len`: the number of keys, of which there are finitely many.
#[verifier::external_body]
pub(crate) fn registry_len(registry: &WindowRegistry) -> (count: usize)
    ensures
        counted(registry_windows(*registry), count as nat),
{
    registry.map.len()
}

/// `HashMap::keys`: every key once, in an order that is not stated.
#[verifier::external_body]
pub(crate) fn registry_ids(registry: &WindowRegistry) -> (ids: Vec<Id>)
    ensures
        ids@.no_duplicates(),
        forall|id: Id| ids@.contains(id) <==> registry_windows(*registry).contains_key(id),
{
    registry.map.keys().copied().collect()
}

} // verus!
