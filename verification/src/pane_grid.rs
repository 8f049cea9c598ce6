//! The panes of one main window, kept in the toolkit's pane grid.

use crate::pane::{shown_items, DirView, Item, ItemView};
use iced::widget::pane_grid::Pane;
use vstd::prelude::*;

verus! {

/// The toolkit's `pane_grid::State`: the panes of a grid, each with what it
/// holds, and their layout. The verifier sees it only through
/// [`grid_panes`] and the functions below.
#[verifier::external_type_specification]
#[verifier::external_body]
#[verifier::reject_recursive_types(T)]
pub struct ExPaneGridState<T>(iced::widget::pane_grid::State<T>);

/// The toolkit's `pane_grid::Pane`: the identifier of one pane of a grid.
#[verifier::external_type_specification]
#[verifier::external_body]
pub struct ExPane(iced::widget::pane_grid::Pane);

/// The panes of a main window: the toolkit's grid, holding one directory
/// view in each pane.
pub type PaneGrid = iced::widget::pane_grid::State<DirView>;

/// What a pane shows: nothing yet, or the items of a directory by path.
pub type PaneContents = Option<Map<Seq<u8>, ItemView>>;

/// The panes that a grid holds, each with its directory view.
pub uninterp spec fn grid_panes(grid: PaneGrid) -> Map<Pane, DirView>;

/// The identifier that `pane_grid::State::new` gives to the one pane of the
/// grid that it makes.
pub uninterp spec fn new_grid_pane(first: PaneContents) -> Pane;

/// The identifier of the one pane that a main window has when it opens.
pub open spec fn first_pane() -> Pane {
    new_grid_pane(None)
}

/// What each pane of a grid shows.
pub open spec fn panes_view(grid: PaneGrid) -> Map<Pane, PaneContents> {
    grid_panes(grid).map_values(|pane: DirView| pane@)
}

/// The panes of a grid that has the one pane `pane`, holding `first`.
pub open spec fn one_pane(pane: Pane, first: DirView) -> Map<Pane, DirView> {
    Map::empty().insert(pane, first)
}

/// What the pane `pane` holds, if the grid has it.
pub open spec fn pane_at(panes: Map<Pane, DirView>, pane: Pane) -> Option<DirView> {
    if panes.contains_key(pane) {
        Some(panes[pane])
    } else {
        None
    }
}

/// `pane_grid::State::new`: a grid of one pane, which holds `first`, and the
/// identifier of that pane, which is the same for every grid so made.
#[verifier::external_body]
pub(crate) fn grid_new(first: DirView) -> (made: (PaneGrid, Pane))
    ensures
        grid_panes(made.0) == one_pane(made.1, first),
        made.1 == new_grid_pane(first@),
{
    iced::widget::pane_grid::State::new(first)
}

/// `pane_grid::State::get`: what the pane holds, if the grid has it.
#[verifier::external_body]
pub(crate) fn grid_get(grid: &PaneGrid, pane: Pane) -> (found: Option<&DirView>)
    ensures
        match found {
            Some(view) => pane_at(grid_panes(*grid), pane) == Some(*view),
            None => pane_at(grid_panes(*grid), pane) is None,
        },
{
    grid.get(pane)
}

/// `pane_grid::State::get_mut`: what the pane holds, to be changed in
/// place, if the grid has it. No other pane changes, and none comes or goes.
#[verifier::external_body]
pub(crate) fn grid_get_mut(grid: &mut PaneGrid, pane: Pane) -> (found: Option<&mut DirView>)
    ensures
        match found {
            Some(view) => pane_at(grid_panes(*old(grid)), pane) == Some(*view) && grid_panes(
                *final(grid),
            ) == grid_panes(*old(grid)).insert(pane, *final(view)),
            None => pane_at(grid_panes(*old(grid)), pane) is None && grid_panes(*final(grid))
                == grid_panes(*old(grid)),
        },
{
    grid.get_mut(pane)
}

/// Records a discovered item in the pane `pane` of the grid, as
/// [`DirView::insert`] does, and says whether the grid has that pane.
/// Without it nothing changes.
pub fn insert_item(grid: &mut PaneGrid, pane: Pane, path: Vec<u8>, item: Item) -> (found:
    bool)
    ensures
        found == panes_view(*old(grid)).contains_key(pane),
        found ==> panes_view(*final(grid)) == panes_view(*old(grid)).insert(
            pane,
            Some(shown_items(panes_view(*old(grid))[pane]).insert(path@, item@)),
        ),
        !found ==> panes_view(*final(grid)) == panes_view(*old(grid)),
{
    match grid_get_mut(grid, pane) {
        Some(view) => {
            view.insert(path, item);
            proof {
                assert(panes_view(*final(grid)) =~= panes_view(*old(grid)).insert(
                    pane,
                    Some(shown_items(panes_view(*old(grid))[pane]).insert(path@, item@)),
                ));
            }
            true
        },
        None => false,
    }
}

} // verus!
