//! Composite keys by which the results of a scan find their pane.

use iced::widget::pane_grid::Pane;
use iced::window::Id;
use vstd::prelude::*;

verus! {

/// One directory view of the whole application: a window and a pane of it.
#[derive(Clone, Copy, Debug, PartialEq, Eq)]
pub struct ViewPath {
    /// The window.
    pub window_id: Id,
    /// The pane within the window.
    pub pane_id: Pane,
}

/// One item of one directory view.
#[derive(Debug, PartialEq, Eq)]
pub struct ItemPath {
    /// The view that the item belongs to.
    pub view_path: ViewPath,
    /// Path of the item.
    pub path: Vec<u8>,
}

/// What an [`ItemPath`] holds, as mathematical values.
pub struct ItemPathView {
    pub view_path: ViewPath,
    pub path: Seq<u8>,
}

impl View for ItemPath {
    type V = ItemPathView;

    open spec fn view(&self) -> ItemPathView {
        ItemPathView { view_path: self.view_path, path: self.path@ }
    }
}

/// A copy of a path, byte for byte.
pub fn copy_path(path: &Vec<u8>) -> (copy: Vec<u8>)
    ensures
        copy@ == path@,
{
    let mut copy: Vec<u8> = Vec::new();
    let mut i: usize = 0;
    while i < path.len()
        invariant
            i <= path@.len(),
            copy@ == path@.take(i as int),
        decreases path@.len() - i,
    {
        copy.push(path[i]);
        proof {
            assert(path@.take(i + 1) =~= path@.take(i as int).push(path@[i as int]));
        }
        i += 1;
    }
    proof {
        assert(path@.take(path@.len() as int) =~= path@);
    }
    copy
}

impl Clone for ItemPath {
    fn clone(&self) -> (copy: Self)
        ensures
            copy@ == self@,
    {
        ItemPath { view_path: self.view_path, path: copy_path(&self.path) }
    }
}

} // verus!
