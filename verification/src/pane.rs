//! Contents of one pane: the items of a directory, ordered by path.

use crate::path_order::{
    compare_paths, lemma_path_lt_irreflexive, lemma_path_lt_total, lemma_path_lt_transitive,
    path_lt, PathOrder,
};
use vstd::prelude::*;

verus! {

/// The toolkit's `image::Handle`: a handle to the data of a picture. It is
/// carried with an item and never looked into.
#[verifier::external_type_specification]
#[verifier::external_body]
pub struct ExHandle(iced::widget::image::Handle);

/// Displayed item.
#[derive(Debug, PartialEq, Eq)]
pub struct Item {
    /// Name of item.
    pub name: String,
    /// Thumbnail of item.
    pub cover: Option<iced::widget::image::Handle>,
}

/// What an [`Item`] holds, as mathematical values.
pub struct ItemView {
    pub name: Seq<char>,
    pub cover: Option<iced::widget::image::Handle>,
}

impl View for Item {
    type V = ItemView;

    open spec fn view(&self) -> ItemView {
        ItemView { name: self.name@, cover: self.cover }
    }
}

impl Item {
    /// An item as it is discovered: named, without a thumbnail.
    pub fn new(name: String) -> (item: Self)
        ensures
            item@ == (ItemView { name: name@, cover: None }),
    {
        Item { name, cover: None }
    }
}

/// One path with the item found there.
#[derive(Debug)]
struct Entry {
    path: Vec<u8>,
    item: Item,
}

/// The paths of a sequence of entries, in the same order.
spec fn entry_paths(entries: Seq<Entry>) -> Seq<Seq<u8>> {
    Seq::new(entries.len(), |i: int| entries[i].path@)
}

/// Each path comes strictly before every later one.
pub open spec fn strictly_increasing(paths: Seq<Seq<u8>>) -> bool {
    forall|i: int, j: int| 0 <= i < j < paths.len() ==> path_lt(#[trigger] paths[i], #[trigger] paths[j])
}

/// Whether some entry stands at `path`.
spec fn has_path(entries: Seq<Entry>, path: Seq<u8>) -> bool {
    exists|i: int| 0 <= i < entries.len() && #[trigger] entries[i].path@ == path
}

/// A place at which `path` stands, where there is one.
spec fn place_of(entries: Seq<Entry>, path: Seq<u8>) -> int {
    choose|i: int| 0 <= i < entries.len() && #[trigger] entries[i].path@ == path
}

/// The mapping that a sequence of entries stands for: each path to its item.
spec fn entries_map(entries: Seq<Entry>) -> Map<Seq<u8>, ItemView> {
    Map::new(|p: Seq<u8>| has_path(entries, p), |p: Seq<u8>| entries[place_of(entries, p)].item@)
}

/// In a strictly increasing sequence no path occurs twice, so each entry is
/// what the mapping holds at its path.
proof fn lemma_entries_map_at(entries: Seq<Entry>, i: int)
    requires
        strictly_increasing(entry_paths(entries)),
        0 <= i < entries.len(),
    ensures
        entries_map(entries).contains_key(entries[i].path@),
        entries_map(entries)[entries[i].path@] == entries[i].item@,
{
    let p = entries[i].path@;
    assert(has_path(entries, p));
    lemma_increasing_distinct(entries, i, place_of(entries, p));
}

/// Two places of a strictly increasing sequence that hold the same path are
/// the same place.
proof fn lemma_increasing_distinct(entries: Seq<Entry>, i: int, k: int)
    requires
        strictly_increasing(entry_paths(entries)),
        0 <= i < entries.len(),
        0 <= k < entries.len(),
        entries[i].path@ == entries[k].path@,
    ensures
        i == k,
{
    let paths = entry_paths(entries);
    assert(paths[i] == entries[i].path@);
    assert(paths[k] == entries[k].path@);
    lemma_path_lt_irreflexive(paths[i]);
    if i < k {
        assert(path_lt(paths[i], paths[k]));
    } else if k < i {
        assert(path_lt(paths[k], paths[i]));
    }
}

/// The items of a directory, each under its path, ordered by path.
#[derive(Debug)]
pub struct Items {
    entries: Vec<Entry>,
}

impl View for Items {
    type V = Map<Seq<u8>, ItemView>;

    closed spec fn view(&self) -> Map<Seq<u8>, ItemView> {
        entries_map(self.entries@)
    }
}

impl Items {
    #[verifier::type_invariant]
    spec fn ordered(&self) -> bool {
        strictly_increasing(entry_paths(self.entries@))
    }

    /// The paths in the order in which the items are walked.
    pub closed spec fn paths(&self) -> Seq<Seq<u8>> {
        entry_paths(self.entries@)
    }

    /// No items.
    pub fn new() -> (items: Self)
        ensures
            items@ == Map::<Seq<u8>, ItemView>::empty(),
    {
        let items = Items { entries: Vec::new() };
        assert(items@ =~= Map::<Seq<u8>, ItemView>::empty());
        items
    }

    /// Number of items. The walk has that many places, is in strictly
    /// increasing order of path, and visits exactly the paths of the mapping.
    pub fn len(&self) -> (n: usize)
        ensures
            n == self@.len(),
            n == self.paths().len(),
            self@.dom().finite(),
            strictly_increasing(self.paths()),
            forall|i: int| 0 <= i < n ==> self@.contains_key(#[trigger] self.paths()[i]),
            forall|p: Seq<u8>| self@.contains_key(p) ==> self.paths().contains(p),
    {
        proof {
            use_type_invariant(self);
            lemma_entries_walk(self.entries@);
        }
        self.entries.len()
    }

    /// Whether there is no item.
    pub fn is_empty(&self) -> (empty: bool)
        ensures
            empty == (self@.len() == 0),
    {
        self.len() == 0
    }

    /// The first place whose path does not come before `path`.
    fn lower_bound(&self, path: &[u8]) -> (at: usize)
        ensures
            at <= self.entries@.len(),
            forall|i: int| 0 <= i < at ==> path_lt(#[trigger] self.entries@[i].path@, path@),
            forall|i: int|
                at <= i < self.entries@.len() ==> !path_lt(#[trigger] self.entries@[i].path@, path@),
    {
        proof {
            use_type_invariant(self);
        }
        let ghost paths = entry_paths(self.entries@);
        let mut lo: usize = 0;
        let mut hi: usize = self.entries.len();
        while lo < hi
            invariant
                lo <= hi <= self.entries@.len(),
                paths == entry_paths(self.entries@),
                strictly_increasing(paths),
                forall|i: int| 0 <= i < lo ==> path_lt(#[trigger] self.entries@[i].path@, path@),
                forall|i: int|
                    hi <= i < self.entries@.len() ==> !path_lt(
                        #[trigger] self.entries@[i].path@,
                        path@,
                    ),
            decreases hi - lo,
        {
            let mid: usize = lo + (hi - lo) / 2;
            let order = compare_paths(self.entries[mid].path.as_slice(), path);
            if order == PathOrder::Before {
                proof {
                    assert forall|i: int| 0 <= i < mid + 1 implies path_lt(
                        #[trigger] self.entries@[i].path@,
                        path@,
                    ) by {
                        if i < mid {
                            assert(path_lt(paths[i], paths[mid as int]));
                            lemma_path_lt_transitive(paths[i], paths[mid as int], path@);
                        }
                    }
                }
                lo = mid + 1;
            } else {
                proof {
                    assert forall|i: int| mid <= i < self.entries@.len() implies !path_lt(
                        #[trigger] self.entries@[i].path@,
                        path@,
                    ) by {
                        if mid < i && path_lt(self.entries@[i].path@, path@) {
                            assert(path_lt(paths[mid as int], paths[i]));
                            lemma_path_lt_transitive(paths[mid as int], paths[i], path@);
                        }
                    }
                }
                hi = mid;
            }
        }
        lo
    }

    /// The item at `path`, if there is one.
    pub fn get(&self, path: &[u8]) -> (found: Option<&Item>)
        ensures
            match found {
                Some(item) => self@.contains_key(path@) && self@[path@] == item@,
                None => !self@.contains_key(path@),
            },
    {
        proof {
            use_type_invariant(self);
        }
        let at = self.lower_bound(path);
        if at < self.entries.len() {
            let order = compare_paths(self.entries[at].path.as_slice(), path);
            if order == PathOrder::Same {
                proof {
                    lemma_entries_map_at(self.entries@, at as int);
                }
                return Some(&self.entries[at].item);
            }
        }
        proof {
            lemma_absent(self.entries@, path@, at as int);
        }
        None
    }

    /// Whether an item stands at `path`.
    pub fn contains(&self, path: &[u8]) -> (found: bool)
        ensures
            found == self@.contains_key(path@),
    {
        self.get(path).is_some()
    }

    /// The path at place `i` of the walk.
    pub fn path_at(&self, i: usize) -> (path: &Vec<u8>)
        requires
            i < self.paths().len(),
        ensures
            path@ == self.paths()[i as int],
    {
        &self.entries[i].path
    }

    /// The item at place `i` of the walk.
    pub fn item_at(&self, i: usize) -> (item: &Item)
        requires
            i < self.paths().len(),
        ensures
            self@.contains_key(self.paths()[i as int]),
            item@ == self@[self.paths()[i as int]],
    {
        proof {
            use_type_invariant(self);
            lemma_entries_map_at(self.entries@, i as int);
        }
        &self.entries[i].item
    }

    /// Puts `item` at `path`. An item that stood there is replaced and
    /// handed back; every other item stays.
    pub fn insert(&mut self, path: Vec<u8>, item: Item) -> (previous: Option<Item>)
        ensures
            final(self)@ == old(self)@.insert(path@, item@),
            match previous {
                Some(p) => old(self)@.contains_key(path@) && p@ == old(self)@[path@],
                None => !old(self)@.contains_key(path@),
            },
    {
        proof {
            use_type_invariant(&*self);
        }
        let at = self.lower_bound(path.as_slice());
        let ghost before = self.entries@;
        let mut found = false;
        if at < self.entries.len() {
            let order = compare_paths(self.entries[at].path.as_slice(), path.as_slice());
            found = order == PathOrder::Same;
        }
        let mut entry = Entry { path, item };
        let ghost added = entry;
        let mut entries: Vec<Entry> = Vec::new();
        core::mem::swap(&mut self.entries, &mut entries);
        if found {
            proof {
                lemma_entries_map_at(before, at as int);
                lemma_replaced(before, at as int, added);
            }
            entries.set_and_swap(at, &mut entry);
            self.entries = entries;
            Some(entry.item)
        } else {
            proof {
                lemma_absent(before, added.path@, at as int);
                lemma_inserted(before, at as int, added);
            }
            entries.insert(at, entry);
            self.entries = entries;
            None
        }
    }
}

/// The paths of a strictly increasing sequence of entries are the keys of
/// its mapping, one entry for each key.
proof fn lemma_entries_walk(entries: Seq<Entry>)
    requires
        strictly_increasing(entry_paths(entries)),
    ensures
        entries_map(entries).dom().finite(),
        entries_map(entries).len() == entries.len(),
        forall|i: int|
            0 <= i < entries.len() ==> entries_map(entries).contains_key(
                #[trigger] entry_paths(entries)[i],
            ),
        forall|p: Seq<u8>|
            entries_map(entries).contains_key(p) ==> entry_paths(entries).contains(p),
{
    let paths = entry_paths(entries);
    assert forall|i: int, j: int| 0 <= i < paths.len() && 0 <= j < paths.len() && i != j implies paths[i]
        != paths[j] by {
        if paths[i] == paths[j] {
            lemma_increasing_distinct(entries, i, j);
        }
    }
    assert(paths.no_duplicates());
    paths.unique_seq_to_set();
    assert(entries_map(entries).dom() =~= paths.to_set()) by {
        assert forall|p: Seq<u8>| entries_map(entries).dom().contains(p) implies paths.to_set().contains(
            p,
        ) by {
            let i = place_of(entries, p);
            assert(paths[i] == p);
        }
        assert forall|p: Seq<u8>| paths.to_set().contains(p) implies entries_map(
            entries,
        ).dom().contains(p) by {
            let i = choose|i: int| 0 <= i < paths.len() && paths[i] == p;
            assert(entries[i].path@ == p);
        }
    }
    assert forall|i: int| 0 <= i < entries.len() implies entries_map(entries).contains_key(
        #[trigger] paths[i],
    ) by {
        assert(entries[i].path@ == paths[i]);
    }
    assert forall|p: Seq<u8>| entries_map(entries).contains_key(p) implies paths.contains(p) by {
        let i = place_of(entries, p);
        assert(paths[i] == p);
    }
}

/// A path that the search did not find at its place stands nowhere.
proof fn lemma_absent(entries: Seq<Entry>, path: Seq<u8>, at: int)
    requires
        strictly_increasing(entry_paths(entries)),
        0 <= at <= entries.len(),
        forall|i: int| 0 <= i < at ==> path_lt(#[trigger] entries[i].path@, path),
        forall|i: int| at <= i < entries.len() ==> !path_lt(#[trigger] entries[i].path@, path),
        at < entries.len() ==> entries[at].path@ != path,
    ensures
        !entries_map(entries).contains_key(path),
        forall|i: int| at <= i < entries.len() ==> path_lt(path, #[trigger] entries[i].path@),
{
    let paths = entry_paths(entries);
    assert forall|i: int| at <= i < entries.len() implies path_lt(
        path,
        #[trigger] entries[i].path@,
    ) by {
        assert(paths[i] == entries[i].path@);
        assert(paths[at] == entries[at].path@);
        if i > at && entries[i].path@ == path {
            assert(path_lt(paths[at], paths[i]));
        }
        lemma_path_lt_total(entries[i].path@, path);
    }
    if entries_map(entries).contains_key(path) {
        let k = place_of(entries, path);
        assert(entries[k].path@ == path);
        lemma_path_lt_irreflexive(path);
    }
}

/// Putting a new path at the place that the search gave keeps the order and
/// adds one key to the mapping.
proof fn lemma_inserted(entries: Seq<Entry>, at: int, added: Entry)
    requires
        strictly_increasing(entry_paths(entries)),
        0 <= at <= entries.len(),
        forall|i: int| 0 <= i < at ==> path_lt(#[trigger] entries[i].path@, added.path@),
        forall|i: int| at <= i < entries.len() ==> path_lt(added.path@, #[trigger] entries[i].path@),
    ensures
        strictly_increasing(entry_paths(entries.insert(at, added))),
        entries_map(entries.insert(at, added)) == entries_map(entries).insert(
            added.path@,
            added.item@,
        ),
{
    let after = entries.insert(at, added);
    let paths = entry_paths(entries);
    let grown = entry_paths(after);
    assert forall|i: int, j: int| 0 <= i < j < grown.len() implies path_lt(
        #[trigger] grown[i],
        #[trigger] grown[j],
    ) by {
        let a = if i < at { i } else { i - 1 };
        let b = if j < at { j } else { j - 1 };
        if i != at && j != at {
            assert(grown[i] == paths[a] && grown[j] == paths[b]);
            assert(path_lt(paths[a], paths[b]));
        } else if i == at {
            assert(grown[j] == entries[b].path@);
        } else {
            assert(grown[i] == entries[a].path@);
        }
    }
    let wanted = entries_map(entries).insert(added.path@, added.item@);
    assert forall|p: Seq<u8>| #[trigger] entries_map(after).dom().contains(p) implies wanted.dom().contains(p) by {
        let k = place_of(after, p);
        if k != at {
            let b = if k < at { k } else { k - 1 };
            assert(entries[b].path@ == p);
        }
    }
    assert forall|p: Seq<u8>| #[trigger] wanted.dom().contains(p) implies entries_map(
        after,
    ).dom().contains(p) && entries_map(after)[p] == wanted[p] by {
        if p == added.path@ {
            assert(after[at].path@ == p);
            lemma_entries_map_at(after, at);
        } else {
            let b = place_of(entries, p);
            let k = if b < at { b } else { b + 1 };
            assert(after[k].path@ == p);
            lemma_entries_map_at(after, k);
            lemma_entries_map_at(entries, b);
        }
    }
    assert(entries_map(after) =~= wanted);
}

/// Replacing the entry of a path by another of the same path keeps the
/// order and changes the mapping at that key alone.
proof fn lemma_replaced(entries: Seq<Entry>, at: int, added: Entry)
    requires
        strictly_increasing(entry_paths(entries)),
        0 <= at < entries.len(),
        entries[at].path@ == added.path@,
    ensures
        strictly_increasing(entry_paths(entries.update(at, added))),
        entries_map(entries.update(at, added)) == entries_map(entries).insert(
            added.path@,
            added.item@,
        ),
{
    let after = entries.update(at, added);
    assert(entry_paths(after) =~= entry_paths(entries));
    let wanted = entries_map(entries).insert(added.path@, added.item@);
    assert forall|p: Seq<u8>| #[trigger] entries_map(after).dom().contains(p) implies wanted.dom().contains(p) by {
        let k = place_of(after, p);
        assert(entries[k].path@ == p);
    }
    assert forall|p: Seq<u8>| #[trigger] wanted.dom().contains(p) implies entries_map(
        after,
    ).dom().contains(p) && entries_map(after)[p] == wanted[p] by {
        if p == added.path@ {
            assert(after[at].path@ == p);
            lemma_entries_map_at(after, at);
        } else {
            let b = place_of(entries, p);
            assert(after[b].path@ == p);
            lemma_entries_map_at(after, b);
            lemma_entries_map_at(entries, b);
        }
    }
    assert(entries_map(after) =~= wanted);
}

/// Putting an item where one stands already replaces it: the path is a key
/// once, with the later item, and no other key is touched.
pub proof fn lemma_reinsert_overwrites(
    items: Map<Seq<u8>, ItemView>,
    path: Seq<u8>,
    first: ItemView,
    second: ItemView,
)
    ensures
        items.insert(path, first).insert(path, second) == items.insert(path, second),
        items.insert(path, first).insert(path, second).dom() == items.insert(path, first).dom(),
        items.insert(path, first).insert(path, second)[path] == second,
{
    assert(items.insert(path, first).insert(path, second) =~= items.insert(path, second));
    assert(items.insert(path, first).insert(path, second).dom() =~= items.insert(
        path,
        first,
    ).dom());
}

/// A single main window pane.
#[derive(Debug)]
pub enum DirView {
    /// Empty pane.
    Empty,
    /// Display a directory view.
    Dir {
        /// View items.
        items: Items,
    },
}

impl View for DirView {
    type V = Option<Map<Seq<u8>, ItemView>>;

    open spec fn view(&self) -> Option<Map<Seq<u8>, ItemView>> {
        match self {
            DirView::Empty => None,
            DirView::Dir { items } => Some(items@),
        }
    }
}

/// The mapping from path to item that a pane shows: none for an empty pane.
pub open spec fn shown_items(pane: Option<Map<Seq<u8>, ItemView>>) -> Map<Seq<u8>, ItemView> {
    match pane {
        None => Map::empty(),
        Some(items) => items,
    }
}

impl Default for DirView {
    fn default() -> (pane: Self)
        ensures
            pane@ is None,
    {
        DirView::Empty
    }
}

impl DirView {
    /// Whether the pane is empty, awaiting a directory.
    pub fn is_empty(&self) -> (empty: bool)
        ensures
            empty == (self@ is None),
    {
        match self {
            DirView::Empty => true,
            DirView::Dir { .. } => false,
        }
    }

    /// Whether the pane shows a directory.
    pub fn is_dir(&self) -> (dir: bool)
        ensures
            dir == (self@ is Some),
    {
        match self {
            DirView::Empty => false,
            DirView::Dir { .. } => true,
        }
    }

    /// Number of items shown.
    pub fn len(&self) -> (n: usize)
        ensures
            n == shown_items(self@).len(),
    {
        match self {
            DirView::Empty => {
                assert(shown_items(self@).len() == 0);
                0
            },
            DirView::Dir { items } => items.len(),
        }
    }

    /// The item shown at `path`, if there is one.
    pub fn get(&self, path: &[u8]) -> (found: Option<&Item>)
        ensures
            match found {
                Some(item) => shown_items(self@).contains_key(path@) && shown_items(self@)[path@]
                    == item@,
                None => !shown_items(self@).contains_key(path@),
            },
    {
        match self {
            DirView::Empty => None,
            DirView::Dir { items } => items.get(path),
        }
    }

    /// Records a discovered item. An empty pane becomes a directory view of
    /// that one item; in a directory view the item is added, or replaces the
    /// one that stood at the same path, which is handed back.
    pub fn insert(&mut self, path: Vec<u8>, item: Item) -> (previous: Option<Item>)
        ensures
            final(self)@ == Some(shown_items(old(self)@).insert(path@, item@)),
            match previous {
                Some(p) => shown_items(old(self)@).contains_key(path@) && p@ == shown_items(
                    old(self)@,
                )[path@],
                None => !shown_items(old(self)@).contains_key(path@),
            },
    {
        match self {
            DirView::Empty => {
                let mut items = Items::new();
                items.insert(path, item);
                *self = DirView::Dir { items };
                None
            },
            DirView::Dir { items } => items.insert(path, item),
        }
    }
}

} // verus!
