//! From the entries of one directory to the items that a pane is told of.

use crate::address::{copy_path, ItemPath, ItemPathView, ViewPath};
use crate::pane::{Item, ItemView};
use vstd::prelude::*;
use vstd::string::StringExecFns;

verus! {

/// One step of reading a directory.
#[derive(Debug, PartialEq, Eq)]
pub enum EntryRead {
    /// An entry was read.
    Entry {
        /// Full path of the entry.
        path: Vec<u8>,
        /// File name of the entry.
        file_name: String,
    },
    /// Reading the entry failed.
    Failed,
}

/// What an [`EntryRead`] holds, as mathematical values.
pub enum EntryReadView {
    Entry { path: Seq<u8>, file_name: Seq<char> },
    Failed,
}

impl View for EntryRead {
    type V = EntryReadView;

    open spec fn view(&self) -> EntryReadView {
        match self {
            EntryRead::Entry { path, file_name } => EntryReadView::Entry {
                path: path@,
                file_name: file_name@,
            },
            EntryRead::Failed => EntryReadView::Failed,
        }
    }
}

/// What became of opening and reading a directory.
#[derive(Debug, PartialEq, Eq)]
pub enum Listing {
    /// The directory could not be opened.
    Unopened,
    /// The directory was opened; the steps of reading it, in order.
    Entries(Vec<EntryRead>),
}

/// One item found by a scan, with the place that it belongs to.
#[derive(Debug, PartialEq, Eq)]
pub struct Discovery {
    /// View and path of the item.
    pub item_path: ItemPath,
    /// The item.
    pub item: Item,
}

/// What a [`Discovery`] holds, as mathematical values.
pub struct DiscoveryView {
    pub item_path: ItemPathView,
    pub item: ItemView,
}

impl View for Discovery {
    type V = DiscoveryView;

    open spec fn view(&self) -> DiscoveryView {
        DiscoveryView { item_path: self.item_path@, item: self.item@ }
    }
}

/// What a scan hands on and what it logs.
#[derive(Debug)]
pub struct ScanReport {
    /// The items found, in the order in which their entries were read.
    pub discoveries: Vec<Discovery>,
    /// Whether opening the directory failed.
    pub open_failed: bool,
    /// Number of entries that could not be read and were passed over.
    pub skipped: usize,
}

/// The views of the steps of a listing.
pub open spec fn reads_view(reads: Seq<EntryRead>) -> Seq<EntryReadView> {
    Seq::new(reads.len(), |i: int| reads[i]@)
}

/// The views of a list of discoveries.
pub open spec fn discoveries_view(found: Seq<Discovery>) -> Seq<DiscoveryView> {
    Seq::new(found.len(), |i: int| found[i]@)
}

/// The prefix that is put before each name: empty where none is given.
pub open spec fn prefix_of(prefix: Option<Seq<char>>) -> Seq<char> {
    match prefix {
        Some(p) => p,
        None => Seq::empty(),
    }
}

/// The item that an entry is shown as; none for a step that failed. The
/// name is the prefix followed by the file name, and there is no thumbnail.
pub open spec fn discovered(view_path: ViewPath, prefix: Seq<char>, read: EntryReadView) -> Option<
    DiscoveryView,
> {
    match read {
        EntryReadView::Entry { path, file_name } => Some(
            DiscoveryView {
                item_path: ItemPathView { view_path, path },
                item: ItemView { name: prefix + file_name, cover: None },
            },
        ),
        EntryReadView::Failed => None,
    }
}

/// The items of all entries that were read, in their order.
pub open spec fn discovered_all(view_path: ViewPath, prefix: Seq<char>, reads: Seq<EntryReadView>) -> Seq<
    DiscoveryView,
>
    decreases reads.len(),
{
    if reads.len() == 0 {
        Seq::empty()
    } else {
        let before = discovered_all(view_path, prefix, reads.drop_last());
        match discovered(view_path, prefix, reads.last()) {
            Some(found) => before.push(found),
            None => before,
        }
    }
}

/// Number of steps that failed.
pub open spec fn failed_reads(reads: Seq<EntryReadView>) -> nat
    decreases reads.len(),
{
    if reads.len() == 0 {
        0
    } else {
        failed_reads(reads.drop_last()) + (if reads.last() is Failed {
            1nat
        } else {
            0nat
        })
    }
}

/// There are no more failed steps than steps, and each step is one or the
/// other: found or failed.
pub proof fn lemma_scan_counts(view_path: ViewPath, prefix: Seq<char>, reads: Seq<EntryReadView>)
    ensures
        discovered_all(view_path, prefix, reads).len() + failed_reads(reads) == reads.len(),
    decreases reads.len(),
{
    if reads.len() > 0 {
        lemma_scan_counts(view_path, prefix, reads.drop_last());
    }
}

/// The item for one step of reading a directory.
pub fn discover(view_path: ViewPath, prefix: &str, read: &EntryRead) -> (found: Option<Discovery>)
    ensures
        match found {
            Some(d) => discovered(view_path, prefix@, read@) == Some(d@),
            None => discovered(view_path, prefix@, read@) is None,
        },
{
    match read {
        EntryRead::Entry { path, file_name } => {
            let name = String::from_str(prefix).concat(file_name.as_str());
            Some(
                Discovery {
                    item_path: ItemPath { view_path, path: copy_path(path) },
                    item: Item::new(name),
                },
            )
        },
        EntryRead::Failed => None,
    }
}

/// The items of a whole listing. A directory that could not be opened gives
/// no item and is reported as such; an entry that could not be read is
/// counted and passed over.
pub fn scan(view_path: ViewPath, prefix: Option<&str>, listing: &Listing) -> (report: ScanReport)
    ensures
        match *listing {
            Listing::Unopened => report.open_failed && report.discoveries@.len() == 0
                && report.skipped == 0,
            Listing::Entries(reads) => {
                &&& !report.open_failed
                &&& discoveries_view(report.discoveries@) == discovered_all(
                    view_path,
                    prefix_of(
                        match prefix {
                            Some(p) => Some(p@),
                            None => None,
                        },
                    ),
                    reads_view(reads@),
                )
                &&& report.skipped == failed_reads(reads_view(reads@))
            },
        },
{
    let before = match prefix {
        Some(p) => p,
        None => "",
    };
    proof {
        reveal_strlit("");
        assert(""@ =~= Seq::<char>::empty());
    }
    match listing {
        Listing::Unopened => ScanReport { discoveries: Vec::new(), open_failed: true, skipped: 0 },
        Listing::Entries(reads) => {
            let ghost all = reads_view(reads@);
            let mut discoveries: Vec<Discovery> = Vec::new();
            let mut skipped: usize = 0;
            let mut i: usize = 0;
            proof {
                assert(all.take(0) =~= Seq::<EntryReadView>::empty());
                assert(discoveries_view(discoveries@) =~= Seq::<DiscoveryView>::empty());
            }
            while i < reads.len()
                invariant
                    i <= reads@.len(),
                    all == reads_view(reads@),
                    discoveries_view(discoveries@) == discovered_all(
                        view_path,
                        before@,
                        all.take(i as int),
                    ),
                    skipped == failed_reads(all.take(i as int)),
                    skipped <= i,
                decreases reads@.len() - i,
            {
                proof {
                    let upto = all.take(i + 1);
                    assert(upto.drop_last() =~= all.take(i as int));
                    assert(upto.last() == reads@[i as int]@);
                }
                let ghost old_found = discoveries_view(discoveries@);
                match discover(view_path, before, &reads[i]) {
                    Some(found) => {
                        discoveries.push(found);
                        proof {
                            assert(discoveries_view(discoveries@) =~= old_found.push(found@));
                        }
                    },
                    None => {
                        skipped += 1;
                    },
                }
                i += 1;
            }
            proof {
                assert(all.take(reads@.len() as int) =~= all);
            }
            ScanReport { discoveries, open_failed: false, skipped }
        },
    }
}

} // verus!
