//! Turning one walk of a directory tree into a listing.
//!
//! The walk itself is done elsewhere: what it reported arrives here as a
//! sequence of [`WalkItem`]s, in the order of the walk. A scan keeps every
//! entry below the root, in that order, and fails as a whole at the first
//! entry that could not be read.

use vstd::prelude::*;

use crate::file_details::{paths_of, FileDetails};

verus! {

/// What a recursive walk reported of one entry.
#[derive(Clone, Debug, PartialEq, Eq)]
pub enum WalkItem {
    /// An entry that was read: its path, and how many levels below the root
    /// it lies. The root itself has depth 0.
    Entry { path: String, depth: usize },
    /// An entry that could not be read, with the reason the walk gave.
    Unreadable { reason: String },
}

/// A [`WalkItem`] as contracts see it.
pub enum WalkItemView {
    Entry { path: Seq<char>, depth: nat },
    Unreadable { reason: Seq<char> },
}

impl View for WalkItem {
    type V = WalkItemView;

    open spec fn view(&self) -> WalkItemView {
        match *self {
            WalkItem::Entry { path, depth } => WalkItemView::Entry { path: path@, depth: depth as nat },
            WalkItem::Unreadable { reason } => WalkItemView::Unreadable { reason: reason@ },
        }
    }
}

/// Why a scan produced no listing.
#[derive(Clone, Debug, PartialEq, Eq)]
pub struct ScanError {
    /// The position in the walk of the first entry that could not be read.
    pub index: usize,
    /// The reason the walk gave for that entry.
    pub reason: String,
}

/// A [`ScanError`] as contracts see it.
pub struct ScanErrorView {
    pub index: nat,
    pub reason: Seq<char>,
}

impl View for ScanError {
    type V = ScanErrorView;

    open spec fn view(&self) -> ScanErrorView {
        ScanErrorView { index: self.index as nat, reason: self.reason@ }
    }
}

/// A walk as contracts see it: the view of each item, in order.
pub open spec fn walk_view(walk: Seq<WalkItem>) -> Seq<WalkItemView> {
    walk.map_values(|item: WalkItem| item@)
}

/// An entry that belongs in a listing: one that was read and lies below the
/// root. The root is what is listed, not part of its own listing.
pub open spec fn below_root(item: WalkItemView) -> bool {
    item is Entry && item->depth > 0
}

/// The paths that a walk found below the root, in the order of the walk.
pub open spec fn listing(walk: Seq<WalkItemView>) -> Seq<Seq<char>> {
    walk.filter(|item: WalkItemView| below_root(item)).map_values(|item: WalkItemView| item->path)
}

/// Every item of the walk was read.
pub open spec fn all_read(walk: Seq<WalkItemView>) -> bool {
    forall|i: int| 0 <= i < walk.len() ==> walk[i] is Entry
}

/// Item `i` could not be read, and every item before it was.
pub open spec fn first_unreadable(walk: Seq<WalkItemView>, i: int) -> bool {
    &&& 0 <= i < walk.len()
    &&& walk[i] is Unreadable
    &&& forall|j: int| 0 <= j < i ==> walk[j] is Entry
}

/// What a scan makes of a walk: the listing if every item was read, else
/// the first item that was not.
pub open spec fn scan_outcome(walk: Seq<WalkItemView>) -> Result<Seq<Seq<char>>, ScanErrorView> {
    if all_read(walk) {
        Ok(listing(walk))
    } else {
        let i = choose|i: int| first_unreadable(walk, i);
        Err(ScanErrorView { index: i as nat, reason: walk[i]->reason })
    }
}

/// A scan's result as contracts see it.
pub open spec fn scan_result_view(result: Result<Vec<FileDetails>, ScanError>) -> Result<
    Seq<Seq<char>>,
    ScanErrorView,
> {
    match result {
        Ok(entries) => Ok(paths_of(entries@)),
        Err(error) => Err(error@),
    }
}

/// Adding one item to a walk adds its path to the listing if it lies below
/// the root, and nothing otherwise.
pub proof fn lemma_listing_push(walk: Seq<WalkItemView>, item: WalkItemView)
    ensures
        listing(walk.push(item)) == if below_root(item) {
            listing(walk).push(item->path)
        } else {
            listing(walk)
        },
{
    let keep = |item: WalkItemView| below_root(item);
    let path = |item: WalkItemView| item->path;
    reveal(Seq::filter);
    assert(walk.push(item).drop_last() == walk);
    if below_root(item) {
        assert(walk.filter(keep).push(item).map_values(path) == walk.filter(keep).map_values(
            path,
        ).push(item->path));
    }
}

/// An unreadable item is the first one in at most one way.
pub proof fn lemma_first_unreadable_unique(walk: Seq<WalkItemView>, i: int, j: int)
    requires
        first_unreadable(walk, i),
        first_unreadable(walk, j),
    ensures
        i == j,
{
}

/// The paths that a walk reported below the root, as a set.
pub open spec fn found(walk: Seq<WalkItemView>) -> Set<Seq<char>> {
    Set::new(
        |path: Seq<char>|
            exists|i: int|
                0 <= i < walk.len() && below_root(#[trigger] walk[i]) && walk[i]->path == path,
    )
}

/// The walk reported no path below the root twice.
pub open spec fn reported_once(walk: Seq<WalkItemView>) -> bool {
    forall|i: int, j: int|
        0 <= i < j < walk.len() && below_root(#[trigger] walk[i]) && below_root(#[trigger] walk[j])
            ==> walk[i]->path != walk[j]->path
}

/// A path is in the listing exactly if the walk reported it below the root.
pub proof fn lemma_listing_members(walk: Seq<WalkItemView>, path: Seq<char>)
    ensures
        listing(walk).contains(path) <==> found(walk).contains(path),
    decreases walk.len(),
{
    if walk.len() > 0 {
        let init = walk.drop_last();
        let last = walk.last();
        assert(walk =~= init.push(last));
        lemma_listing_push(init, last);
        lemma_listing_members(init, path);
        if listing(walk).contains(path) {
            // The path came with the last item, or an earlier item reported it.
            let k = choose|k: int| 0 <= k < listing(walk).len() && listing(walk)[k] == path;
            if k < listing(init).len() {
                let i = choose|i: int|
                    0 <= i < init.len() && below_root(#[trigger] init[i]) && init[i]->path == path;
                assert(walk[i] == init[i]);
            }
        }
        if found(walk).contains(path) {
            // The item that reported the path is the last one, or an earlier one.
            let i = choose|i: int|
                0 <= i < walk.len() && below_root(#[trigger] walk[i]) && walk[i]->path == path;
            if i < init.len() {
                let k = choose|k: int| 0 <= k < listing(init).len() && listing(init)[k] == path;
                assert(listing(walk)[k] == path);
            } else {
                assert(listing(walk).last() == path);
            }
        }
    }
}

/// A walk that reported no path twice gives a listing that holds no path
/// twice.
pub proof fn lemma_listing_no_duplicates(walk: Seq<WalkItemView>)
    requires
        reported_once(walk),
    ensures
        listing(walk).no_duplicates(),
    decreases walk.len(),
{
    if walk.len() > 0 {
        let init = walk.drop_last();
        let last = walk.last();
        assert(walk =~= init.push(last));
        assert(reported_once(init)) by {
            assert forall|i: int, j: int|
                0 <= i < j < init.len() && below_root(#[trigger] init[i]) && below_root(
                    #[trigger] init[j],
                ) implies init[i]->path != init[j]->path by {
                assert(init[i] == walk[i] && init[j] == walk[j]);
            }
        }
        lemma_listing_no_duplicates(init);
        lemma_listing_push(init, last);
        if below_root(last) {
            // The last path is new: no earlier item reported it.
            lemma_listing_members(init, last->path);
            assert(!listing(init).contains(last->path)) by {
                if found(init).contains(last->path) {
                    let i = choose|i: int|
                        0 <= i < init.len() && below_root(#[trigger] init[i]) && init[i]->path
                            == last->path;
                    assert(walk[i] == init[i] && walk[walk.len() - 1] == last);
                }
            }
        }
    }
}

/// A scan is complete.
///
/// Where the walk read every entry, the scan succeeds, and the paths of
/// its listing are exactly the paths that the walk reported below the root:
/// none is left out and none is added. Where the walk reported each of
/// them once, the listing holds each of them once.
pub proof fn theorem_scan_is_complete(walk: Seq<WalkItemView>)
    requires
        all_read(walk),
    ensures
        scan_outcome(walk) == Ok::<Seq<Seq<char>>, ScanErrorView>(listing(walk)),
        listing(walk).to_set() == found(walk),
        reported_once(walk) ==> listing(walk).no_duplicates(),
{
    assert forall|path: Seq<char>| listing(walk).to_set().contains(path) == found(walk).contains(
        path,
    ) by {
        lemma_listing_members(walk, path);
    }
    if reported_once(walk) {
        lemma_listing_no_duplicates(walk);
    }
}

/// Makes a listing of what a walk reported.
///
/// Succeeds exactly when every item of the walk was read; the listing then
/// holds the path of each entry below the root, once, in the order of the
/// walk. Otherwise the error names the first item that was not read.
pub fn scan(walk: Vec<WalkItem>) -> (result: Result<Vec<FileDetails>, ScanError>)
    ensures
        scan_result_view(result) == scan_outcome(walk_view(walk@)),
        result is Ok <==> all_read(walk_view(walk@)),
{
    let ghost items = walk_view(walk@);
    let mut entries: Vec<FileDetails> = Vec::new();
    let mut index: usize = 0;
    let count: usize = walk.len();
    for item in it: walk
        invariant
            items == walk_view(walk@),
            count == walk@.len(),
            index == it.index(),
            it.seq() == walk@,
            all_read(items.take(index as int)),
            paths_of(entries@) == listing(items.take(index as int)),
    {
        proof {
            assert(items.take(index + 1) == items.take(index as int).push(items[index as int]));
            lemma_listing_push(items.take(index as int), items[index as int]);
        }
        match item {
            WalkItem::Entry { path, depth } => {
                if depth > 0 {
                    entries.push(FileDetails { path });
                }
            },
            WalkItem::Unreadable { reason } => {
                proof {
                    assert forall|j: int| 0 <= j < index implies items[j] is Entry by {
                        assert(items.take(index as int)[j] is Entry);
                    }
                    assert(first_unreadable(items, index as int));
                    let chosen = choose|i: int| first_unreadable(items, i);
                    lemma_first_unreadable_unique(items, chosen, index as int);
                }
                return Err(ScanError { index, reason });
            },
        }
        index = index + 1;
    }
    proof {
        assert(items.take(index as int) == items);
    }
    Ok(entries)
}

} // verus!
