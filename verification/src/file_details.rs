//! One entry of a listing.

use vstd::prelude::*;

verus! {

/// What is known of one path found under a watched root.
///
/// The path is the text by which the walk reported the entry. It named an
/// existing location when the walk saw it; nothing is promised afterwards.
#[derive(Debug, PartialEq, Eq)]
pub struct FileDetails {
    pub path: String,
}

impl View for FileDetails {
    type V = Seq<char>;

    /// The entry's path, as text.
    open spec fn view(&self) -> Seq<char> {
        self.path@
    }
}

impl Clone for FileDetails {
    /// A fresh entry with the same path.
    fn clone(&self) -> (copy: FileDetails)
        ensures
            copy@ == self@,
    {
        FileDetails { path: self.path.clone() }
    }
}

impl Default for FileDetails {
    /// The entry with the empty path.
    fn default() -> (entry: FileDetails)
        ensures
            entry@ == Seq::<char>::empty(),
    {
        FileDetails { path: String::new() }
    }
}

/// The paths of a listing, in order.
pub open spec fn paths_of(entries: Seq<FileDetails>) -> Seq<Seq<char>> {
    entries.map_values(|entry: FileDetails| entry@)
}

} // verus!
