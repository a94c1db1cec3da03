//! The item that a presentation model holds for one entry.

use vstd::prelude::*;

use crate::file_details::FileDetails;

verus! {

/// One row of the consumer's model: the path of one entry, held under the
/// name `details`, which can be read and replaced.
#[derive(Clone, Debug, PartialEq, Eq)]
pub struct FileObject {
    details: String,
}

impl View for FileObject {
    type V = Seq<char>;

    /// The path that the object holds.
    closed spec fn view(&self) -> Seq<char> {
        self.details@
    }
}

impl FileObject {
    /// An object for an entry. It holds a copy of the entry's path.
    pub fn new(details: &FileDetails) -> (object: FileObject)
        ensures
            object@ == details@,
    {
        FileObject { details: details.path.clone() }
    }

    /// A copy of the path that the object holds.
    pub fn details(&self) -> (details: String)
        ensures
            details@ == self@,
    {
        self.details.clone()
    }

    /// Replaces the path that the object holds.
    pub fn set_details(&mut self, details: String)
        ensures
            final(self)@ == details@,
    {
        self.details = details;
    }
}

impl Default for FileObject {
    /// The object that holds the empty path.
    fn default() -> (object: FileObject)
        ensures
            object@ == Seq::<char>::empty(),
    {
        FileObject { details: String::new() }
    }
}

/// The paths that a model shows, row by row.
pub open spec fn shown(model: Seq<FileObject>) -> Seq<Seq<char>> {
    model.map_values(|object: FileObject| object@)
}

} // verus!
