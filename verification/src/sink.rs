//! The consumer's side: bringing a model up to date with what arrives.

use vstd::prelude::*;

use crate::file_details::paths_of;
use crate::file_object::{shown, FileObject};
use crate::update::{Update, UpdateView};

verus! {

/// What a model shows once an update has been applied to it. A
/// replacement leaves nothing of what was shown before.
pub open spec fn applied(before: Seq<Seq<char>>, update: UpdateView) -> Seq<Seq<char>> {
    match update {
        UpdateView::Replace(paths) => paths,
    }
}

/// What a model shows once a series of updates has been applied to it, in
/// order.
pub open spec fn applied_all(before: Seq<Seq<char>>, updates: Seq<UpdateView>) -> Seq<Seq<char>>
    decreases updates.len(),
{
    if updates.len() == 0 {
        before
    } else {
        applied(applied_all(before, updates.drop_last()), updates.last())
    }
}

/// Applies an update to a model: afterwards the model holds one object for
/// each entry of the update, in the update's order, and nothing else.
pub fn apply(model: &mut Vec<FileObject>, update: &Update)
    ensures
        shown(final(model)@) == applied(shown(old(model)@), update@),
{
    match update {
        Update::Replace(entries) => {
            model.clear();
            let mut i: usize = 0;
            while i < entries.len()
                invariant
                    i <= entries.len(),
                    model@.len() == i,
                    shown(model@) == paths_of(entries@).take(i as int),
                decreases entries.len() - i,
            {
                model.push(FileObject::new(&entries[i]));
                i = i + 1;
            }
        },
    }
}

/// After a series of updates a model shows what the last of them set,
/// whatever it showed before and whatever the earlier ones set.
pub proof fn theorem_last_update_wins(before: Seq<Seq<char>>, updates: Seq<UpdateView>)
    requires
        updates.len() > 0,
    ensures
        applied_all(before, updates) == applied(before, updates.last()),
{
}

} // verus!
