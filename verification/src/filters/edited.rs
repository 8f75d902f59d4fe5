use vstd::prelude::*;

use crate::update::Update;

verus! {

/// Passes exactly for edited messages.
#[derive(Clone, Copy, Debug, PartialEq, Eq, Structural)]
pub struct EditedFilter;

impl EditedFilter {
    pub open spec fn spec_passes(self, update: Update) -> bool {
        update is MessageEdited
    }

    pub fn passes(&self, update: &Update) -> (r: bool)
        ensures
            r == self.spec_passes(*update),
    {
        matches!(update, Update::MessageEdited(_))
    }
}

/// Passes exactly for edited messages.
pub fn edited() -> (r: EditedFilter)
    ensures
        r == EditedFilter,
{
    EditedFilter
}

} // verus!
