use vstd::prelude::*;

use crate::update::Update;

verus! {

/// Passes exactly for deletion notices.
#[derive(Clone, Copy, Debug, PartialEq, Eq, Structural)]
pub struct DeletedFilter;

impl DeletedFilter {
    pub fn new() -> (r: Self)
        ensures
            r == DeletedFilter,
    {
        Self
    }

    pub open spec fn spec_passes(self, update: Update) -> bool {
        update is MessageDeleted
    }

    pub fn passes(&self, update: &Update) -> (r: bool)
        ensures
            r == self.spec_passes(*update),
    {
        matches!(update, Update::MessageDeleted(_))
    }
}

/// Passes exactly for deletion notices.
pub fn deleted() -> (r: DeletedFilter)
    ensures
        r == DeletedFilter,
{
    DeletedFilter::new()
}

} // verus!
