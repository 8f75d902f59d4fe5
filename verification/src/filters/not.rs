use vstd::prelude::*;

use crate::filters::Filter;

verus! {

/// Passes exactly when the wrapped filter does not.
#[derive(Debug, PartialEq)]
pub struct NotFilter {
    pub filter: Box<Filter>,
}

impl NotFilter {
    pub fn new(filter: Filter) -> (r: Self)
        ensures
            r.filter == filter,
    {
        Self { filter: Box::new(filter) }
    }
}

/// Passes exactly when `filter` does not.
pub fn not(filter: Filter) -> (r: NotFilter)
    ensures
        r.filter == filter,
{
    NotFilter::new(filter)
}

} // verus!
