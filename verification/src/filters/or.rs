use vstd::prelude::*;

use crate::filters::Filter;

verus! {

/// One of the sub-filters must pass; the second is not consulted when the
/// first already passed.
#[derive(Debug, PartialEq)]
pub struct OrFilter {
    pub first: Box<Filter>,
    pub other: Box<Filter>,
}

impl OrFilter {
    pub fn new(first: Filter, other: Filter) -> (r: Self)
        ensures
            r.first == first,
            r.other == other,
    {
        Self { first: Box::new(first), other: Box::new(other) }
    }
}

/// One of the two filters must pass.
pub fn or(first: Filter, other: Filter) -> (r: OrFilter)
    ensures
        r.first == first,
        r.other == other,
{
    OrFilter::new(first, other)
}

} // verus!
