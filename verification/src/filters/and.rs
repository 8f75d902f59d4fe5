use vstd::prelude::*;

use crate::filters::Filter;

verus! {

/// Both sub-filters must pass; the second is not consulted when the first
/// already failed.
#[derive(Debug, PartialEq)]
pub struct AndFilter {
    pub first: Box<Filter>,
    pub second: Box<Filter>,
}

impl AndFilter {
    pub fn new(first: Filter, second: Filter) -> (r: Self)
        ensures
            r.first == first,
            r.second == second,
    {
        Self { first: Box::new(first), second: Box::new(second) }
    }
}

/// Both filters must pass.
pub fn and(first: Filter, second: Filter) -> (r: AndFilter)
    ensures
        r.first == first,
        r.second == second,
{
    AndFilter::new(first, second)
}

} // verus!
