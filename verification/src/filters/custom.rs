use vstd::prelude::*;

use crate::context::Context;

verus! {

/// An application-supplied predicate, named by an identifier. The embedding
/// program evaluates the predicate for the update at hand and records its
/// verdict in the context before dispatch; an unanswered predicate does not
/// pass.
#[derive(Clone, Copy, Debug, PartialEq, Eq, Structural)]
pub struct CustomFilter {
    pub id: u64,
}

impl CustomFilter {
    pub fn new(id: u64) -> (r: Self)
        ensures
            r.id == id,
    {
        Self { id }
    }

    pub open spec fn spec_passes(self, ctx: Context) -> bool {
        ctx.spec_custom(self.id)
    }

    pub fn passes(&self, ctx: &Context) -> (r: bool)
        ensures
            r == self.spec_passes(*ctx),
    {
        match ctx.custom_verdict(self.id) {
            Some(v) => v,
            None => false,
        }
    }
}

/// An application-supplied predicate, named by an identifier.
pub fn custom(id: u64) -> (r: CustomFilter)
    ensures
        r.id == id,
{
    CustomFilter::new(id)
}

} // verus!
