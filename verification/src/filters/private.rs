use vstd::prelude::*;

use crate::update::{ChatKind, Update};

verus! {

/// Passes when the update's chat is a one-on-one conversation.
#[derive(Clone, Copy, Debug, PartialEq, Eq, Structural)]
pub struct PrivateFilter;

impl PrivateFilter {
    pub open spec fn spec_passes(self, update: Update) -> bool {
        match update.spec_chat() {
            Some(chat) => chat.kind is User,
            None => false,
        }
    }

    pub fn passes(&self, update: &Update) -> (r: bool)
        ensures
            r == self.spec_passes(*update),
    {
        match update.get_chat() {
            Some(chat) => matches!(chat.kind, ChatKind::User),
            None => false,
        }
    }
}

/// Passes when the update's chat is a one-on-one conversation.
pub fn private() -> (r: PrivateFilter)
    ensures
        r == PrivateFilter,
{
    PrivateFilter
}

} // verus!
