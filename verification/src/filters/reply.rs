use vstd::prelude::*;

use crate::update::Update;

verus! {

/// Passes when the update's message is a reply to another message.
#[derive(Clone, Copy, Debug, PartialEq, Eq, Structural)]
pub struct ReplyFilter;

impl ReplyFilter {
    pub open spec fn spec_passes(self, update: Update) -> bool {
        match update.spec_message() {
            Some(m) => m.reply_to_message_id is Some,
            None => false,
        }
    }

    pub fn passes(&self, update: &Update) -> (r: bool)
        ensures
            r == self.spec_passes(*update),
    {
        match update {
            Update::NewMessage(m) => m.reply_to_message_id.is_some(),
            Update::MessageEdited(m) => m.reply_to_message_id.is_some(),
            _ => false,
        }
    }
}

/// Passes when the update's message is a reply to another message.
pub fn reply() -> (r: ReplyFilter)
    ensures
        r == ReplyFilter,
{
    ReplyFilter
}

} // verus!
