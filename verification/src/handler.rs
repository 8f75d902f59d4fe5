use vstd::prelude::*;

use crate::context::Context;
use crate::filters::Filter;
use crate::update::Update;

verus! {

/// The update-type mask of a handler: which update kinds it listens to.
#[derive(Clone, Copy, Debug, PartialEq, Eq, Structural)]
pub enum UpdateType {
    /// Only new messages.
    NewMessage,
    /// Only edited messages.
    MessageEdited,
    /// Only deletion notices.
    MessageDeleted,
    /// Only callback queries.
    CallbackQuery,
    /// Only inline queries.
    InlineQuery,
    /// Every update.
    Raw,
}

/// Whether an update falls under a mask.
pub open spec fn spec_type_matches(mask: UpdateType, update: Update) -> bool {
    match mask {
        UpdateType::NewMessage => update is NewMessage,
        UpdateType::MessageEdited => update is MessageEdited,
        UpdateType::MessageDeleted => update is MessageDeleted,
        UpdateType::CallbackQuery => update is CallbackQuery,
        UpdateType::InlineQuery => update is InlineQuery,
        UpdateType::Raw => true,
    }
}

/// A first-match-wins unit of work: an update-type mask, a filter, and the
/// identifier of the application callback to run on a match.
#[derive(Debug, PartialEq)]
pub struct Handler {
    pub update_type: UpdateType,
    pub func: u64,
    pub filter: Filter,
}

impl Handler {
    pub fn new(update_type: UpdateType, func: u64, filter: Filter) -> (r: Self)
        ensures
            r.update_type == update_type,
            r.func == func,
            r.filter == filter,
    {
        Self { update_type, func, filter }
    }

    /// A handler for new messages.
    pub fn new_message(func: u64, filter: Filter) -> (r: Self)
        ensures
            r == (Handler { update_type: UpdateType::NewMessage, func, filter }),
    {
        Self::new(UpdateType::NewMessage, func, filter)
    }

    /// A handler for edited messages.
    pub fn message_edited(func: u64, filter: Filter) -> (r: Self)
        ensures
            r == (Handler { update_type: UpdateType::MessageEdited, func, filter }),
    {
        Self::new(UpdateType::MessageEdited, func, filter)
    }

    /// A handler for deletion notices.
    pub fn message_deleted(func: u64, filter: Filter) -> (r: Self)
        ensures
            r == (Handler { update_type: UpdateType::MessageDeleted, func, filter }),
    {
        Self::new(UpdateType::MessageDeleted, func, filter)
    }

    /// A handler for callback queries.
    pub fn callback_query(func: u64, filter: Filter) -> (r: Self)
        ensures
            r == (Handler { update_type: UpdateType::CallbackQuery, func, filter }),
    {
        Self::new(UpdateType::CallbackQuery, func, filter)
    }

    /// A handler for inline queries.
    pub fn inline_query(func: u64, filter: Filter) -> (r: Self)
        ensures
            r == (Handler { update_type: UpdateType::InlineQuery, func, filter }),
    {
        Self::new(UpdateType::InlineQuery, func, filter)
    }

    /// A handler for every update.
    pub fn raw(func: u64, filter: Filter) -> (r: Self)
        ensures
            r == (Handler { update_type: UpdateType::Raw, func, filter }),
    {
        Self::new(UpdateType::Raw, func, filter)
    }

    /// Whether the update falls under this handler's mask.
    pub fn type_matches(&self, update: &Update) -> (r: bool)
        ensures
            r == spec_type_matches(self.update_type, *update),
    {
        match self.update_type {
            UpdateType::NewMessage => matches!(update, Update::NewMessage(_)),
            UpdateType::MessageEdited => matches!(update, Update::MessageEdited(_)),
            UpdateType::MessageDeleted => matches!(update, Update::MessageDeleted(_)),
            UpdateType::CallbackQuery => matches!(update, Update::CallbackQuery(_)),
            UpdateType::InlineQuery => matches!(update, Update::InlineQuery(_)),
            UpdateType::Raw => true,
        }
    }

    /// Whether this handler takes the update: the mask matches, and the
    /// filter passes. The mask is checked first; an incompatible update
    /// never reaches the filter.
    pub open spec fn spec_handles(self, ctx: Context, update: Update) -> bool {
        spec_type_matches(self.update_type, update) && self.filter.spec_eval(ctx, update)
    }

    /// Decide whether this handler takes the update.
    pub fn handle(&self, ctx: &Context, update: &Update) -> (r: bool)
        ensures
            r == self.spec_handles(*ctx, *update),
    {
        if self.type_matches(update) {
            self.filter.evaluate(ctx, update)
        } else {
            false
        }
    }
}

} // verus!
