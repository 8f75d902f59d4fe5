use vstd::prelude::*;

use crate::update::Update;

verus! {

/// One cached permission lookup: whether `user_id` holds admin or creator
/// rights in `chat_id`.
#[derive(Clone, Copy, Debug, PartialEq, Eq, Structural)]
pub struct AdminRecord {
    pub chat_id: i64,
    pub user_id: i64,
    pub admin: bool,
}

/// First cached verdict for the pair, if any.
pub open spec fn spec_cached_at(cache: Seq<AdminRecord>, chat_id: i64, user_id: i64) -> Option<
    bool,
>
    decreases cache.len(),
{
    if cache.len() == 0 {
        None
    } else if cache[0].chat_id == chat_id && cache[0].user_id == user_id {
        Some(cache[0].admin)
    } else {
        spec_cached_at(cache.drop_first(), chat_id, user_id)
    }
}

/// Passes when the update's sender is cached as holding admin rights in the
/// update's chat. The permission lookup itself is outside work: the
/// embedding program asks `pending_lookup` what is missing, fetches it, and
/// fills the cache through `record` between evaluations.
#[derive(Clone, Debug, PartialEq)]
pub struct AdminFilter {
    pub cache: Vec<AdminRecord>,
}

impl AdminFilter {
    pub fn new() -> (r: Self)
        ensures
            r.cache@ =~= Seq::<AdminRecord>::empty(),
    {
        Self { cache: Vec::new() }
    }

    pub open spec fn spec_cached(self, chat_id: i64, user_id: i64) -> Option<bool> {
        spec_cached_at(self.cache@, chat_id, user_id)
    }

    /// Look up the cached verdict for a pair.
    pub fn cached(&self, chat_id: i64, user_id: i64) -> (r: Option<bool>)
        ensures
            r == self.spec_cached(chat_id, user_id),
    {
        let mut i: usize = 0;
        proof {
            assert(self.cache@.skip(0) =~= self.cache@);
        }
        while i < self.cache.len()
            invariant
                0 <= i <= self.cache@.len(),
                spec_cached_at(self.cache@.skip(i as int), chat_id, user_id) == spec_cached_at(
                    self.cache@,
                    chat_id,
                    user_id,
                ),
            decreases self.cache@.len() - i,
        {
            let entry = self.cache[i];
            proof {
                assert(self.cache@.skip(i as int)[0] == entry);
                assert(self.cache@.skip(i as int).drop_first() =~= self.cache@.skip(i as int + 1));
            }
            if entry.chat_id == chat_id && entry.user_id == user_id {
                return Some(entry.admin);
            }
            i = i + 1;
        }
        proof {
            assert(self.cache@.skip(i as int).len() == 0);
        }
        None
    }

    /// Record the outcome of a permission lookup.
    pub fn record(&mut self, chat_id: i64, user_id: i64, admin: bool)
        ensures
            final(self).cache@ == old(self).cache@.push(AdminRecord { chat_id, user_id, admin }),
    {
        self.cache.push(AdminRecord { chat_id, user_id, admin });
    }

    /// The (chat, user) pair whose permissions the update asks about and the
    /// cache does not yet answer, if any.
    pub fn pending_lookup(&self, update: &Update) -> (r: Option<(i64, i64)>)
        ensures
            r == self.spec_pending(*update),
    {
        match (update.get_chat(), update.get_sender()) {
            (Some(chat), Some(sender)) => {
                if self.cached(chat.id, sender.id).is_none() {
                    Some((chat.id, sender.id))
                } else {
                    None
                }
            },
            _ => None,
        }
    }

    pub open spec fn spec_pending(self, update: Update) -> Option<(i64, i64)> {
        match (update.spec_chat(), update.spec_sender()) {
            (Some(chat), Some(sender)) => if self.spec_cached(chat.id, sender.id) is None {
                Some((chat.id, sender.id))
            } else {
                None
            },
            _ => None,
        }
    }

    pub open spec fn spec_passes(self, update: Update) -> bool {
        match (update.spec_chat(), update.spec_sender()) {
            (Some(chat), Some(sender)) => self.spec_cached(chat.id, sender.id) == Some(true),
            _ => false,
        }
    }

    pub fn passes(&self, update: &Update) -> (r: bool)
        ensures
            r == self.spec_passes(*update),
    {
        match (update.get_chat(), update.get_sender()) {
            (Some(chat), Some(sender)) => {
                match self.cached(chat.id, sender.id) {
                    Some(v) => v,
                    None => false,
                }
            },
            _ => false,
        }
    }
}

/// Passes when the update's sender is cached as holding admin rights in the
/// update's chat.
pub fn admin() -> (r: AdminFilter)
    ensures
        r.cache@ =~= Seq::<AdminRecord>::empty(),
{
    AdminFilter::new()
}

} // verus!
