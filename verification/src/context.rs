use vstd::prelude::*;

verus! {

/// The account the engine acts as, as resolved once from the update source.
#[derive(Clone, Debug, PartialEq)]
pub struct Identity {
    pub id: i64,
    pub username: Option<String>,
    pub is_bot: bool,
}

/// The verdict an application-supplied predicate reached for one update.
#[derive(Clone, Copy, Debug, PartialEq, Eq, Structural)]
pub struct CustomOutcome {
    pub id: u64,
    pub passed: bool,
}

/// The capability context a filter is evaluated under: the cached own
/// identity, and the verdicts of application-supplied predicates for the
/// update at hand.
#[derive(Clone, Debug, PartialEq)]
pub struct Context {
    pub me: Option<Identity>,
    pub custom_outcomes: Vec<CustomOutcome>,
}

/// First verdict recorded for predicate `id`, if any.
pub open spec fn spec_outcome_at(outcomes: Seq<CustomOutcome>, id: u64) -> Option<bool>
    decreases outcomes.len(),
{
    if outcomes.len() == 0 {
        None
    } else if outcomes[0].id == id {
        Some(outcomes[0].passed)
    } else {
        spec_outcome_at(outcomes.drop_first(), id)
    }
}

impl Context {
    /// A context with no resolved identity and no recorded verdicts.
    pub fn empty() -> (r: Context)
        ensures
            r.me is None,
            r.custom_outcomes@ =~= Seq::<CustomOutcome>::empty(),
    {
        Context { me: None, custom_outcomes: Vec::new() }
    }

    /// The name that may follow a command token, when the engine acts as a
    /// bot whose username is known.
    pub open spec fn spec_suffix(self) -> Option<Seq<char>> {
        match self.me {
            Some(identity) => if identity.is_bot {
                match identity.username {
                    Some(name) => Some(name@),
                    None => None,
                }
            } else {
                None
            },
            None => None,
        }
    }

    /// The verdict recorded for predicate `id`; an unanswered predicate
    /// does not pass.
    pub open spec fn spec_custom(self, id: u64) -> bool {
        spec_outcome_at(self.custom_outcomes@, id) == Some(true)
    }

    /// Record the verdict of an application-supplied predicate.
    pub fn record_outcome(&mut self, id: u64, passed: bool)
        ensures
            final(self).me == old(self).me,
            final(self).custom_outcomes@ == old(self).custom_outcomes@.push(
                CustomOutcome { id, passed },
            ),
    {
        self.custom_outcomes.push(CustomOutcome { id, passed });
    }

    /// Look up the verdict recorded for predicate `id`.
    pub fn custom_verdict(&self, id: u64) -> (r: Option<bool>)
        ensures
            r == spec_outcome_at(self.custom_outcomes@, id),
    {
        let mut i: usize = 0;
        proof {
            assert(self.custom_outcomes@.skip(0) =~= self.custom_outcomes@);
        }
        while i < self.custom_outcomes.len()
            invariant
                0 <= i <= self.custom_outcomes@.len(),
                spec_outcome_at(self.custom_outcomes@.skip(i as int), id) == spec_outcome_at(
                    self.custom_outcomes@,
                    id,
                ),
            decreases self.custom_outcomes@.len() - i,
        {
            let entry = self.custom_outcomes[i];
            proof {
                assert(self.custom_outcomes@.skip(i as int)[0] == entry);
                assert(self.custom_outcomes@.skip(i as int).drop_first() =~= self.custom_outcomes@.skip(
                    i as int + 1,
                ));
            }
            if entry.id == id {
                return Some(entry.passed);
            }
            i = i + 1;
        }
        proof {
            assert(self.custom_outcomes@.skip(i as int).len() == 0);
        }
        None
    }
}

} // verus!
