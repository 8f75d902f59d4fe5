use vstd::prelude::*;

use crate::filters::PatternError;
use crate::re::{regex_is_match, regex_match, regex_pattern_ok, regex_valid};
use crate::update::Update;

verus! {

/// Passes when a regular expression matches the update's text. Patterns
/// are case-sensitive and checked when the filter is built.
#[derive(Debug, PartialEq)]
pub struct RegexFilter {
    pattern: String,
}

impl RegexFilter {
    /// The pattern this filter was built from.
    pub closed spec fn spec_pattern(self) -> Seq<char> {
        self.pattern@
    }

    #[verifier::type_invariant]
    spec fn type_inv(self) -> bool {
        regex_valid(self.pattern@)
    }

    /// Build the filter, rejecting malformed patterns before dispatch
    /// starts.
    pub fn new(pattern: &str) -> (r: Result<Self, PatternError>)
        ensures
            r is Ok <==> regex_valid(pattern@),
            r is Ok ==> r->Ok_0.spec_pattern() == pattern@,
            r is Err ==> r->Err_0 == PatternError::InvalidRegex,
    {
        if regex_pattern_ok(pattern) {
            Ok(Self { pattern: pattern.to_owned() })
        } else {
            Err(PatternError::InvalidRegex)
        }
    }

    pub open spec fn spec_passes(self, update: Update) -> bool {
        regex_match(self.spec_pattern(), update.spec_text())
    }

    pub fn passes(&self, update: &Update) -> (r: bool)
        ensures
            r == self.spec_passes(*update),
    {
        proof {
            use_type_invariant(&*self);
        }
        let r = match update {
            Update::NewMessage(m) => {
                proof {
                    assert(update.spec_text() == m.text@);
                }
                let rr = regex_is_match(self.pattern.as_str(), m.text.as_str());
                proof {
                    assert(rr == regex_match(self.pattern@, update.spec_text()));
                }
                rr
            },
            Update::MessageEdited(m) => {
                let rr = regex_is_match(self.pattern.as_str(), m.text.as_str());
                proof {
                    assert(rr == regex_match(self.pattern@, update.spec_text()));
                }
                rr
            },
            Update::CallbackQuery(q) => {
                let rr = regex_is_match(self.pattern.as_str(), q.data.as_str());
                proof {
                    assert(rr == regex_match(self.pattern@, update.spec_text()));
                }
                rr
            },
            _ => {
                proof {
                    reveal_strlit("");
                }
                let rr = regex_is_match(self.pattern.as_str(), "");
                proof {
                    assert(update.spec_text() =~= ""@);
                    assert(rr == regex_match(self.pattern@, update.spec_text()));
                }
                rr
            },
        };
        proof {
            assert(r == regex_match(self.pattern@, update.spec_text()));
            assert(self.spec_pattern() == self.pattern@);
        }
        r
    }
}

/// Passes when `pattern` matches the update's text.
pub fn regex(pattern: &str) -> (r: Result<RegexFilter, PatternError>)
    ensures
        r is Ok <==> regex_valid(pattern@),
        r is Ok ==> r->Ok_0.spec_pattern() == pattern@,
        r is Err ==> r->Err_0 == PatternError::InvalidRegex,
{
    RegexFilter::new(pattern)
}

} // verus!
