use vstd::prelude::*;

use crate::text::{chars_vec, contains_chars, contains_seq};
use crate::update::Update;

verus! {

/// Passes when the update's message contains `text` as a contiguous run.
#[derive(Clone, Debug, PartialEq)]
pub struct TextFilter {
    pub text: String,
}

impl TextFilter {
    pub fn new(text: &str) -> (r: Self)
        ensures
            r.text@ == text@,
    {
        Self { text: text.to_owned() }
    }

    pub open spec fn spec_passes(self, update: Update) -> bool {
        match update.spec_message() {
            Some(m) => contains_seq(m.text@, self.text@),
            None => false,
        }
    }

    pub fn passes(&self, update: &Update) -> (r: bool)
        ensures
            r == self.spec_passes(*update),
    {
        match update {
            Update::NewMessage(m) => {
                let hay = chars_vec(m.text.as_str());
                let needle = chars_vec(self.text.as_str());
                contains_chars(&hay, &needle)
            },
            Update::MessageEdited(m) => {
                let hay = chars_vec(m.text.as_str());
                let needle = chars_vec(self.text.as_str());
                contains_chars(&hay, &needle)
            },
            _ => false,
        }
    }
}

/// Passes when the update's message contains `needle` as a contiguous run.
pub fn text(needle: &str) -> (r: TextFilter)
    ensures
        r.text@ == needle@,
{
    TextFilter::new(needle)
}

} // verus!
