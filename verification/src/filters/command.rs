use vstd::prelude::*;

use crate::context::Context;
use crate::text::{char_in, chars_vec, is_space_char, range_eq, skip_spaces_idx, space_char,
    token_end_idx, tokens, lemma_skip_spaces_bounds, lemma_token_end_bounds};
use crate::update::Update;

verus! {

/// Whether `after` begins with `@name` followed by the end of the text or
/// whitespace.
pub open spec fn name_suffix_ok(after: Seq<char>, name: Seq<char>) -> bool {
    &&& after.len() >= name.len() + 1
    &&& after[0] == '@'
    &&& after.subrange(1, name.len() as int + 1) == name
    &&& (after.len() == name.len() + 1 || is_space_char(after[name.len() as int + 1]))
}

/// Whether `after`, the text following a command token, starts at an
/// acceptable token boundary: end of text, whitespace, or an optional
/// `@name` suffix when the acting account has one.
pub open spec fn boundary_ok(after: Seq<char>, suffix: Option<Seq<char>>) -> bool {
    ||| after.len() == 0
    ||| is_space_char(after[0])
    ||| match suffix {
        Some(name) => name_suffix_ok(after, name),
        None => false,
    }
}

/// Whether `text` invokes `command`. With an empty prefix set, the first
/// whitespace-separated token of the text must equal the command. Otherwise
/// the text must open with one prefix character, the whole command token,
/// and a boundary: end of text, whitespace, or `@name` for the resolved
/// bot name.
pub open spec fn command_matches(
    prefixes: Seq<char>,
    command: Seq<char>,
    suffix: Option<Seq<char>>,
    text: Seq<char>,
) -> bool {
    if prefixes.len() == 0 {
        tokens(text).len() > 0 && tokens(text)[0] == command
    } else {
        &&& text.len() >= command.len() + 1
        &&& prefixes.contains(text[0])
        &&& text.subrange(1, command.len() as int + 1) == command
        &&& boundary_ok(text.skip(command.len() as int + 1), suffix)
    }
}

/// Passes when the update's message invokes `command` with one of the
/// `prefixes` characters, matching whole leading tokens only.
#[derive(Clone, Debug, PartialEq)]
pub struct CommandFilter {
    pub prefixes: String,
    pub command: String,
}

impl CommandFilter {
    pub fn new(prefixes: &str, command: &str) -> (r: Self)
        ensures
            r.prefixes@ == prefixes@,
            r.command@ == command@,
    {
        Self { prefixes: prefixes.to_owned(), command: command.to_owned() }
    }

    pub open spec fn spec_passes(self, ctx: Context, update: Update) -> bool {
        match update.spec_message() {
            Some(m) => command_matches(self.prefixes@, self.command@, ctx.spec_suffix(), m.text@),
            None => false,
        }
    }

    pub fn passes(&self, ctx: &Context, update: &Update) -> (r: bool)
        ensures
            r == self.spec_passes(*ctx, *update),
    {
        match update {
            Update::NewMessage(m) => self.matches_text(ctx, m.text.as_str()),
            Update::MessageEdited(m) => self.matches_text(ctx, m.text.as_str()),
            _ => false,
        }
    }

    /// The matching core, on the message text alone.
    pub fn matches_text(&self, ctx: &Context, text: &str) -> (r: bool)
        ensures
            r == command_matches(self.prefixes@, self.command@, ctx.spec_suffix(), text@),
    {
        let chars = chars_vec(text);
        let cmd = chars_vec(self.command.as_str());
        let pref = chars_vec(self.prefixes.as_str());
        let n = chars.len();
        if pref.len() == 0 {
            // the first whitespace-separated token must equal the command
            let mut j: usize = 0;
            while j < n && space_char(chars[j])
                invariant
                    0 <= j <= n,
                    n == chars@.len(),
                    chars@ == text@,
                    skip_spaces_idx(text@, j as int) == skip_spaces_idx(text@, 0),
                decreases n - j,
            {
                j = j + 1;
            }
            proof {
                lemma_skip_spaces_bounds(text@, j as int);
                assert(skip_spaces_idx(text@, j as int) == j as int);
            }
            if j == n {
                proof {
                    assert(tokens(text@).len() == 0);
                }
                return false;
            }
            let mut k: usize = j;
            while k < n && !space_char(chars[k])
                invariant
                    0 <= j <= k <= n,
                    n == chars@.len(),
                    chars@ == text@,
                    token_end_idx(text@, k as int) == token_end_idx(text@, j as int),
                decreases n - k,
            {
                k = k + 1;
            }
            proof {
                lemma_token_end_bounds(text@, k as int);
                assert(token_end_idx(text@, k as int) == k as int);
                assert(tokens(text@)[0] == text@.subrange(j as int, k as int));
            }
            range_eq(&chars, j, k, &cmd)
        } else {
            if n == 0 {
                return false;
            }
            if cmd.len() > n - 1 {
                return false;
            }
            if !char_in(&pref, chars[0]) {
                return false;
            }
            if !range_eq(&chars, 1, 1 + cmd.len(), &cmd) {
                return false;
            }
            let pos = 1 + cmd.len();
            let ghost after = text@.skip(pos as int);
            if pos == n {
                proof {
                    assert(after.len() == 0);
                }
                return true;
            }
            proof {
                assert(after[0] == text@[pos as int]);
            }
            if space_char(chars[pos]) {
                return true;
            }
            // only an `@name` suffix can match now
            match &ctx.me {
                Some(identity) => {
                    if !identity.is_bot {
                        proof {
                            assert(ctx.spec_suffix() is None);
                        }
                        return false;
                    }
                    match &identity.username {
                        Some(username) => {
                            let name = chars_vec(username.as_str());
                            proof {
                                assert(ctx.spec_suffix() == Some(username@));
                            }
                            if chars[pos] != '@' {
                                return false;
                            }
                            if name.len() > n - (pos + 1) {
                                proof {
                                    assert(after.len() < name@.len() + 1);
                                }
                                return false;
                            }
                            if !range_eq(&chars, pos + 1, pos + 1 + name.len(), &name) {
                                proof {
                                    assert(after.subrange(1, name@.len() as int + 1)
                                        =~= text@.subrange(
                                        pos + 1,
                                        pos + 1 + name@.len() as int,
                                    ));
                                }
                                return false;
                            }
                            proof {
                                assert(after.subrange(1, name@.len() as int + 1) =~= text@.subrange(
                                    pos + 1,
                                    pos + 1 + name@.len() as int,
                                ));
                            }
                            let end = pos + 1 + name.len();
                            if end == n {
                                return true;
                            }
                            proof {
                                assert(after[name@.len() as int + 1] == text@[end as int]);
                            }
                            space_char(chars[end])
                        },
                        None => {
                            proof {
                                assert(ctx.spec_suffix() is None);
                            }
                            false
                        },
                    }
                },
                None => {
                    proof {
                        assert(ctx.spec_suffix() is None);
                    }
                    false
                },
            }
        }
    }
}

/// Passes when the update's message invokes `cmd` with one of the
/// `prefixes` characters.
pub fn command(prefixes: &str, cmd: &str) -> (r: CommandFilter)
    ensures
        r.prefixes@ == prefixes@,
        r.command@ == cmd@,
{
    CommandFilter::new(prefixes, cmd)
}

} // verus!
