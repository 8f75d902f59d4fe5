use vstd::prelude::*;

use crate::filters::PatternError;
use crate::text::{char_idx_from, char_in, chars_vec, digit_char, find_char, is_digit_char,
    is_word_char, lemma_char_idx_bounds, lemma_char_idx_contains, range_eq, range_without_char,
    split_tokens, tokens, vec_eq, without_char, word_char};
use crate::update::Update;

verus! {

/// The value class a query placeholder accepts.
#[derive(Clone, Copy, Debug, PartialEq, Eq, Structural)]
pub enum ParamKind {
    /// Any token.
    All,
    /// A run of decimal digits.
    Int,
    /// A run of word characters.
    Str,
    /// A run of non-word characters.
    Sym,
    /// One of: true, false, yes, no, 1, 0.
    Bool,
    /// Digits, a dot, digits.
    Float,
}

/// One element of a compiled query pattern.
#[derive(Clone, Debug, PartialEq)]
pub enum QueryPart {
    /// A token the text must reproduce verbatim.
    Literal(String),
    /// A placeholder, possibly optional.
    Param { kind: ParamKind, optional: bool },
}

/// A pattern token that is kept verbatim: the leading word, a word with a
/// group character, or a word without a placeholder separator.
pub open spec fn is_literal_tok(tok: Seq<char>, first: bool) -> bool {
    first || tok.contains('(') || !tok.contains(':')
}

/// The type tag of a placeholder token: what stands between the first and
/// the second separator, with any optionality marks removed.
pub open spec fn tok_tag(tok: Seq<char>) -> Seq<char> {
    let c1 = char_idx_from(tok, ':', 0);
    let c2 = char_idx_from(tok, ':', c1 + 1);
    without_char(tok.subrange(c1 + 1, c2), '?')
}

pub open spec fn is_maybe_word(w: Seq<char>) -> bool {
    w == "my"@ || w == "may"@ || w == "maybe"@
}

/// Whether some separator-delimited part of `tok` after position `i`
/// marks the placeholder optional. `i` is a separator position or the
/// token's length.
pub open spec fn has_maybe_marker_from(tok: Seq<char>, i: int) -> bool
    decreases tok.len() - i,
    via has_maybe_marker_from_decreases
{
    if i < 0 || i >= tok.len() {
        false
    } else {
        let nxt = char_idx_from(tok, ':', i + 1);
        is_maybe_word(tok.subrange(i + 1, nxt)) || has_maybe_marker_from(tok, nxt)
    }
}

#[via_fn]
proof fn has_maybe_marker_from_decreases(tok: Seq<char>, i: int) {
    if 0 <= i < tok.len() {
        lemma_char_idx_bounds(tok, ':', i + 1);
    }
}

/// Whether a placeholder token is marked optional: a question mark
/// anywhere, or a trailing maybe-marker.
pub open spec fn tok_optional(tok: Seq<char>) -> bool {
    tok.contains('?') || has_maybe_marker_from(
        tok,
        char_idx_from(tok, ':', char_idx_from(tok, ':', 0) + 1),
    )
}

/// The placeholder kind a type tag names, if any.
pub open spec fn tag_kind(tag: Seq<char>) -> Option<ParamKind> {
    if tag == "all"@ {
        Some(ParamKind::All)
    } else if tag == "int"@ {
        Some(ParamKind::Int)
    } else if tag == "str"@ {
        Some(ParamKind::Str)
    } else if tag == "sym"@ {
        Some(ParamKind::Sym)
    } else if tag == "bool"@ {
        Some(ParamKind::Bool)
    } else if tag == "float"@ || tag == "double"@ {
        Some(ParamKind::Float)
    } else {
        None
    }
}

/// Whether construction accepts this pattern token: every placeholder must
/// name a known type tag.
pub open spec fn query_tok_ok(tok: Seq<char>, first: bool) -> bool {
    is_literal_tok(tok, first) || tag_kind(tok_tag(tok)) is Some
}

/// How a compiled part relates to the pattern token it came from.
pub open spec fn part_matches_tok(p: QueryPart, tok: Seq<char>, first: bool) -> bool {
    if is_literal_tok(tok, first) {
        match p {
            QueryPart::Literal(l) => l@ == tok,
            _ => false,
        }
    } else {
        match p {
            QueryPart::Param { kind, optional } => tag_kind(tok_tag(tok)) == Some(kind)
                && optional == tok_optional(tok),
            _ => false,
        }
    }
}

/// A float-shaped token: digits, one dot, digits.
pub open spec fn float_tok(t: Seq<char>) -> bool {
    let d = char_idx_from(t, '.', 0);
    &&& 1 <= d
    &&& d + 1 < t.len()
    &&& forall|i: int| 0 <= i < d ==> is_digit_char(#[trigger] t[i])
    &&& forall|i: int| d < i < t.len() ==> is_digit_char(#[trigger] t[i])
}

/// Whether one text token satisfies a placeholder kind.
pub open spec fn kind_matches(kind: ParamKind, t: Seq<char>) -> bool {
    match kind {
        ParamKind::All => t.len() > 0,
        ParamKind::Int => t.len() > 0 && forall|i: int|
            0 <= i < t.len() ==> is_digit_char(#[trigger] t[i]),
        ParamKind::Str => t.len() > 0 && forall|i: int|
            0 <= i < t.len() ==> is_word_char(#[trigger] t[i]),
        ParamKind::Sym => t.len() > 0 && forall|i: int|
            0 <= i < t.len() ==> !is_word_char(#[trigger] t[i]),
        ParamKind::Bool => t == "true"@ || t == "false"@ || t == "yes"@ || t == "no"@ || t == "1"@
            || t == "0"@,
        ParamKind::Float => float_tok(t),
    }
}

/// Whether the pattern matches the leading tokens of the text: literals
/// verbatim, placeholders by kind, optional placeholders skippable.
pub open spec fn parts_match(parts: Seq<QueryPart>, toks: Seq<Seq<char>>) -> bool
    decreases parts.len(),
{
    if parts.len() == 0 {
        true
    } else {
        match parts[0] {
            QueryPart::Literal(l) => toks.len() > 0 && toks[0] == l@ && parts_match(
                parts.drop_first(),
                toks.drop_first(),
            ),
            QueryPart::Param { kind, optional } => (toks.len() > 0 && kind_matches(kind, toks[0])
                && parts_match(parts.drop_first(), toks.drop_first())) || (optional && parts_match(
                parts.drop_first(),
                toks,
            )),
        }
    }
}

/// Passes when the update's text matches a small placeholder grammar,
/// compiled once at construction. Unknown type tags are a construction-time
/// error.
#[derive(Clone, Debug, PartialEq)]
pub struct QueryFilter {
    pub parts: Vec<QueryPart>,
}

impl QueryFilter {
    /// Compile a pattern. The leading word is literal; later words of the
    /// form `name:tag` become placeholders; a question mark or a
    /// maybe-marker makes a placeholder optional; an unknown tag is
    /// rejected.
    pub fn new(pattern: &str) -> (r: Result<Self, PatternError>)
        ensures
            r is Ok <==> (forall|i: int|
                0 <= i < tokens(pattern@).len() ==> query_tok_ok(
                    #[trigger] tokens(pattern@)[i],
                    i == 0,
                )),
            r is Err ==> r->Err_0 == PatternError::UnknownTag,
            r is Ok ==> r->Ok_0.parts@.len() == tokens(pattern@).len(),
            r is Ok ==> forall|i: int|
                0 <= i < tokens(pattern@).len() ==> part_matches_tok(
                    #[trigger] r->Ok_0.parts@[i],
                    tokens(pattern@)[i],
                    i == 0,
                ),
    {
        let toks = split_tokens(pattern);
        let mut parts: Vec<QueryPart> = Vec::new();
        let mut i: usize = 0;
        proof {
            assert(toks.deep_view().len() == toks@.len());
        }
        while i < toks.len()
            invariant
                toks.deep_view() == tokens(pattern@),
                toks.deep_view().len() == toks@.len(),
                0 <= i <= toks@.len(),
                parts@.len() == i as int,
                forall|w: int|
                    0 <= w < i ==> part_matches_tok(
                        #[trigger] parts@[w],
                        tokens(pattern@)[w],
                        w == 0,
                    ),
                forall|w: int|
                    0 <= w < i ==> query_tok_ok(#[trigger] tokens(pattern@)[w], w == 0),
            decreases toks@.len() - i,
        {
            let tok = &toks[i];
            proof {
                assert(toks.deep_view()[i as int] == tok@);
            }
            let chars = chars_vec(tok.as_str());
            let has_group = char_in(&chars, '(');
            let has_colon = char_in(&chars, ':');
            if i == 0 || has_group || !has_colon {
                parts.push(QueryPart::Literal(tok.clone()));
                proof {
                    assert(is_literal_tok(tok@, i == 0));
                    assert(part_matches_tok(parts@[i as int], tokens(pattern@)[i as int], i == 0));
                }
            } else {
                proof {
                    lemma_char_idx_contains(tok@, ':');
                }
                let c1 = find_char(&chars, ':', 0);
                let c2 = find_char(&chars, ':', c1 + 1);
                let tag = range_without_char(&chars, c1 + 1, c2, '?');
                proof {
                    assert(tag@ == tok_tag(tok@));
                }
                let kind_opt: Option<ParamKind> = if vec_eq(&tag, &chars_vec("all")) {
                    Some(ParamKind::All)
                } else if vec_eq(&tag, &chars_vec("int")) {
                    Some(ParamKind::Int)
                } else if vec_eq(&tag, &chars_vec("str")) {
                    Some(ParamKind::Str)
                } else if vec_eq(&tag, &chars_vec("sym")) {
                    Some(ParamKind::Sym)
                } else if vec_eq(&tag, &chars_vec("bool")) {
                    Some(ParamKind::Bool)
                } else if vec_eq(&tag, &chars_vec("float")) {
                    Some(ParamKind::Float)
                } else if vec_eq(&tag, &chars_vec("double")) {
                    Some(ParamKind::Float)
                } else {
                    None
                };
                proof {
                    assert(kind_opt == tag_kind(tok_tag(tok@)));
                }
                match kind_opt {
                    Some(kind) => {
                        let has_q = char_in(&chars, '?');
                        let optional = if has_q {
                            true
                        } else {
                            Self::markers_maybe(&chars, c2)
                        };
                        proof {
                            assert(optional == tok_optional(tok@));
                        }
                        parts.push(QueryPart::Param { kind, optional });
                        proof {
                            assert(part_matches_tok(
                                parts@[i as int],
                                tokens(pattern@)[i as int],
                                i == 0,
                            ));
                        }
                    },
                    None => {
                        proof {
                            assert(!query_tok_ok(tokens(pattern@)[i as int], i == 0));
                        }
                        return Err(PatternError::UnknownTag);
                    },
                }
            }
            i = i + 1;
        }
        Ok(Self { parts })
    }

    /// Whether a maybe-marker follows position `start` (a separator
    /// position, or the token's length).
    fn markers_maybe(chars: &Vec<char>, start: usize) -> (r: bool)
        requires
            start <= chars@.len(),
        ensures
            r == has_maybe_marker_from(chars@, start as int),
        decreases chars@.len() - start,
    {
        if start >= chars.len() {
            false
        } else {
            let nxt = find_char(chars, ':', start + 1);
            if range_eq(chars, start + 1, nxt, &chars_vec("my")) || range_eq(
                chars,
                start + 1,
                nxt,
                &chars_vec("may"),
            ) || range_eq(chars, start + 1, nxt, &chars_vec("maybe")) {
                true
            } else {
                Self::markers_maybe(chars, nxt)
            }
        }
    }

    pub open spec fn spec_passes(self, update: Update) -> bool {
        parts_match(self.parts@, tokens(update.spec_text()))
    }

    pub fn passes(&self, update: &Update) -> (r: bool)
        ensures
            r == self.spec_passes(*update),
    {
        match update {
            Update::NewMessage(m) => {
                let toks = split_tokens(m.text.as_str());
                let r = Self::match_from(&self.parts, 0, &toks, 0);
                proof {
                    assert(self.parts@.skip(0) =~= self.parts@);
                    assert(toks.deep_view().skip(0) =~= toks.deep_view());
                    assert(r == self.spec_passes(*update));
                }
                r
            },
            Update::MessageEdited(m) => {
                let toks = split_tokens(m.text.as_str());
                let r = Self::match_from(&self.parts, 0, &toks, 0);
                proof {
                    assert(self.parts@.skip(0) =~= self.parts@);
                    assert(toks.deep_view().skip(0) =~= toks.deep_view());
                    assert(r == self.spec_passes(*update));
                }
                r
            },
            Update::CallbackQuery(q) => {
                let toks = split_tokens(q.data.as_str());
                let r = Self::match_from(&self.parts, 0, &toks, 0);
                proof {
                    assert(self.parts@.skip(0) =~= self.parts@);
                    assert(toks.deep_view().skip(0) =~= toks.deep_view());
                    assert(r == self.spec_passes(*update));
                }
                r
            },
            _ => {
                let toks: Vec<String> = Vec::new();
                proof {
                    assert(toks.deep_view() =~= Seq::<Seq<char>>::empty());
                    assert(tokens(update.spec_text()) =~= Seq::<Seq<char>>::empty());
                }
                let r = Self::match_from(&self.parts, 0, &toks, 0);
                proof {
                    assert(self.parts@.skip(0) =~= self.parts@);
                    assert(toks.deep_view().skip(0) =~= toks.deep_view());
                    assert(r == self.spec_passes(*update));
                }
                r
            },
        }
    }

    /// Match pattern elements from `pi` on against text tokens from `ti`
    /// on.
    fn match_from(parts: &Vec<QueryPart>, pi: usize, toks: &Vec<String>, ti: usize) -> (r: bool)
        requires
            pi <= parts@.len(),
            ti <= toks@.len(),
        ensures
            r == parts_match(parts@.skip(pi as int), toks.deep_view().skip(ti as int)),
        decreases parts@.len() - pi,
    {
        proof {
            assert(toks.deep_view().len() == toks@.len());
        }
        if pi == parts.len() {
            proof {
                assert(parts@.skip(pi as int).len() == 0);
            }
            true
        } else {
            proof {
                assert(parts@.skip(pi as int)[0] == parts@[pi as int]);
                assert(parts@.skip(pi as int).drop_first() =~= parts@.skip(pi as int + 1));
                if (ti as int) < toks@.len() {
                    assert(toks.deep_view().skip(ti as int)[0] == toks.deep_view()[ti as int]);
                    assert(toks.deep_view().skip(ti as int).drop_first() =~= toks.deep_view().skip(
                        ti as int + 1,
                    ));
                }
            }
            match &parts[pi] {
                QueryPart::Literal(l) => {
                    if ti == toks.len() {
                        false
                    } else {
                        let tk = &toks[ti];
                        if *tk == *l {
                            Self::match_from(parts, pi + 1, toks, ti + 1)
                        } else {
                            false
                        }
                    }
                },
                QueryPart::Param { kind, optional } => {
                    let direct = if ti < toks.len() {
                        if Self::kind_check(*kind, &toks[ti]) {
                            Self::match_from(parts, pi + 1, toks, ti + 1)
                        } else {
                            false
                        }
                    } else {
                        false
                    };
                    if direct {
                        true
                    } else if *optional {
                        Self::match_from(parts, pi + 1, toks, ti)
                    } else {
                        false
                    }
                },
            }
        }
    }

    /// Whether one text token satisfies a placeholder kind.
    #[verifier::loop_isolation(false)]
    fn kind_check(kind: ParamKind, t: &String) -> (r: bool)
        ensures
            r == kind_matches(kind, t@),
    {
        let chars = chars_vec(t.as_str());
        match kind {
            ParamKind::All => chars.len() > 0,
            ParamKind::Int => {
                if chars.len() == 0 {
                    return false;
                }
                let mut i: usize = 0;
                while i < chars.len()
                    invariant
                        0 <= i <= chars@.len(),
                        chars@ == t@,
                        forall|w: int| 0 <= w < i ==> is_digit_char(#[trigger] chars@[w]),
                    decreases chars@.len() - i,
                {
                    if !digit_char(chars[i]) {
                        proof {
                            assert(!is_digit_char(t@[i as int]));
                        }
                        return false;
                    }
                    i = i + 1;
                }
                true
            },
            ParamKind::Str => {
                if chars.len() == 0 {
                    return false;
                }
                let mut i: usize = 0;
                while i < chars.len()
                    invariant
                        0 <= i <= chars@.len(),
                        chars@ == t@,
                        forall|w: int| 0 <= w < i ==> is_word_char(#[trigger] chars@[w]),
                    decreases chars@.len() - i,
                {
                    if !word_char(chars[i]) {
                        proof {
                            assert(!is_word_char(t@[i as int]));
                        }
                        return false;
                    }
                    i = i + 1;
                }
                true
            },
            ParamKind::Sym => {
                if chars.len() == 0 {
                    return false;
                }
                let mut i: usize = 0;
                while i < chars.len()
                    invariant
                        0 <= i <= chars@.len(),
                        chars@ == t@,
                        forall|w: int| 0 <= w < i ==> !is_word_char(#[trigger] chars@[w]),
                    decreases chars@.len() - i,
                {
                    if word_char(chars[i]) {
                        proof {
                            assert(is_word_char(t@[i as int]));
                        }
                        return false;
                    }
                    i = i + 1;
                }
                true
            },
            ParamKind::Bool => {
                vec_eq(&chars, &chars_vec("true")) || vec_eq(&chars, &chars_vec("false")) || vec_eq(
                    &chars,
                    &chars_vec("yes"),
                ) || vec_eq(&chars, &chars_vec("no")) || vec_eq(&chars, &chars_vec("1")) || vec_eq(
                    &chars,
                    &chars_vec("0"),
                )
            },
            ParamKind::Float => {
                proof {
                    lemma_char_idx_bounds(t@, '.', 0);
                }
                let d = find_char(&chars, '.', 0);
                if d == 0 || d >= chars.len() - 1 {
                    return false;
                }
                let mut i: usize = 0;
                while i < d
                    invariant
                        0 <= i <= d,
                        d < chars@.len(),
                        chars@ == t@,
                        forall|w: int| 0 <= w < i ==> is_digit_char(#[trigger] chars@[w]),
                    decreases d - i,
                {
                    if !digit_char(chars[i]) {
                        proof {
                            assert(!is_digit_char(t@[i as int]));
                        }
                        return false;
                    }
                    i = i + 1;
                }
                let mut j: usize = d + 1;
                while j < chars.len()
                    invariant
                        d < j <= chars@.len(),
                        chars@ == t@,
                        forall|w: int| d < w < j ==> is_digit_char(#[trigger] chars@[w]),
                    decreases chars@.len() - j,
                {
                    if !digit_char(chars[j]) {
                        proof {
                            assert(!is_digit_char(t@[j as int]));
                        }
                        return false;
                    }
                    j = j + 1;
                }
                true
            },
        }
    }
}

/// Passes when the update's text matches the placeholder grammar compiled
/// from `pattern`.
pub fn query(pattern: &str) -> (r: Result<QueryFilter, PatternError>)
    ensures
        r is Ok <==> (forall|i: int|
            0 <= i < tokens(pattern@).len() ==> query_tok_ok(
                #[trigger] tokens(pattern@)[i],
                i == 0,
            )),
        r is Err ==> r->Err_0 == PatternError::UnknownTag,
        r is Ok ==> r->Ok_0.parts@.len() == tokens(pattern@).len(),
        r is Ok ==> forall|i: int|
            0 <= i < tokens(pattern@).len() ==> part_matches_tok(
                #[trigger] r->Ok_0.parts@[i],
                tokens(pattern@)[i],
                i == 0,
            ),
{
    QueryFilter::new(pattern)
}

} // verus!
