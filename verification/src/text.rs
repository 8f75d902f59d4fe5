use vstd::prelude::*;

verus! {

/// Whitespace, for the purpose of splitting text into tokens.
pub open spec fn is_space_char(c: char) -> bool {
    c == ' ' || c == '\t' || c == '\n' || c == '\r'
}

/// A decimal digit.
pub open spec fn is_digit_char(c: char) -> bool {
    '0' <= c && c <= '9'
}

/// A word character: a letter, a digit, or an underscore.
pub open spec fn is_word_char(c: char) -> bool {
    ('a' <= c && c <= 'z') || ('A' <= c && c <= 'Z') || is_digit_char(c) || c == '_'
}

pub fn space_char(c: char) -> (r: bool)
    ensures
        r == is_space_char(c),
{
    c == ' ' || c == '\t' || c == '\n' || c == '\r'
}

pub fn digit_char(c: char) -> (r: bool)
    ensures
        r == is_digit_char(c),
{
    '0' <= c && c <= '9'
}

pub fn word_char(c: char) -> (r: bool)
    ensures
        r == is_word_char(c),
{
    ('a' <= c && c <= 'z') || ('A' <= c && c <= 'Z') || digit_char(c) || c == '_'
}

/// The characters of a string, as a vector.
pub fn chars_vec(s: &str) -> (r: Vec<char>)
    ensures
        r@ == s@,
{
    let n = s.unicode_len();
    let mut r: Vec<char> = Vec::new();
    let mut i: usize = 0;
    while i < n
        invariant
            i <= n,
            n == s@.len(),
            r@ == s@.take(i as int),
        decreases n - i,
    {
        r.push(s.get_char(i));
        proof {
            assert(r@ =~= s@.take(i + 1));
        }
        i = i + 1;
    }
    proof {
        assert(r@ =~= s@);
    }
    r
}

/// The first position at or after `i` that holds a non-space character,
/// or the length of `s` if there is none.
pub open spec fn skip_spaces_idx(s: Seq<char>, i: int) -> int
    decreases s.len() - i,
{
    if i < 0 || i >= s.len() {
        s.len() as int
    } else if is_space_char(s[i]) {
        skip_spaces_idx(s, i + 1)
    } else {
        i
    }
}

/// The first position at or after `i` that holds a space character,
/// or the length of `s` if there is none.
pub open spec fn token_end_idx(s: Seq<char>, i: int) -> int
    decreases s.len() - i,
{
    if i < 0 || i >= s.len() {
        s.len() as int
    } else if is_space_char(s[i]) {
        i
    } else {
        token_end_idx(s, i + 1)
    }
}

pub proof fn lemma_skip_spaces_bounds(s: Seq<char>, i: int)
    requires
        0 <= i <= s.len(),
    ensures
        i <= skip_spaces_idx(s, i) <= s.len(),
        skip_spaces_idx(s, i) < s.len() ==> !is_space_char(s[skip_spaces_idx(s, i)]),
    decreases s.len() - i,
{
    if i < s.len() && is_space_char(s[i]) {
        lemma_skip_spaces_bounds(s, i + 1);
    }
}

pub proof fn lemma_token_end_bounds(s: Seq<char>, i: int)
    requires
        0 <= i <= s.len(),
    ensures
        i <= token_end_idx(s, i) <= s.len(),
        token_end_idx(s, i) < s.len() ==> is_space_char(s[token_end_idx(s, i)]),
        i < s.len() && !is_space_char(s[i]) ==> token_end_idx(s, i) > i,
    decreases s.len() - i,
{
    if i < s.len() && !is_space_char(s[i]) {
        lemma_token_end_bounds(s, i + 1);
    }
}

/// The whitespace-separated tokens of `s`, from position `i` on.
pub open spec fn tokens_from(s: Seq<char>, i: int) -> Seq<Seq<char>>
    decreases s.len() - i,
    via tokens_from_decreases
{
    let j = skip_spaces_idx(s, i);
    if j >= s.len() {
        Seq::empty()
    } else {
        let k = token_end_idx(s, j);
        seq![s.subrange(j, k)] + tokens_from(s, k)
    }
}

#[via_fn]
proof fn tokens_from_decreases(s: Seq<char>, i: int) {
    if 0 <= i <= s.len() {
        lemma_skip_spaces_bounds(s, i);
        let j = skip_spaces_idx(s, i);
        if j < s.len() {
            lemma_token_end_bounds(s, j);
        }
    }
}

/// The whitespace-separated tokens of `s`.
pub open spec fn tokens(s: Seq<char>) -> Seq<Seq<char>> {
    tokens_from(s, 0)
}

/// Split a string into its whitespace-separated tokens.
pub fn split_tokens(s: &str) -> (r: Vec<String>)
    ensures
        r.deep_view() == tokens(s@),
{
    let n = s.unicode_len();
    let mut r: Vec<String> = Vec::new();
    let mut i: usize = 0;
    proof {
        assert(r.deep_view() =~= Seq::<Seq<char>>::empty());
    }
    while i < n
        invariant
            0 <= i <= n,
            n == s@.len(),
            tokens(s@) == r.deep_view() + tokens_from(s@, i as int),
        decreases n - i,
    {
        let ghost prev = i as int;
        // advance over spaces
        let mut j: usize = i;
        while j < n && space_char(s.get_char(j))
            invariant
                0 <= i <= j <= n,
                n == s@.len(),
                skip_spaces_idx(s@, j as int) == skip_spaces_idx(s@, i as int),
            decreases n - j,
        {
            j = j + 1;
        }
        proof {
            lemma_skip_spaces_bounds(s@, j as int);
            assert(skip_spaces_idx(s@, j as int) == j as int);
        }
        if j == n {
            proof {
                assert(tokens_from(s@, prev) =~= Seq::<Seq<char>>::empty());
                assert(tokens(s@) =~= r.deep_view());
            }
            i = n;
        } else {
            // advance over the token
            let mut k: usize = j;
            while k < n && !space_char(s.get_char(k))
                invariant
                    0 <= j <= k <= n,
                    n == s@.len(),
                    token_end_idx(s@, k as int) == token_end_idx(s@, j as int),
                decreases n - k,
            {
                k = k + 1;
            }
            proof {
                lemma_token_end_bounds(s@, k as int);
                assert(token_end_idx(s@, k as int) == k as int);
            }
            let tok = s.substring_char(j, k).to_owned();
            let ghost pre_deep = r.deep_view();
            let ghost tok_seq = tok@;
            r.push(tok);
            proof {
                let tail = tokens_from(s@, k as int);
                assert(tokens_from(s@, prev) =~= seq![s@.subrange(j as int, k as int)] + tail);
                assert(r.deep_view() =~= pre_deep + seq![tok_seq]);
                assert(r.deep_view() + tail =~= pre_deep + tokens_from(s@, prev));
            }
            i = k;
        }
    }
    proof {
        assert(tokens_from(s@, n as int) =~= Seq::<Seq<char>>::empty());
        assert(tokens(s@) =~= r.deep_view());
    }
    r
}

/// Membership test over a character vector.
pub fn char_in(v: &Vec<char>, c: char) -> (r: bool)
    ensures
        r == v@.contains(c),
{
    let mut i: usize = 0;
    while i < v.len()
        invariant
            0 <= i <= v@.len(),
            forall|w: int| 0 <= w < i ==> v@[w] != c,
        decreases v@.len() - i,
    {
        if v[i] == c {
            return true;
        }
        i = i + 1;
    }
    false
}

/// Equality of the range `[from, to)` of `a` against the whole of `b`.
pub fn range_eq(a: &Vec<char>, from: usize, to: usize, b: &Vec<char>) -> (r: bool)
    requires
        from <= to <= a@.len(),
    ensures
        r == (a@.subrange(from as int, to as int) == b@),
{
    if to - from != b.len() {
        proof {
            assert(a@.subrange(from as int, to as int).len() == to - from);
        }
        return false;
    }
    let mut t: usize = 0;
    while t < b.len()
        invariant
            from <= to <= a@.len(),
            to - from == b@.len(),
            0 <= t <= b@.len(),
            forall|w: int| 0 <= w < t ==> a@[from + w] == b@[w],
        decreases b@.len() - t,
    {
        if a[from + t] != b[t] {
            proof {
                assert(a@.subrange(from as int, to as int)[t as int] != b@[t as int]);
            }
            return false;
        }
        t = t + 1;
    }
    proof {
        assert(a@.subrange(from as int, to as int) =~= b@);
    }
    true
}

/// `needle` occurs in `hay` as a contiguous run of characters.
pub open spec fn contains_seq(hay: Seq<char>, needle: Seq<char>) -> bool {
    exists|i: int|
        0 <= i && i + needle.len() <= hay.len() && #[trigger] hay.subrange(i, i + needle.len())
            == needle
}

/// Substring search over character vectors.
pub fn contains_chars(hay: &Vec<char>, needle: &Vec<char>) -> (r: bool)
    ensures
        r == contains_seq(hay@, needle@),
{
    let m = needle.len();
    let n = hay.len();
    if m > n {
        proof {
            assert(!contains_seq(hay@, needle@));
        }
        return false;
    }
    let mut i: usize = 0;
    while i <= n - m
        invariant
            m <= n,
            m == needle@.len(),
            n == hay@.len(),
            0 <= i <= n - m + 1,
            forall|w: int|
                0 <= w < i ==> #[trigger] hay@.subrange(w, w + needle@.len()) != needle@,
        decreases n - i,
    {
        let mut t: usize = 0;
        let mut ok: bool = true;
        while t < m
            invariant
                m <= n,
                m == needle@.len(),
                n == hay@.len(),
                0 <= i <= n - m,
                0 <= t <= m,
                ok ==> forall|w: int| 0 <= w < t ==> hay@[i + w] == needle@[w],
                !ok ==> hay@.subrange(i as int, i + needle@.len()) != needle@,
            decreases m - t,
        {
            if hay[i + t] != needle[t] {
                proof {
                    assert(hay@.subrange(i as int, i + needle@.len())[t as int] != needle@[t as int]);
                }
                ok = false;
                t = m;
            } else {
                t = t + 1;
            }
        }
        if ok {
            proof {
                assert(hay@.subrange(i as int, i + needle@.len()) =~= needle@);
            }
            return true;
        }
        proof {
            if m == 0 {
                assert(hay@.subrange(i as int, i as int) =~= needle@);
            }
        }
        i = i + 1;
    }
    proof {
        assert forall|w: int| 0 <= w && w + needle@.len() <= hay@.len() implies #[trigger] hay@.subrange(
            w,
            w + needle@.len(),
        ) != needle@ by {
            assert(0 <= w < i);
        }
    }
    false
}

} // verus!
// additional scanning helpers

verus! {

/// The first position at or after `i` where `sep` occurs, or the length of
/// `s` if there is none.
pub open spec fn char_idx_from(s: Seq<char>, sep: char, i: int) -> int
    decreases s.len() - i,
{
    if i < 0 || i >= s.len() {
        s.len() as int
    } else if s[i] == sep {
        i
    } else {
        char_idx_from(s, sep, i + 1)
    }
}

pub proof fn lemma_char_idx_bounds(s: Seq<char>, sep: char, i: int)
    requires
        0 <= i <= s.len(),
    ensures
        i <= char_idx_from(s, sep, i) <= s.len(),
        char_idx_from(s, sep, i) < s.len() ==> s[char_idx_from(s, sep, i)] == sep,
        forall|j: int| i <= j < char_idx_from(s, sep, i) ==> s[j] != sep,
    decreases s.len() - i,
{
    if i < s.len() && s[i] != sep {
        lemma_char_idx_bounds(s, sep, i + 1);
    }
}

pub proof fn lemma_char_idx_contains(s: Seq<char>, sep: char)
    ensures
        (char_idx_from(s, sep, 0) < s.len()) <==> s.contains(sep),
{
    lemma_char_idx_bounds(s, sep, 0);
    let k = char_idx_from(s, sep, 0);
    if k < s.len() {
        assert(s[k] == sep);
    } else {
        assert forall|j: int| 0 <= j < s.len() implies s[j] != sep by {}
    }
}

/// Find the first occurrence of `sep` at or after `from`.
pub fn find_char(v: &Vec<char>, sep: char, from: usize) -> (r: usize)
    requires
        from <= v@.len(),
    ensures
        r == char_idx_from(v@, sep, from as int),
        from <= r <= v@.len(),
{
    proof {
        lemma_char_idx_bounds(v@, sep, from as int);
    }
    let mut i: usize = from;
    while i < v.len() && v[i] != sep
        invariant
            from <= i <= v@.len(),
            char_idx_from(v@, sep, i as int) == char_idx_from(v@, sep, from as int),
        decreases v@.len() - i,
    {
        i = i + 1;
    }
    proof {
        assert(char_idx_from(v@, sep, i as int) == i as int);
    }
    i
}

/// `s` with every occurrence of `c` removed.
pub open spec fn without_char(s: Seq<char>, c: char) -> Seq<char>
    decreases s.len(),
{
    if s.len() == 0 {
        Seq::empty()
    } else if s[0] == c {
        without_char(s.drop_first(), c)
    } else {
        seq![s[0]] + without_char(s.drop_first(), c)
    }
}

pub proof fn lemma_without_char_push(s: Seq<char>, x: char, c: char)
    ensures
        without_char(s.push(x), c) == if x == c {
            without_char(s, c)
        } else {
            without_char(s, c).push(x)
        },
    decreases s.len(),
{
    if s.len() == 0 {
        assert(s.push(x)[0] == x);
        assert(s.push(x).drop_first() =~= s);
        if x != c {
            assert(without_char(s.push(x), c) =~= without_char(s, c).push(x));
        }
    } else {
        lemma_without_char_push(s.drop_first(), x, c);
        assert(s.push(x)[0] == s[0]);
        assert(s.push(x).drop_first() =~= s.drop_first().push(x));
        if s[0] != c {
            if x != c {
                assert(seq![s[0]] + without_char(s.drop_first(), c).push(x) =~= (seq![s[0]]
                    + without_char(s.drop_first(), c)).push(x));
            }
        }
    }
}

/// Copy the range `[from, to)` of `v`, dropping every occurrence of `c`.
pub fn range_without_char(v: &Vec<char>, from: usize, to: usize, c: char) -> (r: Vec<char>)
    requires
        from <= to <= v@.len(),
    ensures
        r@ == without_char(v@.subrange(from as int, to as int), c),
{
    let mut r: Vec<char> = Vec::new();
    let mut p: usize = from;
    proof {
        assert(v@.subrange(from as int, from as int) =~= Seq::<char>::empty());
    }
    while p < to
        invariant
            from <= p <= to <= v@.len(),
            r@ == without_char(v@.subrange(from as int, p as int), c),
        decreases to - p,
    {
        let x = v[p];
        proof {
            assert(v@.subrange(from as int, p as int + 1) =~= v@.subrange(
                from as int,
                p as int,
            ).push(x));
            lemma_without_char_push(v@.subrange(from as int, p as int), x, c);
        }
        if x != c {
            r.push(x);
        }
        p = p + 1;
    }
    r
}

/// Equality of two character vectors.
pub fn vec_eq(a: &Vec<char>, b: &Vec<char>) -> (r: bool)
    ensures
        r == (a@ == b@),
{
    proof {
        assert(a@.subrange(0, a@.len() as int) =~= a@);
    }
    range_eq(a, 0, a.len(), b)
}

} // verus!

// decimal rendering and textual replacement

verus! {

/// The character of one decimal digit.
pub open spec fn digit_char_of(d: int) -> char {
    if d == 0 {
        '0'
    } else if d == 1 {
        '1'
    } else if d == 2 {
        '2'
    } else if d == 3 {
        '3'
    } else if d == 4 {
        '4'
    } else if d == 5 {
        '5'
    } else if d == 6 {
        '6'
    } else if d == 7 {
        '7'
    } else if d == 8 {
        '8'
    } else {
        '9'
    }
}

/// The decimal digits of a nonnegative number, most significant first.
pub open spec fn spec_digits(n: int) -> Seq<char>
    decreases n,
{
    if n < 10 {
        seq![digit_char_of(n)]
    } else {
        spec_digits(n / 10).push(digit_char_of(n % 10))
    }
}

/// The decimal rendering of an integer: its digits, with a leading minus
/// sign when negative.
pub open spec fn spec_decimal(n: int) -> Seq<char> {
    if n < 0 {
        seq!['-'] + spec_digits(-n)
    } else {
        spec_digits(n)
    }
}

/// Relies on the standard `Display` implementation for `i64`, through
/// `ToString`: the decimal digits, preceded by a minus sign for negative
/// numbers.
#[verifier::external_body]
pub(crate) fn i64_to_string(n: i64) -> (s: String)
    ensures
        s@ == spec_decimal(n as int),
{
    n.to_string()
}

/// `s` with every occurrence of `from` replaced by `to`, scanning left to
/// right without overlap.
pub open spec fn spec_replace(s: Seq<char>, from: Seq<char>, to: Seq<char>) -> Seq<char>
    decreases s.len(),
    when from.len() > 0
{
    if s.len() < from.len() {
        s
    } else if s.take(from.len() as int) == from {
        to + spec_replace(s.skip(from.len() as int), from, to)
    } else {
        seq![s[0]] + spec_replace(s.drop_first(), from, to)
    }
}

/// Replace every occurrence of `from` in `s` by `to`.
pub fn replace_all(s: &str, from: &str, to: &str) -> (r: String)
    requires
        from@.len() > 0,
    ensures
        r@ == spec_replace(s@, from@, to@),
{
    let sc = chars_vec(s);
    let fc = chars_vec(from);
    let n = sc.len();
    let m = fc.len();
    let mut out = String::new();
    let mut i: usize = 0;
    proof {
        assert(s@.skip(0) =~= s@);
    }
    while i < n
        invariant
            m == from@.len(),
            1 <= m,
            n == s@.len(),
            sc@ == s@,
            fc@ == from@,
            0 <= i <= n,
            spec_replace(s@, from@, to@) == out@ + spec_replace(s@.skip(i as int), from@, to@),
        decreases n - i,
    {
        let ghost rest = s@.skip(i as int);
        if n - i >= m && range_eq(&sc, i, i + m, &fc) {
            out.append(to);
            proof {
                assert(rest.take(m as int) =~= s@.subrange(i as int, i as int + m as int));
                assert(rest.skip(m as int) =~= s@.skip(i as int + m as int));
            }
            i = i + m;
        } else {
            let piece = s.substring_char(i, i + 1);
            out.append(piece);
            proof {
                if n - i >= m {
                    assert(rest.take(m as int) =~= s@.subrange(i as int, i as int + m as int));
                }
                assert(piece@ =~= seq![s@[i as int]]);
                assert(rest.drop_first() =~= s@.skip(i as int + 1));
                if rest.len() < m {
                    assert(rest =~= seq![s@[i as int]] + s@.skip(i as int + 1));
                    assert(spec_replace(s@.skip(i as int + 1), from@, to@) =~= s@.skip(
                        i as int + 1,
                    ));
                }
            }
            i = i + 1;
        }
    }
    proof {
        assert(s@.skip(n as int).len() == 0);
        assert(spec_replace(s@.skip(n as int), from@, to@) =~= Seq::<char>::empty());
        assert(out@ =~= spec_replace(s@, from@, to@));
    }
    out
}

} // verus!
