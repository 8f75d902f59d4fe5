use vstd::prelude::*;

use crate::update::{CallbackQuery, Chat, Message, Update};

verus! {

/// The chat an update happened in, when it names one.
pub fn get_chat(update: &Update) -> (r: Option<Chat>)
    ensures
        r == update.spec_chat(),
{
    match update {
        Update::NewMessage(m) => Some(m.chat),
        Update::MessageEdited(m) => Some(m.chat),
        Update::CallbackQuery(q) => Some(q.chat),
        _ => None,
    }
}

/// The message an update carries, when it carries one.
pub fn get_message(update: &Update) -> (r: Option<Message>)
    ensures
        r == update.spec_message(),
{
    match update {
        Update::NewMessage(m) => Some(Message {
            text: m.text.clone(),
            chat: m.chat,
            sender: m.sender,
            reply_to_message_id: m.reply_to_message_id,
        }),
        Update::MessageEdited(m) => Some(Message {
            text: m.text.clone(),
            chat: m.chat,
            sender: m.sender,
            reply_to_message_id: m.reply_to_message_id,
        }),
        _ => None,
    }
}

/// The callback query an update carries, when it carries one.
pub fn get_query(update: &Update) -> (r: Option<CallbackQuery>)
    ensures
        r == update.spec_query(),
{
    match update {
        Update::CallbackQuery(q) => Some(CallbackQuery {
            data: q.data.clone(),
            chat: q.chat,
            sender: q.sender,
        }),
        _ => None,
    }
}

/// The account that sent an update, when one is known.
pub fn get_sender(update: &Update) -> (r: Option<Chat>)
    ensures
        r == update.spec_sender(),
{
    match update {
        Update::NewMessage(m) => m.sender,
        Update::MessageEdited(m) => m.sender,
        Update::CallbackQuery(q) => Some(q.sender),
        _ => None,
    }
}

} // verus!

// splitting helpers

use vstd::prelude::*;

use crate::text::{split_tokens, tokens};

verus! {

/// Split a query payload into its whitespace-separated parts.
pub fn split_query(query: &str) -> (r: Vec<String>)
    ensures
        r.deep_view() == tokens(query@),
{
    split_tokens(query)
}

/// An inline keyboard button, reduced to its label and callback payload.
#[derive(Clone, Debug, PartialEq)]
pub struct InlineButton {
    pub text: String,
    pub data: String,
}

impl InlineButton {
    pub fn new(text: &str, data: &str) -> (r: Self)
        ensures
            r.text@ == text@,
            r.data@ == data@,
    {
        Self { text: text.to_owned(), data: data.to_owned() }
    }

    /// An equal button.
    pub fn duplicate(&self) -> (r: Self)
        ensures
            r == *self,
    {
        Self { text: self.text.clone(), data: self.data.clone() }
    }
}

/// A sequence cut into chunks of `count` elements, the last chunk holding
/// the remainder.
pub open spec fn spec_chunks(s: Seq<InlineButton>, count: int) -> Seq<Seq<InlineButton>>
    decreases s.len(),
    via spec_chunks_decreases
{
    if count < 1 || s.len() == 0 {
        Seq::empty()
    } else if s.len() <= count {
        seq![s]
    } else {
        seq![s.take(count)] + spec_chunks(s.skip(count), count)
    }
}

#[via_fn]
proof fn spec_chunks_decreases(s: Seq<InlineButton>, count: int) {
}

/// Split an inline keyboard into rows of `count` buttons each.
pub fn split_kb_to_columns(buttons: Vec<InlineButton>, count: usize) -> (r: Vec<
    Vec<InlineButton>,
>)
    requires
        count >= 1,
    ensures
        r@.map_values(|v: Vec<InlineButton>| v@) == spec_chunks(buttons@, count as int),
{
    let n = buttons.len();
    let mut r: Vec<Vec<InlineButton>> = Vec::new();
    let mut i: usize = 0;
    proof {
        assert(r@.map_values(|v: Vec<InlineButton>| v@) =~= Seq::<Seq<InlineButton>>::empty());
        assert(buttons@.skip(0) =~= buttons@);
    }
    while i < n
        invariant
            count >= 1,
            0 <= i <= n,
            n == buttons@.len(),
            spec_chunks(buttons@, count as int) == r@.map_values(|v: Vec<InlineButton>| v@)
                + spec_chunks(buttons@.skip(i as int), count as int),
        decreases n - i,
    {
        let end = if n - i > count {
            i + count
        } else {
            n
        };
        let mut chunk: Vec<InlineButton> = Vec::new();
        let mut j: usize = i;
        proof {
            assert(chunk@ =~= buttons@.subrange(i as int, i as int));
        }
        while j < end
            invariant
                i <= j <= end <= n,
                n == buttons@.len(),
                chunk@ == buttons@.subrange(i as int, j as int),
            decreases end - j,
        {
            chunk.push(buttons[j].duplicate());
            proof {
                assert(chunk@ =~= buttons@.subrange(i as int, j as int + 1));
            }
            j = j + 1;
        }
        let ghost pre = r@.map_values(|v: Vec<InlineButton>| v@);
        r.push(chunk);
        proof {
            let tail = buttons@.skip(i as int);
            if n - i <= count {
                assert(tail =~= buttons@.subrange(i as int, end as int));
                assert(spec_chunks(tail, count as int) =~= seq![chunk@]);
                assert(buttons@.skip(end as int).len() == 0);
                assert(spec_chunks(buttons@.skip(end as int), count as int)
                    =~= Seq::<Seq<InlineButton>>::empty());
            } else {
                assert(tail.take(count as int) =~= buttons@.subrange(i as int, end as int));
                assert(tail.skip(count as int) =~= buttons@.skip(end as int));
            }
            assert(r@.map_values(|v: Vec<InlineButton>| v@) =~= pre.push(chunk@));
            assert(pre.push(chunk@) =~= pre + seq![chunk@]);
        }
        i = end;
    }
    proof {
        assert(spec_chunks(buttons@.skip(i as int), count as int)
            =~= Seq::<Seq<InlineButton>>::empty());
        assert(r@.map_values(|v: Vec<InlineButton>| v@) =~= spec_chunks(buttons@, count as int));
    }
    r
}

/// Split an inline keyboard by a row count: the chunk size is the
/// difference between the number of buttons and `count`.
pub fn split_kb_to_rows(buttons: Vec<InlineButton>, count: usize) -> (r: Vec<Vec<InlineButton>>)
    requires
        buttons@.len() != count,
    ensures
        ({
            let per = if buttons@.len() >= count {
                buttons@.len() - count
            } else {
                count - buttons@.len()
            };
            r@.map_values(|v: Vec<InlineButton>| v@) == spec_chunks(buttons@, per)
        }),
{
    let n = buttons.len();
    let per = if n >= count {
        n - count
    } else {
        count - n
    };
    split_kb_to_columns(buttons, per)
}

} // verus!

// page navigation buttons

use crate::text::{i64_to_string, replace_all, spec_digits, spec_replace};

verus! {

/// The token in a query template that each page number replaces.
pub open spec fn page_token() -> Seq<char> {
    ":page:"@
}

/// The label of one page button: the current page stands between markers,
/// earlier pages carry a leading marker, later pages a trailing one.
pub open spec fn spec_page_label(page: int, current: int) -> Seq<char> {
    if page > current {
        spec_digits(page) + " ·"@
    } else if page < current {
        "· "@ + spec_digits(page)
    } else {
        "• "@ + spec_digits(page) + " •"@
    }
}

/// One page button: its label and its callback payload.
pub open spec fn spec_page_entry(page: int, current: int, query: Seq<char>) -> (Seq<char>, Seq<
    char,
>) {
    (spec_page_label(page, current), spec_replace(query, page_token(), spec_digits(page)))
}

/// The buttons for pages `lo` through `hi`.
pub open spec fn spec_page_row(lo: int, hi: int, current: int, query: Seq<char>) -> Seq<
    (Seq<char>, Seq<char>),
>
    decreases hi + 1 - lo,
{
    if lo > hi {
        Seq::empty()
    } else {
        seq![spec_page_entry(lo, current, query)] + spec_page_row(lo + 1, hi, current, query)
    }
}

proof fn lemma_row_len(lo: int, hi: int, current: int, query: Seq<char>)
    ensures
        spec_page_row(lo, hi, current, query).len() == if lo > hi {
            0int
        } else {
            hi + 1 - lo
        },
    decreases hi + 1 - lo,
{
    if lo <= hi {
        lemma_row_len(lo + 1, hi, current, query);
    }
}

proof fn lemma_row_index(lo: int, hi: int, current: int, query: Seq<char>, p: int)
    requires
        lo <= p <= hi,
    ensures
        spec_page_row(lo, hi, current, query).len() > p - lo,
        spec_page_row(lo, hi, current, query)[p - lo] == spec_page_entry(p, current, query),
    decreases p - lo,
{
    lemma_row_len(lo, hi, current, query);
    if p > lo {
        lemma_row_index(lo + 1, hi, current, query, p);
    }
}

/// The first page shown: half the width before the current page, at
/// least one.
pub open spec fn spec_page_start(current: int, max: int) -> int {
    if current - max / 2 > 1 {
        current - max / 2
    } else {
        1
    }
}

/// The last page shown.
pub open spec fn spec_page_end(current: int, total: int, max: int) -> int {
    let s0 = spec_page_start(current, max);
    if s0 + max - 1 < total {
        s0 + max - 1
    } else {
        total
    }
}

/// The first enumerated page, nudged by one when the window does not
/// open at the first page.
pub open spec fn spec_page_first(current: int, total: int, max: int) -> int {
    let s0 = spec_page_start(current, max);
    if s0 > 1 {
        if total - current > 1 {
            s0 + 1
        } else if total - current < 1 {
            s0 - 1
        } else {
            s0
        }
    } else {
        s0
    }
}

/// The page navigation row for a query template: a jump to the first page
/// when the window starts past it, the enumerated window, and — when the
/// window ends early — a jump to the last page in place of the final
/// button.
pub open spec fn spec_page_buttons(current: int, total: int, query: Seq<char>, max: int) -> Seq<
    (Seq<char>, Seq<char>),
> {
    let s0 = spec_page_start(current, max);
    let e = spec_page_end(current, total, max);
    let s1 = spec_page_first(current, total, max);
    let head: Seq<(Seq<char>, Seq<char>)> = if s0 > 1 {
        seq![(". 1"@, spec_replace(query, page_token(), spec_digits(1)))]
    } else {
        Seq::empty()
    };
    let main = head + spec_page_row(s1, e, current, query);
    if e < total {
        main.drop_last() + seq![
            (spec_digits(total) + " ."@, spec_replace(query, page_token(), spec_digits(total))),
        ]
    } else {
        main
    }
}

/// Build the page navigation buttons for a paged view. Every button's
/// payload is the query template with the page token replaced by the
/// button's page number.
pub fn gen_page_buttons(current_page: i64, total_pages: i64, query: &str, max_buttons: i64) -> (r:
    Vec<InlineButton>)
    requires
        1 <= current_page <= total_pages,
        1 <= max_buttons,
        total_pages + max_buttons <= i64::MAX,
    ensures
        ({
            let bs = spec_page_buttons(
                current_page as int,
                total_pages as int,
                query@,
                max_buttons as int,
            );
            &&& r@.len() == bs.len()
            &&& forall|i: int|
                0 <= i < bs.len() ==> (#[trigger] r@[i]).text@ == bs[i].0 && r@[i].data@ == bs[i].1
        }),
{
    let ghost cur = current_page as int;
    let ghost total = total_pages as int;
    let ghost q = query@;
    let ghost max = max_buttons as int;
    proof {
        reveal_strlit(":page:");
        assert(page_token().len() > 0);
    }
    let mut buttons: Vec<InlineButton> = Vec::new();
    let half = max_buttons / 2;
    let mut start = current_page - half;
    if start < 1 {
        start = 1;
    }
    proof {
        assert(start as int == spec_page_start(cur, max));
    }
    let e0 = start + (max_buttons - 1);
    let end = if e0 < total_pages {
        e0
    } else {
        total_pages
    };
    proof {
        assert(end as int == spec_page_end(cur, total, max));
    }
    let ghost s0 = start as int;
    let first_pushed = start > 1;
    if start > 1 {
        let diff = total_pages - current_page;
        if diff > 1 {
            start = start + 1;
        } else if diff < 1 {
            start = start - 1;
        }
        let one = i64_to_string(1);
        let data = replace_all(query, ":page:", one.as_str());
        buttons.push(InlineButton { text: ". 1".to_owned(), data });
    }
    proof {
        assert(start as int == spec_page_first(cur, total, max));
    }
    let ghost s1 = start as int;
    let ghost e = end as int;
    let ghost head: Seq<(Seq<char>, Seq<char>)> = if s0 > 1 {
        seq![(". 1"@, spec_replace(q, page_token(), spec_digits(1)))]
    } else {
        Seq::empty()
    };
    let ghost head_len: int = if s0 > 1 {
        1int
    } else {
        0int
    };
    let ghost main = head + spec_page_row(s1, e, cur, q);
    proof {
        lemma_row_len(s1, e, cur, q);
        assert forall|i: int| 0 <= i < buttons@.len() implies (#[trigger] buttons@[i]).text@
            == main[i].0 && buttons@[i].data@ == main[i].1 by {}
    }
    let mut page = start;
    while page <= end
        invariant
            1 <= current_page <= total_pages,
            1 <= max_buttons,
            total_pages + max_buttons <= i64::MAX,
            cur == current_page as int,
            total == total_pages as int,
            q == query@,
            page_token().len() > 0,
            1 <= s1,
            s1 <= page as int <= e + 1,
            e == end as int,
            e <= total,
            main == head + spec_page_row(s1, e, cur, q),
            head_len == head.len(),
            main.len() == head_len + (e + 1 - s1) || (s1 > e && main.len() == head_len),
            buttons@.len() == head_len + (page as int - s1),
            forall|i: int|
                0 <= i < buttons@.len() ==> (#[trigger] buttons@[i]).text@ == main[i].0
                    && buttons@[i].data@ == main[i].1,
        decreases end + 1 - page,
    {
        let digits = i64_to_string(page);
        let data = replace_all(query, ":page:", digits.as_str());
        let text = if page > current_page {
            digits.concat(" ·")
        } else if page < current_page {
            "· ".to_owned().concat(digits.as_str())
        } else {
            "• ".to_owned().concat(digits.as_str()).concat(" •")
        };
        proof {
            assert(text@ == spec_page_label(page as int, cur));
            lemma_row_index(s1, e, cur, q, page as int);
            assert(main[head_len + (page as int - s1)] == spec_page_entry(page as int, cur, q));
        }
        buttons.push(InlineButton { text, data });
        page = page + 1;
    }
    proof {
        lemma_row_len(s1, e, cur, q);
        assert(buttons@.len() == main.len());
    }
    if end < total_pages {
        proof {
            if s0 <= 1 {
                assert(s1 == s0);
                assert(e >= s0);
            }
            assert(buttons@.len() >= 1);
        }
        buttons.pop();
        let digits = i64_to_string(total_pages);
        let data = replace_all(query, ":page:", digits.as_str());
        let text = digits.concat(" .");
        buttons.push(InlineButton { text, data });
        proof {
            let bs = spec_page_buttons(cur, total, q, max);
            assert(bs =~= main.drop_last() + seq![
                (spec_digits(total) + " ."@, spec_replace(q, page_token(), spec_digits(total))),
            ]);
            assert forall|i: int| 0 <= i < bs.len() implies (#[trigger] buttons@[i]).text@
                == bs[i].0 && buttons@[i].data@ == bs[i].1 by {}
        }
    } else {
        proof {
            let bs = spec_page_buttons(cur, total, q, max);
            assert(bs =~= main);
        }
    }
    buttons
}

} // verus!
