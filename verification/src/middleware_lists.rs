//! Lists of the middleware pages: how many pages a result has, which rows a
//! page shows, which topics a filter keeps, and how message bodies read.
use vstd::prelude::*;
use vstd::arithmetic::div_mod::lemma_fundamental_div_mod_converse;
use vstd::utf8::{decode_utf8, valid_utf8};
use crate::host_patterns::string_views;
use crate::text_sets::{list_contains, toggle_text, toggled};
use crate::text::{chars_of, chars_eq, copy_string, string_of, trim};

verus! {

/// What a pagination bar is given.
#[derive(Debug, Clone, Copy, PartialEq, Eq)]
pub struct PaginationSpec {
    /// The number of results.
    pub total: u64,
    /// The current page, from 1.
    pub page: usize,
    /// Rows per page.
    pub page_size: usize,
    /// The backend reports more results than it counted.
    pub has_more: bool,
}

/// What a pagination bar shows.
#[derive(Debug, Clone, Copy, PartialEq, Eq)]
pub struct Pagination {
    pub pages: usize,
    pub can_prev: bool,
    pub can_next: bool,
}

/// The number of pages of `total` rows, `size` to a page: at least one.
pub open spec fn pages_of(total: nat, size: nat) -> nat
    recommends
        size > 0,
{
    if total == 0 {
        1
    } else {
        ((total + size - 1) / size as int) as nat
    }
}

/// The number of pages of a list; a page size of zero counts as one.
pub fn page_count(total: usize, page_size: usize) -> (r: usize)
    ensures
        r as nat == pages_of(total as nat, if page_size == 0 {
            1
        } else {
            page_size as nat
        }),
{
    let size: usize = if page_size == 0 {
        1
    } else {
        page_size
    };
    if total == 0 {
        return 1;
    }
    let q = total / size;
    let m = total % size;
    assert(q * size + m == total && m < size) by (nonlinear_arith)
        requires
            size > 0,
            q == total / size,
            m == total % size,
    ;
    if m != 0 {
        assert(q < usize::MAX) by (nonlinear_arith)
            requires
                q * size + m == total,
                0 < m < size,
                total <= usize::MAX,
        ;
    }
    let r = q + if m == 0 {
        0
    } else {
        1
    };
    proof {
        if m == 0 {
            lemma_fundamental_div_mod_converse(total + size - 1, size as int, q as int, size - 1);
        } else {
            assert(total + size - 1 == (q + 1) * size + (m - 1)) by (nonlinear_arith)
                requires
                    q * size + m == total,
            ;
            lemma_fundamental_div_mod_converse(total + size - 1, size as int, q + 1, m - 1);
        }
    }
    r
}

/// The state of a pagination bar: the page count, and whether there is a
/// page before and after the current one.
pub fn pagination(spec: PaginationSpec) -> (r: Pagination)
    ensures
        r.pages as nat == pages_of((spec.total as usize) as nat, if spec.page_size == 0 {
            1
        } else {
            spec.page_size as nat
        }),
        r.can_prev == (spec.page > 1),
        r.can_next == (spec.has_more || spec.page < r.pages),
{
    let pages = page_count(spec.total as usize, spec.page_size);
    Pagination { pages, can_prev: spec.page > 1, can_next: spec.has_more || spec.page < pages }
}

/// The page a list shows, brought within its page count, and the start
/// and end of its rows: up to `size` rows from `(page - 1) * size`.
pub open spec fn window_of(total: nat, page: nat, size: nat) -> (nat, nat, nat) {
    let p = if page < pages_of(total, size) {
        page
    } else {
        pages_of(total, size)
    };
    let start = if p == 0 {
        0
    } else {
        ((p - 1) * size) as nat
    };
    let end = if start + size <= total {
        start + size
    } else if start <= total {
        total
    } else {
        start
    };
    (p, start, end)
}

/// The rows a page shows: the page is first brought within the page count,
/// then it shows up to `page_size` rows from `(page - 1) * page_size`.
/// Returns the page, and the start and end of its rows.
pub fn page_window(total: usize, page: usize, page_size: usize) -> (r: (usize, usize, usize))
    requires
        page_size > 0,
    ensures
        (r.0 as nat, r.1 as nat, r.2 as nat) == window_of(total as nat, page as nat, page_size as nat),
{
    let pages = page_count(total, page_size);
    assert(pages >= 1) by (nonlinear_arith)
        requires
            page_size > 0,
            pages as nat == pages_of(total as nat, page_size as nat),
    {
        if total > 0 {
            assert(total + page_size - 1 >= page_size);
        }
    }
    let page = if page < pages {
        page
    } else {
        pages
    };
    let before: usize = if page == 0 {
        0
    } else {
        page - 1
    };
    assert(before * page_size <= total) by (nonlinear_arith)
        requires
            page_size > 0,
            before < pages,
            pages as nat == pages_of(total as nat, page_size as nat),
    {
        if total == 0 {
            assert(before == 0);
        } else {
            let q = (total + page_size - 1) / (page_size as int);
            assert(before + 1 <= q);
            assert(q * page_size <= total + page_size - 1);
            assert(before * page_size + page_size <= total + page_size - 1);
        }
    }
    let start = before * page_size;
    let end = if total - start >= page_size {
        start + page_size
    } else {
        total
    };
    assert(start as nat == if page == 0 { 0 } else { ((page - 1) * page_size) as nat });
    (page, start, end)
}

/// The page that holds row `k`, `size` rows to a page.
pub open spec fn page_of_row(k: nat, size: nat) -> nat
    recommends
        size > 0,
{
    k / size + 1
}

/// Pages split a list without overlap: row `k` is among the rows of its own
/// page, and any page from 1 on that shows it is that page.
pub proof fn law_each_row_is_on_one_page(total: nat, size: nat, k: nat, page: nat)
    requires
        size > 0,
        k < total,
    ensures
        window_of(total, page_of_row(k, size), size).1 <= k < window_of(total, page_of_row(k, size), size).2,
        page > 0 && window_of(total, page, size).1 <= k < window_of(total, page, size).2 ==> window_of(
            total,
            page,
            size,
        ).0 == page_of_row(k, size),
{
    let q = k / size;
    assert(q * size <= k < q * size + size) by (nonlinear_arith)
        requires
            size > 0,
            q == k / size,
    ;
    assert(q + 1 <= pages_of(total, size)) by (nonlinear_arith)
        requires
            size > 0,
            q * size <= k,
            k < total,
    {
        let t = (total + size - 1) / (size as int);
        assert(t * size > total - size) by {
            assert(total + size - 1 < t * size + size);
        }
        assert((q + 1) * size <= total + size - 1) by {
            assert(q * size + 1 <= total);
        }
        if q + 1 > t {
            assert((q + 1) * size >= (t + 1) * size);
        }
    }
    let w = window_of(total, page, size);
    if page > 0 && w.1 <= k && k < w.2 && w.0 != q + 1 {
        assert(pages_of(total, size) >= 1) by (nonlinear_arith)
            requires
                size > 0,
                total > 0,
        {
            assert(total + size - 1 >= size);
        }
        let p = (w.0 - 1) as nat;
        assert(w.1 == p * size);
        assert(w.2 <= p * size + size);
        if p < q {
            assert(p * size + size <= q * size) by (nonlinear_arith)
                requires
                    p < q,
                    size > 0,
            ;
        } else {
            assert(p > q);
            assert(q * size + size <= p * size) by (nonlinear_arith)
                requires
                    p > q,
                    size > 0,
            ;
        }
    }
}

/// The hexadecimal digit of a value below 16, in upper case.
pub open spec fn hex_digit(n: nat) -> char {
    seq!['0', '1', '2', '3', '4', '5', '6', '7', '8', '9', 'A', 'B', 'C', 'D', 'E', 'F'][n as int]
}

/// A byte as two upper-case hexadecimal digits.
pub open spec fn byte_hex(b: u8) -> Seq<char> {
    seq![hex_digit((b / 16) as nat), hex_digit((b % 16) as nat)]
}

/// Bytes as upper-case hexadecimal pairs separated by single spaces.
pub open spec fn hex_text(bytes: Seq<u8>) -> Seq<char>
    decreases bytes.len(),
{
    if bytes.len() == 0 {
        Seq::empty()
    } else if bytes.len() == 1 {
        byte_hex(bytes[0])
    } else {
        hex_text(bytes.drop_last()) + seq![' '] + byte_hex(bytes.last())
    }
}

/// The digits of hexadecimal numbers, in order.
pub const HEX_DIGITS: [char; 16] = ['0', '1', '2', '3', '4', '5', '6', '7', '8', '9', 'A', 'B', 'C', 'D', 'E', 'F'];

/// The upper-case hexadecimal digit of a value below 16.
fn hex_digit_char(n: u8) -> (r: char)
    requires
        n < 16,
    ensures
        r == hex_digit(n as nat),
{
    let digits = HEX_DIGITS;
    assert(digits@ =~= seq!['0', '1', '2', '3', '4', '5', '6', '7', '8', '9', 'A', 'B', 'C', 'D', 'E', 'F']);
    digits[n as usize]
}

/// Bytes as `AA BB CC`: upper-case hexadecimal pairs separated by spaces.
pub fn hex_dump(bytes: &[u8]) -> (r: String)
    ensures
        r@ == hex_text(bytes@),
{
    let mut out: Vec<char> = Vec::new();
    let mut i: usize = 0;
    while i < bytes.len()
        invariant
            i <= bytes@.len(),
            out@ == hex_text(bytes@.subrange(0, i as int)),
        decreases bytes@.len() - i,
    {
        let b = bytes[i];
        let ghost prefix = bytes@.subrange(0, i as int);
        let ghost next = bytes@.subrange(0, i + 1);
        assert(next.drop_last() =~= prefix);
        if i > 0 {
            out.push(' ');
        }
        out.push(hex_digit_char(b / 16));
        out.push(hex_digit_char(b % 16));
        proof {
            if i == 0 {
                assert(next =~= seq![b]);
            }
            assert(out@ =~= hex_text(next));
        }
        i = i + 1;
    }
    assert(bytes@.subrange(0, bytes@.len() as int) =~= bytes@);
    string_of(out.as_slice())
}

/// Reads bytes as UTF-8 text with `String::from_utf8`: the text they encode
/// where they are valid UTF-8, and `None` where they are not, as std
/// documents it.
#[verifier::external_body]
fn utf8_text(bytes: &[u8]) -> (r: Option<String>)
    ensures
        match r {
            Some(s) => valid_utf8(bytes@) && s@ == decode_utf8(bytes@),
            None => !valid_utf8(bytes@),
        },
{
    match String::from_utf8(bytes.to_vec()) {
        Ok(text) => Some(text),
        Err(_) => None,
    }
}

/// How a message body reads: its hexadecimal dump in hex mode, else its
/// UTF-8 text, or the dump where it is not valid UTF-8.
pub open spec fn body_view(body: Seq<u8>, hex: bool) -> Seq<char> {
    if hex || !valid_utf8(body) {
        hex_text(body)
    } else {
        decode_utf8(body)
    }
}

/// The text a message body panel shows.
pub fn body_text(body: &[u8], hex: bool) -> (r: String)
    ensures
        r@ == body_view(body@, hex),
{
    if hex {
        return hex_dump(body);
    }
    match utf8_text(body) {
        Some(text) => text,
        None => hex_dump(body),
    }
}

/// What the topic list reads of a topic.
#[derive(Debug, Clone, PartialEq, Eq)]
pub struct TopicSummary {
    pub name: String,
    pub topic_type: Option<String>,
    pub queue_count: Option<u32>,
    pub perm: Option<String>,
    pub message_count: Option<u64>,
    pub created_at: Option<String>,
}

/// The topic types a user can filter by.
pub const TOPIC_TYPE_FILTERS: [&'static str; 7] = ["NORMAL", "FIFO", "DELAY", "TRANSACTION", "RETRY", "DLQ", "SYSTEM"];

/// The name of what `str::to_lowercase` gives: the text with each character
/// replaced by its Unicode lower-case mapping.
pub uninterp spec fn unicode_lowercase(s: Seq<char>) -> Seq<char>;

/// Lower-cases a text with `str::to_lowercase`.  The contract names the
/// result, which depends on the text alone.
#[verifier::external_body]
fn lowercase(s: &str) -> (r: String)
    ensures
        r@ == unicode_lowercase(s@),
{
    s.to_lowercase()
}

/// Whether `needle` occurs in `hay` (the empty text occurs everywhere).
pub open spec fn contains_text(hay: Seq<char>, needle: Seq<char>) -> bool {
    exists|i: int| 0 <= i && i + needle.len() <= hay.len() && #[trigger] hay.subrange(i, i + needle.len()) == needle
}

/// Whether a text occurs in another.
pub fn text_contains(hay: &[char], needle: &[char]) -> (r: bool)
    ensures
        r == contains_text(hay@, needle@),
{
    if needle.len() == 0 {
        assert(hay@.subrange(0int, 0int + needle@.len()) =~= needle@);
        return true;
    }
    if needle.len() > hay.len() {
        return false;
    }
    let last = hay.len() - needle.len();
    let mut i: usize = 0;
    while i <= last
        invariant
            last == hay@.len() - needle@.len(),
            0 < needle@.len() <= hay@.len(),
            hay@.len() == hay.len(),
            i <= last + 1,
            forall|j: int| 0 <= j < i ==> #[trigger] hay@.subrange(j, j + needle@.len()) != needle@,
        decreases last + 1 - i,
    {
        let window = crate::text::slice_range(hay, i, i + needle.len());
        if chars_eq(window.as_slice(), needle) {
            return true;
        }
        i = i + 1;
    }
    false
}

/// The needle of a name filter: trimmed and lower-cased.
pub open spec fn filter_needle(filter_text: Seq<char>) -> Seq<char> {
    unicode_lowercase(trim(filter_text))
}

/// Whether the filters keep a topic: its lower-cased name holds the needle,
/// and its type is one of the active types, unless there are none.
pub open spec fn topic_kept(topic: TopicSummary, needle: Seq<char>, active: Seq<Seq<char>>) -> bool {
    &&& (needle.len() == 0 || contains_text(unicode_lowercase(topic.name@), needle))
    &&& (active.len() == 0 || match topic.topic_type {
        Some(t) => active.contains(t@),
        None => false,
    })
}

/// The indices of the first `n` topics that the filters keep, in order.
pub open spec fn kept_indices(topics: Seq<TopicSummary>, needle: Seq<char>, active: Seq<Seq<char>>, n: int) -> Seq<
    usize,
>
    decreases n,
{
    if n <= 0 {
        Seq::empty()
    } else {
        let before = kept_indices(topics, needle, active, n - 1);
        if topic_kept(topics[n - 1], needle, active) {
            before.push((n - 1) as usize)
        } else {
            before
        }
    }
}

/// Whether the filters keep a topic.
fn keeps_topic(topic: &TopicSummary, needle: &[char], active_types: &Vec<String>) -> (r: bool)
    ensures
        r == topic_kept(*topic, needle@, string_views(active_types@)),
{
    let name_match = if needle.len() == 0 {
        true
    } else {
        let name = lowercase(topic.name.as_str());
        let name_chars = chars_of(name.as_str());
        text_contains(name_chars.as_slice(), needle)
    };
    let type_match = if active_types.len() == 0 {
        true
    } else {
        match &topic.topic_type {
            Some(t) => list_contains(active_types, t.as_str()),
            None => false,
        }
    };
    name_match && type_match
}

/// The indices kept among the first `n` topics are those below `n` whose
/// topic the filters keep, in increasing order.
proof fn lemma_kept_indices(topics: Seq<TopicSummary>, needle: Seq<char>, active: Seq<Seq<char>>, n: int)
    requires
        0 <= n <= topics.len(),
        n <= usize::MAX + 1,
    ensures
        forall|p: int, q: int|
            0 <= p < q < kept_indices(topics, needle, active, n).len() ==> kept_indices(topics, needle, active, n)[p]
                < kept_indices(topics, needle, active, n)[q],
        forall|p: int|
            0 <= p < kept_indices(topics, needle, active, n).len() ==> kept_indices(topics, needle, active, n)[p] < n,
        forall|i: int|
            0 <= i < n ==> (kept_indices(topics, needle, active, n).contains(i as usize) <==> topic_kept(
                #[trigger] topics[i],
                needle,
                active,
            )),
    decreases n,
{
    if n > 0 {
        lemma_kept_indices(topics, needle, active, n - 1);
        let before = kept_indices(topics, needle, active, n - 1);
        let now = kept_indices(topics, needle, active, n);
        assert forall|i: int| 0 <= i < n implies (now.contains(i as usize) <==> topic_kept(
            #[trigger] topics[i],
            needle,
            active,
        )) by {
            if i < n - 1 {
                if now.contains(i as usize) {
                    let p = choose|p: int| 0 <= p < now.len() && now[p] == i as usize;
                    if p < before.len() {
                        assert(before[p] == now[p]);
                    }
                }
                if before.contains(i as usize) {
                    let p = choose|p: int| 0 <= p < before.len() && before[p] == i as usize;
                    assert(now[p] == before[p]);
                }
            } else {
                if topic_kept(topics[n - 1], needle, active) {
                    assert(now[now.len() - 1] == (n - 1) as usize);
                } else if now.contains(i as usize) {
                    let p = choose|p: int| 0 <= p < now.len() && now[p] == i as usize;
                    assert(before[p] < n - 1);
                }
            }
        }
    }
}

/// A topic is kept exactly when its lower-cased name holds the needle
/// somewhere (any needle is held by a name when it is empty) and, with
/// active types, its type is one of them.
proof fn lemma_topic_kept(t: TopicSummary, needle: Seq<char>, active: Seq<String>)
    ensures
        topic_kept(t, needle, string_views(active)) == ((needle.len() == 0 || exists|k: int|
                0 <= k && k + needle.len() <= unicode_lowercase(t.name@).len() && #[trigger] unicode_lowercase(
                    t.name@,
                ).subrange(k, k + needle.len()) == needle) && (active.len() == 0 || match t.topic_type {
                Some(ty) => exists|j: int| 0 <= j < active.len() && active[j]@ == ty@,
                None => false,
            })),
{
    if let Some(ty) = t.topic_type {
        if string_views(active).contains(ty@) {
            let j = choose|j: int| 0 <= j < string_views(active).len() && string_views(active)[j] == ty@;
            assert(active[j]@ == ty@);
        }
        if exists|j: int| 0 <= j < active.len() && active[j]@ == ty@ {
            let j = choose|j: int| 0 <= j < active.len() && active[j]@ == ty@;
            assert(string_views(active)[j] == ty@);
        }
    }
}

/// The topic filter keeps exactly the topics whose lower-cased name holds
/// the lower-cased, trimmed filter text anywhere (all of them for a blank
/// filter) and, when types are active, whose type is one of them; it gives
/// their indices in increasing order.
pub proof fn law_filter_keeps_exactly_the_matching_topics(
    topics: Seq<TopicSummary>,
    filter_text: Seq<char>,
    active: Seq<String>,
)
    requires
        topics.len() <= usize::MAX,
    ensures
        forall|p: int, q: int|
            0 <= p < q < kept_indices(topics, unicode_lowercase(trim(filter_text)), string_views(active), topics.len() as int).len()
                ==> kept_indices(topics, unicode_lowercase(trim(filter_text)), string_views(active), topics.len() as int)[p]
                < kept_indices(topics, unicode_lowercase(trim(filter_text)), string_views(active), topics.len() as int)[q],
        forall|p: int|
            0 <= p < kept_indices(topics, unicode_lowercase(trim(filter_text)), string_views(active), topics.len() as int).len()
                ==> kept_indices(topics, unicode_lowercase(trim(filter_text)), string_views(active), topics.len() as int)[p]
                < topics.len(),
        forall|i: int|
            0 <= i < topics.len() ==> (#[trigger] kept_indices(
                topics,
                unicode_lowercase(trim(filter_text)),
                string_views(active),
                topics.len() as int,
            ).contains(i as usize) <==> ((unicode_lowercase(trim(filter_text)).len() == 0 || exists|k: int|
                0 <= k && k + unicode_lowercase(trim(filter_text)).len() <= unicode_lowercase(topics[i].name@).len() && #[trigger] unicode_lowercase(
                    topics[i].name@,
                ).subrange(k, k + unicode_lowercase(trim(filter_text)).len()) == unicode_lowercase(trim(filter_text))) && (active.len() == 0 || match topics[i].topic_type {
                Some(ty) => exists|j: int| 0 <= j < active.len() && active[j]@ == ty@,
                None => false,
            }))),
{
    let needle = unicode_lowercase(trim(filter_text));
    lemma_kept_indices(topics, needle, string_views(active), topics.len() as int);
    assert forall|i: int| 0 <= i < topics.len() implies (#[trigger] kept_indices(
        topics,
        needle,
        string_views(active),
        topics.len() as int,
    ).contains(i as usize) <==> ((unicode_lowercase(trim(filter_text)).len() == 0 || exists|k: int|
                0 <= k && k + unicode_lowercase(trim(filter_text)).len() <= unicode_lowercase(topics[i].name@).len() && #[trigger] unicode_lowercase(
                    topics[i].name@,
                ).subrange(k, k + unicode_lowercase(trim(filter_text)).len()) == unicode_lowercase(trim(filter_text))) && (active.len() == 0 || match topics[i].topic_type {
                Some(ty) => exists|j: int| 0 <= j < active.len() && active[j]@ == ty@,
                None => false,
            }))) by {
        lemma_topic_kept(topics[i], needle, active);
    }
}

/// The topics a name filter and type filters keep, by index, in order.
/// The name filter is trimmed and compared without case; no active type
/// means every type.
pub fn filter_topics(topics: &Vec<TopicSummary>, filter_text: &str, active_types: &Vec<String>) -> (r: Vec<usize>)
    ensures
        r@ == kept_indices(topics@, filter_needle(filter_text@), string_views(active_types@), topics@.len() as int),
        forall|p: int, q: int| 0 <= p < q < r@.len() ==> r@[p] < r@[q],
        forall|p: int| 0 <= p < r@.len() ==> r@[p] < topics@.len(),
        forall|i: int|
            0 <= i < topics@.len() ==> (#[trigger] r@.contains(i as usize) <==> ((unicode_lowercase(trim(filter_text@)).len() == 0 || exists|k: int|
                0 <= k && k + unicode_lowercase(trim(filter_text@)).len() <= unicode_lowercase(topics@[i].name@).len() && #[trigger] unicode_lowercase(
                    topics@[i].name@,
                ).subrange(k, k + unicode_lowercase(trim(filter_text@)).len()) == unicode_lowercase(trim(filter_text@))) && (active_types@.len() == 0 || match topics@[i].topic_type {
                Some(ty) => exists|j: int| 0 <= j < active_types@.len() && active_types@[j]@ == ty@,
                None => false,
            }))),
{
    let count = topics.len();
    proof {
        assert(topics@.len() == count);
        law_filter_keeps_exactly_the_matching_topics(topics@, filter_text@, active_types@);
    }
    let trimmed_text = crate::text::trimmed(filter_text);
    let needle_text = lowercase(trimmed_text.as_str());
    let needle = chars_of(needle_text.as_str());
    let mut kept: Vec<usize> = Vec::new();
    let mut i: usize = 0;
    while i < topics.len()
        invariant
            i <= topics@.len(),
            needle@ == filter_needle(filter_text@),
            kept@ == kept_indices(topics@, needle@, string_views(active_types@), i as int),
        decreases topics@.len() - i,
    {
        if keeps_topic(&topics[i], needle.as_slice(), active_types) {
            kept.push(i);
        }
        i = i + 1;
    }
    kept
}

/// With an empty name filter and no active type, every topic is kept, in
/// order.
pub proof fn law_no_filter_keeps_every_topic(topics: Seq<TopicSummary>, filter_text: Seq<char>)
    requires
        filter_needle(filter_text).len() == 0,
        topics.len() <= usize::MAX,
    ensures
        kept_indices(topics, filter_needle(filter_text), Seq::empty(), topics.len() as int) == Seq::new(
            topics.len(),
            |i: int| i as usize,
        ),
{
    lemma_all_kept(topics, filter_needle(filter_text), topics.len() as int);
}

/// Every index up to `n` is kept when the filters keep every topic.
proof fn lemma_all_kept(topics: Seq<TopicSummary>, needle: Seq<char>, n: int)
    requires
        0 <= n <= topics.len() <= usize::MAX,
        needle.len() == 0,
    ensures
        kept_indices(topics, needle, Seq::empty(), n) == Seq::new(n as nat, |i: int| i as usize),
    decreases n,
{
    if n > 0 {
        lemma_all_kept(topics, needle, n - 1);
        assert(kept_indices(topics, needle, Seq::empty(), n) =~= Seq::new(n as nat, |i: int| i as usize));
    } else {
        assert(kept_indices(topics, needle, Seq::empty(), n) =~= Seq::new(n as nat, |i: int| i as usize));
    }
}

/// Switches the filter of one topic type: removed where active, added
/// where not.
pub fn toggle_type_filter(active_types: &mut Vec<String>, ty: &str)
    ensures
        string_views(final(active_types)@) == toggled(string_views(old(active_types)@), ty@),
{
    toggle_text(active_types, ty);
}

/// A text, or `-` where there is none.
pub open spec fn or_dash(o: Option<Seq<char>>) -> Seq<char> {
    match o {
        Some(t) => t,
        None => "-"@,
    }
}

/// A number in decimal, or `-` where there is none.
pub open spec fn number_or_dash(o: Option<nat>) -> Seq<char> {
    match o {
        Some(n) => crate::text_build::decimal(n),
        None => "-"@,
    }
}

/// A copy of a text, or `-`.
fn text_or_dash(o: &Option<String>) -> (r: String)
    ensures
        r@ == or_dash(crate::rocketmq_form::opt_text(*o)),
{
    match o {
        Some(t) => copy_string(t),
        None => crate::text::owned("-"),
    }
}

/// A number in decimal, or `-`.
fn number_text_or_dash(o: Option<u64>) -> (r: String)
    ensures
        r@ == number_or_dash(match o {
            Some(n) => Some(n as nat),
            None => None,
        }),
{
    match o {
        Some(n) => crate::text_build::decimal_string(n),
        None => crate::text::owned("-"),
    }
}

/// The text of a cell of the topic table: name, type, queues, permission,
/// message count and creation time; other columns are empty.
pub open spec fn topic_cell_view(t: TopicSummary, col: nat) -> Seq<char> {
    if col == 0 {
        t.name@
    } else if col == 1 {
        or_dash(crate::rocketmq_form::opt_text(t.topic_type))
    } else if col == 2 {
        number_or_dash(match t.queue_count {
            Some(q) => Some(q as nat),
            None => None,
        })
    } else if col == 3 {
        or_dash(crate::rocketmq_form::opt_text(t.perm))
    } else if col == 4 {
        number_or_dash(match t.message_count {
            Some(c) => Some(c as nat),
            None => None,
        })
    } else if col == 5 {
        or_dash(crate::rocketmq_form::opt_text(t.created_at))
    } else {
        Seq::empty()
    }
}

/// The text of a cell of the topic table.
pub fn topic_cell(topic: &TopicSummary, col: usize) -> (r: String)
    ensures
        r@ == topic_cell_view(*topic, col as nat),
{
    if col == 0 {
        copy_string(&topic.name)
    } else if col == 1 {
        text_or_dash(&topic.topic_type)
    } else if col == 2 {
        number_text_or_dash(
            match topic.queue_count {
                Some(q) => Some(q as u64),
                None => None,
            },
        )
    } else if col == 3 {
        text_or_dash(&topic.perm)
    } else if col == 4 {
        number_text_or_dash(topic.message_count)
    } else if col == 5 {
        text_or_dash(&topic.created_at)
    } else {
        String::new()
    }
}

/// What the message pages read of a message.
#[derive(Debug, Clone, PartialEq, Eq)]
pub struct MessageSummary {
    pub message_id: String,
    pub topic: String,
    pub tag: Option<String>,
    pub key: Option<String>,
    pub body: Option<Vec<u8>>,
    pub store_host: Option<String>,
    pub born_host: Option<String>,
    pub store_time: Option<String>,
    pub born_time: Option<String>,
    pub retry_times: Option<u32>,
    /// The user properties, as `(key, value)` pairs.
    pub properties: Vec<(String, String)>,
}

/// The text of a cell of the message table: id, tag, key and store time;
/// other columns are empty.
pub open spec fn message_cell_view(m: MessageSummary, col: nat) -> Seq<char> {
    if col == 0 {
        m.message_id@
    } else if col == 1 {
        or_dash(crate::rocketmq_form::opt_text(m.tag))
    } else if col == 2 {
        or_dash(crate::rocketmq_form::opt_text(m.key))
    } else if col == 3 {
        or_dash(crate::rocketmq_form::opt_text(m.store_time))
    } else {
        Seq::empty()
    }
}

/// The text of a cell of the message table.
pub fn message_cell(message: &MessageSummary, col: usize) -> (r: String)
    ensures
        r@ == message_cell_view(*message, col as nat),
{
    if col == 0 {
        copy_string(&message.message_id)
    } else if col == 1 {
        text_or_dash(&message.tag)
    } else if col == 2 {
        text_or_dash(&message.key)
    } else if col == 3 {
        text_or_dash(&message.store_time)
    } else {
        String::new()
    }
}

/// The values of a message's detail rows, in order: id, topic, tag, key,
/// store host, born host, store time, born time and retries, `-` for what
/// is missing.
pub open spec fn detail_values_view(m: MessageSummary) -> Seq<Seq<char>> {
    seq![
        m.message_id@,
        m.topic@,
        or_dash(crate::rocketmq_form::opt_text(m.tag)),
        or_dash(crate::rocketmq_form::opt_text(m.key)),
        or_dash(crate::rocketmq_form::opt_text(m.store_host)),
        or_dash(crate::rocketmq_form::opt_text(m.born_host)),
        or_dash(crate::rocketmq_form::opt_text(m.store_time)),
        or_dash(crate::rocketmq_form::opt_text(m.born_time)),
        number_or_dash(match m.retry_times {
            Some(t) => Some(t as nat),
            None => None,
        }),
    ]
}

/// The values of a message's detail rows.
pub fn message_detail_values(message: &MessageSummary) -> (r: Vec<String>)
    ensures
        string_views(r@) == detail_values_view(*message),
{
    let mut v: Vec<String> = Vec::new();
    v.push(copy_string(&message.message_id));
    v.push(copy_string(&message.topic));
    v.push(text_or_dash(&message.tag));
    v.push(text_or_dash(&message.key));
    v.push(text_or_dash(&message.store_host));
    v.push(text_or_dash(&message.born_host));
    v.push(text_or_dash(&message.store_time));
    v.push(text_or_dash(&message.born_time));
    v.push(
        number_text_or_dash(
            match message.retry_times {
                Some(t) => Some(t as u64),
                None => None,
            },
        ),
    );
    assert(string_views(v@) =~= detail_values_view(*message));
    v
}

/// The property lines of a message's details, `key: value` each, in order;
/// none where it has no properties (the dialog then says so).
pub open spec fn property_lines_view(m: MessageSummary) -> Seq<Seq<char>> {
    Seq::new(m.properties@.len(), |i: int| m.properties@[i].0@ + ": "@ + m.properties@[i].1@)
}

/// The property lines of a message's details.
pub fn message_property_lines(message: &MessageSummary) -> (r: Vec<String>)
    ensures
        string_views(r@) == property_lines_view(*message),
{
    let mut lines: Vec<String> = Vec::new();
    let mut i: usize = 0;
    while i < message.properties.len()
        invariant
            i <= message.properties@.len(),
            string_views(lines@) == property_lines_view(*message).subrange(0, i as int),
        decreases message.properties@.len() - i,
    {
        let pair = &message.properties[i];
        let mut text: Vec<char> = chars_of(pair.0.as_str());
        crate::text_build::push_str(&mut text, ": ");
        crate::text_build::push_str(&mut text, pair.1.as_str());
        let ghost before = lines@;
        lines.push(string_of(text.as_slice()));
        assert(string_views(lines@) =~= string_views(before).push(pair.0@ + ": "@ + pair.1@));
        assert(string_views(lines@) =~= property_lines_view(*message).subrange(0, i + 1));
        i = i + 1;
    }
    assert(property_lines_view(*message).subrange(0, i as int) =~= property_lines_view(*message));
    lines
}

/// What the resend dialog starts with: the message's topic, tag and key
/// (empty where missing), and its body as text where it is valid UTF-8.
pub open spec fn resend_view(m: MessageSummary) -> (Seq<char>, Seq<char>, Seq<char>, Option<Seq<char>>) {
    let body = match m.body {
        Some(b) => b@,
        None => Seq::empty(),
    };
    (
        m.topic@,
        match m.tag {
            Some(t) => t@,
            None => Seq::empty(),
        },
        match m.key {
            Some(k) => k@,
            None => Seq::empty(),
        },
        if valid_utf8(body) {
            Some(decode_utf8(body))
        } else {
            None
        },
    )
}

/// The fields of the resend dialog.
pub fn resend_prefill(message: &MessageSummary) -> (r: (String, String, String, Option<String>))
    ensures
        (r.0@, r.1@, r.2@, crate::rocketmq_form::opt_text(r.3)) == resend_view(*message),
{
    let tag = match &message.tag {
        Some(t) => copy_string(t),
        None => String::new(),
    };
    let key = match &message.key {
        Some(k) => copy_string(k),
        None => String::new(),
    };
    let body = match &message.body {
        Some(b) => utf8_text(b.as_slice()),
        None => {
            let empty: Vec<u8> = Vec::new();
            utf8_text(empty.as_slice())
        },
    };
    (copy_string(&message.topic), tag, key, body)
}

} // verus!
