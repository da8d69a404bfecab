//! The document list query: the URL query of a list request (`rows`, `sort`,
//! `q`) read into a limit, an order and filters.

use vstd::prelude::*;

use crate::engines::{parse_url_query, text_pairs, url_query};
use crate::text::{chars_to_string, concat_text, replace_text, replace_text_spec, str_chars, text_eq};

verus! {

/// A column the list can be ordered by.
#[derive(PartialEq, Eq, Structural, Debug, Clone, Copy)]
pub enum SortField {
    Date,
    Subject,
    Status,
    Amount,
}

/// A column the list can be filtered on; text columns are matched with
/// `LIKE`, the date and the amount for equality.
#[derive(PartialEq, Eq, Structural, Debug, Clone, Copy)]
pub enum FilterField {
    Body,
    Subject,
    Status,
    Date,
    Amount,
    SenderName,
    RecipientName,
    Category,
}

/// The name of the database column a filter applies to.
pub open spec fn filter_column(f: FilterField) -> Seq<char> {
    match f {
        FilterField::Body => "body"@,
        FilterField::Subject => "subject"@,
        FilterField::Status => "status"@,
        FilterField::Date => "date"@,
        FilterField::Amount => "amount"@,
        FilterField::SenderName => "sender_name"@,
        FilterField::RecipientName => "recipient_name"@,
        FilterField::Category => "category"@,
    }
}

impl FilterField {
    /// The name of the database column the filter applies to.
    pub fn column(&self) -> (r: &'static str)
        ensures
            r@ == filter_column(*self),
    {
        match self {
            FilterField::Body => "body",
            FilterField::Subject => "subject",
            FilterField::Status => "status",
            FilterField::Date => "date",
            FilterField::Amount => "amount",
            FilterField::SenderName => "sender_name",
            FilterField::RecipientName => "recipient_name",
            FilterField::Category => "category",
        }
    }
}

/// What a list request asks for.
pub struct DocumentQuery {
    /// The most rows to return.
    pub limit: i64,
    /// The order: column and whether descending; `None` keeps the store's order.
    pub sort: Option<(SortField, bool)>,
    /// The filters, all of which must hold, with their patterns (`%` for any run).
    pub filters: Vec<(FilterField, String)>,
}

/// The view of a query.
pub struct QueryModel {
    pub limit: int,
    pub sort: Option<(SortField, bool)>,
    pub filters: Seq<(FilterField, Seq<char>)>,
}

impl DocumentQuery {
    pub open spec fn model(&self) -> QueryModel {
        QueryModel {
            limit: self.limit as int,
            sort: self.sort,
            filters: self.filters@.map_values(|f: (FilterField, String)| (f.0, f.1@)),
        }
    }
}

// ------------------------------------------------------------------------
// Integers

/// An ASCII decimal digit.
pub open spec fn is_digit(c: char) -> bool {
    '0' <= c && c <= '9'
}

/// Every character is a decimal digit.
pub open spec fn all_digits(d: Seq<char>) -> bool {
    forall|i: int| 0 <= i < d.len() ==> is_digit(#[trigger] d[i])
}

/// A non-empty text without its leading sign.
pub open spec fn unsigned_part(s: Seq<char>) -> Seq<char> {
    if s[0] == '-' || s[0] == '+' {
        s.skip(1)
    } else {
        s
    }
}

/// The value of a run of decimal digits.
pub open spec fn digits_value(d: Seq<char>) -> int
    decreases d.len(),
{
    if d.len() == 0 {
        0
    } else {
        digits_value(d.drop_last()) * 10 + (d.last() as int - '0' as int)
    }
}

/// The integer `str::parse::<i64>` reads: an optional `+` or `-`, then one
/// or more decimal digits, the value within the range of `i64`.
pub open spec fn parsed_i64(s: Seq<char>) -> Option<int> {
    if s.len() == 0 {
        None
    } else {
        let neg = s[0] == '-';
        let d = unsigned_part(s);
        if d.len() == 0 || !all_digits(d) {
            None
        } else {
            let v = if neg {
                -digits_value(d)
            } else {
                digits_value(d)
            };
            if i64::MIN <= v <= i64::MAX {
                Some(v)
            } else {
                None
            }
        }
    }
}

proof fn lemma_digits_nonneg(d: Seq<char>)
    requires
        forall|i: int| 0 <= i < d.len() ==> is_digit(#[trigger] d[i]),
    ensures
        digits_value(d) >= 0,
    decreases d.len(),
{
    if d.len() > 0 {
        lemma_digits_nonneg(d.drop_last());
    }
}

proof fn lemma_digits_step(pre: Seq<char>, next: Seq<char>)
    requires
        next.len() == pre.len() + 1,
        next.drop_last() == pre,
    ensures
        digits_value(next) == digits_value(pre) * 10 + (next.last() as int - '0' as int),
{
}

/// Reads a decimal integer as `str::parse::<i64>` does, see `parsed_i64`.
pub fn parse_i64(s: &str) -> (r: Option<i64>)
    ensures
        match r {
            Some(v) => parsed_i64(s@) == Some(v as int),
            None => parsed_i64(s@) is None,
        },
{
    let v = str_chars(s);
    if v.len() == 0 {
        return None;
    }
    let neg = v[0] == '-';
    let start: usize = if v[0] == '-' || v[0] == '+' {
        1
    } else {
        0
    };
    let ghost d = v@.skip(start as int);
    proof {
        if start == 0 {
            assert(d =~= s@);
        }
    }
    if start == v.len() {
        assert(d.len() == 0);
        return None;
    }
    let bound: u64 = 0x8000_0000_0000_0000;
    let mut acc: u64 = 0;
    let mut over = false;
    let mut i = start;
    assert(v@.subrange(start as int, start as int) =~= Seq::<char>::empty());
    while i < v.len()
        invariant
            start <= i <= v@.len(),
            d == v@.skip(start as int),
            v@ == s@,
            s@.len() > 0,
            d == unsigned_part(s@),
            forall|j: int| start <= j < i ==> is_digit(#[trigger] v@[j]),
            !over ==> acc as int == digits_value(v@.subrange(start as int, i as int)),
            !over ==> acc <= bound,
            over ==> digits_value(v@.subrange(start as int, i as int)) > bound,
            bound == 0x8000_0000_0000_0000u64,
        decreases v@.len() - i,
    {
        let c = v[i];
        if !('0' <= c && c <= '9') {
            assert(d[i - start] == c);
            assert(!is_digit(d[i - start]));
            assert(!all_digits(d));
            return None;
        }
        let ghost pre = v@.subrange(start as int, i as int);
        let ghost next = v@.subrange(start as int, i + 1);
        assert(next.drop_last() =~= pre);
        assert(forall|j: int| 0 <= j < pre.len() ==> is_digit(#[trigger] pre[j])) by {
            assert forall|j: int| 0 <= j < pre.len() implies is_digit(#[trigger] pre[j]) by {
                assert(pre[j] == v@[start + j]);
            }
        }
        proof {
            lemma_digits_nonneg(pre);
            lemma_digits_step(pre, next);
        }
        let digit = (c as u32 - '0' as u32) as u64;
        assert(digit as int == next.last() as int - '0' as int);
        if !over {
            if acc > bound / 10 {
                over = true;
                assert(acc * 10 + digit > bound) by (nonlinear_arith)
                    requires
                        acc > bound / 10,
                        bound == 0x8000_0000_0000_0000u64,
                ;
            } else {
                assert(acc * 10 <= 0x8000_0000_0000_0000u64) by (nonlinear_arith)
                    requires
                        acc <= bound / 10,
                        bound == 0x8000_0000_0000_0000u64,
                ;
                let t = acc * 10 + digit;
                if t > bound {
                    over = true;
                } else {
                    acc = t;
                }
            }
        } else {
            assert(digits_value(next) > bound) by (nonlinear_arith)
                requires
                    digits_value(pre) > bound,
                    digits_value(next) == digits_value(pre) * 10 + (next.last() as int - '0' as int),
                    next.last() as int - '0' as int >= 0,
            ;
        }
        i = i + 1;
    }
    assert(v@.subrange(start as int, i as int) =~= d);
    assert(all_digits(d)) by {
        assert forall|j: int| 0 <= j < d.len() implies is_digit(#[trigger] d[j]) by {
            assert(d[j] == v@[start + j]);
        }
    }
    if over {
        return None;
    }
    if neg {
        if acc == bound {
            Some(i64::MIN)
        } else {
            Some(-(acc as i64))
        }
    } else {
        if acc == bound {
            None
        } else {
            Some(acc as i64)
        }
    }
}

// ------------------------------------------------------------------------
// Splitting

/// Unicode White_Space, as `char::is_whitespace`.
pub open spec fn is_white(c: char) -> bool {
    ('\u{9}' <= c && c <= '\u{d}') || c == ' ' || c == '\u{85}' || c == '\u{a0}' || c
        == '\u{1680}' || ('\u{2000}' <= c && c <= '\u{200a}') || c == '\u{2028}' || c
        == '\u{2029}' || c == '\u{202f}' || c == '\u{205f}' || c == '\u{3000}'
}

fn is_white_exec(c: char) -> (r: bool)
    ensures
        r == is_white(c),
{
    ('\u{9}' <= c && c <= '\u{d}') || c == ' ' || c == '\u{85}' || c == '\u{a0}' || c
        == '\u{1680}' || ('\u{2000}' <= c && c <= '\u{200a}') || c == '\u{2028}' || c
        == '\u{2029}' || c == '\u{202f}' || c == '\u{205f}' || c == '\u{3000}'
}

/// The words of the first `n` characters, as `split_whitespace` yields them,
/// and the word still being read.
pub open spec fn words_upto(s: Seq<char>, n: int) -> (Seq<Seq<char>>, Seq<char>)
    decreases n,
{
    if n <= 0 {
        (Seq::empty(), Seq::empty())
    } else {
        let (ws, cur) = words_upto(s, n - 1);
        let c = s[n - 1];
        if is_white(c) {
            if cur.len() > 0 {
                (ws.push(cur), Seq::empty())
            } else {
                (ws, cur)
            }
        } else {
            (ws, cur.push(c))
        }
    }
}

/// The words of `s`: its maximal runs without white space.
pub open spec fn words(s: Seq<char>) -> Seq<Seq<char>> {
    let (ws, cur) = words_upto(s, s.len() as int);
    if cur.len() > 0 {
        ws.push(cur)
    } else {
        ws
    }
}

/// The `i`-th word of `s`, or the empty text.
pub open spec fn word_or_empty(s: Seq<char>, i: int) -> Seq<char> {
    if i < words(s).len() {
        words(s)[i]
    } else {
        Seq::empty()
    }
}

/// The first two words of a text, the empty text for each that is missing.
pub fn first_two_words(s: &str) -> (r: (String, String))
    ensures
        r.0@ == word_or_empty(s@, 0),
        r.1@ == word_or_empty(s@, 1),
{
    let v = str_chars(s);
    let mut ws: Vec<Vec<char>> = Vec::new();
    let mut cur: Vec<char> = Vec::new();
    let mut i: usize = 0;
    while i < v.len()
        invariant
            i <= v@.len(),
            v@ == s@,
            words_upto(s@, i as int) == (ws@.map_values(|w: Vec<char>| w@), cur@),
        decreases v@.len() - i,
    {
        let c = v[i];
        if is_white_exec(c) {
            if cur.len() > 0 {
                let ghost before = ws@.map_values(|w: Vec<char>| w@);
                let ghost cv = cur@;
                ws.push(cur);
                cur = Vec::new();
                assert(ws@.map_values(|w: Vec<char>| w@) =~= before.push(cv));
                assert(cur@ =~= Seq::<char>::empty());
            }
        } else {
            cur.push(c);
        }
        i = i + 1;
    }
    if cur.len() > 0 {
        let ghost before = ws@.map_values(|w: Vec<char>| w@);
        let ghost cv = cur@;
        ws.push(cur);
        assert(ws@.map_values(|w: Vec<char>| w@) =~= before.push(cv));
    }
    assert(words(s@) == ws@.map_values(|w: Vec<char>| w@));
    let first = if ws.len() > 0 {
        chars_to_string(ws[0].as_slice())
    } else {
        String::new()
    };
    let second = if ws.len() > 1 {
        chars_to_string(ws[1].as_slice())
    } else {
        String::new()
    };
    (first, second)
}

/// The text before the first `c` and what follows it; the whole text and
/// `None` where `c` does not occur.
pub open spec fn split_once(s: Seq<char>, c: char) -> (Seq<char>, Option<Seq<char>>)
    decreases s.len(),
{
    if s.len() == 0 {
        (Seq::empty(), None)
    } else if s[0] == c {
        (Seq::empty(), Some(s.skip(1)))
    } else {
        let (a, b) = split_once(s.skip(1), c);
        (seq![s[0]] + a, b)
    }
}

/// The first two pieces of `split(':')`, the empty text for a missing one.
pub open spec fn colon_pieces(s: Seq<char>) -> (Seq<char>, Seq<char>) {
    let (a, rest) = split_once(s, ':');
    match rest {
        None => (a, Seq::empty()),
        Some(r) => (a, split_once(r, ':').0),
    }
}

proof fn lemma_split_once_step(s: Seq<char>, c: char, i: int)
    requires
        0 <= i < s.len(),
        forall|j: int| 0 <= j < i ==> s[j] != c,
    ensures
        split_once(s, c) == ({
            let (a, b) = split_once(s.skip(i), c);
            (s.take(i) + a, b)
        }),
    decreases i,
{
    if i > 0 {
        lemma_split_once_step(s.skip(1), c, i - 1);
        assert(s.skip(1).skip(i - 1) =~= s.skip(i));
        assert(seq![s[0]] + s.skip(1).take(i - 1) =~= s.take(i));
        let (a, b) = split_once(s.skip(i), c);
        assert(seq![s[0]] + (s.skip(1).take(i - 1) + a) =~= s.take(i) + a);
    } else {
        assert(s.skip(0) =~= s);
        let (a, b) = split_once(s, c);
        assert(s.take(0) + a =~= a);
    }
}

/// The text before the first `c` and what follows it, see `split_once`.
fn split_once_exec(s: &[char], c: char) -> (r: (Vec<char>, Option<Vec<char>>))
    ensures
        split_once(s@, c) == (r.0@, match r.1 {
            Some(v) => Some(v@),
            None => None::<Seq<char>>,
        }),
{
    let mut i: usize = 0;
    while i < s.len()
        invariant
            i <= s@.len(),
            forall|j: int| 0 <= j < i ==> s@[j] != c,
        ensures
            i <= s@.len(),
            forall|j: int| 0 <= j < i ==> s@[j] != c,
            i < s@.len() ==> s@[i as int] == c,
        decreases s@.len() - i,
    {
        if s[i] == c {
            break ;
        }
        i = i + 1;
    }
    assert(i < s@.len() ==> s@[i as int] == c);
    let mut a: Vec<char> = Vec::new();
    let mut k: usize = 0;
    while k < i
        invariant
            k <= i <= s@.len(),
            a@ == s@.take(k as int),
        decreases i - k,
    {
        a.push(s[k]);
        k = k + 1;
        assert(s@.take(k as int) =~= s@.take(k - 1).push(s@[k - 1]));
    }
    if i == s.len() {
        proof {
            lemma_split_none(s@, c);
        }
        assert(s@.take(i as int) =~= s@);
        return (a, None);
    }
    let mut b: Vec<char> = Vec::new();
    let mut m: usize = i + 1;
    while m < s.len()
        invariant
            i + 1 <= m <= s@.len(),
            b@ == s@.subrange(i + 1, m as int),
        decreases s@.len() - m,
    {
        b.push(s[m]);
        m = m + 1;
        assert(s@.subrange(i + 1, m as int) =~= s@.subrange(i + 1, m - 1).push(s@[m - 1]));
    }
    proof {
        lemma_split_once_step(s@, c, i as int);
        assert(s@.skip(i as int).skip(1) =~= s@.subrange(i + 1, s@.len() as int));
        let (x, y) = split_once(s@.skip(i as int), c);
        assert(x =~= Seq::<char>::empty());
        assert(s@.take(i as int) + x =~= s@.take(i as int));
    }
    (a, Some(b))
}

proof fn lemma_split_none(s: Seq<char>, c: char)
    requires
        forall|j: int| 0 <= j < s.len() ==> s[j] != c,
    ensures
        split_once(s, c) == (s, None::<Seq<char>>),
    decreases s.len(),
{
    if s.len() > 0 {
        lemma_split_none(s.skip(1), c);
        assert(seq![s[0]] + s.skip(1) =~= s);
    } else {
        assert(s =~= Seq::<char>::empty());
    }
}

/// The first two pieces of `split(':')`, see `colon_pieces`.
pub fn colon_split(s: &str) -> (r: (String, String))
    ensures
        (r.0@, r.1@) == colon_pieces(s@),
{
    let v = str_chars(s);
    let (a, rest) = split_once_exec(v.as_slice(), ':');
    let first = chars_to_string(a.as_slice());
    match rest {
        None => (first, String::new()),
        Some(r) => {
            let (b, _) = split_once_exec(r.as_slice(), ':');
            (first, chars_to_string(b.as_slice()))
        },
    }
}

// ------------------------------------------------------------------------
// The query

/// The order a `sort` value asks for: `date`, `subject`, `status` or
/// `amount`, descending with a second word `desc`; anything else orders by
/// date, descending.
pub open spec fn sort_of(value: Seq<char>) -> (SortField, bool) {
    let name = word_or_empty(value, 0);
    let desc = word_or_empty(value, 1) == "desc"@;
    if name == "date"@ {
        (SortField::Date, desc)
    } else if name == "subject"@ {
        (SortField::Subject, desc)
    } else if name == "status"@ {
        (SortField::Status, desc)
    } else if name == "amount"@ {
        (SortField::Amount, desc)
    } else {
        (SortField::Date, true)
    }
}

/// The column a filter name stands for.
pub open spec fn filter_field_of(name: Seq<char>) -> Option<FilterField> {
    if name == "body"@ {
        Some(FilterField::Body)
    } else if name == "subject"@ {
        Some(FilterField::Subject)
    } else if name == "status"@ {
        Some(FilterField::Status)
    } else if name == "date"@ {
        Some(FilterField::Date)
    } else if name == "amount"@ {
        Some(FilterField::Amount)
    } else if name == "sender_name"@ {
        Some(FilterField::SenderName)
    } else if name == "recipient_name"@ {
        Some(FilterField::RecipientName)
    } else if name == "category"@ {
        Some(FilterField::Category)
    } else {
        None
    }
}

/// One URL parameter: `rows` sets the limit when it is an integer; `sort`
/// sets the order (the last one counts); `q` = `<column>:<pattern>` adds a
/// filter with `*` read as `%`, for a known column.
pub open spec fn query_step(q: QueryModel, key: Seq<char>, value: Seq<char>) -> QueryModel {
    let q1 = if key == "rows"@ {
        match parsed_i64(value) {
            Some(v) => QueryModel { limit: v, ..q },
            None => q,
        }
    } else {
        q
    };
    let q2 = if key == "sort"@ {
        QueryModel { sort: Some(sort_of(value)), ..q1 }
    } else {
        q1
    };
    if key == "q"@ {
        let (name, pattern) = colon_pieces(value);
        match filter_field_of(name) {
            Some(f) => QueryModel {
                filters: q2.filters.push((f, replace_text_spec(pattern, "*"@, "%"@))),
                ..q2
            },
            None => q2,
        }
    } else {
        q2
    }
}

/// The first `n` URL parameters.
pub open spec fn query_steps(pairs: Seq<(Seq<char>, Seq<char>)>, n: int) -> QueryModel
    decreases n,
{
    if n <= 0 {
        QueryModel { limit: 50, sort: None, filters: Seq::empty() }
    } else {
        query_step(query_steps(pairs, n - 1), pairs[n - 1].0, pairs[n - 1].1)
    }
}

/// The URL the query text is read in.
pub open spec fn query_url(query: Seq<char>) -> Seq<char> {
    "http://123"@ + query
}

/// Reads a list request's query text (`?rows=..&sort=..&q=..`): the URL's
/// error text where it cannot be read, else the parameters applied in order
/// to 50 rows, no order and no filter.
pub fn document_query(query: &str) -> (r: Result<DocumentQuery, String>)
    ensures
        match url_query(query_url(query@)) {
            Err(e) => r matches Err(m) && m@ == e,
            Ok(pairs) => r matches Ok(d) && d.model() == query_steps(pairs, pairs.len() as int),
        },
{
    let url = concat_text("http://123", query);
    let pairs = match parse_url_query(url.as_str()) {
        Ok(p) => p,
        Err(e) => {
            return Err(e);
        },
    };
    let ghost pv = text_pairs(pairs);
    let mut q = DocumentQuery { limit: 50, sort: None, filters: Vec::new() };
    assert(q.model().filters =~= Seq::<(FilterField, Seq<char>)>::empty());
    let mut k: usize = 0;
    while k < pairs.len()
        invariant
            k <= pairs@.len(),
            pv == text_pairs(pairs),
            q.model() == query_steps(pv, k as int),
        decreases pairs@.len() - k,
    {
        let key = pairs[k].0.as_str();
        let value = pairs[k].1.as_str();
        assert(pv[k as int] == (key@, value@));
        if text_eq(key, "rows") {
            match parse_i64(value) {
                Some(v) => {
                    q.limit = v;
                },
                None => {},
            }
        }
        if text_eq(key, "sort") {
            let (name, order) = first_two_words(value);
            let desc = text_eq(order.as_str(), "desc");
            let sort = if text_eq(name.as_str(), "date") {
                (SortField::Date, desc)
            } else if text_eq(name.as_str(), "subject") {
                (SortField::Subject, desc)
            } else if text_eq(name.as_str(), "status") {
                (SortField::Status, desc)
            } else if text_eq(name.as_str(), "amount") {
                (SortField::Amount, desc)
            } else {
                (SortField::Date, true)
            };
            q.sort = Some(sort);
        }
        if text_eq(key, "q") {
            let (name, pattern) = colon_split(value);
            let search = replace_text(pattern.as_str(), "*", "%");
            let n = name.as_str();
            let field = if text_eq(n, "body") {
                Some(FilterField::Body)
            } else if text_eq(n, "subject") {
                Some(FilterField::Subject)
            } else if text_eq(n, "status") {
                Some(FilterField::Status)
            } else if text_eq(n, "date") {
                Some(FilterField::Date)
            } else if text_eq(n, "amount") {
                Some(FilterField::Amount)
            } else if text_eq(n, "sender_name") {
                Some(FilterField::SenderName)
            } else if text_eq(n, "recipient_name") {
                Some(FilterField::RecipientName)
            } else if text_eq(n, "category") {
                Some(FilterField::Category)
            } else {
                None
            };
            match field {
                Some(f) => {
                    let ghost before = q.model().filters;
                    let ghost item = (f, search@);
                    q.filters.push((f, search));
                    assert(q.model().filters =~= before.push(item));
                },
                None => {},
            }
        }
        k = k + 1;
    }
    Ok(q)
}

proof fn lemma_column_names()
    ensures
        "body"@.len() == 4 && "body"@[0] == 'b',
        "subject"@.len() == 7 && "subject"@[0] == 's',
        "status"@.len() == 6 && "status"@[0] == 's',
        "date"@.len() == 4 && "date"@[0] == 'd',
        "amount"@.len() == 6 && "amount"@[0] == 'a',
        "sender_name"@.len() == 11,
        "recipient_name"@.len() == 14,
        "category"@.len() == 8,
        "q"@.len() == 1 && "rows"@.len() == 4 && "sort"@.len() == 4,
{
    reveal_strlit("body");
    reveal_strlit("subject");
    reveal_strlit("status");
    reveal_strlit("date");
    reveal_strlit("amount");
    reveal_strlit("sender_name");
    reveal_strlit("recipient_name");
    reveal_strlit("category");
    reveal_strlit("q");
    reveal_strlit("rows");
    reveal_strlit("sort");
}

/// A filter name stands for the column of that name and no other: every
/// column's name gives its filter, and a name that gives a filter is that
/// filter's column name.
pub proof fn law_filter_names_are_column_names(name: Seq<char>, f: FilterField)
    ensures
        filter_field_of(filter_column(f)) == Some(f),
        filter_field_of(name) == Some(f) ==> filter_column(f) == name,
{
    lemma_column_names();
}

/// A `q` parameter `<column>:<pattern>` naming a known column adds one
/// filter on exactly that column, with the pattern's `*` read as `%`; the
/// limit and the order stay.
pub proof fn law_q_parameter_filters_its_column(q: QueryModel, value: Seq<char>, f: FilterField)
    requires
        colon_pieces(value).0 == filter_column(f),
    ensures
        query_step(q, "q"@, value) == (QueryModel {
            filters: q.filters.push((f, replace_text_spec(colon_pieces(value).1, "*"@, "%"@))),
            ..q
        }),
{
    lemma_column_names();
    law_filter_names_are_column_names(colon_pieces(value).0, f);
}

} // verus!
