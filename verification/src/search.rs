//! Searching the providers: normalising the query, ranking the albums and
//! playlists found, and the browser's answer to a search.

use vstd::prelude::*;
use crate::model::{CollectionKind, CollectionSummary, TrackSummary, text_or_empty};
use crate::textorder::{text_lt, text_less, text_equal, lemma_text_lt_transitive, lemma_text_lt_asymmetric, lemma_text_lt_irreflexive, lowercase_of, to_lowercase};
use crate::text::chars_of;
use crate::textorder::is_index_permutation;

verus! {

/// A white-space character, as `char::is_whitespace` (Unicode `White_Space`)
/// defines it.
pub open spec fn is_ws(c: char) -> bool {
    c == '\t' || c == '\n' || c == '\u{0B}' || c == '\u{0C}' || c == '\r' || c == ' '
        || c == '\u{85}' || c == '\u{A0}' || c == '\u{1680}'
        || ('\u{2000}' <= c && c <= '\u{200A}')
        || c == '\u{2028}' || c == '\u{2029}' || c == '\u{202F}' || c == '\u{205F}' || c == '\u{3000}'
}

/// Text without its leading white space.
pub open spec fn trim_front(s: Seq<char>) -> Seq<char>
    decreases s.len(),
{
    if s.len() > 0 && is_ws(s[0]) { trim_front(s.drop_first()) } else { s }
}

/// Text without its trailing white space.
pub open spec fn trim_back(s: Seq<char>) -> Seq<char>
    decreases s.len(),
{
    if s.len() > 0 && is_ws(s.last()) { trim_back(s.drop_last()) } else { s }
}

/// Text without leading and trailing white space, as `str::trim` gives it.
pub open spec fn trimmed(s: Seq<char>) -> Seq<char> {
    trim_back(trim_front(s))
}

/// The ASCII lower case of a character.
pub open spec fn ascii_lower(c: char) -> char {
    if 'A' <= c && c <= 'Z' { ((c as u32) + 32) as char } else { c }
}

/// Text with ASCII letters lower-cased, as `str::to_ascii_lowercase` gives it.
pub open spec fn ascii_lowered(s: Seq<char>) -> Seq<char> {
    s.map_values(|c: char| ascii_lower(c))
}

/// `n` occurs in `h` as a contiguous piece.
pub open spec fn occurs_in(n: Seq<char>, h: Seq<char>) -> bool {
    exists|i: int| 0 <= i && i + n.len() <= h.len() && #[trigger] h.subrange(i, i + n.len()) == n
}

/// `q[a..b]` is one of the white-space separated words of `q`.
pub open spec fn is_term(q: Seq<char>, a: int, b: int) -> bool {
    &&& 0 <= a < b <= q.len()
    &&& forall|k: int| a <= k < b ==> !is_ws(#[trigger] q[k])
    &&& (a == 0 || is_ws(q[a - 1]))
    &&& (b == q.len() || is_ws(q[b]))
}

/// Every word of `q` occurs in `t` or in `s`.
pub open spec fn all_terms_found(q: Seq<char>, t: Seq<char>, s: Seq<char>) -> bool {
    forall|a: int, b: int| #[trigger] is_term(q, a, b) ==> occurs_in(q.subrange(a, b), t) || occurs_in(q.subrange(a, b), s)
}

/// A collection's rank for a query: exact title match, title containing
/// the query, every word found in title or subtitle, subtitle containing
/// the query, albums over playlists, and up to 99 for the track count, on
/// top of the provider's bias.
pub open spec fn rank_of(c: CollectionSummary, query: Seq<char>, bias: int) -> int {
    let nq = ascii_lowered(trimmed(query));
    let nt = ascii_lowered(c.title@);
    let ns = ascii_lowered(text_or_empty(c.subtitle));
    let count: int = match c.track_count {
        Some(n) => if n < 99 { n as int } else { 99 },
        None => 0,
    };
    bias
        + (if nt == nq { 500int } else if occurs_in(nq, nt) { 250int } else { 0int })
        + (if nq.len() > 0 && all_terms_found(nq, nt, ns) { 120int } else { 0int })
        + (if occurs_in(nq, ns) { 60int } else { 0int })
        + (match c.reference.kind {
            CollectionKind::Album => 20int,
            CollectionKind::Playlist => 10int,
        })
        + count
}

/// A part of a text that occurs in another occurs there too.
proof fn lemma_part_occurs(q: Seq<char>, t: Seq<char>, a: int, b: int)
    requires
        occurs_in(q, t),
        0 <= a <= b <= q.len(),
    ensures
        occurs_in(q.subrange(a, b), t),
{
    let i = choose|i: int| 0 <= i && i + q.len() <= t.len() && #[trigger] t.subrange(i, i + q.len()) == q;
    assert(t.subrange(i + a, i + a + (b - a)) =~= q.subrange(a, b)) by {
        assert forall|k: int| 0 <= k < b - a implies #[trigger] t.subrange(i + a, i + a + (b - a))[k] == q.subrange(a, b)[k] by {
            assert(t.subrange(i, i + q.len())[a + k] == t[i + a + k]);
        }
    }
}

/// Every word of a query found within a title is found in it.
proof fn lemma_terms_found_in_containing_title(q: Seq<char>, t: Seq<char>, s: Seq<char>)
    requires
        occurs_in(q, t),
    ensures
        all_terms_found(q, t, s),
{
    assert forall|a: int, b: int| #[trigger] is_term(q, a, b) implies occurs_in(q.subrange(a, b), t) || occurs_in(q.subrange(a, b), s) by {
        lemma_part_occurs(q, t, a, b);
    }
}

/// An exact title match outranks a title that only contains the query by
/// exactly 250, everything else about the two collections being equal.
pub proof fn lemma_exact_title_outranks_containing(a: CollectionSummary, b: CollectionSummary, query: Seq<char>, bias: int)
    requires
        a.subtitle == b.subtitle,
        a.reference.kind == b.reference.kind,
        a.track_count == b.track_count,
        ascii_lowered(a.title@) == ascii_lowered(trimmed(query)),
        ascii_lowered(b.title@) != ascii_lowered(trimmed(query)),
        occurs_in(ascii_lowered(trimmed(query)), ascii_lowered(b.title@)),
    ensures
        rank_of(a, query, bias) == rank_of(b, query, bias) + 250,
{
    let nq = ascii_lowered(trimmed(query));
    let ns = ascii_lowered(text_or_empty(a.subtitle));
    let ta = ascii_lowered(a.title@);
    assert(ta.subrange(0int, 0int + nq.len()) =~= nq);
    assert(occurs_in(nq, ta));
    lemma_terms_found_in_containing_title(nq, ascii_lowered(a.title@), ns);
    lemma_terms_found_in_containing_title(nq, ascii_lowered(b.title@), ns);
}

/// Whether a character is white space.
pub fn is_whitespace_char(c: char) -> (r: bool)
    ensures
        r == is_ws(c),
{
    c == '\t' || c == '\n' || c == '\u{0B}' || c == '\u{0C}' || c == '\r' || c == ' '
        || c == '\u{85}' || c == '\u{A0}' || c == '\u{1680}'
        || ('\u{2000}' <= c && c <= '\u{200A}')
        || c == '\u{2028}' || c == '\u{2029}' || c == '\u{202F}' || c == '\u{205F}' || c == '\u{3000}'
}

proof fn lemma_trim_front_skip(s: Seq<char>, i: int)
    requires
        0 <= i <= s.len(),
        forall|k: int| 0 <= k < i ==> is_ws(#[trigger] s[k]),
    ensures
        trim_front(s) == trim_front(s.skip(i)),
    decreases i,
{
    if i > 0 {
        assert(s.drop_first().skip(i - 1) =~= s.skip(i));
        assert forall|k: int| 0 <= k < i - 1 implies is_ws(#[trigger] s.drop_first()[k]) by {
            assert(s.drop_first()[k] == s[k + 1]);
        }
        lemma_trim_front_skip(s.drop_first(), i - 1);
    } else {
        assert(s.skip(0) =~= s);
    }
}

proof fn lemma_trim_back_take(s: Seq<char>, j: int)
    requires
        0 <= j <= s.len(),
        forall|k: int| j <= k < s.len() ==> is_ws(#[trigger] s[k]),
    ensures
        trim_back(s) == trim_back(s.take(j)),
    decreases s.len() - j,
{
    if j < s.len() {
        assert(s.drop_last().take(j) =~= s.take(j));
        assert(s.last() == s[s.len() - 1]);
        assert forall|k: int| j <= k < s.drop_last().len() implies is_ws(#[trigger] s.drop_last()[k]) by {
            assert(s.drop_last()[k] == s[k]);
        }
        lemma_trim_back_take(s.drop_last(), j);
    } else {
        assert(s.take(j) =~= s);
    }
}

/// The text without leading and trailing white space.
pub fn trim_chars(s: &[char]) -> (r: Vec<char>)
    ensures
        r@ == trimmed(s@),
{
    let n = s.len();
    let mut a: usize = 0;
    while a < n && is_whitespace_char(s[a])
        invariant
            n == s@.len(),
            a <= n,
            forall|k: int| 0 <= k < a ==> is_ws(#[trigger] s@[k]),
        decreases n - a,
    {
        a += 1;
    }
    proof { lemma_trim_front_skip(s@, a as int); }
    let ghost front = s@.skip(a as int);
    assert(trim_front(front) == front) by {
        if front.len() > 0 {
            assert(front[0] == s@[a as int]);
        }
    }
    let mut b: usize = n;
    while b > a && is_whitespace_char(s[b - 1])
        invariant
            n == s@.len(),
            a <= b <= n,
            front == s@.skip(a as int),
            forall|k: int| b <= k < n ==> is_ws(#[trigger] s@[k]),
        decreases b - a,
    {
        b -= 1;
    }
    proof {
        assert forall|k: int| (b - a) <= k < front.len() implies is_ws(#[trigger] front[k]) by {
            assert(front[k] == s@[k + a]);
        }
        lemma_trim_back_take(front, (b - a) as int);
        let t = front.take((b - a) as int);
        if t.len() > 0 {
            assert(t.last() == s@[b - 1]);
        }
    }
    let mut r: Vec<char> = Vec::new();
    for k in a..b
        invariant
            a <= b <= n,
            n == s@.len(),
            r@ == s@.subrange(a as int, k as int),
    {
        r.push(s[k]);
        proof {
            assert(r@ =~= s@.subrange(a as int, k + 1));
        }
    }
    proof {
        assert(r@ =~= front.take((b - a) as int));
    }
    r
}

/// The character with ASCII letters lower-cased.
pub fn ascii_lower_char(c: char) -> (r: char)
    ensures
        r == ascii_lower(c),
{
    if 'A' <= c && c <= 'Z' {
        let code: u8 = c as u8;
        let lowered: u8 = code + 32;
        proof {
            assert(c as u32 == code as u32);
        }
        lowered as char
    } else {
        c
    }
}

/// The text with ASCII letters lower-cased.
pub fn ascii_lowercase_chars(s: &[char]) -> (r: Vec<char>)
    ensures
        r@ == ascii_lowered(s@),
{
    let mut r: Vec<char> = Vec::new();
    let n = s.len();
    for i in 0..n
        invariant
            n == s@.len(),
            r@.len() == i,
            forall|k: int| 0 <= k < i ==> #[trigger] r@[k] == ascii_lower(s@[k]),
    {
        r.push(ascii_lower_char(s[i]));
    }
    proof {
        assert(r@ =~= ascii_lowered(s@));
    }
    r
}

fn matches_at(h: &[char], n: &[char], i: usize) -> (r: bool)
    requires
        i + n@.len() <= h@.len(),
    ensures
        r == (h@.subrange(i as int, i + n@.len()) == n@),
{
    let m = n.len();
    let hl = h.len();
    for k in 0..m
        invariant
            m == n@.len(),
            hl == h@.len(),
            i + m <= h@.len(),
            forall|j: int| 0 <= j < k ==> h@[i + j] == n@[j],
    {
        if h[i + k] != n[k] {
            assert(h@.subrange(i as int, i + m)[k as int] != n@[k as int]);
            return false;
        }
    }
    assert(h@.subrange(i as int, i + m) =~= n@);
    true
}

/// Whether `needle` occurs in `hay`.
pub fn occurs(needle: &[char], hay: &[char]) -> (r: bool)
    ensures
        r == occurs_in(needle@, hay@),
{
    let m = needle.len();
    let h = hay.len();
    if m > h {
        return false;
    }
    if m == 0 {
        assert(hay@.subrange(0int, 0int + needle@.len()) =~= needle@);
        return true;
    }
    let last = h - m;
    let mut i: usize = 0;
    while i <= last
        invariant
            m == needle@.len(),
            m > 0,
            h == hay@.len(),
            last == h - m,
            i <= last + 1,
            forall|j: int| 0 <= j < i ==> #[trigger] hay@.subrange(j, j + m) != needle@,
        decreases last + 1 - i,
    {
        if matches_at(hay, needle, i) {
            return true;
        }
        i += 1;
    }
    false
}

proof fn lemma_term_end_unique(q: Seq<char>, a: int, b1: int, b2: int)
    requires
        is_term(q, a, b1),
        is_term(q, a, b2),
    ensures
        b1 == b2,
{
    if b1 < b2 {
        assert(!is_ws(q[b1]));
    } else if b2 < b1 {
        assert(!is_ws(q[b2]));
    }
}

/// Whether every white-space separated word of `q` occurs in `t` or `s`.
pub fn all_words_found(q: &[char], t: &[char], s: &[char]) -> (r: bool)
    ensures
        r == all_terms_found(q@, t@, s@),
{
    let n = q.len();
    let mut i: usize = 0;
    while i < n
        invariant
            n == q@.len(),
            i <= n,
            i == 0 || is_ws(q@[i - 1]) || (i < n && is_ws(q@[i as int])) || i == n,
            forall|a: int, b: int| #[trigger] is_term(q@, a, b) && b <= i ==>
                occurs_in(q@.subrange(a, b), t@) || occurs_in(q@.subrange(a, b), s@),
        decreases n - i,
    {
        if is_whitespace_char(q[i]) {
            i += 1;
            proof {
                assert forall|a: int, b: int| #[trigger] is_term(q@, a, b) && b <= i implies
                    occurs_in(q@.subrange(a, b), t@) || occurs_in(q@.subrange(a, b), s@) by {
                    if b == i {
                        assert(!is_ws(q@[b - 1]));
                    }
                }
            }
        } else {
            let start = i;
            while i < n && !is_whitespace_char(q[i])
                invariant
                    n == q@.len(),
                    start <= i <= n,
                    forall|k: int| start <= k < i ==> !is_ws(#[trigger] q@[k]),
                decreases n - i,
            {
                i += 1;
            }
            proof {
                assert(is_term(q@, start as int, i as int));
            }
            let mut word: Vec<char> = Vec::new();
            for k in start..i
                invariant
                    start <= i <= n,
                    n == q@.len(),
                    word@ == q@.subrange(start as int, k as int),
            {
                word.push(q[k]);
                proof {
                    assert(word@ =~= q@.subrange(start as int, k + 1));
                }
            }
            if !occurs(word.as_slice(), t) && !occurs(word.as_slice(), s) {
                return false;
            }
            proof {
                assert forall|a: int, b: int| #[trigger] is_term(q@, a, b) && b <= i implies
                    occurs_in(q@.subrange(a, b), t@) || occurs_in(q@.subrange(a, b), s@) by {
                    if b > start {
                        if a < start {
                            assert(!is_ws(q@[start - 1]));
                            assert(start == 0 || is_ws(q@[start - 1]));
                        } else if a > start {
                            assert(!is_ws(q@[a - 1]));
                        } else {
                            lemma_term_end_unique(q@, a, b, i as int);
                        }
                    }
                }
            }
        }
    }
    true
}

/// The most a collection's own qualities add to its provider's bias.
pub const MAX_RANK_BONUS: i32 = 799;

/// What a provider finds.
pub enum SearchResult {
    Collection(CollectionSummary),
    Track(TrackSummary),
}

/// A collection's rank for a query, on top of its provider's bias.
pub fn rank_collection(collection: &CollectionSummary, query: &str, provider_bias: i32) -> (r: i32)
    requires
        provider_bias <= i32::MAX - MAX_RANK_BONUS,
    ensures
        r == rank_of(*collection, query@, provider_bias as int),
{
    let q = chars_of(query);
    let tq = trim_chars(q.as_slice());
    let nq = ascii_lowercase_chars(tq.as_slice());
    let title = chars_of(collection.title.as_str());
    let nt = ascii_lowercase_chars(title.as_slice());
    let sub = match &collection.subtitle {
        Some(s) => chars_of(s.as_str()),
        None => Vec::new(),
    };
    let ns = ascii_lowercase_chars(sub.as_slice());
    proof {
        assert(sub@ == text_or_empty(collection.subtitle));
    }
    let mut score: i32 = provider_bias;
    if text_equal(nt.as_slice(), nq.as_slice()) {
        score = score + 500;
    } else if occurs(nq.as_slice(), nt.as_slice()) {
        score = score + 250;
    }
    if nq.len() > 0 && all_words_found(nq.as_slice(), nt.as_slice(), ns.as_slice()) {
        score = score + 120;
    }
    if occurs(nq.as_slice(), ns.as_slice()) {
        score = score + 60;
    }
    score = score + match collection.reference.kind {
        CollectionKind::Album => 20,
        CollectionKind::Playlist => 10,
    };
    let count: i32 = match collection.track_count {
        Some(n) => if n < 99 { n as i32 } else { 99 },
        None => 0,
    };
    score + count
}

/// The albums and playlists among search results, in order.
pub open spec fn collections_of(results: Seq<SearchResult>) -> Seq<CollectionSummary> {
    results.filter_map(|x: SearchResult| match x {
        SearchResult::Collection(c) => Some(c),
        SearchResult::Track(_) => None,
    })
}

/// The albums and playlists among search results, in order.
pub fn collect_search_collections(results: Vec<SearchResult>) -> (r: Vec<CollectionSummary>)
    ensures
        r@ == collections_of(results@),
{
    let ghost orig = results@;
    let ghost f = |x: SearchResult| match x {
        SearchResult::Collection(c) => Some(c),
        SearchResult::Track(_) => None,
    };
    let mut rest = results;
    let mut out: Vec<CollectionSummary> = Vec::new();
    let mut consumed: usize = 0;
    let total = rest.len();
    while rest.len() > 0
        invariant
            total == orig.len(),
            f == (|x: SearchResult| match x {
                SearchResult::Collection(c) => Some(c),
                SearchResult::Track(_) => None,
            }),
            consumed + rest@.len() == orig.len(),
            rest@ == orig.skip(consumed as int),
            out@ == orig.take(consumed as int).filter_map(f),
        decreases rest@.len(),
    {
        let x = rest.remove(0);
        proof {
            assert(x == orig[consumed as int]);
            assert(orig.take(consumed as int + 1).drop_last() =~= orig.take(consumed as int));
        }
        match x {
            SearchResult::Collection(c) => out.push(c),
            SearchResult::Track(_) => {},
        }
        consumed = consumed + 1;
        proof {
            assert(rest@ =~= orig.skip(consumed as int));
        }
    }
    proof {
        assert(orig.take(orig.len() as int) =~= orig);
    }
    out
}

/// How results are ordered: rank, then lower-cased title, then provider.
pub struct SearchKey {
    pub rank: int,
    pub title: Seq<char>,
    pub provider: Seq<char>,
}

/// `a` comes strictly before `b`: higher rank, else title first, else
/// provider first.
pub open spec fn key_before(a: SearchKey, b: SearchKey) -> bool {
    a.rank > b.rank
        || (a.rank == b.rank && (text_lt(a.title, b.title) || (a.title == b.title && text_lt(a.provider, b.provider))))
}

/// The key of a search result.
pub open spec fn search_key(c: CollectionSummary, query: Seq<char>, bias: int) -> SearchKey {
    SearchKey { rank: rank_of(c, query, bias), title: lowercase_of(c.title@), provider: c.reference.provider.name() }
}

/// `order` sorts the keys: none comes strictly before an earlier one, and
/// equal keys keep their order.
pub open spec fn stably_sorted(order: Seq<usize>, keys: Seq<SearchKey>) -> bool {
    forall|a: int, b: int| 0 <= a < b < order.len() ==>
        !key_before(keys[#[trigger] order[b] as int], keys[#[trigger] order[a] as int])
        && (keys[order[a] as int] == keys[order[b] as int] ==> order[a] < order[b])
}

proof fn lemma_key_before_transitive(a: SearchKey, b: SearchKey, c: SearchKey)
    requires
        key_before(a, b),
        key_before(b, c),
    ensures
        key_before(a, c),
{
    if a.rank == b.rank && b.rank == c.rank {
        if text_lt(a.title, b.title) && text_lt(b.title, c.title) {
            lemma_text_lt_transitive(a.title, b.title, c.title);
        } else if a.title == b.title && b.title == c.title {
            lemma_text_lt_transitive(a.provider, b.provider, c.provider);
        }
    }
}

proof fn lemma_key_before_asymmetric(a: SearchKey, b: SearchKey)
    requires
        key_before(a, b),
    ensures
        !key_before(b, a),
{
    if a.rank == b.rank {
        if text_lt(a.title, b.title) {
            lemma_text_lt_asymmetric(a.title, b.title);
        } else {
            lemma_text_lt_asymmetric(a.provider, b.provider);
        }
    }
}

proof fn lemma_key_before_irreflexive(a: SearchKey)
    ensures
        !key_before(a, a),
{
    lemma_text_lt_irreflexive(a.title);
    lemma_text_lt_irreflexive(a.provider);
}

pub(crate) struct ExecKey {
    pub(crate) rank: i32,
    pub(crate) title: Vec<char>,
    pub(crate) provider: Vec<char>,
}

pub(crate) open spec fn exec_key_view(k: ExecKey) -> SearchKey {
    SearchKey { rank: k.rank as int, title: k.title@, provider: k.provider@ }
}

fn exec_key_before(a: &ExecKey, b: &ExecKey) -> (r: bool)
    ensures
        r == key_before(exec_key_view(*a), exec_key_view(*b)),
{
    if a.rank != b.rank {
        return a.rank > b.rank;
    }
    if text_less(a.title.as_slice(), b.title.as_slice()) {
        return true;
    }
    text_equal(a.title.as_slice(), b.title.as_slice()) && text_less(a.provider.as_slice(), b.provider.as_slice())
}

pub(crate) fn stable_sort_keys(keys: &Vec<ExecKey>) -> (r: Vec<usize>)
    ensures
        is_index_permutation(r@, keys@.len()),
        stably_sorted(r@, keys@.map_values(|k: ExecKey| exec_key_view(k))),
{
    let ghost kv = keys@.map_values(|k: ExecKey| exec_key_view(k));
    let n = keys.len();
    let mut order: Vec<usize> = Vec::new();
    for i in 0..n
        invariant
            n == keys@.len(),
            kv == keys@.map_values(|k: ExecKey| exec_key_view(k)),
            order@.len() == i,
            forall|a: int| 0 <= a < order@.len() ==> #[trigger] order@[a] < i,
            forall|a: int, b: int| 0 <= a < b < order@.len() ==> order@[a] != order@[b],
            stably_sorted(order@, kv),
    {
        let mut pos: usize = 0;
        while pos < order.len() && !exec_key_before(&keys[i], &keys[order[pos]])
            invariant
                n == keys@.len(),
                kv == keys@.map_values(|k: ExecKey| exec_key_view(k)),
                i < n,
                pos <= order@.len(),
                forall|a: int| 0 <= a < order@.len() ==> #[trigger] order@[a] < i,
                forall|a: int| 0 <= a < pos ==> !key_before(kv[i as int], kv[#[trigger] order@[a] as int]),
            decreases order@.len() - pos,
        {
            pos += 1;
        }
        proof {
            if pos < order@.len() {
                let x = order@[pos as int];
                assert(key_before(kv[i as int], kv[x as int]));
                assert forall|b: int| pos <= b < order@.len() implies
                    !key_before(kv[#[trigger] order@[b] as int], kv[i as int]) && kv[order@[b] as int] != kv[i as int] by {
                    let y = order@[b];
                    if b == pos {
                        lemma_key_before_asymmetric(kv[i as int], kv[x as int]);
                        lemma_key_before_irreflexive(kv[i as int]);
                    } else {
                        assert(!key_before(kv[y as int], kv[x as int]));
                        if key_before(kv[y as int], kv[i as int]) {
                            lemma_key_before_transitive(kv[y as int], kv[i as int], kv[x as int]);
                        }
                        if kv[y as int] == kv[i as int] {
                            assert(key_before(kv[y as int], kv[x as int]));
                        }
                    }
                }
            }
        }
        let ghost prev = order@;
        order.insert(pos, i);
        proof {
            assert(order@ =~= prev.take(pos as int).push(i).add(prev.skip(pos as int)));
            assert forall|a: int, b: int| 0 <= a < b < order@.len() implies
                !key_before(kv[#[trigger] order@[b] as int], kv[#[trigger] order@[a] as int])
                && (kv[order@[a] as int] == kv[order@[b] as int] ==> order@[a] < order@[b]) by {
                if a < pos && b < pos {
                    assert(order@[a] == prev[a] && order@[b] == prev[b]);
                } else if a < pos && b == pos {
                    assert(order@[a] == prev[a]);
                } else if a < pos && b > pos {
                    assert(order@[a] == prev[a] && order@[b] == prev[b - 1]);
                } else if a == pos {
                    assert(order@[b] == prev[b - 1]);
                } else {
                    assert(order@[a] == prev[a - 1] && order@[b] == prev[b - 1]);
                }
            }
            assert forall|a: int, b: int| 0 <= a < b < order@.len() implies order@[a] != order@[b] by {
                if a < pos && b < pos {
                    assert(order@[a] == prev[a] && order@[b] == prev[b]);
                } else if a < pos && b == pos {
                    assert(order@[a] == prev[a]);
                } else if a < pos && b > pos {
                    assert(order@[a] == prev[a] && order@[b] == prev[b - 1]);
                } else if a == pos {
                    assert(order@[b] == prev[b - 1]);
                } else {
                    assert(order@[a] == prev[a - 1] && order@[b] == prev[b - 1]);
                }
            }
            assert forall|a: int| 0 <= a < order@.len() implies #[trigger] order@[a] < i + 1 by {
                if a < pos { assert(order@[a] == prev[a]); }
                else if a > pos { assert(order@[a] == prev[a - 1]); }
            }
        }
    }
    order
}

/// The search results in the order shown: by rank, highest first, then
/// by lower-cased title, then by provider; equal results keep their order.
/// `biases` holds each result's provider bias.
pub fn rank_search_results(collections: Vec<CollectionSummary>, biases: &[i32], query: &str) -> (r: Vec<CollectionSummary>)
    requires
        biases@.len() == collections@.len(),
        forall|i: int| 0 <= i < biases@.len() ==> #[trigger] biases@[i] <= i32::MAX - MAX_RANK_BONUS,
    ensures
        exists|order: Seq<usize>| {
            &&& is_index_permutation(order, collections@.len())
            &&& r@.len() == collections@.len()
            &&& (forall|k: int| 0 <= k < r@.len() ==> #[trigger] r@[k] == collections@[order[k] as int])
            &&& stably_sorted(order, Seq::new(collections@.len(), |i: int| search_key(collections@[i], query@, biases@[i] as int)))
        },
{
    let n = collections.len();
    let ghost want = Seq::new(collections@.len(), |i: int| search_key(collections@[i], query@, biases@[i] as int));
    let mut keys: Vec<ExecKey> = Vec::new();
    for i in 0..n
        invariant
            n == collections@.len(),
            biases@.len() == n,
            forall|j: int| 0 <= j < biases@.len() ==> #[trigger] biases@[j] <= i32::MAX - MAX_RANK_BONUS,
            want == Seq::new(collections@.len(), |i: int| search_key(collections@[i], query@, biases@[i] as int)),
            keys@.len() == i,
            forall|j: int| 0 <= j < i ==> exec_key_view(#[trigger] keys@[j]) == want[j],
    {
        let c = &collections[i];
        let rank = rank_collection(c, query, biases[i]);
        let lowered = to_lowercase(c.title.as_str());
        let title = chars_of(lowered.as_str());
        let provider = chars_of(c.reference.provider.as_str());
        keys.push(ExecKey { rank, title, provider });
    }
    let order = stable_sort_keys(&keys);
    proof {
        assert(keys@.map_values(|k: ExecKey| exec_key_view(k)) =~= want);
    }
    let mut r: Vec<CollectionSummary> = Vec::new();
    for k in 0..n
        invariant
            n == collections@.len(),
            is_index_permutation(order@, n as nat),
            r@.len() == k,
            forall|j: int| 0 <= j < k ==> #[trigger] r@[j] == collections@[order@[j] as int],
    {
        r.push(collections[order[k]].clone());
    }
    proof {
        assert(is_index_permutation(order@, collections@.len()));
    }
    r
}



/// A subtitle containing the whole query is worth exactly 60: of two
/// collections that differ only in their subtitles, both holding every
/// query word in title or subtitle, the one whose lower-cased subtitle
/// contains the trimmed lower-cased query ranks 60 above the other.
pub proof fn lemma_subtitle_match_worth_sixty(a: CollectionSummary, b: CollectionSummary, query: Seq<char>, bias: int)
    requires
        a.title == b.title,
        a.reference.kind == b.reference.kind,
        a.track_count == b.track_count,
        all_terms_found(ascii_lowered(trimmed(query)), ascii_lowered(a.title@), ascii_lowered(text_or_empty(a.subtitle))),
        all_terms_found(ascii_lowered(trimmed(query)), ascii_lowered(b.title@), ascii_lowered(text_or_empty(b.subtitle))),
        occurs_in(ascii_lowered(trimmed(query)), ascii_lowered(text_or_empty(a.subtitle))),
        !occurs_in(ascii_lowered(trimmed(query)), ascii_lowered(text_or_empty(b.subtitle))),
    ensures
        rank_of(a, query, bias) == rank_of(b, query, bias) + 60,
{
}


/// Albums rank 10 above playlists, and each track up to 99 counts one,
/// everything else being equal; the provider's bias adds as it is.
pub proof fn lemma_kind_count_and_bias(a: CollectionSummary, b: CollectionSummary, query: Seq<char>, bias: int, n: usize, m: usize)
    requires
        a.title == b.title,
        a.subtitle == b.subtitle,
        a.reference.kind == CollectionKind::Album,
        b.reference.kind == CollectionKind::Playlist,
        a.track_count == Some(n),
        b.track_count == Some(m),
    ensures
        rank_of(a, query, bias) - rank_of(b, query, bias)
            == 10 + (if n < 99 { n as int } else { 99 }) - (if m < 99 { m as int } else { 99 }),
        rank_of(a, query, bias + 7) == rank_of(a, query, bias) + 7,
{
}

} // verus!
