//! A single-line text field: its content, the cursor and selection as
//! UTF-8 byte offsets kept on character boundaries, the text being composed
//! by an input method, and conversions to UTF-16 offsets and to the offsets
//! of a masked display.

use vstd::prelude::*;
use crate::search::{is_ws, is_whitespace_char};
use crate::text::{chars_of, string_from_chars};
use std::ops::Range;

verus! {

/// The number of UTF-8 bytes of a character.
pub open spec fn width(c: char) -> nat {
    if (c as u32) < 0x80 { 1 } else if (c as u32) < 0x800 { 2 } else if (c as u32) < 0x10000 { 3 } else { 4 }
}

/// The number of UTF-16 code units of a character.
pub open spec fn width16(c: char) -> nat {
    if (c as u32) < 0x10000 { 1 } else { 2 }
}

/// The UTF-8 length of text.
pub open spec fn byte_len(s: Seq<char>) -> nat
    decreases s.len(),
{
    if s.len() == 0 { 0 } else { byte_len(s.drop_last()) + width(s.last()) }
}

/// The UTF-16 length of text.
pub open spec fn utf16_len(s: Seq<char>) -> nat
    decreases s.len(),
{
    if s.len() == 0 { 0 } else { utf16_len(s.drop_last()) + width16(s.last()) }
}

/// The byte offset of the `k`th character.
pub open spec fn off(s: Seq<char>, k: int) -> nat {
    byte_len(s.take(k))
}

/// The UTF-16 offset of the `k`th character.
pub open spec fn off16(s: Seq<char>, k: int) -> nat {
    utf16_len(s.take(k))
}

/// The number of characters that start before byte `m` or at it: the
/// character index of the boundary at `m` or just before it.
pub open spec fn floor_index(s: Seq<char>, m: int) -> nat
    decreases s.len(),
{
    if s.len() == 0 {
        0
    } else if byte_len(s) <= m {
        s.len()
    } else {
        floor_index(s.drop_last(), m)
    }
}

/// `b` is a character boundary of the text.
pub open spec fn is_boundary(s: Seq<char>, b: int) -> bool {
    exists|k: int| 0 <= k <= s.len() && #[trigger] off(s, k) == b
}

/// The offset clamped into the text and moved back to a character boundary.
pub open spec fn clamp(s: Seq<char>, i: int) -> nat {
    let m = if i < byte_len(s) { i } else { byte_len(s) as int };
    off(s, floor_index(s, m) as int)
}

pub proof fn lemma_width_bounds(c: char)
    ensures
        1 <= width(c) <= 4,
        1 <= width16(c) <= 2,
{
}

pub proof fn lemma_off_step(s: Seq<char>, k: int)
    requires
        0 <= k < s.len(),
    ensures
        off(s, k + 1) == off(s, k) + width(s[k]),
{
    assert(s.take(k + 1).drop_last() =~= s.take(k));
}

pub proof fn lemma_off16_step(s: Seq<char>, k: int)
    requires
        0 <= k < s.len(),
    ensures
        off16(s, k + 1) == off16(s, k) + width16(s[k]),
{
    assert(s.take(k + 1).drop_last() =~= s.take(k));
}

pub proof fn lemma_off_full(s: Seq<char>)
    ensures
        off(s, s.len() as int) == byte_len(s),
        off16(s, s.len() as int) == utf16_len(s),
        off(s, 0) == 0,
        off16(s, 0) == 0,
{
    assert(s.take(s.len() as int) =~= s);
    assert(s.take(0) =~= Seq::<char>::empty());
}

pub proof fn lemma_off_mono(s: Seq<char>, a: int, b: int)
    requires
        0 <= a <= b <= s.len(),
    ensures
        off(s, a) + (b - a) <= off(s, b),
        off(s, b) <= off(s, a) + 4 * (b - a),
        off16(s, a) + (b - a) <= off16(s, b),
    decreases b - a,
{
    if a < b {
        lemma_off_mono(s, a, b - 1);
        lemma_off_step(s, b - 1);
        lemma_off16_step(s, b - 1);
        lemma_width_bounds(s[b - 1]);
    }
}

pub proof fn lemma_off_prefix(s: Seq<char>, j: int, k: int)
    requires
        0 <= k <= j <= s.len(),
    ensures
        off(s.take(j), k) == off(s, k),
        off16(s.take(j), k) == off16(s, k),
{
    assert(s.take(j).take(k) =~= s.take(k));
}

pub proof fn lemma_floor_index(s: Seq<char>, m: int)
    requires
        0 <= m,
    ensures
        floor_index(s, m) <= s.len(),
        off(s, floor_index(s, m) as int) <= m,
        floor_index(s, m) < s.len() ==> off(s, floor_index(s, m) as int + 1) > m,
    decreases s.len(),
{
    lemma_off_full(s);
    if s.len() > 0 && byte_len(s) > m {
        let r = s.drop_last();
        lemma_floor_index(r, m);
        let k = floor_index(r, m) as int;
        assert(r =~= s.take(s.len() - 1));
        lemma_off_prefix(s, s.len() - 1, k);
        if k < r.len() {
            lemma_off_prefix(s, s.len() - 1, k + 1);
        } else {
            lemma_off_full(r);
        }
    }
}

/// The character index of a boundary is the one the floor finds.
pub proof fn lemma_floor_of_boundary(s: Seq<char>, k: int)
    requires
        0 <= k <= s.len(),
    ensures
        floor_index(s, off(s, k) as int) == k,
{
    let m = off(s, k) as int;
    lemma_floor_index(s, m);
    let f = floor_index(s, m) as int;
    if f < k {
        lemma_off_mono(s, f + 1, k);
    } else if f > k {
        lemma_off_mono(s, k, f);
    }
}

/// A clamped offset is a boundary within the text, and boundaries clamp to
/// themselves.
pub proof fn lemma_clamp(s: Seq<char>, i: int)
    requires
        0 <= i,
    ensures
        clamp(s, i) <= byte_len(s),
        clamp(s, i) <= i,
        is_boundary(s, clamp(s, i) as int),
        is_boundary(s, i) ==> clamp(s, i) == i,
{
    let m = if i < byte_len(s) { i } else { byte_len(s) as int };
    lemma_floor_index(s, m);
    let f = floor_index(s, m) as int;
    lemma_off_full(s);
    lemma_off_mono(s, f, s.len() as int);
    assert(off(s, f) == clamp(s, i));
    if is_boundary(s, i) {
        let k = choose|k: int| 0 <= k <= s.len() && #[trigger] off(s, k) == i;
        lemma_off_mono(s, k, s.len() as int);
        lemma_floor_of_boundary(s, k);
    }
}

proof fn lemma_encode_concat(a: Seq<char>, b: Seq<char>)
    ensures
        vstd::utf8::encode_utf8(a + b) == vstd::utf8::encode_utf8(a) + vstd::utf8::encode_utf8(b),
    decreases a.len(),
{
    if a.len() > 0 {
        assert((a + b)[0] == a[0]);
        assert((a + b).drop_first() =~= a.drop_first() + b);
        lemma_encode_concat(a.drop_first(), b);
        assert(vstd::utf8::encode_utf8(a + b) =~= vstd::utf8::encode_utf8(a) + vstd::utf8::encode_utf8(b));
    } else {
        assert(a + b =~= b);
        assert(vstd::utf8::encode_utf8(a) =~= Seq::<u8>::empty());
        assert(vstd::utf8::encode_utf8(a) + vstd::utf8::encode_utf8(b) =~= vstd::utf8::encode_utf8(b));
    }
}

/// The UTF-8 encoding of text has its byte length.
pub proof fn lemma_encode_len(s: Seq<char>)
    ensures
        vstd::utf8::encode_utf8(s).len() == byte_len(s),
    decreases s.len(),
{
    if s.len() > 0 {
        let r = s.drop_last();
        lemma_encode_len(r);
        assert(s =~= r + seq![s.last()]);
        lemma_encode_concat(r, seq![s.last()]);
        let c = s.last();
        vstd::utf8::char_is_scalar(c);
        assert(seq![c].drop_first() =~= Seq::<char>::empty());
        assert(vstd::utf8::encode_utf8(seq![c]) == vstd::utf8::encode_scalar(c as u32) + vstd::utf8::encode_utf8(Seq::<char>::empty()));
        assert(vstd::utf8::encode_utf8(Seq::<char>::empty()) =~= Seq::<u8>::empty());
    }
}

/// The UTF-8 width of a character.
pub fn char_width(c: char) -> (r: usize)
    ensures
        r == width(c),
{
    let u = c as u32;
    if u < 0x80 { 1 } else if u < 0x800 { 2 } else if u < 0x10000 { 3 } else { 4 }
}

/// The UTF-16 width of a character.
pub fn char_width16(c: char) -> (r: usize)
    ensures
        r == width16(c),
{
    if (c as u32) < 0x10000 { 1 } else { 2 }
}

/// The byte offsets of the characters of a string and of its end.
fn byte_offsets(s: &str) -> (r: (Vec<char>, Vec<usize>))
    ensures
        r.0@ == s@,
        r.1@.len() == s@.len() + 1,
        forall|k: int| 0 <= k <= s@.len() ==> #[trigger] r.1@[k] == off(s@, k),
{
    let cs = chars_of(s);
    let bytes = s.as_bytes();
    let total = bytes.len();
    proof {
        lemma_encode_len(s@);
        assert(byte_len(s@) == bytes@.len());
        lemma_off_full(s@);
    }
    let n = cs.len();
    let mut offs: Vec<usize> = Vec::new();
    offs.push(0);
    let mut acc: usize = 0;
    for k in 0..n
        invariant
            n == cs@.len(),
            cs@ == s@,
            byte_len(s@) <= usize::MAX,
            acc == off(s@, k as int),
            offs@.len() == k + 1,
            forall|j: int| 0 <= j <= k ==> #[trigger] offs@[j] == off(s@, j),
    {
        proof {
            lemma_off_step(s@, k as int);
            lemma_off_mono(s@, k as int + 1, n as int);
            lemma_off_full(s@);
        }
        acc = acc + char_width(cs[k]);
        offs.push(acc);
    }
    (cs, offs)
}


/// Whether `char::is_alphanumeric` holds of a character (Unicode
/// `Alphabetic` or `Numeric`).
pub uninterp spec fn alphanumeric(c: char) -> bool;

/// `char::is_alphanumeric`.
#[verifier::external_body]
pub(crate) fn is_alphanumeric(c: char) -> (r: bool)
    ensures
        r == alphanumeric(c),
{
    c.is_alphanumeric()
}

/// Words are runs of alphanumeric characters or runs of other
/// non-space characters.
pub open spec fn char_class(c: char) -> u8 {
    if alphanumeric(c) { 0 } else { 1 }
}

/// The word class of a character.
pub fn char_class_of(c: char) -> (r: u8)
    ensures
        r == char_class(c),
{
    if is_alphanumeric(c) { 0 } else { 1 }
}

/// Back over white space from character index `p`.
pub open spec fn skip_ws_back(s: Seq<char>, p: int) -> int
    decreases p,
{
    if 0 < p <= s.len() && is_ws(s[p - 1]) { skip_ws_back(s, p - 1) } else { p }
}

/// Back over characters of the class from character index `p`.
pub open spec fn skip_class_back(s: Seq<char>, p: int, cls: u8) -> int
    decreases p,
{
    if 0 < p <= s.len() && !is_ws(s[p - 1]) && char_class(s[p - 1]) == cls { skip_class_back(s, p - 1, cls) } else { p }
}

/// The start of the word before character index `k`.
pub open spec fn prev_word_index(s: Seq<char>, k: int) -> int {
    let p = skip_ws_back(s, k);
    if p <= 0 { 0 } else { skip_class_back(s, p, char_class(s[p - 1])) }
}

/// Forward over white space from character index `q`.
pub open spec fn skip_ws_fwd(s: Seq<char>, q: int) -> int
    decreases s.len() - q,
{
    if 0 <= q < s.len() && is_ws(s[q]) { skip_ws_fwd(s, q + 1) } else { q }
}

/// Forward over characters of the class from character index `j`.
pub open spec fn skip_class_fwd(s: Seq<char>, j: int, cls: u8) -> int
    decreases s.len() - j,
{
    if 0 <= j < s.len() && !is_ws(s[j]) && char_class(s[j]) == cls { skip_class_fwd(s, j + 1, cls) } else { j }
}

/// The end of the word after character index `k`.
pub open spec fn next_word_index(s: Seq<char>, k: int) -> int {
    let q = skip_ws_fwd(s, k);
    if q >= s.len() { s.len() as int } else { skip_class_fwd(s, q + 1, char_class(s[q])) }
}

/// The first character index from `k` whose UTF-16 offset reaches `o`, else
/// the end.
pub open spec fn reach16(s: Seq<char>, o: int, k: int) -> int
    decreases s.len() - k,
{
    if k >= s.len() || off16(s, k) >= o { k } else { reach16(s, o, k + 1) }
}

/// The first character index from `k` whose byte offset reaches `o`, else
/// the end.
pub open spec fn reach8(s: Seq<char>, o: int, k: int) -> int
    decreases s.len() - k,
{
    if k >= s.len() || off(s, k) >= o { k } else { reach8(s, o, k + 1) }
}

/// The byte offset of a UTF-16 offset: the first boundary at or past it.
pub open spec fn from_utf16(s: Seq<char>, o: int) -> nat {
    off(s, reach16(s, o, 0))
}

/// The UTF-16 offset of a byte offset: that of the first boundary at or past it.
pub open spec fn to_utf16(s: Seq<char>, o: int) -> nat {
    off16(s, reach8(s, o, 0))
}

proof fn lemma_reach8_at(s: Seq<char>, k: int, j: int)
    requires
        0 <= j <= k <= s.len(),
    ensures
        reach8(s, off(s, k) as int, j) == k,
    decreases k - j,
{
    if j < k {
        lemma_off_mono(s, j, k);
        lemma_reach8_at(s, k, j + 1);
    }
}

proof fn lemma_reach16_at(s: Seq<char>, k: int, j: int)
    requires
        0 <= j <= k <= s.len(),
    ensures
        reach16(s, off16(s, k) as int, j) == k,
    decreases k - j,
{
    if j < k {
        lemma_off_mono(s, j, k);
        lemma_reach16_at(s, k, j + 1);
    }
}

/// Converting a character boundary to a UTF-16 offset and back gives the
/// boundary again, and converting the UTF-16 offset of a character
/// boundary to bytes and back gives that offset again.
pub proof fn lemma_utf16_round_trip(s: Seq<char>, k: int)
    requires
        0 <= k <= s.len(),
    ensures
        to_utf16(s, off(s, k) as int) == off16(s, k),
        from_utf16(s, off16(s, k) as int) == off(s, k),
        from_utf16(s, to_utf16(s, off(s, k) as int) as int) == off(s, k),
        to_utf16(s, from_utf16(s, off16(s, k) as int) as int) == off16(s, k),
{
    lemma_reach8_at(s, k, 0);
    lemma_reach16_at(s, k, 0);
}

/// In a masked field, a character boundary shown as a display offset maps
/// back to the same boundary.
pub proof fn lemma_masked_offsets_round_trip(s: Seq<char>, k: int)
    requires
        0 <= k <= s.len(),
    ensures
        ({
            let b = off(s, k) as int;
            let shown = reach8(s, clamp(s, b) as int, 0);
            off(s, if shown < s.len() { shown } else { s.len() as int }) == b
        }),
{
    let b = off(s, k) as int;
    lemma_off_full(s);
    lemma_off_mono(s, k, s.len() as int);
    lemma_clamp(s, b);
    assert(is_boundary(s, b));
    assert(clamp(s, b) == b);
    lemma_reach8_at(s, k, 0);
}

/// The text with the characters from `ka` to `kb` replaced.
pub open spec fn spliced(s: Seq<char>, ka: int, kb: int, t: Seq<char>) -> Seq<char> {
    s.take(ka) + t + s.skip(kb)
}

pub proof fn lemma_off16_le_off(s: Seq<char>, k: int)
    requires
        0 <= k <= s.len(),
    ensures
        off16(s, k) <= off(s, k),
    decreases k,
{
    lemma_off_full(s);
    if k > 0 {
        lemma_off16_le_off(s, k - 1);
        lemma_off_step(s, k - 1);
        lemma_off16_step(s, k - 1);
    }
}

pub proof fn lemma_reach_bounds(s: Seq<char>, o: int, k: int)
    requires
        0 <= k,
    ensures
        k <= reach16(s, o, k),
        reach16(s, o, k) <= if k > s.len() { k } else { s.len() as int },
        k <= reach8(s, o, k),
        reach8(s, o, k) <= if k > s.len() { k } else { s.len() as int },
    decreases s.len() - k,
{
    if k < s.len() {
        lemma_reach_bounds(s, o, k + 1);
    }
}

pub proof fn lemma_skip_bounds(s: Seq<char>, k: int, cls: u8)
    requires
        0 <= k <= s.len(),
    ensures
        0 <= skip_ws_back(s, k) <= k,
        0 <= skip_class_back(s, k, cls) <= k,
        k <= skip_ws_fwd(s, k) <= s.len(),
        k <= skip_class_fwd(s, k, cls) <= s.len(),
    decreases s.len(),
{
    lemma_skip_back(s, k, cls);
    lemma_skip_fwd(s, k, cls);
}

proof fn lemma_skip_back(s: Seq<char>, k: int, cls: u8)
    requires
        0 <= k <= s.len(),
    ensures
        0 <= skip_ws_back(s, k) <= k,
        0 <= skip_class_back(s, k, cls) <= k,
    decreases k,
{
    if k > 0 {
        lemma_skip_back(s, k - 1, cls);
    }
}

proof fn lemma_skip_fwd(s: Seq<char>, k: int, cls: u8)
    requires
        0 <= k <= s.len(),
    ensures
        k <= skip_ws_fwd(s, k) <= s.len(),
        k <= skip_class_fwd(s, k, cls) <= s.len(),
    decreases s.len() - k,
{
    if k < s.len() {
        lemma_skip_fwd(s, k + 1, cls);
    }
}

/// The UTF-16 offsets of the characters of a text and of its end.
fn utf16_offsets(cs: &Vec<char>, offs: &Vec<usize>, Ghost(s): Ghost<Seq<char>>) -> (r: Vec<usize>)
    requires
        cs@ == s,
        offs@.len() == s.len() + 1,
        forall|k: int| 0 <= k <= s.len() ==> #[trigger] offs@[k] == off(s, k),
    ensures
        r@.len() == s.len() + 1,
        forall|k: int| 0 <= k <= s.len() ==> #[trigger] r@[k] == off16(s, k),
{
    let n = cs.len();
    let mut r: Vec<usize> = Vec::new();
    r.push(0);
    let mut acc: usize = 0;
    proof { lemma_off_full(s); }
    for k in 0..n
        invariant
            n == s.len(),
            cs@ == s,
            offs@.len() == s.len() + 1,
            forall|j: int| 0 <= j <= s.len() ==> #[trigger] offs@[j] == off(s, j),
            acc == off16(s, k as int),
            r@.len() == k + 1,
            forall|j: int| 0 <= j <= k ==> #[trigger] r@[j] == off16(s, j),
    {
        proof {
            lemma_off16_step(s, k as int);
            lemma_off16_le_off(s, k as int + 1);
            assert(offs@[k + 1] == off(s, k + 1));
        }
        acc = acc + char_width16(cs[k]);
        r.push(acc);
    }
    r
}


/// A clamped pair is ordered, made of boundaries, and clamps to itself.
pub proof fn lemma_clamp_pair_fixed(s: Seq<char>, x: int, y: int)
    requires
        0 <= x,
        0 <= y,
    ensures
        clamp_pair(s, x, y).0 <= clamp_pair(s, x, y).1,
        is_boundary(s, clamp_pair(s, x, y).0 as int),
        is_boundary(s, clamp_pair(s, x, y).1 as int),
        clamp_pair(s, clamp_pair(s, x, y).0 as int, clamp_pair(s, x, y).1 as int) == clamp_pair(s, x, y),
{
    lemma_clamp(s, x);
    lemma_clamp(s, y);
    let p = clamp_pair(s, x, y);
    lemma_clamp(s, p.0 as int);
    lemma_clamp(s, p.1 as int);
}

pub proof fn lemma_byte_len_concat(x: Seq<char>, y: Seq<char>)
    ensures
        byte_len(x + y) == byte_len(x) + byte_len(y),
    decreases y.len(),
{
    if y.len() == 0 {
        assert(x + y =~= x);
    } else {
        assert((x + y).drop_last() =~= x + y.drop_last());
        assert((x + y).last() == y.last());
        lemma_byte_len_concat(x, y.drop_last());
    }
}

/// The field after the text between two boundaries was replaced: the cursor
/// after the inserted text, nothing selected or being composed.
pub open spec fn after_splice(o: TextInputView, a: nat, b: nat, t: Seq<char>) -> TextInputView {
    let s = o.content;
    TextInputView {
        content: spliced(s, floor_index(s, a as int) as int, floor_index(s, b as int) as int, t),
        cursor: (a + byte_len(t)) as usize,
        anchor: None,
        marked: None,
        selecting: o.selecting,
    }
}

/// The field after the cursor moved to an offset, extending the selection
/// when `select` holds and dropping it otherwise.
pub open spec fn after_set_cursor(o: TextInputView, cursor: int, select: bool) -> TextInputView {
    let c = clamp(o.content, cursor) as usize;
    let anchor = if select {
        match o.anchor { Some(a) => Some(a), None => Some(cursor_of(o) as usize) }
    } else {
        None
    };
    TextInputView {
        cursor: c,
        anchor: if anchor == Some(c) { None } else { anchor },
        marked: None,
        ..o
    }
}

/// The range an input-method edit applies to: the UTF-16 range given,
/// else the text being composed, else the selection, else the cursor.
pub open spec fn resolved_range(o: TextInputView, range16: Option<(usize, usize)>) -> (nat, nat) {
    let s = o.content;
    let c = cursor_of(o) as int;
    let base: (int, int) = match range16 {
        Some((x, y)) => {
            let p = clamp_pair(s, from_utf16(s, x as int) as int, from_utf16(s, y as int) as int);
            (p.0 as int, p.1 as int)
        },
        None => match o.marked {
            Some((a, b)) => {
                let p = clamp_pair(s, a as int, b as int);
                (p.0 as int, p.1 as int)
            },
            None => match selection_of(o) {
                Some((a, b)) => (a as int, b as int),
                None => (c, c),
            },
        },
    };
    clamp_pair(s, base.0, base.1)
}

/// The boundary before the cursor, or the start of the word before it.
pub open spec fn left_target(o: TextInputView, by_word: bool) -> nat {
    let s = o.content;
    let k = floor_index(s, cursor_of(o) as int) as int;
    if by_word { off(s, prev_word_index(s, k)) } else if k == 0 { 0 } else { off(s, k - 1) }
}

/// The boundary after the cursor, or the end of the word after it.
pub open spec fn right_target(o: TextInputView, by_word: bool) -> nat {
    let s = o.content;
    let k = floor_index(s, cursor_of(o) as int) as int;
    if by_word { off(s, next_word_index(s, k)) } else if k >= s.len() { byte_len(s) } else { off(s, k + 1) }
}


/// The field after the cursor moved left: to the start of the selection
/// when there is one and the selection is not extended; else to the
/// boundary or word start before it.
pub open spec fn moved_left(o: TextInputView, select: bool, by_word: bool) -> TextInputView {
    match (select, selection_of(o)) {
        (false, Some((a, _))) => TextInputView { cursor: a as usize, anchor: None, ..o },
        _ => after_set_cursor(o, left_target(o, by_word) as int, select),
    }
}

/// The field after the cursor moved right, as `moved_left` mirrored.
pub open spec fn moved_right(o: TextInputView, select: bool, by_word: bool) -> TextInputView {
    match (select, selection_of(o)) {
        (false, Some((_, b))) => TextInputView { cursor: b as usize, anchor: None, ..o },
        _ => after_set_cursor(o, right_target(o, by_word) as int, select),
    }
}

/// The field after its selection was deleted, or, with nothing selected,
/// the given field.
pub open spec fn selection_deleted_or(o: TextInputView, otherwise: TextInputView) -> TextInputView {
    match selection_of(o) {
        Some((a, b)) => {
            let p = clamp_pair(o.content, a as int, b as int);
            after_splice(o, p.0, p.1, Seq::empty())
        },
        None => otherwise,
    }
}

/// Backspace: the selection, else the character before the cursor.
pub open spec fn deleted_backward(o: TextInputView) -> TextInputView {
    let s = o.content;
    let c = cursor_of(o);
    let k = floor_index(s, c as int) as int;
    selection_deleted_or(o, if c == 0 { o } else { after_splice(o, off(s, k - 1), c, Seq::empty()) })
}

/// Delete: the selection, else the character after the cursor.
pub open spec fn deleted_forward(o: TextInputView) -> TextInputView {
    let s = o.content;
    let c = cursor_of(o);
    let k = floor_index(s, c as int) as int;
    selection_deleted_or(o, if c >= byte_len(s) { o } else { after_splice(o, c, off(s, k + 1), Seq::empty()) })
}

/// Backspace by word: the selection, else the word before the cursor.
pub open spec fn deleted_word_backward(o: TextInputView) -> TextInputView {
    let s = o.content;
    let c = cursor_of(o);
    let k = floor_index(s, c as int) as int;
    selection_deleted_or(o, if c == 0 { o } else { after_splice(o, off(s, prev_word_index(s, k)), c, Seq::empty()) })
}

/// Backspace to the start: the selection, else everything before the cursor.
pub open spec fn deleted_to_start(o: TextInputView) -> TextInputView {
    selection_deleted_or(o, if cursor_of(o) == 0 { o } else { after_splice(o, 0, cursor_of(o), Seq::empty()) })
}

/// The text field's state, as a value.
pub struct TextInputView {
    pub content: Seq<char>,
    pub cursor: usize,
    pub anchor: Option<usize>,
    pub marked: Option<(usize, usize)>,
    pub selecting: bool,
}

/// The cursor, clamped to a boundary.
pub open spec fn cursor_of(v: TextInputView) -> nat {
    clamp(v.content, v.cursor as int)
}

/// The range between two clamped offsets.
pub open spec fn clamp_pair(s: Seq<char>, a: int, b: int) -> (nat, nat) {
    let x = clamp(s, a);
    let y = clamp(s, b);
    if x <= y { (x, y) } else { (y, x) }
}

/// The selection: from the anchor to the cursor, when they differ.
pub open spec fn selection_of(v: TextInputView) -> Option<(nat, nat)> {
    match v.anchor {
        Some(a) => {
            let c = cursor_of(v);
            if a == c { None } else if a <= c { Some((a as nat, c)) } else { Some((c, a as nat)) }
        },
        None => None,
    }
}

fn pair_range(r: &Range<usize>) -> (p: (usize, usize))
    ensures
        p == (r.start, r.end),
{
    (r.start, r.end)
}

/// A single-line text field.
pub struct TextInputState {
    content: String,
    cursor: usize,
    selection_anchor: Option<usize>,
    marked_range: Option<Range<usize>>,
    selecting: bool,
}

/// The cursor, the selection anchor and both ends of the text being
/// composed lie on character boundaries of the text, the composition's
/// start before its end.
pub open spec fn boundaries_kept(v: TextInputView) -> bool {
    &&& is_boundary(v.content, v.cursor as int)
    &&& (v.anchor matches Some(a) ==> is_boundary(v.content, a as int))
    &&& (v.marked matches Some((a, b)) ==> a <= b && is_boundary(v.content, a as int) && is_boundary(v.content, b as int))
}

impl TextInputState {
    /// Every operation keeps the cursor, the anchor and the composition on
    /// character boundaries.
    #[verifier::type_invariant]
    spec fn keeps_boundaries(self) -> bool {
        boundaries_kept(self@)
    }
}

impl View for TextInputState {
    type V = TextInputView;

    closed spec fn view(&self) -> TextInputView {
        TextInputView {
            content: self.content@,
            cursor: self.cursor,
            anchor: self.selection_anchor,
            marked: match self.marked_range {
                Some(r) => Some((r.start, r.end)),
                None => None,
            },
            selecting: self.selecting,
        }
    }
}

impl Clone for TextInputState {
    fn clone(&self) -> (r: Self)
        ensures
            r@ == self@,
    {
        proof { use_type_invariant(self); }
        let marked_range = match &self.marked_range {
            Some(m) => Some(Range { start: m.start, end: m.end }),
            None => None,
        };
        TextInputState {
            content: self.content.clone(),
            cursor: self.cursor,
            selection_anchor: self.selection_anchor,
            marked_range,
            selecting: self.selecting,
        }
    }
}

/// The offset clamped into the text and moved back to a boundary, given
/// the text's offsets table.
fn clamp_in(offs: &Vec<usize>, n: usize, index: usize, Ghost(s): Ghost<Seq<char>>) -> (r: usize)
    requires
        n == s.len(),
        offs@.len() == n + 1,
        forall|k: int| 0 <= k <= s.len() ==> #[trigger] offs@[k] == off(s, k),
    ensures
        r == clamp(s, index as int),
{
    proof { lemma_off_full(s); }
    let total = offs[n];
    let m = if index < total { index } else { total };
    let mut k: usize = n;
    while k > 0 && offs[k] > m
        invariant
            n == s.len(),
            offs@.len() == n + 1,
            forall|j: int| 0 <= j <= s.len() ==> #[trigger] offs@[j] == off(s, j),
            k <= n,
            forall|j: int| k < j <= n ==> #[trigger] off(s, j) > m,
        decreases k,
    {
        k -= 1;
    }
    proof {
        lemma_floor_index(s, m as int);
        let f = floor_index(s, m as int) as int;
        lemma_off_full(s);
        if f < k {
            lemma_off_mono(s, f + 1, k as int);
        } else if f > k {
            assert(off(s, f) > m);
        }
        assert(f == k);
    }
    offs[k]
}

/// The character index of a boundary, given the offsets table.
fn index_of_boundary(offs: &Vec<usize>, n: usize, b: usize, Ghost(s): Ghost<Seq<char>>) -> (k: usize)
    requires
        n == s.len(),
        offs@.len() == n + 1,
        forall|j: int| 0 <= j <= s.len() ==> #[trigger] offs@[j] == off(s, j),
        is_boundary(s, b as int),
    ensures
        k <= n,
        off(s, k as int) == b,
{
    let mut k: usize = 0;
    while k < n && offs[k] != b
        invariant
            n == s.len(),
            offs@.len() == n + 1,
            forall|j: int| 0 <= j <= s.len() ==> #[trigger] offs@[j] == off(s, j),
            is_boundary(s, b as int),
            k <= n,
            forall|j: int| 0 <= j < k ==> #[trigger] off(s, j) != b,
        decreases n - k,
    {
        k += 1;
    }
    proof {
        let w = choose|w: int| 0 <= w <= s.len() && #[trigger] off(s, w) == b;
        if k == n && off(s, n as int) != b {
            assert(w < k);
        }
    }
    k
}

/// A field holding the text with the cursor after its last character.
pub open spec fn end_view(content: Seq<char>) -> TextInputView {
    TextInputView { content, cursor: byte_len(content) as usize, anchor: None, marked: None, selecting: false }
}

impl TextInputState {
    /// A field holding the text, the cursor clamped to it.
    pub fn new(content: String, cursor: usize) -> (r: Self)
        ensures
            r@ == (TextInputView {
                content: content@,
                cursor: clamp(content@, cursor as int) as usize,
                anchor: None,
                marked: None,
                selecting: false,
            }),
    {
        let (cs, offs) = byte_offsets(content.as_str());
        let c = clamp_in(&offs, cs.len(), cursor, Ghost(content@));
        proof { lemma_clamp(content@, cursor as int); }
        TextInputState { content, cursor: c, selection_anchor: None, marked_range: None, selecting: false }
    }

    /// A field holding the text with the cursor after its last character.
    pub fn at_end(content: String) -> (r: Self)
        ensures
            r@ == end_view(content@),
    {
        let (cs, offs) = byte_offsets(content.as_str());
        let end = offs[cs.len()];
        proof {
            lemma_off_full(content@);
            assert(is_boundary(content@, end as int));
            lemma_clamp(content@, end as int);
        }
        Self::new(content, end)
    }

    /// The text.
    pub fn content(&self) -> (r: &str)
        ensures
            r@ == self@.content,
    {
        self.content.as_str()
    }

    /// The offset clamped into the text and moved back to a boundary.
    pub fn clamp_index(&self, index: usize) -> (r: usize)
        ensures
            r == clamp(self@.content, index as int),
    {
        let (cs, offs) = byte_offsets(self.content.as_str());
        clamp_in(&offs, cs.len(), index, Ghost(self@.content))
    }

    /// The cursor, on a boundary of the text.
    pub fn cursor(&self) -> (r: usize)
        ensures
            r == cursor_of(self@),
    {
        self.clamp_index(self.cursor)
    }

    /// Where the selection started.
    pub fn selection_anchor(&self) -> (r: Option<usize>)
        ensures
            r == self@.anchor,
    {
        self.selection_anchor
    }

    /// Both ends clamped, in order.
    pub fn clamp_range(&self, range: Range<usize>) -> (r: Range<usize>)
        ensures
            (r.start as nat, r.end as nat) == clamp_pair(self@.content, range.start as int, range.end as int),
            r.start <= r.end,
            is_boundary(self@.content, r.start as int),
            is_boundary(self@.content, r.end as int),
    {
        proof { lemma_clamp_pair_fixed(self@.content, range.start as int, range.end as int); }
        let start = self.clamp_index(range.start);
        let end = self.clamp_index(range.end);
        if start <= end { start..end } else { end..start }
    }

    /// The selected range, when the anchor and the cursor differ.
    pub fn selection_range(&self) -> (r: Option<Range<usize>>)
        ensures
            match (r, selection_of(self@)) {
                (Some(x), Some((a, b))) => x.start == a && x.end == b,
                (None, None) => true,
                _ => false,
            },
    {
        let anchor = match self.selection_anchor {
            Some(a) => a,
            None => return None,
        };
        let c = self.cursor();
        if anchor == c {
            None
        } else if anchor <= c {
            Some(anchor..c)
        } else {
            Some(c..anchor)
        }
    }

    /// The selected range, else the empty range at the cursor; clamped.
    pub fn selected_range(&self) -> (r: Range<usize>)
        ensures
            ({
                let base = match selection_of(self@) {
                    Some((a, b)) => (a as int, b as int),
                    None => (cursor_of(self@) as int, cursor_of(self@) as int),
                };
                (r.start as nat, r.end as nat) == clamp_pair(self@.content, base.0, base.1)
            }),
    {
        let base = match self.selection_range() {
            Some(r) => r,
            None => {
                let c = self.cursor();
                c..c
            },
        };
        self.clamp_range(base)
    }

    /// Whether the anchor lies after the cursor.
    pub fn selection_reversed(&self) -> (r: bool)
        ensures
            r == match self@.anchor {
                Some(a) => clamp(self@.content, a as int) > cursor_of(self@),
                None => false,
            },
    {
        match self.selection_anchor {
            Some(a) => self.clamp_index(a) > self.cursor(),
            None => false,
        }
    }

    /// The text being composed, clamped.
    pub fn marked_range(&self) -> (r: Option<Range<usize>>)
        ensures
            match (r, self@.marked) {
                (Some(x), Some((a, b))) => (x.start as nat, x.end as nat) == clamp_pair(self@.content, a as int, b as int),
                (None, None) => true,
                _ => false,
            },
    {
        match &self.marked_range {
            Some(range) => {
                let (a, b) = pair_range(range);
                Some(self.clamp_range(a..b))
            },
            None => None,
        }
    }

    /// Empties the field.
    pub fn clear(&mut self)
        ensures
            final(self)@ == (TextInputView {
                content: Seq::empty(),
                cursor: 0,
                anchor: None,
                marked: None,
                selecting: old(self)@.selecting,
            }),
    {
        proof {
            use_type_invariant(&*self);
            lemma_off_full(self@.content);
            assert(is_boundary(self@.content, 0)) by { assert(off(self@.content, 0) == 0); }
        }
        self.selection_anchor = None;
        self.marked_range = None;
        self.cursor = 0;
        proof {
            lemma_off_full(Seq::<char>::empty());
            assert(off(Seq::<char>::empty(), 0) == 0);
        }
        self.content = String::new();
    }

    /// Replaces the text, the cursor at its end; nothing selected.
    pub fn reset(&mut self, content: String)
        ensures
            final(self)@ == (TextInputView {
                content: content@,
                cursor: byte_len(content@) as usize,
                anchor: None,
                marked: None,
                selecting: false,
            }),
    {
        let (cs, offs) = byte_offsets(content.as_str());
        proof { lemma_off_full(content@); }
        let end = offs[cs.len()];
        proof {
            use_type_invariant(&*self);
            lemma_off_full(self@.content);
            assert(is_boundary(self@.content, 0)) by { assert(off(self@.content, 0) == 0); }
            assert(is_boundary(content@, 0)) by { assert(off(content@, 0) == 0); }
            assert(is_boundary(content@, end as int)) by { assert(off(content@, content@.len() as int) == end); }
        }
        self.selection_anchor = None;
        self.marked_range = None;
        self.cursor = 0;
        self.content = content;
        self.cursor = end;
        self.selecting = false;
    }

    /// Moves the cursor, dropping the selection.
    pub fn move_to(&mut self, offset: usize)
        ensures
            final(self)@ == (TextInputView {
                cursor: clamp(old(self)@.content, offset as int) as usize,
                anchor: None,
                marked: None,
                ..old(self)@
            }),
    {
        proof {
            use_type_invariant(&*self);
            lemma_clamp(self@.content, offset as int);
        }
        self.cursor = self.clamp_index(offset);
        self.selection_anchor = None;
        self.marked_range = None;
    }

    /// Extends the selection to the offset, anchoring it at the cursor if
    /// nothing was selected.
    pub fn select_to(&mut self, offset: usize)
        ensures
            ({
                let o = old(self)@;
                let anchor = match o.anchor { Some(a) => a, None => cursor_of(o) as usize };
                let c = clamp(o.content, offset as int) as usize;
                final(self)@ == (TextInputView {
                    cursor: c,
                    anchor: if anchor == c { None } else { Some(anchor) },
                    marked: None,
                    ..o
                })
            }),
    {
        proof {
            use_type_invariant(&*self);
            lemma_clamp(self@.content, offset as int);
            lemma_clamp(self@.content, self@.cursor as int);
        }
        let anchor = match self.selection_anchor {
            Some(a) => a,
            None => self.cursor(),
        };
        self.cursor = self.clamp_index(offset);
        self.selection_anchor = if anchor == self.cursor { None } else { Some(anchor) };
        self.marked_range = None;
    }

    /// Records whether the mouse is selecting.
    pub fn set_selecting(&mut self, selecting: bool)
        ensures
            final(self)@ == (TextInputView { selecting, ..old(self)@ }),
    {
        proof { use_type_invariant(&*self); }
        self.selecting = selecting;
    }

    /// Whether the mouse is selecting.
    pub fn is_selecting(&self) -> (r: bool)
        ensures
            r == self@.selecting,
    {
        self.selecting
    }

    /// Moves the cursor, extending the selection when `select` holds and
    /// dropping it otherwise.
    pub fn set_cursor(&mut self, cursor: usize, select: bool)
        ensures
            ({
                let o = old(self)@;
                let c = clamp(o.content, cursor as int) as usize;
                let anchor = if select {
                    match o.anchor { Some(a) => Some(a), None => Some(cursor_of(o) as usize) }
                } else {
                    None
                };
                final(self)@ == (TextInputView {
                    cursor: c,
                    anchor: if anchor == Some(c) { None } else { anchor },
                    marked: None,
                    ..o
                })
            }),
    {
        proof {
            use_type_invariant(&*self);
            lemma_clamp(self@.content, cursor as int);
            lemma_clamp(self@.content, self@.cursor as int);
        }
        let c = self.clamp_index(cursor);
        let anchor = if select {
            match self.selection_anchor {
                Some(a) => Some(a),
                None => Some(self.cursor()),
            }
        } else {
            None
        };
        self.cursor = c;
        self.selection_anchor = if anchor == Some(c) { None } else { anchor };
        self.marked_range = None;
    }

    /// Selects everything.
    pub fn select_all(&mut self)
        ensures
            final(self)@ == (TextInputView {
                cursor: byte_len(old(self)@.content) as usize,
                anchor: Some(0),
                marked: None,
                ..old(self)@
            }),
    {
        let (cs, offs) = byte_offsets(self.content.as_str());
        proof {
            use_type_invariant(&*self);
            lemma_off_full(self@.content);
            assert(is_boundary(self@.content, 0)) by { assert(off(self@.content, 0) == 0); }
            assert(is_boundary(self@.content, offs@[cs@.len() as int] as int)) by {
                assert(off(self@.content, self@.content.len() as int) == offs@[cs@.len() as int]);
            }
        }
        self.cursor = offs[cs.len()];
        self.selection_anchor = Some(0);
        self.marked_range = None;
    }
}

impl TextInputState {
    /// The boundary before a boundary (0 at the start).
    fn previous_boundary(&self, index: usize) -> (r: usize)
        requires
            is_boundary(self@.content, index as int),
        ensures
            ({
                let s = self@.content;
                let k = floor_index(s, index as int) as int;
                r == if k == 0 { 0 } else { off(s, k - 1) }
            }),
    {
        let ghost s = self@.content;
        let (cs, offs) = byte_offsets(self.content.as_str());
        let k = index_of_boundary(&offs, cs.len(), index, Ghost(s));
        proof { lemma_floor_of_boundary(s, k as int); }
        if k == 0 { 0 } else { offs[k - 1] }
    }

    /// The boundary after a boundary (the end at the end).
    fn next_boundary(&self, index: usize) -> (r: usize)
        requires
            is_boundary(self@.content, index as int),
        ensures
            ({
                let s = self@.content;
                let k = floor_index(s, index as int) as int;
                r == if k >= s.len() { byte_len(s) } else { off(s, k + 1) }
            }),
    {
        let ghost s = self@.content;
        let (cs, offs) = byte_offsets(self.content.as_str());
        let k = index_of_boundary(&offs, cs.len(), index, Ghost(s));
        proof {
            lemma_floor_of_boundary(s, k as int);
            lemma_off_full(s);
        }
        if k >= cs.len() { offs[cs.len()] } else { offs[k + 1] }
    }

    /// The start of the word before a boundary: back over white space,
    /// then over characters of the class of the one before.
    fn previous_word_boundary(&self, index: usize) -> (r: usize)
        requires
            is_boundary(self@.content, index as int),
        ensures
            r == off(self@.content, prev_word_index(self@.content, floor_index(self@.content, index as int) as int)),
    {
        let ghost s = self@.content;
        let (cs, offs) = byte_offsets(self.content.as_str());
        let k = index_of_boundary(&offs, cs.len(), index, Ghost(s));
        proof {
            lemma_floor_of_boundary(s, k as int);
            lemma_off_full(s);
        }
        let mut p: usize = k;
        while p > 0 && is_whitespace_char(cs[p - 1])
            invariant
                cs@ == s,
                p <= k <= s.len(),
                skip_ws_back(s, p as int) == skip_ws_back(s, k as int),
            decreases p,
        {
            p -= 1;
        }
        if p == 0 {
            return 0;
        }
        let cls: u8 = char_class_of(cs[p - 1]);
        let ghost start = p;
        while p > 0 && !is_whitespace_char(cs[p - 1]) && char_class_of(cs[p - 1]) == cls
            invariant
                cs@ == s,
                p <= start <= s.len(),
                start > 0,
                cls == char_class(s[start - 1]),
                skip_class_back(s, p as int, cls) == skip_class_back(s, start as int, cls),
            decreases p,
        {
            p -= 1;
        }
        offs[p]
    }

    /// The end of the word after a boundary: over white space, then over
    /// characters of the class of the first one.
    fn next_word_boundary(&self, index: usize) -> (r: usize)
        requires
            is_boundary(self@.content, index as int),
        ensures
            r == off(self@.content, next_word_index(self@.content, floor_index(self@.content, index as int) as int)),
    {
        let ghost s = self@.content;
        let (cs, offs) = byte_offsets(self.content.as_str());
        let n = cs.len();
        let k = index_of_boundary(&offs, n, index, Ghost(s));
        proof {
            lemma_floor_of_boundary(s, k as int);
            lemma_off_full(s);
        }
        let mut q: usize = k;
        while q < n && is_whitespace_char(cs[q])
            invariant
                cs@ == s,
                n == s.len(),
                k <= q <= n,
                skip_ws_fwd(s, q as int) == skip_ws_fwd(s, k as int),
            decreases n - q,
        {
            q += 1;
        }
        if q >= n {
            return offs[n];
        }
        let cls: u8 = char_class_of(cs[q]);
        let ghost first = q;
        let mut j: usize = q + 1;
        while j < n && !is_whitespace_char(cs[j]) && char_class_of(cs[j]) == cls
            invariant
                cs@ == s,
                n == s.len(),
                first < j <= n,
                first < n,
                cls == char_class(s[first as int]),
                skip_class_fwd(s, j as int, cls) == skip_class_fwd(s, first + 1, cls),
            decreases n - j,
        {
            j += 1;
        }
        offs[j]
    }

    /// The byte offset of a UTF-16 offset: the first boundary at or past it.
    pub fn offset_from_utf16(&self, offset: usize) -> (r: usize)
        ensures
            r == from_utf16(self@.content, offset as int),
    {
        let ghost s = self@.content;
        let (cs, offs) = byte_offsets(self.content.as_str());
        let o16 = utf16_offsets(&cs, &offs, Ghost(s));
        let n = cs.len();
        let mut k: usize = 0;
        while k < n && o16[k] < offset
            invariant
                n == s.len(),
                o16@.len() == n + 1,
                forall|j: int| 0 <= j <= s.len() ==> #[trigger] o16@[j] == off16(s, j),
                k <= n,
                reach16(s, offset as int, k as int) == reach16(s, offset as int, 0),
            decreases n - k,
        {
            k += 1;
        }
        offs[k]
    }

    /// The UTF-16 offset of a byte offset: that of the first boundary at or
    /// past it.
    pub fn offset_to_utf16(&self, offset: usize) -> (r: usize)
        ensures
            r == to_utf16(self@.content, offset as int),
    {
        let ghost s = self@.content;
        let (cs, offs) = byte_offsets(self.content.as_str());
        let o16 = utf16_offsets(&cs, &offs, Ghost(s));
        let n = cs.len();
        let mut k: usize = 0;
        while k < n && offs[k] < offset
            invariant
                n == s.len(),
                offs@.len() == n + 1,
                forall|j: int| 0 <= j <= s.len() ==> #[trigger] offs@[j] == off(s, j),
                k <= n,
                reach8(s, offset as int, k as int) == reach8(s, offset as int, 0),
            decreases n - k,
        {
            k += 1;
        }
        o16[k]
    }

    /// A clamped range as UTF-16 offsets.
    pub fn range_to_utf16(&self, range: &Range<usize>) -> (r: Range<usize>)
        ensures
            ({
                let (a, b) = clamp_pair(self@.content, range.start as int, range.end as int);
                r.start == to_utf16(self@.content, a as int) && r.end == to_utf16(self@.content, b as int)
            }),
    {
        let (a, b) = pair_range(range);
        let clamped = self.clamp_range(a..b);
        self.offset_to_utf16(clamped.start)..self.offset_to_utf16(clamped.end)
    }

    /// A UTF-16 range as a clamped byte range.
    pub fn range_from_utf16(&self, range_utf16: &Range<usize>) -> (r: Range<usize>)
        ensures
            (r.start as nat, r.end as nat) == clamp_pair(
                self@.content,
                from_utf16(self@.content, range_utf16.start as int) as int,
                from_utf16(self@.content, range_utf16.end as int) as int,
            ),
    {
        let (a, b) = pair_range(range_utf16);
        let start = self.offset_from_utf16(a);
        let end = self.offset_from_utf16(b);
        self.clamp_range(start..end)
    }

    /// Where a content offset shows: the same offset, or the number of
    /// characters before it when the field is masked.
    pub fn display_offset_from_content_offset(&self, offset: usize, masked: bool) -> (r: usize)
        ensures
            r == if masked {
                reach8(self@.content, clamp(self@.content, offset as int) as int, 0) as nat
            } else {
                clamp(self@.content, offset as int)
            },
    {
        let ghost s = self@.content;
        let (cs, offs) = byte_offsets(self.content.as_str());
        let n = cs.len();
        let clamped = clamp_in(&offs, n, offset, Ghost(s));
        if !masked {
            return clamped;
        }
        let mut k: usize = 0;
        while k < n && offs[k] < clamped
            invariant
                n == s.len(),
                offs@.len() == n + 1,
                forall|j: int| 0 <= j <= s.len() ==> #[trigger] offs@[j] == off(s, j),
                k <= n,
                reach8(s, clamped as int, k as int) == reach8(s, clamped as int, 0),
            decreases n - k,
        {
            k += 1;
        }
        k
    }

    /// The content offset under a display offset: the same offset clamped,
    /// or the offset after that many characters when the field is masked.
    pub fn content_offset_from_display_offset(&self, display_offset: usize, masked: bool) -> (r: usize)
        ensures
            r == if masked {
                off(self@.content, if display_offset < self@.content.len() { display_offset as int } else { self@.content.len() as int })
            } else {
                clamp(self@.content, display_offset as int)
            },
    {
        let ghost s = self@.content;
        let (cs, offs) = byte_offsets(self.content.as_str());
        let n = cs.len();
        if !masked {
            return clamp_in(&offs, n, display_offset, Ghost(s));
        }
        let k = if display_offset < n { display_offset } else { n };
        offs[k]
    }

    /// A content range as display offsets.
    pub fn display_range_from_content_range(&self, range: Range<usize>, masked: bool) -> (r: Range<usize>)
        ensures
            ({
                let s = self@.content;
                let (a, b) = clamp_pair(s, range.start as int, range.end as int);
                let shown = |o: nat| if masked { reach8(s, clamp(s, o as int) as int, 0) as nat } else { clamp(s, o as int) };
                r.start == shown(a) && r.end == shown(b)
            }),
    {
        let clamped = self.clamp_range(range);
        let (a, b) = pair_range(&clamped);
        self.display_offset_from_content_offset(a, masked)..self.display_offset_from_content_offset(b, masked)
    }

    /// The text shown: the placeholder when empty, one `*` per character
    /// when masked, else the content.
    pub fn display_text(&self, placeholder: &str, masked: bool) -> (r: String)
        ensures
            r@ == if self@.content.len() == 0 {
                placeholder@
            } else if masked {
                Seq::new(self@.content.len(), |i: int| '*')
            } else {
                self@.content
            },
    {
        let cs = chars_of(self.content.as_str());
        if cs.len() == 0 {
            return String::from_str(placeholder);
        }
        if masked {
            let mut stars: Vec<char> = Vec::new();
            let n = cs.len();
            for i in 0..n
                invariant
                    stars@ == Seq::new(i as nat, |j: int| '*'),
            {
                stars.push('*');
                proof {
                    assert(stars@ =~= Seq::new((i + 1) as nat, |j: int| '*'));
                }
            }
            return string_from_chars(stars.as_slice());
        }
        self.content.clone()
    }
}

fn opt_pair(r: &Option<Range<usize>>) -> (p: Option<(usize, usize)>)
    ensures
        p == match *r { Some(x) => Some((x.start, x.end)), None => None },
{
    match r {
        Some(x) => Some((x.start, x.end)),
        None => None,
    }
}

impl TextInputState {
    /// Replaces the text between two boundaries.
    fn splice(&mut self, a: usize, b: usize, text: &str)
        requires
            a <= b,
            is_boundary(old(self)@.content, a as int),
            is_boundary(old(self)@.content, b as int),
        ensures
            final(self)@ == after_splice(old(self)@, a as nat, b as nat, text@),
            is_boundary(final(self)@.content, final(self)@.cursor as int),
            final(self)@.cursor == a + byte_len(text@),
            a + byte_len(text@) <= byte_len(final(self)@.content),
    {
        proof { use_type_invariant(&*self); }
        let ghost s = self@.content;
        let (cs, offs) = byte_offsets(self.content.as_str());
        let n = cs.len();
        let ka = index_of_boundary(&offs, n, a, Ghost(s));
        let kb = index_of_boundary(&offs, n, b, Ghost(s));
        proof {
            lemma_floor_of_boundary(s, ka as int);
            lemma_floor_of_boundary(s, kb as int);
            if ka > kb {
                lemma_off_mono(s, kb as int, ka as int);
            }
        }
        let tc = chars_of(text);
        let mut joined: Vec<char> = Vec::new();
        for i in 0..ka
            invariant
                ka <= n,
                cs@ == s,
                n == s.len(),
                joined@ == s.take(i as int),
        {
            joined.push(cs[i]);
            proof { assert(joined@ =~= s.take(i + 1)); }
        }
        let tn = tc.len();
        for i in 0..tn
            invariant
                tn == tc@.len(),
                tc@ == text@,
                joined@ == s.take(ka as int) + text@.take(i as int),
        {
            joined.push(tc[i]);
            proof { assert(joined@ =~= s.take(ka as int) + text@.take(i + 1)); }
        }
        proof { assert(text@.take(tn as int) =~= text@); }
        for i in kb..n
            invariant
                ka <= kb <= n,
                cs@ == s,
                n == s.len(),
                joined@ == s.take(ka as int) + text@ + s.subrange(kb as int, i as int),
        {
            joined.push(cs[i]);
            proof { assert(joined@ =~= s.take(ka as int) + text@ + s.subrange(kb as int, i + 1)); }
        }
        proof {
            assert(s.subrange(kb as int, n as int) =~= s.skip(kb as int));
        }
        let content = string_from_chars(joined.as_slice());
        let ghost t = content@;
        let (ncs, noffs) = byte_offsets(content.as_str());
        let nn = ncs.len();
        proof {
            assert(t == spliced(s, ka as int, kb as int, text@));
            let pre = s.take(ka as int) + text@;
            assert(t.take(ka + tn) =~= pre);
            lemma_byte_len_concat(s.take(ka as int), text@);
            lemma_off_mono(t, (ka + tn) as int, t.len() as int);
            lemma_off_full(t);
            assert(off(t, (ka + tn) as int) == a + byte_len(text@));
            assert(t.len() == ka + tn + (n - kb));
            assert(nn == t.len());
        }
        proof {
            lemma_off_full(s);
            assert(is_boundary(s, 0)) by { assert(off(s, 0) == 0); }
            lemma_off_full(t);
            assert(is_boundary(t, 0)) by { assert(off(t, 0) == 0); }
            assert(is_boundary(t, noffs@[(ka + tn) as int] as int)) by {
                assert(off(t, (ka + tn) as int) == noffs@[(ka + tn) as int]);
            }
        }
        self.selection_anchor = None;
        self.marked_range = None;
        self.cursor = 0;
        self.content = content;
        self.cursor = noffs[ka + tn];
    }

    /// Replaces the clamped range with text; the cursor follows the text.
    pub fn replace_range(&mut self, range: Range<usize>, text: &str)
        ensures
            ({
                let (a, b) = clamp_pair(old(self)@.content, range.start as int, range.end as int);
                final(self)@ == after_splice(old(self)@, a, b, text@)
            }),
    {
        let r = self.clamp_range(range);
        let (a, b) = pair_range(&r);
        proof {
            lemma_clamp(self@.content, range.start as int);
            lemma_clamp(self@.content, range.end as int);
        }
        self.splice(a, b, text);
    }

    /// Deletes the selection; whether there was one.
    pub fn delete_selection(&mut self) -> (r: bool)
        ensures
            match selection_of(old(self)@) {
                Some((a, b)) => {
                    let p = clamp_pair(old(self)@.content, a as int, b as int);
                    r && final(self)@ == after_splice(old(self)@, p.0, p.1, Seq::empty())
                },
                None => !r && final(self)@ == old(self)@,
            },
    {
        match self.selection_range() {
            Some(range) => {
                let (a, b) = pair_range(&range);
                proof {
                    reveal_strlit("");
                }
                self.replace_range(a..b, "");
                true
            },
            None => false,
        }
    }

    /// The range an input-method edit applies to.
    pub fn resolve_range_utf16(&self, range_utf16: Option<Range<usize>>) -> (r: Range<usize>)
        ensures
            (r.start as nat, r.end as nat) == resolved_range(self@, match range_utf16 { Some(x) => Some((x.start, x.end)), None => None }),
            r.start <= r.end,
            is_boundary(self@.content, r.start as int),
            is_boundary(self@.content, r.end as int),
    {
        let base = match range_utf16 {
            Some(x) => self.range_from_utf16(&x),
            None => match self.marked_range() {
                Some(m) => m,
                None => match self.selection_range() {
                    Some(sel) => sel,
                    None => {
                        let c = self.cursor();
                        c..c
                    },
                },
            },
        };
        self.clamp_range(base)
    }

    /// Replaces the range an input-method edit applies to with text,
    /// ending any composition.
    pub fn replace_text_in_range_utf16(&mut self, range_utf16: Option<Range<usize>>, text: &str)
        ensures
            ({
                let (a, b) = resolved_range(old(self)@, match range_utf16 { Some(x) => Some((x.start, x.end)), None => None });
                final(self)@ == after_splice(old(self)@, a, b, text@)
            }),
    {
        let base = opt_pair(&range_utf16);
        let r = self.resolve_range_utf16(range_utf16);
        let (a, b) = pair_range(&r);
        proof {
            let ghost s = self@.content;
            assert(resolved_range(self@, base) == (a as nat, b as nat));
            lemma_clamp(s, a as int);
            lemma_clamp(s, b as int);
        }
        self.replace_range(a..b, text);
    }
}

/// The selection an input-method edit leaves, given the text after it:
/// the given UTF-16 range relative to the edit's start, else the cursor
/// after the inserted text.
pub open spec fn marked_selection(n: Seq<char>, a: nat, tl: nat, sel16: Option<(usize, usize)>) -> (nat, nat) {
    match sel16 {
        Some((x, y)) => {
            let p = clamp_pair(n, from_utf16(n, x as int) as int, from_utf16(n, y as int) as int);
            clamp_pair(n, (a + p.0) as int, (a + p.1) as int)
        },
        None => {
            let c = clamp(n, (a + tl) as int);
            (c, c)
        },
    }
}

proof fn lemma_clamp_saturated(s: Seq<char>, i: int)
    requires
        0 <= i,
        byte_len(s) <= usize::MAX,
    ensures
        clamp(s, if i > usize::MAX { usize::MAX as int } else { i }) == clamp(s, i),
{
}

impl TextInputState {
    /// The UTF-8 length of the text.
    fn text_len(&self) -> (r: usize)
        ensures
            r == byte_len(self@.content),
    {
        let (cs, offs) = byte_offsets(self.content.as_str());
        proof { lemma_off_full(self@.content); }
        offs[cs.len()]
    }

    /// Replaces the range an input-method edit applies to with text being
    /// composed: it is marked (unless empty) and the selection is set as
    /// the input method asks, relative to the edit's start.
    pub fn replace_and_mark_text_in_range_utf16(
        &mut self,
        range_utf16: Option<Range<usize>>,
        new_text: &str,
        new_selected_range_utf16: Option<Range<usize>>,
    )
        ensures
            ({
                let o = old(self)@;
                let (a, b) = resolved_range(o, match range_utf16 { Some(x) => Some((x.start, x.end)), None => None });
                let n = after_splice(o, a, b, new_text@).content;
                let tl = byte_len(new_text@);
                let sel = marked_selection(n, a, tl, match new_selected_range_utf16 { Some(x) => Some((x.start, x.end)), None => None });
                final(self)@ == (TextInputView {
                    content: n,
                    cursor: sel.1 as usize,
                    anchor: if sel.0 == sel.1 { None } else { Some(sel.0 as usize) },
                    marked: if new_text@.len() == 0 {
                        None
                    } else {
                        let m = clamp_pair(n, a as int, (a + tl) as int);
                        Some((m.0 as usize, m.1 as usize))
                    },
                    selecting: o.selecting,
                })
            }),
    {
        let base = opt_pair(&range_utf16);
        let sel_pair = opt_pair(&new_selected_range_utf16);
        let r = self.resolve_range_utf16(range_utf16);
        let (a, b) = pair_range(&r);
        proof {
            lemma_clamp(self@.content, a as int);
            lemma_clamp(self@.content, b as int);
        }
        self.splice(a, b, new_text);
        let inserted_end = self.cursor;
        let total = self.text_len();
        let empty = new_text.is_empty();
        let marked = if !empty { Some(self.clamp_range(a..inserted_end)) } else { None };
        let selected = match new_selected_range_utf16 {
            Some(sel) => {
                let x = self.range_from_utf16(&sel);
                let (x0, x1) = pair_range(&x);
                proof {
                    lemma_clamp_saturated(self@.content, a + x0);
                    lemma_clamp_saturated(self@.content, a + x1);
                }
                self.clamp_range(a.saturating_add(x0)..a.saturating_add(x1))
            },
            None => {
                proof { lemma_clamp(self@.content, inserted_end as int); }
                let c = self.clamp_index(inserted_end);
                c..c
            },
        };
        let (s0, s1) = pair_range(&selected);
        self.selection_anchor = if s0 == s1 { None } else { Some(s0) };
        self.cursor = s1;
        self.marked_range = marked;
    }

    /// Moves the cursor left: to the start of the selection when there is
    /// one and the selection is not extended; else by a character or a
    /// word, extending the selection when `select` holds.
    pub fn move_left(&mut self, select: bool, by_word: bool)
        ensures
            final(self)@ == moved_left(old(self)@, select, by_word),
    {
        proof {
            use_type_invariant(&*self);
            lemma_clamp(self@.content, self@.cursor as int);
        }
        if !select {
            if let Some(range) = self.selection_range() {
                let (a, _) = pair_range(&range);
                self.cursor = a;
                self.selection_anchor = None;
                return;
            }
        }
        let c = self.cursor();
        proof {
            lemma_clamp(self@.content, self@.cursor as int);
            lemma_floor_index(self@.content, c as int);
        }
        let target = if by_word { self.previous_word_boundary(c) } else { self.previous_boundary(c) };
        self.set_cursor(target, select);
    }

    /// Moves the cursor right: to the end of the selection when there is
    /// one and the selection is not extended; else by a character or a
    /// word, extending the selection when `select` holds.
    pub fn move_right(&mut self, select: bool, by_word: bool)
        ensures
            final(self)@ == moved_right(old(self)@, select, by_word),
    {
        proof {
            use_type_invariant(&*self);
            lemma_clamp(self@.content, self@.cursor as int);
        }
        if !select {
            if let Some(range) = self.selection_range() {
                let (_, b) = pair_range(&range);
                self.cursor = b;
                self.selection_anchor = None;
                return;
            }
        }
        let c = self.cursor();
        proof {
            lemma_clamp(self@.content, self@.cursor as int);
        }
        let target = if by_word { self.next_word_boundary(c) } else { self.next_boundary(c) };
        self.set_cursor(target, select);
    }

    /// Moves the cursor to the start.
    pub fn move_to_start(&mut self, select: bool)
        ensures
            final(self)@ == after_set_cursor(old(self)@, 0, select),
    {
        self.set_cursor(0, select);
    }

    /// Moves the cursor to the end.
    pub fn move_to_end(&mut self, select: bool)
        ensures
            final(self)@ == after_set_cursor(old(self)@, byte_len(old(self)@.content) as int, select),
    {
        let end = self.text_len();
        self.set_cursor(end, select);
    }

    /// Deletes the selection, else the character before the cursor.
    pub fn delete_backward(&mut self)
        ensures
            final(self)@ == deleted_backward(old(self)@),
    {
        if self.delete_selection() {
            return;
        }
        let c = self.cursor();
        if c == 0 {
            return;
        }
        proof {
            lemma_clamp(self@.content, self@.cursor as int);
            let k = floor_index(self@.content, c as int) as int;
            lemma_floor_index(self@.content, c as int);
            if k == 0 {
                lemma_off_full(self@.content);
            } else {
                lemma_off_mono(self@.content, k - 1, k);
            }
        }
        let start = self.previous_boundary(c);
        proof {
            let s = self@.content;
            let k = floor_index(s, c as int) as int;
            lemma_clamp(s, c as int);
            assert(off(s, k) == c);
            assert(k > 0);
            lemma_off_mono(s, k - 1, k);
            assert(is_boundary(s, start as int)) by {
                assert(off(s, k - 1) == start);
            }
            lemma_clamp(s, start as int);
            assert(clamp_pair(s, start as int, c as int) == (start as nat, c as nat));
            reveal_strlit("");
            assert(""@ == Seq::<char>::empty());
        }
        self.replace_range(start..c, "");
    }

    /// Deletes the selection, else the character after the cursor.
    pub fn delete_forward(&mut self)
        ensures
            final(self)@ == deleted_forward(old(self)@),
    {
        if self.delete_selection() {
            return;
        }
        let c = self.cursor();
        let total = self.text_len();
        if c >= total {
            return;
        }
        proof {
            lemma_clamp(self@.content, self@.cursor as int);
            lemma_floor_index(self@.content, c as int);
            lemma_off_full(self@.content);
        }
        let end = self.next_boundary(c);
        proof {
            let s = self@.content;
            let k = floor_index(s, c as int) as int;
            lemma_clamp(s, c as int);
            assert(off(s, k) == c);
            lemma_off_full(s);
            assert(k < s.len());
            lemma_off_mono(s, k, k + 1);
            assert(is_boundary(s, end as int)) by { assert(off(s, k + 1) == end); }
            lemma_clamp(s, end as int);
            assert(clamp_pair(s, c as int, end as int) == (c as nat, end as nat));
            reveal_strlit("");
            assert(""@ == Seq::<char>::empty());
        }
        self.replace_range(c..end, "");
    }

    /// Deletes the selection, else the word before the cursor.
    pub fn delete_word_backward(&mut self)
        ensures
            final(self)@ == deleted_word_backward(old(self)@),
    {
        if self.delete_selection() {
            return;
        }
        let c = self.cursor();
        if c == 0 {
            return;
        }
        proof {
            lemma_clamp(self@.content, self@.cursor as int);
        }
        let start = self.previous_word_boundary(c);
        proof {
            let s = self@.content;
            lemma_floor_index(s, c as int);
            let k = floor_index(s, c as int) as int;
            lemma_floor_of_boundary(s, k);
            lemma_skip_bounds(s, k, 0);
            let p = skip_ws_back(s, k);
            if p > 0 {
                lemma_skip_bounds(s, p, char_class(s[p - 1]));
            }
            let w = prev_word_index(s, k);
            assert(0 <= w <= k);
            lemma_off_mono(s, w, k);
            assert(is_boundary(s, start as int)) by { assert(off(s, w) == start); }
            lemma_clamp(s, start as int);
            reveal_strlit("");
        }
        self.replace_range(start..c, "");
    }

    /// Deletes the selection, else everything before the cursor.
    pub fn delete_to_start(&mut self)
        ensures
            final(self)@ == deleted_to_start(old(self)@),
    {
        if self.delete_selection() {
            return;
        }
        let c = self.cursor();
        if c == 0 {
            return;
        }
        proof {
            let s = self@.content;
            lemma_clamp(s, self@.cursor as int);
            lemma_off_full(s);
            assert(is_boundary(s, 0)) by { assert(off(s, 0) == 0); }
            lemma_clamp(s, 0);
            lemma_clamp(s, c as int);
            assert(clamp_pair(s, 0, c as int) == (0nat, c as nat));
            reveal_strlit("");
            assert(""@ == Seq::<char>::empty());
        }
        self.replace_range(0..c, "");
    }
}


impl TextInputState {
    /// Ends the composition, keeping the text.
    pub fn unmark_text(&mut self)
        ensures
            final(self)@ == (TextInputView { marked: None, ..old(self)@ }),
    {
        proof { use_type_invariant(&*self); }
        self.marked_range = None;
    }

    /// The text between two boundaries.
    fn text_between(&self, a: usize, b: usize) -> (r: String)
        requires
            a <= b,
            is_boundary(self@.content, a as int),
            is_boundary(self@.content, b as int),
        ensures
            r@ == self@.content.subrange(floor_index(self@.content, a as int) as int, floor_index(self@.content, b as int) as int),
    {
        let ghost s = self@.content;
        let (cs, offs) = byte_offsets(self.content.as_str());
        let n = cs.len();
        let ka = index_of_boundary(&offs, n, a, Ghost(s));
        let kb = index_of_boundary(&offs, n, b, Ghost(s));
        proof {
            lemma_floor_of_boundary(s, ka as int);
            lemma_floor_of_boundary(s, kb as int);
            if ka > kb {
                lemma_off_mono(s, kb as int, ka as int);
            }
        }
        let mut picked: Vec<char> = Vec::new();
        for i in ka..kb
            invariant
                ka <= kb <= n,
                cs@ == s,
                n == s.len(),
                picked@ == s.subrange(ka as int, i as int),
        {
            picked.push(cs[i]);
            proof { assert(picked@ =~= s.subrange(ka as int, i + 1)); }
        }
        string_from_chars(picked.as_slice())
    }

    /// The text of a UTF-16 range, clamped to boundaries, and that range
    /// as UTF-16 offsets.
    pub fn text_for_range(&self, range_utf16: &Range<usize>) -> (r: (String, Range<usize>))
        ensures
            ({
                let s = self@.content;
                let (a, b) = clamp_pair(s, from_utf16(s, range_utf16.start as int) as int, from_utf16(s, range_utf16.end as int) as int);
                &&& r.0@ == s.subrange(floor_index(s, a as int) as int, floor_index(s, b as int) as int)
                &&& r.1.start == to_utf16(s, a as int)
                &&& r.1.end == to_utf16(s, b as int)
            }),
    {
        let ghost s = self@.content;
        let range = self.range_from_utf16(range_utf16);
        proof {
            lemma_clamp_pair_fixed(s, from_utf16(s, range_utf16.start as int) as int, from_utf16(s, range_utf16.end as int) as int);
        }
        let actual = self.range_to_utf16(&range);
        let (a, b) = pair_range(&range);
        (self.text_between(a, b), actual)
    }

    /// The selected text, when something is selected.
    pub fn selected_text(&self) -> (r: Option<String>)
        ensures
            match selection_of(self@) {
                Some((a, b)) => r matches Some(t) && t@ == selected_chars(self@.content, a, b),
                None => r is None,
            },
    {
        match self.selection_range() {
            Some(range) => {
                let clamped = self.clamp_range(range);
                let (a, b) = pair_range(&clamped);
                Some(self.text_between(a, b))
            },
            None => None,
        }
    }
}

/// The characters of the text between two clamped offsets.
pub open spec fn selected_chars(s: Seq<char>, a: nat, b: nat) -> Seq<char> {
    let p = clamp_pair(s, a as int, b as int);
    s.subrange(floor_index(s, p.0 as int) as int, floor_index(s, p.1 as int) as int)
}

/// The text without carriage returns and line feeds.
pub open spec fn without_line_breaks(t: Seq<char>) -> Seq<char>
    decreases t.len(),
{
    if t.len() == 0 {
        Seq::empty()
    } else {
        let rest = without_line_breaks(t.drop_last());
        if t.last() == '\r' || t.last() == '\n' { rest } else { rest.push(t.last()) }
    }
}

/// Removes carriage returns and line feeds.
pub fn strip_line_breaks(text: &str) -> (r: String)
    ensures
        r@ == without_line_breaks(text@),
{
    let cs = chars_of(text);
    let n = cs.len();
    let mut kept: Vec<char> = Vec::new();
    for i in 0..n
        invariant
            n == cs@.len(),
            cs@ == text@,
            kept@ == without_line_breaks(text@.take(i as int)),
    {
        proof {
            assert(text@.take(i + 1).drop_last() =~= text@.take(i as int));
        }
        let c = cs[i];
        if c != '\r' && c != '\n' {
            kept.push(c);
        }
    }
    proof { assert(text@.take(n as int) =~= text@); }
    string_from_chars(kept.as_slice())
}

/// A keyboard command of a text field.
#[derive(Debug, Clone, Copy, PartialEq, Eq, Structural)]
pub enum TextInputShortcut {
    Copy,
    Cut,
    Paste,
    Backspace,
    BackspaceWord,
    BackspaceToStart,
    Delete,
    Clear,
    MoveLeft { select: bool, by_word: bool },
    MoveRight { select: bool, by_word: bool },
    MoveToStart { select: bool },
    MoveToEnd { select: bool },
    SelectAll,
}

/// The field after a command; `clipboard` is the clipboard's text when a
/// paste reads it.
pub open spec fn after_command(o: TextInputView, command: TextInputShortcut, clipboard: Option<Seq<char>>) -> TextInputView {
    match command {
        TextInputShortcut::Copy => o,
        TextInputShortcut::Cut => selection_deleted_or(o, o),
        TextInputShortcut::Paste => match clipboard {
            Some(t) => {
                let (a, b) = resolved_range(o, None);
                after_splice(o, a, b, without_line_breaks(t))
            },
            None => o,
        },
        TextInputShortcut::Backspace => deleted_backward(o),
        TextInputShortcut::BackspaceWord => deleted_word_backward(o),
        TextInputShortcut::BackspaceToStart => deleted_to_start(o),
        TextInputShortcut::Delete => deleted_forward(o),
        TextInputShortcut::Clear => TextInputView { content: Seq::empty(), cursor: 0, anchor: None, marked: None, ..o },
        TextInputShortcut::MoveLeft { select, by_word } => moved_left(o, select, by_word),
        TextInputShortcut::MoveRight { select, by_word } => moved_right(o, select, by_word),
        TextInputShortcut::MoveToStart { select } => after_set_cursor(o, 0, select),
        TextInputShortcut::MoveToEnd { select } => after_set_cursor(o, byte_len(o.content) as int, select),
        TextInputShortcut::SelectAll => TextInputView {
            cursor: byte_len(o.content) as usize,
            anchor: Some(0),
            marked: None,
            ..o
        },
    }
}

/// What a command did besides changing the field.
pub struct TextInputCommandResult {
    /// Text to put on the clipboard.
    pub clipboard: Option<String>,
    /// The text changed.
    pub text_changed: bool,
    /// The text, the cursor or the selection anchor changed.
    pub changed: bool,
}

/// Runs a keyboard command on a field. Copy and cut hand the selected
/// text out for the clipboard; a paste inserts the clipboard's text
/// without line breaks in place of the selection.
pub fn dispatch_text_input_command(
    input: &mut TextInputState,
    command: TextInputShortcut,
    clipboard: Option<&str>,
) -> (r: TextInputCommandResult)
    ensures
        final(input)@ == after_command(old(input)@, command, match clipboard { Some(t) => Some(t@), None => None }),
        match (command, selection_of(old(input)@)) {
            (TextInputShortcut::Copy, Some((a, b))) | (TextInputShortcut::Cut, Some((a, b))) => r.clipboard matches Some(c)
                && c@ == selected_chars(old(input)@.content, a, b),
            _ => r.clipboard is None,
        },
        r.text_changed == (final(input)@.content != old(input)@.content),
        r.changed == (final(input)@.content != old(input)@.content
            || cursor_of(final(input)@) != cursor_of(old(input)@)
            || final(input)@.anchor != old(input)@.anchor),
{
    let previous_text = input.content.clone();
    let previous_cursor = input.cursor();
    let previous_anchor = input.selection_anchor();
    let mut copied: Option<String> = None;
    match command {
        TextInputShortcut::Copy => {
            copied = input.selected_text();
        },
        TextInputShortcut::Cut => {
            copied = input.selected_text();
            input.delete_selection();
        },
        TextInputShortcut::Paste => {
            if let Some(t) = clipboard {
                let text = strip_line_breaks(t);
                input.replace_text_in_range_utf16(None, text.as_str());
            }
        },
        TextInputShortcut::Backspace => input.delete_backward(),
        TextInputShortcut::BackspaceWord => input.delete_word_backward(),
        TextInputShortcut::BackspaceToStart => input.delete_to_start(),
        TextInputShortcut::Delete => input.delete_forward(),
        TextInputShortcut::Clear => input.clear(),
        TextInputShortcut::MoveLeft { select, by_word } => input.move_left(select, by_word),
        TextInputShortcut::MoveRight { select, by_word } => input.move_right(select, by_word),
        TextInputShortcut::MoveToStart { select } => input.move_to_start(select),
        TextInputShortcut::MoveToEnd { select } => input.move_to_end(select),
        TextInputShortcut::SelectAll => input.select_all(),
    }
    let text_changed = input.content != previous_text;
    let changed = text_changed || input.cursor() != previous_cursor || input.selection_anchor() != previous_anchor;
    TextInputCommandResult { clipboard: copied, text_changed, changed }
}

/// A field of a track's metadata that an import review lets the user set.
#[derive(Debug, Clone, Copy, PartialEq, Eq, Hash, Structural)]
pub enum ImportMetadataField {
    Title,
    Artist,
    Album,
    AlbumArtist,
    DiscNumber,
    TrackNumber,
}

/// Which text field of the application a state belongs to.
#[derive(Debug, PartialEq, Eq)]
pub enum TextInputId {
    Query,
    OpenUrl,
    ProviderAuthUsername,
    ProviderAuthPassword,
    ProviderLink,
    ImportManual { source_path: String, field: ImportMetadataField },
}

impl TextInputId {
    /// A field of the provider sign-in prompt.
    pub fn is_provider_auth(&self) -> (r: bool)
        ensures
            r <==> (*self is ProviderAuthUsername || *self is ProviderAuthPassword),
    {
        match self {
            TextInputId::ProviderAuthUsername | TextInputId::ProviderAuthPassword => true,
            _ => false,
        }
    }

    /// A field whose text is shown masked.
    pub fn is_masked(&self) -> (r: bool)
        ensures
            r <==> *self is ProviderAuthPassword,
    {
        match self {
            TextInputId::ProviderAuthPassword => true,
            _ => false,
        }
    }
}

/// What an edit of a field calls for: saving the session, clearing a
/// prompt's error, or setting a manual metadata value of an import review.
pub struct TextInputEditEffects {
    pub persist_session: bool,
    pub clear_provider_auth_error: bool,
    pub clear_provider_link_error: bool,
    pub clear_open_url_error: bool,
    pub import_field: Option<(String, ImportMetadataField)>,
}

/// What an edit of the given field calls for.
pub fn text_input_edit_effects(id: TextInputId) -> (r: TextInputEditEffects)
    ensures
        r.persist_session <==> id is Query,
        r.clear_provider_auth_error <==> (id is ProviderAuthUsername || id is ProviderAuthPassword),
        r.clear_provider_link_error <==> id is ProviderLink,
        r.clear_open_url_error <==> id is OpenUrl,
        match id {
            TextInputId::ImportManual { source_path, field } => r.import_field == Some((source_path, field)),
            _ => r.import_field is None,
        },
{
    let persist_session = match id { TextInputId::Query => true, _ => false };
    let clear_provider_auth_error = id.is_provider_auth();
    let clear_provider_link_error = match id { TextInputId::ProviderLink => true, _ => false };
    let clear_open_url_error = match id { TextInputId::OpenUrl => true, _ => false };
    let import_field = match id {
        TextInputId::ImportManual { source_path, field } => Some((source_path, field)),
        _ => None,
    };
    TextInputEditEffects {
        persist_session,
        clear_provider_auth_error,
        clear_provider_link_error,
        clear_open_url_error,
        import_field,
    }
}


/// Left without extending collapses a selection to its start: the cursor
/// goes to the smaller of anchor and cursor and no selection is left.
pub proof fn lemma_left_collapses_selection_to_start(o: TextInputView, anchor: usize, by_word: bool)
    requires
        boundaries_kept(o),
        o.anchor == Some(anchor),
        anchor != o.cursor,
    ensures
        moved_left(o, false, by_word) == (TextInputView {
            cursor: if anchor < o.cursor { anchor } else { o.cursor },
            anchor: None,
            ..o
        }),
{
    lemma_clamp(o.content, o.cursor as int);
}

/// Right without extending collapses a selection to its end: the cursor
/// goes to the larger of anchor and cursor and no selection is left.
pub proof fn lemma_right_collapses_selection_to_end(o: TextInputView, anchor: usize, by_word: bool)
    requires
        boundaries_kept(o),
        o.anchor == Some(anchor),
        anchor != o.cursor,
    ensures
        moved_right(o, false, by_word) == (TextInputView {
            cursor: if anchor > o.cursor { anchor } else { o.cursor },
            anchor: None,
            ..o
        }),
{
    lemma_clamp(o.content, o.cursor as int);
}

} // verus!
