//! The order of text: lexicographic by character (the order of UTF-8 bytes),
//! a stable sort of indices by text keys, and case folding.

use vstd::prelude::*;

verus! {

/// `a` sorts strictly before `b`: at the first difference `a` has the lower
/// character, or `a` is a proper prefix of `b`.
pub open spec fn text_lt(a: Seq<char>, b: Seq<char>) -> bool
    decreases a.len(),
{
    if a.len() == 0 {
        b.len() > 0
    } else if b.len() == 0 {
        false
    } else if (a[0] as u32) < (b[0] as u32) {
        true
    } else if (a[0] as u32) > (b[0] as u32) {
        false
    } else {
        text_lt(a.drop_first(), b.drop_first())
    }
}

proof fn lemma_char_eq(x: char, y: char)
    requires
        x as u32 == y as u32,
    ensures
        x == y,
{
}

/// The text order is irreflexive.
pub proof fn lemma_text_lt_irreflexive(a: Seq<char>)
    ensures
        !text_lt(a, a),
    decreases a.len(),
{
    if a.len() > 0 {
        lemma_text_lt_irreflexive(a.drop_first());
    }
}

/// The text order is transitive.
pub proof fn lemma_text_lt_transitive(a: Seq<char>, b: Seq<char>, c: Seq<char>)
    requires
        text_lt(a, b),
        text_lt(b, c),
    ensures
        text_lt(a, c),
    decreases a.len(),
{
    if a.len() > 0 && b.len() > 0 && c.len() > 0 {
        if a[0] as u32 == b[0] as u32 && b[0] as u32 == c[0] as u32 {
            lemma_text_lt_transitive(a.drop_first(), b.drop_first(), c.drop_first());
        }
    }
}

/// Two different texts are ordered one way or the other.
pub proof fn lemma_text_lt_total(a: Seq<char>, b: Seq<char>)
    ensures
        a == b || text_lt(a, b) || text_lt(b, a),
    decreases a.len(),
{
    if a.len() > 0 && b.len() > 0 {
        if a[0] as u32 == b[0] as u32 {
            lemma_text_lt_total(a.drop_first(), b.drop_first());
            if a.drop_first() == b.drop_first() {
                lemma_char_eq(a[0], b[0]);
                assert(a =~= seq![a[0]] + a.drop_first());
                assert(b =~= seq![b[0]] + b.drop_first());
            }
        }
    } else if a.len() == 0 && b.len() == 0 {
        assert(a =~= b);
    }
}

/// The order is asymmetric.
pub proof fn lemma_text_lt_asymmetric(a: Seq<char>, b: Seq<char>)
    requires
        text_lt(a, b),
    ensures
        !text_lt(b, a),
{
    if text_lt(b, a) {
        lemma_text_lt_transitive(a, b, a);
        lemma_text_lt_irreflexive(a);
    }
}

/// Whether `a` sorts strictly before `b`.
pub fn text_less(a: &[char], b: &[char]) -> (r: bool)
    ensures
        r == text_lt(a@, b@),
{
    let n = a.len();
    let m = b.len();
    let mut i: usize = 0;
    assert(a@.skip(0) =~= a@);
    assert(b@.skip(0) =~= b@);
    while i < n && i < m
        invariant
            n == a@.len(),
            m == b@.len(),
            i <= n,
            i <= m,
            text_lt(a@, b@) == text_lt(a@.skip(i as int), b@.skip(i as int)),
        decreases n - i,
    {
        let x = a[i];
        let y = b[i];
        if (x as u32) < (y as u32) {
            return true;
        }
        if (x as u32) > (y as u32) {
            return false;
        }
        assert(a@.skip(i as int).drop_first() =~= a@.skip(i + 1));
        assert(b@.skip(i as int).drop_first() =~= b@.skip(i + 1));
        i += 1;
    }
    i < m
}

/// Whether two texts are the same.
pub fn str_equal(a: &str, b: &str) -> (r: bool)
    ensures
        r == (a@ == b@),
{
    let x = crate::text::chars_of(a);
    let y = crate::text::chars_of(b);
    text_equal(x.as_slice(), y.as_slice())
}

/// Whether two character sequences are equal.
pub fn text_equal(a: &[char], b: &[char]) -> (r: bool)
    ensures
        r == (a@ == b@),
{
    if a.len() != b.len() {
        return false;
    }
    let n = a.len();
    let mut i: usize = 0;
    while i < n
        invariant
            n == a@.len(),
            n == b@.len(),
            i <= n,
            forall|j: int| 0 <= j < i ==> a@[j] == b@[j],
        decreases n - i,
    {
        if a[i] != b[i] {
            return false;
        }
        i += 1;
    }
    assert(a@ =~= b@);
    true
}

/// `(keys[x], x)` comes strictly before `(keys[y], y)`.
pub open spec fn text_key_before(keys: Seq<Seq<char>>, x: usize, y: usize) -> bool {
    text_lt(keys[x as int], keys[y as int]) || (keys[x as int] == keys[y as int] && x < y)
}

/// `order` lists each index below `n` exactly once.
pub open spec fn is_index_permutation(order: Seq<usize>, n: nat) -> bool {
    &&& order.len() == n
    &&& forall|i: int| 0 <= i < order.len() ==> #[trigger] order[i] < n
    &&& forall|i: int, j: int| 0 <= i < j < order.len() ==> order[i] != order[j]
}

/// `order` is sorted by text key, ties in index order: a stable sort.
pub open spec fn sorted_by_text_key(order: Seq<usize>, keys: Seq<Seq<char>>) -> bool {
    forall|i: int, j: int| 0 <= i < j < order.len() ==> text_key_before(keys, #[trigger] order[i], #[trigger] order[j])
}

proof fn lemma_key_before_transitive(keys: Seq<Seq<char>>, x: usize, y: usize, z: usize)
    requires
        x < keys.len(), y < keys.len(), z < keys.len(),
        text_key_before(keys, x, y),
        text_key_before(keys, y, z),
    ensures
        text_key_before(keys, x, z),
{
    if text_lt(keys[x as int], keys[y as int]) && text_lt(keys[y as int], keys[z as int]) {
        lemma_text_lt_transitive(keys[x as int], keys[y as int], keys[z as int]);
    }
}

/// Sorts the indices below `keys.len()` by their text keys, stably.
pub fn sort_indices_by_text(keys: &Vec<Vec<char>>) -> (r: Vec<usize>)
    ensures
        is_index_permutation(r@, keys@.len()),
        sorted_by_text_key(r@, keys@.map_values(|k: Vec<char>| k@)),
{
    let ghost kv = keys@.map_values(|k: Vec<char>| k@);
    let n = keys.len();
    let mut order: Vec<usize> = Vec::new();
    for i in 0..n
        invariant
            n == keys@.len(),
            kv == keys@.map_values(|k: Vec<char>| k@),
            order@.len() == i,
            forall|a: int| 0 <= a < order@.len() ==> #[trigger] order@[a] < i,
            forall|a: int, b: int| 0 <= a < b < order@.len() ==> order@[a] != order@[b],
            sorted_by_text_key(order@, kv),
    {
        let key_i = &keys[i];
        let mut pos: usize = 0;
        while pos < order.len() && !text_less(key_i.as_slice(), keys[order[pos]].as_slice())
            invariant
                n == keys@.len(),
                kv == keys@.map_values(|k: Vec<char>| k@),
                i < n,
                key_i@ == kv[i as int],
                pos <= order@.len(),
                forall|a: int| 0 <= a < order@.len() ==> #[trigger] order@[a] < i,
                forall|a: int| 0 <= a < pos ==> !text_lt(kv[i as int], kv[#[trigger] order@[a] as int]),
            decreases order@.len() - pos,
        {
            pos += 1;
        }
        proof {
            assert forall|a: int| 0 <= a < pos implies text_key_before(kv, #[trigger] order@[a], i) by {
                lemma_text_lt_total(kv[i as int], kv[order@[a] as int]);
            }
            assert forall|a: int| pos <= a < order@.len() implies text_key_before(kv, i, #[trigger] order@[a]) by {
                let x = order@[pos as int];
                assert(text_lt(kv[i as int], kv[x as int]));
                if pos < a {
                    assert(text_key_before(kv, x, order@[a]));
                    if text_lt(kv[x as int], kv[order@[a] as int]) {
                        lemma_text_lt_transitive(kv[i as int], kv[x as int], kv[order@[a] as int]);
                    }
                }
            }
        }
        let ghost prev = order@;
        order.insert(pos, i);
        proof {
            assert(order@ =~= prev.take(pos as int).push(i).add(prev.skip(pos as int)));
            assert forall|a: int, b: int| 0 <= a < b < order@.len() implies text_key_before(kv, #[trigger] order@[a], #[trigger] order@[b]) by {
                if a < pos && b < pos {
                    assert(order@[a] == prev[a] && order@[b] == prev[b]);
                } else if a < pos && b == pos {
                    assert(order@[a] == prev[a]);
                } else if a < pos && b > pos {
                    assert(order@[a] == prev[a] && order@[b] == prev[b - 1]);
                } else if a == pos {
                    assert(order@[b] == prev[b - 1]);
                } else {
                    assert(order@[a] == prev[a - 1] && order@[b] == prev[b - 1]);
                }
            }
            assert forall|a: int, b: int| 0 <= a < b < order@.len() implies order@[a] != order@[b] by {
                assert(text_key_before(kv, order@[a], order@[b]));
                if order@[a] == order@[b] {
                    lemma_text_lt_irreflexive(kv[order@[a] as int]);
                }
            }
            assert forall|a: int| 0 <= a < order@.len() implies #[trigger] order@[a] < i + 1 by {
                if a < pos { assert(order@[a] == prev[a]); }
                else if a > pos { assert(order@[a] == prev[a - 1]); }
            }
        }
    }
    order
}

/// Lower-cased text, as `str::to_lowercase` computes it.
pub uninterp spec fn lowercase_of(s: Seq<char>) -> Seq<char>;

/// `str::to_lowercase`: the Unicode lower-case mapping of the text. The
/// result is the named function of the text.
#[verifier::external_body]
pub(crate) fn to_lowercase(s: &str) -> (r: String)
    ensures
        r@ == lowercase_of(s@),
{
    s.to_lowercase()
}

} // verus!
