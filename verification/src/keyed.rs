//! A map from text keys to values, kept as a list of distinct keys.

use vstd::prelude::*;

verus! {

/// The map a list of entries describes; later entries win.
pub open spec fn entries_map<V>(s: Seq<(String, V)>) -> Map<Seq<char>, V>
    decreases s.len(),
{
    if s.len() == 0 {
        Map::empty()
    } else {
        entries_map(s.drop_last()).insert(s.last().0@, s.last().1)
    }
}

/// No key occurs twice.
pub open spec fn distinct_keys<V>(s: Seq<(String, V)>) -> bool {
    forall|i: int, j: int| 0 <= i < j < s.len() ==> (#[trigger] s[i]).0@ != (#[trigger] s[j]).0@
}

pub proof fn lemma_entries_dom<V>(s: Seq<(String, V)>, k: Seq<char>)
    ensures
        entries_map(s).dom().contains(k) <==> exists|i: int| 0 <= i < s.len() && (#[trigger] s[i]).0@ == k,
    decreases s.len(),
{
    if s.len() > 0 {
        let r = s.drop_last();
        lemma_entries_dom(r, k);
        if entries_map(s).dom().contains(k) {
            if k == s.last().0@ {
                assert(s[s.len() - 1].0@ == k);
            } else {
                let i = choose|i: int| 0 <= i < r.len() && (#[trigger] r[i]).0@ == k;
                assert(s[i] == r[i]);
            }
        }
        if exists|i: int| 0 <= i < s.len() && (#[trigger] s[i]).0@ == k {
            let i = choose|i: int| 0 <= i < s.len() && (#[trigger] s[i]).0@ == k;
            if i < s.len() - 1 {
                assert(r[i] == s[i]);
            }
        }
    }
}

proof fn lemma_distinct_prefix<V>(s: Seq<(String, V)>)
    requires
        distinct_keys(s),
        s.len() > 0,
    ensures
        distinct_keys(s.drop_last()),
{
    let r = s.drop_last();
    assert forall|i: int, j: int| 0 <= i < j < r.len() implies (#[trigger] r[i]).0@ != (#[trigger] r[j]).0@ by {
        assert(r[i] == s[i] && r[j] == s[j]);
    }
}

pub proof fn lemma_entries_value<V>(s: Seq<(String, V)>, i: int)
    requires
        distinct_keys(s),
        0 <= i < s.len(),
    ensures
        entries_map(s).dom().contains(s[i].0@),
        entries_map(s)[s[i].0@] == s[i].1,
    decreases s.len(),
{
    if i < s.len() - 1 {
        let r = s.drop_last();
        lemma_distinct_prefix(s);
        assert(r[i] == s[i]);
        lemma_entries_value(r, i);
        assert(s[i].0@ != s[s.len() - 1].0@);
    }
}

proof fn lemma_entries_len<V>(s: Seq<(String, V)>)
    requires
        distinct_keys(s),
    ensures
        entries_map(s).dom().finite(),
        entries_map(s).dom().len() == s.len(),
    decreases s.len(),
{
    if s.len() > 0 {
        let r = s.drop_last();
        lemma_distinct_prefix(s);
        lemma_entries_len(r);
        lemma_entries_dom(r, s.last().0@);
        if entries_map(r).dom().contains(s.last().0@) {
            let i = choose|i: int| 0 <= i < r.len() && (#[trigger] r[i]).0@ == s.last().0@;
            assert(r[i] == s[i]);
            assert(s[i].0@ != s[s.len() - 1].0@);
        }
    } else {
        assert(entries_map(s).dom() =~= Set::<Seq<char>>::empty());
    }
}

proof fn lemma_entries_remove<V>(s: Seq<(String, V)>, idx: int)
    requires
        distinct_keys(s),
        0 <= idx < s.len(),
    ensures
        distinct_keys(s.remove(idx)),
        entries_map(s.remove(idx)) == entries_map(s).remove(s[idx].0@),
{
    let t = s.remove(idx);
    let k = s[idx].0@;
    assert forall|j: int| 0 <= j < t.len() implies #[trigger] t[j] == (if j < idx { s[j] } else { s[j + 1] }) by {}
    assert forall|a: int, b: int| 0 <= a < b < t.len() implies (#[trigger] t[a]).0@ != (#[trigger] t[b]).0@ by {
        let ia = if a < idx { a } else { a + 1 };
        let ib = if b < idx { b } else { b + 1 };
        assert(t[a] == s[ia] && t[b] == s[ib]);
    }
    let mt = entries_map(t);
    let ms = entries_map(s).remove(k);
    assert forall|key: Seq<char>| mt.dom().contains(key) <==> ms.dom().contains(key) by {
        lemma_entries_dom(t, key);
        lemma_entries_dom(s, key);
        if mt.dom().contains(key) {
            let j = choose|j: int| 0 <= j < t.len() && (#[trigger] t[j]).0@ == key;
            let i = if j < idx { j } else { j + 1 };
            assert(t[j] == s[i]);
            assert(s[i].0@ != k);
        }
        if ms.dom().contains(key) {
            let i = choose|i: int| 0 <= i < s.len() && (#[trigger] s[i]).0@ == key;
            assert(i != idx);
            let j = if i < idx { i } else { i - 1 };
            assert(t[j] == s[i]);
        }
    }
    assert forall|key: Seq<char>| mt.dom().contains(key) implies mt[key] == ms[key] by {
        lemma_entries_dom(t, key);
        let j = choose|j: int| 0 <= j < t.len() && (#[trigger] t[j]).0@ == key;
        let i = if j < idx { j } else { j + 1 };
        assert(t[j] == s[i]);
        lemma_entries_value(t, j);
        lemma_entries_value(s, i);
    }
    assert(mt =~= ms);
}

proof fn lemma_entries_push<V>(s: Seq<(String, V)>, x: (String, V))
    requires
        distinct_keys(s),
        !entries_map(s).dom().contains(x.0@),
    ensures
        distinct_keys(s.push(x)),
        entries_map(s.push(x)) == entries_map(s).insert(x.0@, x.1),
{
    let t = s.push(x);
    assert(t.drop_last() =~= s);
    assert forall|a: int, b: int| 0 <= a < b < t.len() implies (#[trigger] t[a]).0@ != (#[trigger] t[b]).0@ by {
        assert(t[a] == s[a]);
        if b == s.len() {
            lemma_entries_dom(s, x.0@);
        } else {
            assert(t[b] == s[b]);
        }
    }
}

fn find_key<V>(entries: &Vec<(String, V)>, key: &String) -> (r: Option<usize>)
    ensures
        match r {
            Some(i) => i < entries@.len() && entries@[i as int].0@ == key@,
            None => forall|i: int| 0 <= i < entries@.len() ==> (#[trigger] entries@[i]).0@ != key@,
        },
{
    let n = entries.len();
    for i in 0..n
        invariant
            n == entries@.len(),
            forall|j: int| 0 <= j < i ==> (#[trigger] entries@[j]).0@ != key@,
    {
        if entries[i].0 == *key {
            return Some(i);
        }
    }
    None
}

/// A map from text keys to values.
pub struct TextMap<V> {
    entries: Vec<(String, V)>,
}

impl<V> TextMap<V> {
    #[verifier::type_invariant]
    spec fn keys_distinct(self) -> bool {
        distinct_keys(self.entries@)
    }

    /// The map's contents.
    pub closed spec fn map(self) -> Map<Seq<char>, V> {
        entries_map(self.entries@)
    }

    /// The empty map.
    pub fn new() -> (r: Self)
        ensures
            r.map() == Map::<Seq<char>, V>::empty(),
    {
        let r = TextMap { entries: Vec::new() };
        proof { assert(entries_map(r.entries@) =~= Map::<Seq<char>, V>::empty()); }
        r
    }

    /// The value of a key.
    pub fn get(&self, key: &String) -> (r: Option<&V>)
        ensures
            match r {
                Some(v) => self.map().dom().contains(key@) && self.map()[key@] == *v,
                None => !self.map().dom().contains(key@),
            },
    {
        proof {
            use_type_invariant(self);
            lemma_entries_dom(self.entries@, key@);
        }
        match find_key(&self.entries, key) {
            Some(i) => {
                proof { lemma_entries_value(self.entries@, i as int); }
                Some(&self.entries[i].1)
            },
            None => None,
        }
    }

    /// Whether the key has a value.
    pub fn contains_key(&self, key: &String) -> (r: bool)
        ensures
            r == self.map().dom().contains(key@),
    {
        proof { lemma_entries_dom(self.entries@, key@); }
        find_key(&self.entries, key).is_some()
    }

    /// Sets the key's value.
    pub fn insert(&mut self, key: String, value: V)
        ensures
            final(self).map() == old(self).map().insert(key@, value),
    {
        proof { use_type_invariant(&*self); }
        let mut entries = Vec::new();
        std::mem::swap(&mut entries, &mut self.entries);
        let ghost before = entries@;
        let ghost k = key@;
        let ghost v = value;
        proof { lemma_entries_dom(entries@, key@); }
        if let Some(i) = find_key(&entries, &key) {
            proof { lemma_entries_remove(entries@, i as int); }
            entries.remove(i);
        } else {
            proof { assert(entries_map(entries@).remove(k) =~= entries_map(entries@)); }
        }
        proof {
            lemma_entries_dom(entries@, k);
            lemma_entries_push(entries@, (key, value));
            assert(entries_map(before).remove(k).insert(k, v) =~= entries_map(before).insert(k, v));
        }
        entries.push((key, value));
        self.entries = entries;
    }

    /// Removes the key's value.
    pub fn remove(&mut self, key: &String)
        ensures
            final(self).map() == old(self).map().remove(key@),
    {
        proof { use_type_invariant(&*self); }
        match find_key(&self.entries, key) {
            Some(i) => {
                let mut entries = Vec::new();
                std::mem::swap(&mut entries, &mut self.entries);
                proof { lemma_entries_remove(entries@, i as int); }
                entries.remove(i);
                self.entries = entries;
            },
            None => {
                proof {
                    lemma_entries_dom(self.entries@, key@);
                    assert(entries_map(self.entries@).remove(key@) =~= entries_map(self.entries@));
                }
            },
        }
    }

    /// Removes the key's value and hands it back.
    pub fn take(&mut self, key: &String) -> (r: Option<V>)
        ensures
            final(self).map() == old(self).map().remove(key@),
            match r {
                Some(v) => old(self).map().dom().contains(key@) && old(self).map()[key@] == v,
                None => !old(self).map().dom().contains(key@),
            },
    {
        proof {
            use_type_invariant(&*self);
            lemma_entries_dom(self.entries@, key@);
        }
        match find_key(&self.entries, key) {
            Some(i) => {
                let mut entries = Vec::new();
                std::mem::swap(&mut entries, &mut self.entries);
                proof {
                    lemma_entries_value(entries@, i as int);
                    lemma_entries_remove(entries@, i as int);
                }
                let (_, v) = entries.remove(i);
                self.entries = entries;
                Some(v)
            },
            None => {
                proof {
                    assert(entries_map(self.entries@).remove(key@) =~= entries_map(self.entries@));
                }
                None
            },
        }
    }

    /// The entries, each key once.
    pub fn into_entries(self) -> (r: Vec<(String, V)>)
        ensures
            distinct_keys(r@),
            entries_map(r@) == self.map(),
    {
        proof { use_type_invariant(&self); }
        self.entries
    }

    /// Sets each key of `entries` to its value there.
    pub fn insert_all(&mut self, entries: Vec<(String, V)>)
        requires
            distinct_keys(entries@),
        ensures
            final(self).map() == old(self).map().union_prefer_right(entries_map(entries@)),
    {
        let ghost orig = entries@;
        let ghost start = self.map();
        let mut rest = entries;
        let mut consumed: usize = 0;
        let total = rest.len();
        proof {
            assert(start.union_prefer_right(entries_map(orig.take(0))) =~= start);
        }
        while rest.len() > 0
            invariant
                total == orig.len(),
                consumed + rest@.len() == orig.len(),
                rest@ == orig.skip(consumed as int),
                self.map() == start.union_prefer_right(entries_map(orig.take(consumed as int))),
            decreases rest@.len(),
        {
            let (k, v) = rest.remove(0);
            proof {
                assert((k, v) == orig[consumed as int]);
                let t = orig.take(consumed as int + 1);
                assert(t.drop_last() =~= orig.take(consumed as int));
                assert(t.last() == orig[consumed as int]);
                assert(start.union_prefer_right(entries_map(orig.take(consumed as int))).insert(k@, v)
                    =~= start.union_prefer_right(entries_map(t)));
            }
            self.insert(k, v);
            consumed = consumed + 1;
            proof {
                assert(rest@ =~= orig.skip(consumed as int));
            }
        }
        proof {
            assert(orig.take(orig.len() as int) =~= orig);
        }
    }

    /// The number of keys.
    pub fn len(&self) -> (r: usize)
        ensures
            r == self.map().dom().len(),
    {
        proof {
            use_type_invariant(self);
            lemma_entries_len(self.entries@);
        }
        self.entries.len()
    }
}

} // verus!
