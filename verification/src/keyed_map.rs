//! A small map from string keys to values, kept as a list of entries with each key at most once.
use vstd::prelude::*;
use crate::text::str_eq;

verus! {

/// The map that a list of (key, value) entries stands for: a later entry for a key wins.
pub open spec fn map_of<V>(s: Seq<(Seq<char>, V)>) -> Map<Seq<char>, V>
    decreases s.len(),
{
    if s.len() == 0 {
        Map::empty()
    } else {
        map_of(s.drop_last()).insert(s.last().0, s.last().1)
    }
}

/// No key occurs twice among the entries.
pub open spec fn keys_unique<V>(s: Seq<(Seq<char>, V)>) -> bool {
    forall|i: int, j: int| 0 <= i < j < s.len() ==> #[trigger] s[i].0 != #[trigger] s[j].0
}

/// A key is in the map exactly when some entry has it.
pub proof fn lemma_map_of_dom<V>(s: Seq<(Seq<char>, V)>, k: Seq<char>)
    ensures
        map_of(s).dom().contains(k) <==> exists|i: int| 0 <= i < s.len() && #[trigger] s[i].0 == k,
    decreases s.len(),
{
    if s.len() > 0 {
        let d = s.drop_last();
        lemma_map_of_dom(d, k);
        if map_of(s).dom().contains(k) && s.last().0 != k {
            let i = choose|i: int| 0 <= i < d.len() && #[trigger] d[i].0 == k;
            assert(s[i].0 == k);
        }
        if exists|i: int| 0 <= i < s.len() && #[trigger] s[i].0 == k {
            let i = choose|i: int| 0 <= i < s.len() && #[trigger] s[i].0 == k;
            if i < s.len() - 1 {
                assert(d[i].0 == k);
            }
        }
    }
}

/// With unique keys, the value of an entry's key is that entry's value.
pub proof fn lemma_map_of_entry<V>(s: Seq<(Seq<char>, V)>, i: int)
    requires
        keys_unique(s),
        0 <= i < s.len(),
    ensures
        map_of(s).dom().contains(s[i].0),
        map_of(s)[s[i].0] == s[i].1,
    decreases s.len(),
{
    let d = s.drop_last();
    if i < s.len() - 1 {
        assert(d[i] == s[i]);
        assert(keys_unique(d)) by {
            assert forall|a: int, b: int| 0 <= a < b < d.len() implies #[trigger] d[a].0 != #[trigger] d[b].0 by {
                assert(d[a] == s[a] && d[b] == s[b]);
            }
        }
        lemma_map_of_entry(d, i);
        assert(s[i].0 != s.last().0);
    }
}

/// The map's size is the number of entries when keys are unique.
pub proof fn lemma_map_of_len<V>(s: Seq<(Seq<char>, V)>)
    requires
        keys_unique(s),
    ensures
        map_of(s).dom().finite(),
        map_of(s).dom().len() == s.len(),
    decreases s.len(),
{
    if s.len() == 0 {
        assert(map_of(s).dom() =~= Set::empty());
    } else {
        let d = s.drop_last();
        assert(keys_unique(d)) by {
            assert forall|a: int, b: int| 0 <= a < b < d.len() implies #[trigger] d[a].0 != #[trigger] d[b].0 by {
                assert(d[a] == s[a] && d[b] == s[b]);
            }
        }
        lemma_map_of_len(d);
        lemma_map_of_dom(d, s.last().0);
        if map_of(d).dom().contains(s.last().0) {
            let i = choose|i: int| 0 <= i < d.len() && #[trigger] d[i].0 == s.last().0;
            assert(s[i].0 == s[s.len() - 1].0);
        }
        assert(map_of(s).dom() =~= map_of(d).dom().insert(s.last().0));
    }
}

/// Replacing the value of one entry updates the map at that entry's key.
pub proof fn lemma_map_of_update<V>(s: Seq<(Seq<char>, V)>, i: int, v: V)
    requires
        keys_unique(s),
        0 <= i < s.len(),
    ensures
        keys_unique(s.update(i, (s[i].0, v))),
        map_of(s.update(i, (s[i].0, v))) == map_of(s).insert(s[i].0, v),
{
    let k = s[i].0;
    let t = s.update(i, (k, v));
    assert(keys_unique(t)) by {
        assert forall|a: int, b: int| 0 <= a < b < t.len() implies #[trigger] t[a].0 != #[trigger] t[b].0 by {
            assert(t[a].0 == s[a].0 && t[b].0 == s[b].0);
        }
    }
    assert forall|q: Seq<char>| #[trigger] map_of(t).dom().contains(q) <==> map_of(s).insert(k, v).dom().contains(q) by {
        lemma_map_of_dom(t, q);
        lemma_map_of_dom(s, q);
        if exists|j: int| 0 <= j < s.len() && #[trigger] s[j].0 == q {
            let j = choose|j: int| 0 <= j < s.len() && #[trigger] s[j].0 == q;
            assert(t[j].0 == q);
        }
        if exists|j: int| 0 <= j < t.len() && #[trigger] t[j].0 == q {
            let j = choose|j: int| 0 <= j < t.len() && #[trigger] t[j].0 == q;
            assert(s[j].0 == q);
        }
    }
    assert forall|q: Seq<char>| #[trigger] map_of(t).dom().contains(q) implies map_of(t)[q] == map_of(s).insert(k, v)[q] by {
        lemma_map_of_dom(t, q);
        let j = choose|j: int| 0 <= j < t.len() && #[trigger] t[j].0 == q;
        lemma_map_of_entry(t, j);
        if j != i {
            assert(s[j] == t[j]);
            lemma_map_of_entry(s, j);
        }
    }
    assert(map_of(t) =~= map_of(s).insert(k, v));
}

/// A map from string keys to values.
#[derive(Debug, Clone)]
pub struct KeyedMap<V> {
    entries: Vec<(String, V)>,
}

/// The entries seen with their keys as character sequences.
pub open spec fn entry_views<V>(s: Seq<(String, V)>) -> Seq<(Seq<char>, V)> {
    s.map_values(|e: (String, V)| (e.0@, e.1))
}

impl<V> KeyedMap<V> {
    /// The map the entries stand for.
    pub closed spec fn view(&self) -> Map<Seq<char>, V> {
        map_of(entry_views(self.entries@))
    }

    /// No key is held twice.
    pub closed spec fn wf(&self) -> bool {
        keys_unique(entry_views(self.entries@))
    }

    /// An empty map.
    pub fn new() -> (r: Self)
        ensures
            r.wf(),
            r.view() == Map::<Seq<char>, V>::empty(),
    {
        let r = KeyedMap { entries: Vec::new() };
        assert(entry_views(r.entries@) =~= Seq::empty());
        r
    }

    /// The index of the entry with key `key`, if there is one.
    fn index_of(&self, key: &str) -> (r: Option<usize>)
        ensures
            match r {
                Some(i) => i < self.entries@.len() && self.entries@[i as int].0@ == key@,
                None => forall|j: int| 0 <= j < self.entries@.len() ==> #[trigger] self.entries@[j].0@ != key@,
            },
    {
        let mut i: usize = 0;
        while i < self.entries.len()
            invariant
                i <= self.entries@.len(),
                forall|j: int| 0 <= j < i ==> #[trigger] self.entries@[j].0@ != key@,
            decreases self.entries@.len() - i,
        {
            if str_eq(self.entries[i].0.as_str(), key) {
                return Some(i);
            }
            i += 1;
        }
        None
    }

    proof fn lemma_absent(&self, key: Seq<char>)
        requires
            forall|j: int| 0 <= j < self.entries@.len() ==> #[trigger] self.entries@[j].0@ != key,
        ensures
            !self.view().dom().contains(key),
    {
        let s = entry_views(self.entries@);
        lemma_map_of_dom(s, key);
        if exists|j: int| 0 <= j < s.len() && #[trigger] s[j].0 == key {
            let j = choose|j: int| 0 <= j < s.len() && #[trigger] s[j].0 == key;
            assert(self.entries@[j].0@ == key);
        }
    }

    /// Sets the value of `key` to `value`, adding the key when it is new.
    pub fn insert(&mut self, key: String, value: V)
        requires
            old(self).wf(),
        ensures
            final(self).wf(),
            final(self).view() == old(self).view().insert(key@, value),
    {
        let ghost s0 = entry_views(self.entries@);
        match self.index_of(key.as_str()) {
            Some(i) => {
                proof {
                    lemma_map_of_update(s0, i as int, value);
                }
                self.entries.set(i, (key, value));
                assert(entry_views(self.entries@) =~= s0.update(i as int, (s0[i as int].0, value)));
            },
            None => {
                let ghost k = key@;
                self.entries.push((key, value));
                assert(entry_views(self.entries@).drop_last() =~= s0);
                assert(keys_unique(entry_views(self.entries@))) by {
                    let t = entry_views(self.entries@);
                    assert forall|a: int, b: int| 0 <= a < b < t.len() implies #[trigger] t[a].0 != #[trigger] t[b].0 by {
                        if b == t.len() - 1 {
                            assert(old(self).entries@[a].0@ != k);
                        } else {
                            assert(t[a] == s0[a] && t[b] == s0[b]);
                        }
                    }
                }
            },
        }
    }

    /// The value of `key`, if the map holds it.
    pub fn get(&self, key: &str) -> (r: Option<&V>)
        ensures
            match r {
                Some(v) => self.view().dom().contains(key@) && self.view()[key@] == *v,
                None => !self.view().dom().contains(key@),
            },
    {
        let mut i: usize = self.entries.len();
        let ghost s = entry_views(self.entries@);
        while i > 0
            invariant
                i <= self.entries@.len(),
                s == entry_views(self.entries@),
                forall|j: int| i <= j < self.entries@.len() ==> #[trigger] self.entries@[j].0@ != key@,
            decreases i,
        {
            i -= 1;
            if str_eq(self.entries[i].0.as_str(), key) {
                proof {
                    lemma_map_of_last(s, i as int);
                }
                return Some(&self.entries[i].1);
            }
        }
        proof {
            self.lemma_absent(key@);
        }
        None
    }

    /// Whether the map holds `key`.
    pub fn contains_key(&self, key: &str) -> (r: bool)
        ensures
            r == self.view().dom().contains(key@),
    {
        self.get(key).is_some()
    }

    /// The number of keys held.
    pub fn len(&self) -> (r: usize)
        requires
            self.wf(),
        ensures
            r == self.view().dom().len(),
    {
        proof {
            lemma_map_of_len(entry_views(self.entries@));
        }
        self.entries.len()
    }

    /// Whether the map holds no key.
    pub fn is_empty(&self) -> (r: bool)
        ensures
            r == (self.view() == Map::<Seq<char>, V>::empty()),
    {
        let ghost s = entry_views(self.entries@);
        if self.entries.len() == 0 {
            assert(s =~= Seq::empty());
            true
        } else {
            assert(self.view().dom().contains(s.last().0));
            false
        }
    }

    /// Empties the map and hands out its entries, each key once, in no stated order.
    pub fn take_entries(&mut self) -> (r: Vec<(String, V)>)
        requires
            old(self).wf(),
        ensures
            final(self).wf(),
            final(self).view() == Map::<Seq<char>, V>::empty(),
            keys_unique(entry_views(r@)),
            map_of(entry_views(r@)) == old(self).view(),
    {
        let mut r: Vec<(String, V)> = Vec::new();
        core::mem::swap(&mut r, &mut self.entries);
        assert(entry_views(self.entries@) =~= Seq::empty());
        r
    }

    /// Removes `key` if the map holds it.
    pub fn remove(&mut self, key: &str)
        requires
            old(self).wf(),
        ensures
            final(self).wf(),
            final(self).view() == old(self).view().remove(key@),
    {
        let ghost s0 = entry_views(self.entries@);
        match self.index_of(key) {
            Some(i) => {
                proof {
                    lemma_map_of_remove(s0, i as int);
                }
                let _ = self.entries.remove(i);
                assert(entry_views(self.entries@) =~= s0.remove(i as int));
            },
            None => {
                proof {
                    self.lemma_absent(key@);
                }
                assert(self.view() =~= old(self).view().remove(key@));
            },
        }
    }

    /// Removes every key.
    pub fn clear(&mut self)
        ensures
            final(self).wf(),
            final(self).view() == Map::<Seq<char>, V>::empty(),
    {
        self.entries = Vec::new();
        assert(entry_views(self.entries@) =~= Seq::empty());
    }
}

/// The last entry for a key gives the key's value.
pub proof fn lemma_map_of_last<V>(s: Seq<(Seq<char>, V)>, i: int)
    requires
        0 <= i < s.len(),
        forall|j: int| i < j < s.len() ==> #[trigger] s[j].0 != s[i].0,
    ensures
        map_of(s).dom().contains(s[i].0),
        map_of(s)[s[i].0] == s[i].1,
    decreases s.len(),
{
    if i < s.len() - 1 {
        let d = s.drop_last();
        assert(d[i] == s[i]);
        assert forall|j: int| i < j < d.len() implies #[trigger] d[j].0 != d[i].0 by {
            assert(d[j] == s[j]);
        }
        lemma_map_of_last(d, i);
        assert(s[s.len() - 1].0 != s[i].0);
    }
}

/// Removing the entry of a key removes the key from the map.
pub proof fn lemma_map_of_remove<V>(s: Seq<(Seq<char>, V)>, i: int)
    requires
        keys_unique(s),
        0 <= i < s.len(),
    ensures
        keys_unique(s.remove(i)),
        map_of(s.remove(i)) == map_of(s).remove(s[i].0),
{
    let k = s[i].0;
    let t = s.remove(i);
    assert forall|a: int| 0 <= a < t.len() implies #[trigger] t[a] == (if a < i {
        s[a]
    } else {
        s[a + 1]
    }) by {}
    assert(keys_unique(t)) by {
        assert forall|a: int, b: int| 0 <= a < b < t.len() implies #[trigger] t[a].0 != #[trigger] t[b].0 by {
            let a2 = if a < i { a } else { a + 1 };
            let b2 = if b < i { b } else { b + 1 };
            assert(t[a] == s[a2] && t[b] == s[b2]);
        }
    }
    assert forall|q: Seq<char>| #[trigger] map_of(t).dom().contains(q) <==> map_of(s).remove(k).dom().contains(q) by {
        lemma_map_of_dom(t, q);
        lemma_map_of_dom(s, q);
        if exists|j: int| 0 <= j < t.len() && #[trigger] t[j].0 == q {
            let j = choose|j: int| 0 <= j < t.len() && #[trigger] t[j].0 == q;
            let j2 = if j < i { j } else { j + 1 };
            assert(s[j2].0 == q);
            assert(j2 != i);
        }
        if exists|j: int| 0 <= j < s.len() && #[trigger] s[j].0 == q {
            let j = choose|j: int| 0 <= j < s.len() && #[trigger] s[j].0 == q;
            if q != k {
                assert(j != i);
                let j1 = if j < i { j } else { j - 1 };
                assert(t[j1].0 == q);
            }
        }
    }
    assert forall|q: Seq<char>| #[trigger] map_of(t).dom().contains(q) implies map_of(t)[q] == map_of(s).remove(k)[q] by {
        lemma_map_of_dom(t, q);
        let j = choose|j: int| 0 <= j < t.len() && #[trigger] t[j].0 == q;
        lemma_map_of_entry(t, j);
        let j2 = if j < i { j } else { j + 1 };
        assert(s[j2] == t[j]);
        lemma_map_of_entry(s, j2);
    }
    assert(map_of(t) =~= map_of(s).remove(k));
}

} // verus!
