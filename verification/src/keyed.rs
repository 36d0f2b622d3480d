//! A map from string keys to values, kept as a vector of entries with
//! distinct keys.

use vstd::prelude::*;

verus! {

/// The map a list of key/value pairs describes (a later pair wins).
pub open spec fn pairs_map<V>(s: Seq<(Seq<char>, V)>) -> Map<Seq<char>, V>
    decreases s.len(),
{
    if s.len() == 0 {
        Map::empty()
    } else {
        pairs_map(s.drop_last()).insert(s.last().0, s.last().1)
    }
}

/// No key occurs twice.
pub open spec fn keys_distinct<V>(s: Seq<(Seq<char>, V)>) -> bool {
    forall|i: int, j: int| 0 <= i < s.len() && 0 <= j < s.len() && i != j ==> s[i].0 != s[j].0
}

proof fn lemma_pairs_map<V>(s: Seq<(Seq<char>, V)>)
    requires
        keys_distinct(s),
    ensures
        forall|k: Seq<char>|
            pairs_map(s).contains_key(k) <==> exists|i: int| 0 <= i < s.len() && s[i].0 == k,
        forall|i: int| 0 <= i < s.len() ==> #[trigger] pairs_map(s)[s[i].0] == s[i].1,
    decreases s.len(),
{
    if s.len() > 0 {
        let init = s.drop_last();
        assert(keys_distinct(init));
        lemma_pairs_map(init);
        assert forall|k: Seq<char>| pairs_map(s).contains_key(k) <==> exists|i: int|
            0 <= i < s.len() && s[i].0 == k by {
            if pairs_map(s).contains_key(k) {
                if k == s.last().0 {
                    assert(s[s.len() - 1].0 == k);
                } else {
                    assert(pairs_map(init).contains_key(k));
                    let i = choose|i: int| 0 <= i < init.len() && init[i].0 == k;
                    assert(s[i] == init[i]);
                    assert(s[i].0 == k);
                }
            }
            if exists|i: int| 0 <= i < s.len() && s[i].0 == k {
                let i = choose|i: int| 0 <= i < s.len() && s[i].0 == k;
                if i < s.len() - 1 {
                    assert(init[i] == s[i]);
                    assert(pairs_map(init).contains_key(k));
                }
            }
        }
        assert forall|i: int| 0 <= i < s.len() implies #[trigger] pairs_map(s)[s[i].0] == s[i].1 by {
            if i < s.len() - 1 {
                assert(init[i] == s[i]);
                assert(s[i].0 != s[s.len() - 1].0);
                assert(pairs_map(init)[init[i].0] == init[i].1);
            } else {
                assert(s[i] == s.last());
            }
        }
    }
}

/// The entries as key views and values.
pub open spec fn entry_views<V>(entries: Seq<(String, V)>) -> Seq<(Seq<char>, V)> {
    entries.map_values(|e: (String, V)| (e.0@, e.1))
}

/// String-keyed map with distinct keys.
pub struct KeyedStore<V> {
    entries: Vec<(String, V)>,
}

impl<V> View for KeyedStore<V> {
    type V = Map<Seq<char>, V>;

    closed spec fn view(&self) -> Map<Seq<char>, V> {
        pairs_map(entry_views(self.entries@))
    }
}

impl<V> KeyedStore<V> {
    /// The internal invariant: keys are distinct.
    pub closed spec fn wf(&self) -> bool {
        keys_distinct(entry_views(self.entries@))
    }

    /// The view is finite.
    pub proof fn lemma_finite(&self)
        requires
            self.wf(),
        ensures
            self@.dom().finite(),
    {
        lemma_pairs_map_finite(entry_views(self.entries@));
    }

    pub fn new() -> (r: Self)
        ensures
            r.wf(),
            r@ == Map::<Seq<char>, V>::empty(),
    {
        let r = KeyedStore { entries: Vec::new() };
        assert(entry_views(r.entries@) =~= Seq::<(Seq<char>, V)>::empty());
        r
    }

    /// Index of the entry with this key.
    fn position(&self, key: &String) -> (r: Option<usize>)
        requires
            self.wf(),
        ensures
            match r {
                Some(i) => i < self.entries@.len() && self.entries@[i as int].0@ == key@,
                None => !self@.contains_key(key@),
            },
    {
        let ghost s = entry_views(self.entries@);
        proof {
            lemma_pairs_map(s);
        }
        let mut i: usize = 0;
        while i < self.entries.len()
            invariant
                s == entry_views(self.entries@),
                i <= self.entries@.len(),
                forall|j: int| 0 <= j < i ==> s[j].0 != key@,
            decreases self.entries@.len() - i,
        {
            if self.entries[i].0 == *key {
                return Some(i);
            }
            i = i + 1;
        }
        None
    }

    /// The value stored under `key`.
    pub fn get(&self, key: &String) -> (r: Option<&V>)
        requires
            self.wf(),
        ensures
            match r {
                Some(v) => self@.contains_key(key@) && self@[key@] == *v,
                None => !self@.contains_key(key@),
            },
    {
        proof {
            lemma_pairs_map(entry_views(self.entries@));
        }
        match self.position(key) {
            Some(i) => {
                proof {
                    let s = entry_views(self.entries@);
                    assert(s[i as int].0 == key@);
                    assert(pairs_map(s)[s[i as int].0] == s[i as int].1);
                }
                Some(&self.entries[i].1)
            },
            None => None,
        }
    }

    /// Remove the entry under `key`, returning its value.
    pub fn remove(&mut self, key: &String) -> (r: Option<V>)
        requires
            old(self).wf(),
        ensures
            final(self).wf(),
            final(self)@ == old(self)@.remove(key@),
            match r {
                Some(v) => old(self)@.contains_key(key@) && old(self)@[key@] == v,
                None => !old(self)@.contains_key(key@),
            },
    {
        let ghost s = entry_views(self.entries@);
        proof {
            lemma_pairs_map(s);
        }
        match self.position(key) {
            Some(i) => {
                let (_, v) = self.entries.remove(i);
                proof {
                    let t = entry_views(self.entries@);
                    assert(t =~= s.remove(i as int));
                    assert(keys_distinct(t)) by {
                        assert forall|a: int, b: int|
                            0 <= a < t.len() && 0 <= b < t.len() && a != b implies t[a].0
                            != t[b].0 by {
                            let a2 = if a < i { a } else { a + 1 };
                            let b2 = if b < i { b } else { b + 1 };
                            assert(t[a] == s[a2]);
                            assert(t[b] == s[b2]);
                        }
                    }
                    lemma_pairs_map(t);
                    assert(s[i as int].0 == key@);
                    assert(pairs_map(s)[s[i as int].0] == s[i as int].1);
                    assert forall|k: Seq<char>| #[trigger]
                        pairs_map(t).contains_key(k) == pairs_map(s).remove(key@).contains_key(
                            k,
                        ) by {
                        if pairs_map(t).contains_key(k) {
                            let a = choose|a: int| 0 <= a < t.len() && t[a].0 == k;
                            let a2 = if a < i { a } else { a + 1 };
                            assert(t[a] == s[a2]);
                        }
                        if pairs_map(s).remove(key@).contains_key(k) {
                            let a = choose|a: int| 0 <= a < s.len() && s[a].0 == k;
                            assert(a != i);
                            let a2 = if a < i { a } else { a - 1 };
                            assert(t[a2] == s[a]);
                        }
                    }
                    assert forall|k: Seq<char>| #[trigger]
                        pairs_map(t).contains_key(k) implies pairs_map(t)[k] == pairs_map(
                        s,
                    ).remove(key@)[k] by {
                        let a = choose|a: int| 0 <= a < t.len() && t[a].0 == k;
                        let a2 = if a < i { a } else { a + 1 };
                        assert(t[a] == s[a2]);
                        assert(pairs_map(t)[t[a].0] == t[a].1);
                        assert(pairs_map(s)[s[a2].0] == s[a2].1);
                    }
                    assert(pairs_map(t) =~= pairs_map(s).remove(key@));
                }
                Some(v)
            },
            None => {
                proof {
                    assert(pairs_map(s).remove(key@) =~= pairs_map(s));
                }
                None
            },
        }
    }

    /// Store `value` under `key`, replacing any value stored there.
    pub fn insert(&mut self, key: String, value: V)
        requires
            old(self).wf(),
        ensures
            final(self).wf(),
            final(self)@ == old(self)@.insert(key@, value),
    {
        let _ = self.remove(&key);
        let ghost s = entry_views(self.entries@);
        self.entries.push((key, value));
        proof {
            let t = entry_views(self.entries@);
            assert(t =~= s.push((key@, value)));
            lemma_pairs_map(s);
            assert(keys_distinct(t)) by {
                assert forall|a: int, b: int|
                    0 <= a < t.len() && 0 <= b < t.len() && a != b implies t[a].0 != t[b].0 by {
                    if a < s.len() && b < s.len() {
                        assert(t[a] == s[a]);
                        assert(t[b] == s[b]);
                    } else if a < s.len() {
                        assert(t[a] == s[a]);
                        assert(pairs_map(s).contains_key(s[a].0));
                    } else {
                        assert(t[b] == s[b]);
                        assert(pairs_map(s).contains_key(s[b].0));
                    }
                }
            }
            assert(t.drop_last() =~= s);
        }
    }
}

proof fn lemma_pairs_map_finite<V>(s: Seq<(Seq<char>, V)>)
    ensures
        pairs_map(s).dom().finite(),
    decreases s.len(),
{
    if s.len() > 0 {
        lemma_pairs_map_finite(s.drop_last());
    }
}

} // verus!
