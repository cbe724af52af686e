//! Maps keyed by text, kept as lists of entries: a key's value is the value
//! of its first entry.
use vstd::prelude::*;

verus! {

/// The value of the first entry of `s` whose key is `k`.
pub open spec fn lookup<W>(s: Seq<(Seq<char>, W)>, k: Seq<char>) -> Option<W>
    decreases s.len(),
{
    if s.len() == 0 {
        None
    } else if s[0].0 == k {
        Some(s[0].1)
    } else {
        lookup(s.drop_first(), k)
    }
}

/// The map that a list of entries stands for.
pub open spec fn as_map<W>(s: Seq<(Seq<char>, W)>) -> Map<Seq<char>, W> {
    Map::new(|k: Seq<char>| lookup(s, k) is Some, |k: Seq<char>| lookup(s, k)->0)
}

/// Where no entry before `i` has key `k`, the lookup of `k` starts at `i`.
pub proof fn lemma_lookup_skip<W>(s: Seq<(Seq<char>, W)>, k: Seq<char>, i: int)
    requires
        0 <= i <= s.len(),
        forall|m: int| 0 <= m < i ==> s[m].0 != k,
    ensures
        lookup(s, k) == lookup(s.skip(i), k),
    decreases i,
{
    if i > 0 {
        assert(s.drop_first().skip(i - 1) =~= s.skip(i));
        lemma_lookup_skip(s.drop_first(), k, i - 1);
    } else {
        assert(s.skip(0) =~= s);
    }
}

/// Replacing the value of the first entry for `k` changes only the lookup of
/// `k`.
pub proof fn lemma_lookup_update<W>(s: Seq<(Seq<char>, W)>, i: int, k: Seq<char>, v: W)
    requires
        0 <= i < s.len(),
        s[i].0 == k,
        forall|m: int| 0 <= m < i ==> s[m].0 != k,
    ensures
        forall|q: Seq<char>|
            #[trigger] lookup(s.update(i, (k, v)), q) == if q == k {
                Some(v)
            } else {
                lookup(s, q)
            },
    decreases i,
{
    let t = s.update(i, (k, v));
    if i == 0 {
        assert(t.drop_first() =~= s.drop_first());
    } else {
        assert(t.drop_first() =~= s.drop_first().update(i - 1, (k, v)));
        lemma_lookup_update(s.drop_first(), i - 1, k, v);
        assert forall|q: Seq<char>| #[trigger]
            lookup(t, q) == if q == k {
                Some(v)
            } else {
                lookup(s, q)
            } by {
            assert(t[0] == s[0]);
            assert(lookup(s.drop_first().update(i - 1, (k, v)), q) == if q == k {
                Some(v)
            } else {
                lookup(s.drop_first(), q)
            });
            assert(lookup(t.drop_first(), q) == lookup(s.drop_first().update(i - 1, (k, v)), q));
        }
    }
}

/// Appending an entry for a key that has none changes only the lookup of
/// that key.
pub proof fn lemma_lookup_push<W>(s: Seq<(Seq<char>, W)>, k: Seq<char>, v: W)
    requires
        lookup(s, k) is None,
    ensures
        forall|q: Seq<char>|
            #[trigger] lookup(s.push((k, v)), q) == if q == k {
                Some(v)
            } else {
                lookup(s, q)
            },
    decreases s.len(),
{
    let t = s.push((k, v));
    if s.len() == 0 {
        assert(t.drop_first() =~= Seq::<(Seq<char>, W)>::empty());
        assert forall|q: Seq<char>| #[trigger]
            lookup(t, q) == if q == k {
                Some(v)
            } else {
                lookup(s, q)
            } by {
            assert(lookup(t.drop_first(), q) is None);
        }
    } else {
        assert(t.drop_first() =~= s.drop_first().push((k, v)));
        lemma_lookup_push(s.drop_first(), k, v);
        assert forall|q: Seq<char>| #[trigger]
            lookup(t, q) == if q == k {
                Some(v)
            } else {
                lookup(s, q)
            } by {
            assert(t[0] == s[0]);
            assert(lookup(s.drop_first().push((k, v)), q) == if q == k {
                Some(v)
            } else {
                lookup(s.drop_first(), q)
            });
            assert(lookup(t.drop_first(), q) == lookup(s.drop_first().push((k, v)), q));
        }
    }
}

/// A map keyed by text.
pub struct TextMap<V> {
    pub entries: Vec<(String, V)>,
}

impl<V: DeepView> TextMap<V> {
    /// The entries, as text and value views.
    pub open spec fn items(&self) -> Seq<(Seq<char>, V::V)> {
        self.entries.deep_view()
    }

    /// The value of `k`.
    pub open spec fn spec_get(&self, k: Seq<char>) -> Option<V::V> {
        lookup(self.items(), k)
    }

    pub fn new() -> (m: Self)
        ensures
            m.items() == Seq::<(Seq<char>, V::V)>::empty(),
    {
        let m = TextMap { entries: Vec::new() };
        proof {
            assert(m.items() =~= Seq::<(Seq<char>, V::V)>::empty());
        }
        m
    }

    /// Index of the first entry for `key`.
    fn find(&self, key: &String) -> (r: Option<usize>)
        ensures
            match r {
                Some(i) => i < self.entries.len() && self.items()[i as int].0 == key@ && forall|
                    m: int,
                | 0 <= m < i ==> self.items()[m].0 != key@,
                None => forall|m: int| 0 <= m < self.entries.len() ==> self.items()[m].0 != key@,
            },
    {
        let mut i: usize = 0;
        while i < self.entries.len()
            invariant
                i <= self.entries.len(),
                forall|m: int| 0 <= m < i ==> self.items()[m].0 != key@,
            decreases self.entries.len() - i,
        {
            if self.entries[i].0 == *key {
                return Some(i);
            }
            i = i + 1;
        }
        None
    }

    /// The value of `key`, if it has one.
    pub fn get(&self, key: &String) -> (r: Option<&V>)
        ensures
            match r {
                Some(v) => self.spec_get(key@) == Some(v.deep_view()),
                None => self.spec_get(key@) is None,
            },
    {
        match self.find(key) {
            Some(i) => {
                proof {
                    lemma_lookup_skip(self.items(), key@, i as int);
                }
                Some(&self.entries[i].1)
            },
            None => {
                proof {
                    lemma_lookup_skip(self.items(), key@, self.entries.len() as int);
                }
                None
            },
        }
    }

    /// Whether `key` has a value.
    pub fn contains_key(&self, key: &String) -> (r: bool)
        ensures
            r == self.spec_get(key@) is Some,
    {
        self.get(key).is_some()
    }

    /// Sets the value of `key`.
    pub fn insert(&mut self, key: String, value: V)
        ensures
            forall|q: Seq<char>|
                #[trigger] final(self).spec_get(q) == if q == key@ {
                    Some(value.deep_view())
                } else {
                    old(self).spec_get(q)
                },
    {
        let ghost kv = key@;
        let ghost vv = value.deep_view();
        let ghost before = self.items();
        match self.find(&key) {
            Some(i) => {
                self.entries.set(i, (key, value));
                proof {
                    assert(self.items() =~= before.update(i as int, (kv, vv)));
                    lemma_lookup_update(before, i as int, kv, vv);
                }
            },
            None => {
                self.entries.push((key, value));
                proof {
                    lemma_lookup_skip(before, kv, before.len() as int);
                    assert(self.items() =~= before.push((kv, vv)));
                    lemma_lookup_push(before, kv, vv);
                }
            },
        }
    }
}

} // verus!
