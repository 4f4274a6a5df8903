use vstd::prelude::*;

use crate::text::same_text;

verus! {

/// The map that a list of keyed entries stands for: later entries win.
pub open spec fn entries_map<T>(s: Seq<(String, T)>) -> Map<Seq<char>, T>
    decreases s.len(),
{
    if s.len() == 0 {
        Map::empty()
    } else {
        entries_map(s.drop_last()).insert(s.last().0@, s.last().1)
    }
}

/// No key occurs twice.
pub open spec fn distinct_keys<T>(s: Seq<(String, T)>) -> bool {
    forall|i: int, j: int| 0 <= i < j < s.len() ==> #[trigger] s[i].0@ != #[trigger] s[j].0@
}

/// With distinct keys, the map holds exactly the entries' keys, each with its entry's
/// value, and as many keys as there are entries.
proof fn lemma_entries_map<T>(s: Seq<(String, T)>)
    requires
        distinct_keys(s),
    ensures
        forall|k: Seq<char>| #[trigger] entries_map(s).contains_key(k) <==> exists|i: int| 0 <= i < s.len() && s[i].0@ == k,
        forall|i: int| 0 <= i < s.len() ==> #[trigger] entries_map(s)[s[i].0@] == s[i].1,
        entries_map(s).dom().finite(),
        entries_map(s).dom().len() == s.len(),
    decreases s.len(),
{
    if s.len() > 0 {
        let p = s.drop_last();
        assert(distinct_keys(p)) by {
            assert forall|i: int, j: int| 0 <= i < j < p.len() implies #[trigger] p[i].0@ != #[trigger] p[j].0@ by {
                assert(p[i] == s[i] && p[j] == s[j]);
            }
        }
        lemma_entries_map(p);
        let last = s.last();
        assert(!entries_map(p).contains_key(last.0@)) by {
            if entries_map(p).contains_key(last.0@) {
                let i = choose|i: int| 0 <= i < p.len() && p[i].0@ == last.0@;
                assert(s[i].0@ != s[s.len() - 1].0@);
            }
        }
        assert forall|k: Seq<char>| #[trigger] entries_map(s).contains_key(k) <==> exists|i: int| 0 <= i < s.len() && s[i].0@ == k by {
            if entries_map(s).contains_key(k) && k != last.0@ {
                let i = choose|i: int| 0 <= i < p.len() && p[i].0@ == k;
                assert(s[i] == p[i]);
            }
            if exists|i: int| 0 <= i < s.len() && s[i].0@ == k {
                let i = choose|i: int| 0 <= i < s.len() && s[i].0@ == k;
                if i < s.len() - 1 {
                    assert(p[i] == s[i]);
                }
            }
        }
        assert forall|i: int| 0 <= i < s.len() implies #[trigger] entries_map(s)[s[i].0@] == s[i].1 by {
            if i < s.len() - 1 {
                assert(p[i] == s[i]);
                assert(s[i].0@ != s[s.len() - 1].0@);
            }
        }
    }
}

proof fn lemma_distinct_remove<T>(s: Seq<(String, T)>, i: int)
    requires
        distinct_keys(s),
        0 <= i < s.len(),
    ensures
        distinct_keys(s.remove(i)),
        entries_map(s.remove(i)) == entries_map(s).remove(s[i].0@),
{
    let r = s.remove(i);
    assert forall|a: int, b: int| 0 <= a < b < r.len() implies #[trigger] r[a].0@ != #[trigger] r[b].0@ by {
        let a2 = if a < i { a } else { a + 1 };
        let b2 = if b < i { b } else { b + 1 };
        assert(r[a] == s[a2] && r[b] == s[b2]);
    }
    lemma_entries_map(s);
    lemma_entries_map(r);
    let m = entries_map(s).remove(s[i].0@);
    assert forall|k: Seq<char>| entries_map(r).contains_key(k) <==> m.contains_key(k) by {
        if entries_map(r).contains_key(k) {
            let j = choose|j: int| 0 <= j < r.len() && r[j].0@ == k;
            let j2 = if j < i { j } else { j + 1 };
            assert(r[j] == s[j2]);
            assert(entries_map(s).contains_key(s[j2].0@));
        }
        if m.contains_key(k) {
            let j = choose|j: int| 0 <= j < s.len() && s[j].0@ == k;
            assert(j != i);
            let j2 = if j < i { j } else { j - 1 };
            assert(r[j2] == s[j]);
            assert(entries_map(r).contains_key(r[j2].0@));
        }
    }
    assert forall|k: Seq<char>| #[trigger] entries_map(r).contains_key(k) implies entries_map(r)[k] == m[k] by {
        let j = choose|j: int| 0 <= j < r.len() && r[j].0@ == k;
        let j2 = if j < i { j } else { j + 1 };
        assert(r[j] == s[j2]);
        assert(entries_map(r)[r[j].0@] == r[j].1);
        assert(entries_map(s)[s[j2].0@] == s[j2].1);
    }
    assert(entries_map(r) =~= m);
}

proof fn lemma_distinct_update<T>(s: Seq<(String, T)>, i: int, e: (String, T))
    requires
        distinct_keys(s),
        0 <= i < s.len(),
        e.0@ == s[i].0@,
    ensures
        distinct_keys(s.update(i, e)),
        entries_map(s.update(i, e)) == entries_map(s).insert(e.0@, e.1),
{
    let r = s.update(i, e);
    assert forall|a: int, b: int| 0 <= a < b < r.len() implies #[trigger] r[a].0@ != #[trigger] r[b].0@ by {
        assert(r[a].0@ == s[a].0@ && r[b].0@ == s[b].0@);
    }
    lemma_entries_map(s);
    lemma_entries_map(r);
    let m = entries_map(s).insert(e.0@, e.1);
    assert forall|k: Seq<char>| entries_map(r).contains_key(k) <==> m.contains_key(k) by {
        if entries_map(r).contains_key(k) {
            let j = choose|j: int| 0 <= j < r.len() && r[j].0@ == k;
            assert(r[j].0@ == s[j].0@);
            assert(entries_map(s).contains_key(s[j].0@));
        }
        if m.contains_key(k) {
            if k == e.0@ {
                assert(r[i].0@ == k);
            } else {
                let j = choose|j: int| 0 <= j < s.len() && s[j].0@ == k;
                assert(r[j].0@ == s[j].0@);
            }
        }
    }
    assert forall|k: Seq<char>| #[trigger] entries_map(r).contains_key(k) implies entries_map(r)[k] == m[k] by {
        let j = choose|j: int| 0 <= j < r.len() && r[j].0@ == k;
        assert(entries_map(r)[r[j].0@] == r[j].1);
        if j != i {
            assert(r[j] == s[j]);
            assert(entries_map(s)[s[j].0@] == s[j].1);
        }
    }
    assert(entries_map(r) =~= m);
}

/// A small map from text keys to values, kept as a list of entries in the order the keys
/// first arrived.
#[derive(Debug)]
pub struct KeyedList<T> {
    entries: Vec<(String, T)>,
}

impl<T> KeyedList<T> {
    #[verifier::type_invariant]
    spec fn keys_are_distinct(self) -> bool {
        distinct_keys(self.entries@)
    }

    /// The map the list stands for.
    pub closed spec fn map(&self) -> Map<Seq<char>, T> {
        entries_map(self.entries@)
    }

    pub fn new() -> (r: Self)
        ensures
            r.map() == Map::<Seq<char>, T>::empty(),
    {
        KeyedList { entries: Vec::new() }
    }

    /// The value of the entry that arrived first among those present, which `any_value`
    /// gives.
    pub closed spec fn first_value(&self) -> Option<T> {
        if self.entries@.len() == 0 {
            None
        } else {
            Some(self.entries@[0].1)
        }
    }

    /// The map is finite; this is its number of keys.
    pub fn len(&self) -> (r: usize)
        ensures
            self.map().dom().finite(),
            r == self.map().dom().len(),
    {
        proof {
            use_type_invariant(self);
            lemma_entries_map(self.entries@);
        }
        self.entries.len()
    }

    fn position(&self, key: &str) -> (r: Option<usize>)
        ensures
            match r {
                Some(i) => i < self.entries@.len() && self.entries@[i as int].0@ == key@,
                None => forall|j: int| 0 <= j < self.entries@.len() ==> self.entries@[j].0@ != key@,
            },
    {
        let mut i: usize = 0;
        while i < self.entries.len()
            invariant
                i <= self.entries@.len(),
                forall|j: int| 0 <= j < i ==> self.entries@[j].0@ != key@,
            decreases self.entries@.len() - i,
        {
            if same_text(self.entries[i].0.as_str(), key) {
                return Some(i);
            }
            i = i + 1;
        }
        None
    }

    /// Whether `key` has a value.
    pub fn contains(&self, key: &str) -> (r: bool)
        ensures
            r == self.map().contains_key(key@),
    {
        proof {
            use_type_invariant(self);
            lemma_entries_map(self.entries@);
        }
        match self.position(key) {
            Some(i) => {
                proof {
                    assert(self.map().contains_key(self.entries@[i as int].0@));
                }
                true
            },
            None => false,
        }
    }

    /// Sets the value of `key`, keeping its place when it is already present.
    pub fn insert(&mut self, key: String, value: T)
        ensures
            final(self).map() == old(self).map().insert(key@, value),
    {
        proof {
            use_type_invariant(&*self);
        }
        let found = self.position(key.as_str());
        let mut entries: Vec<(String, T)> = Vec::new();
        std::mem::swap(&mut entries, &mut self.entries);
        let ghost s = entries@;
        match found {
            Some(i) => {
                let k = key;
                entries.set(i, (k, value));
                proof {
                    lemma_distinct_update(s, i as int, (k, value));
                }
            },
            None => {
                proof {
                    lemma_entries_map(s);
                }
                entries.push((key, value));
                proof {
                    assert(entries@.drop_last() == s);
                    assert forall|a: int, b: int| 0 <= a < b < entries@.len() implies #[trigger] entries@[a].0@ != #[trigger] entries@[b].0@ by {
                        if b == s.len() {
                            assert(entries@[a] == s[a]);
                        } else {
                            assert(entries@[a] == s[a] && entries@[b] == s[b]);
                        }
                    }
                }
            },
        }
        self.entries = entries;
    }

    /// Drops `key` and its value, if present.
    pub fn remove(&mut self, key: &str)
        ensures
            final(self).map() == old(self).map().remove(key@),
    {
        proof {
            use_type_invariant(&*self);
        }
        match self.position(key) {
            Some(i) => {
                let mut entries: Vec<(String, T)> = Vec::new();
                std::mem::swap(&mut entries, &mut self.entries);
                let ghost s = entries@;
                let _ = entries.remove(i);
                proof {
                    lemma_distinct_remove(s, i as int);
                }
                self.entries = entries;
            },
            None => {
                proof {
                    lemma_entries_map(self.entries@);
                    assert(!self.map().contains_key(key@));
                    assert(self.map().remove(key@) =~= self.map());
                }
            },
        }
    }

    /// Some value of the map, when it has any.
    pub fn any_value(&self) -> (r: Option<&T>)
        ensures
            r is None <==> self.first_value() is None,
            r matches Some(v) ==> self.first_value() == Some(*v),
            r is None <==> self.map().dom().len() == 0,
            r matches Some(v) ==> exists|k: Seq<char>| #[trigger] self.map().contains_key(k) && self.map()[k] == *v,
    {
        proof {
            use_type_invariant(self);
            lemma_entries_map(self.entries@);
        }
        if self.entries.len() == 0 {
            None
        } else {
            let e = &self.entries[0];
            proof {
                assert(self.map().contains_key(self.entries@[0].0@));
            }
            Some(&e.1)
        }
    }
}

} // verus!
