//! A small map keyed by strings.
//!
//! The entries are kept in a vector in which no key occurs twice; the view is
//! the mathematical map from a key's characters to its value. Lookups are
//! linear, which suits the handful of agents, truth objects and routing
//! entries that the system holds.

use vstd::prelude::*;

verus! {

/// Index of the first entry of `s` whose key reads `k`, or `s.len()` if there
/// is none.
pub open spec fn key_index<V>(s: Seq<(String, V)>, k: Seq<char>) -> int
    decreases s.len(),
{
    if s.len() == 0 {
        0
    } else if s[0].0@ == k {
        0
    } else {
        1 + key_index(s.drop_first(), k)
    }
}

/// No key occurs twice in `s`.
pub open spec fn distinct_keys<V>(s: Seq<(String, V)>) -> bool {
    forall|i: int, j: int| 0 <= i < j < s.len() ==> s[i].0@ != s[j].0@
}

/// The map that a sequence of entries stands for: each key is bound to the
/// value of its first entry.
pub open spec fn entries_map<V>(s: Seq<(String, V)>) -> Map<Seq<char>, V> {
    Map::new(|k: Seq<char>| key_index(s, k) < s.len(), |k: Seq<char>| s[key_index(s, k)].1)
}

/// `key_index` lies within bounds, points at an entry with that key if it
/// points at one at all, and no earlier entry has the key.
pub proof fn lemma_key_index_is_first<V>(s: Seq<(String, V)>, k: Seq<char>)
    ensures
        0 <= key_index(s, k) <= s.len(),
        key_index(s, k) < s.len() ==> s[key_index(s, k)].0@ == k,
        forall|j: int| 0 <= j < key_index(s, k) ==> s[j].0@ != k,
    decreases s.len(),
{
    if s.len() > 0 && s[0].0@ != k {
        let t = s.drop_first();
        lemma_key_index_is_first(t, k);
        assert forall|j: int| 0 <= j < key_index(s, k) implies s[j].0@ != k by {
            if j > 0 {
                assert(t[j - 1] == s[j]);
            }
        }
    }
}

/// A position that no entry with key `k` precedes, and that holds `k` or is
/// the end of `s`, is `key_index(s, k)`.
pub proof fn lemma_key_index_unique<V>(s: Seq<(String, V)>, k: Seq<char>, i: int)
    requires
        0 <= i <= s.len(),
        forall|j: int| 0 <= j < i ==> s[j].0@ != k,
        i < s.len() ==> s[i].0@ == k,
    ensures
        key_index(s, k) == i,
    decreases s.len(),
{
    if s.len() > 0 && i > 0 {
        let t = s.drop_first();
        lemma_key_index_unique(t, k, i - 1);
    }
}

/// Replacing the entry at `i` by one with the same key binds that key to
/// the new value and leaves every other key as it was.
pub proof fn lemma_map_after_replace<V>(s: Seq<(String, V)>, i: int, key: String, value: V)
    requires
        0 <= i < s.len(),
        key_index(s, key@) == i,
    ensures
        entries_map(s.update(i, (key, value))) == entries_map(s).insert(key@, value),
        distinct_keys(s) ==> distinct_keys(s.update(i, (key, value))),
{
    let t = s.update(i, (key, value));
    lemma_key_index_is_first(s, key@);
    assert forall|k: Seq<char>| #[trigger] key_index(t, k) == key_index(s, k) by {
        lemma_key_index_is_first(s, k);
        let j = key_index(s, k);
        lemma_key_index_unique(t, k, j);
    }
    let m = entries_map(s).insert(key@, value);
    assert forall|k: Seq<char>| entries_map(t).contains_key(k) implies entries_map(t)[k]
        == m[k] by {
        lemma_key_index_is_first(s, k);
    }
}

/// Appending an entry whose key is new binds that key to the value and
/// leaves every other key as it was.
pub proof fn lemma_map_after_push<V>(s: Seq<(String, V)>, key: String, value: V)
    requires
        key_index(s, key@) == s.len(),
    ensures
        entries_map(s.push((key, value))) == entries_map(s).insert(key@, value),
        distinct_keys(s) ==> distinct_keys(s.push((key, value))),
{
    let t = s.push((key, value));
    lemma_key_index_is_first(s, key@);
    assert forall|k: Seq<char>|
        #[trigger] key_index(t, k) == (if k == key@ {
            s.len() as int
        } else if key_index(s, k) < s.len() {
            key_index(s, k)
        } else {
            t.len() as int
        }) by {
        lemma_key_index_is_first(s, k);
        let j = key_index(s, k);
        if j < s.len() {
            lemma_key_index_unique(t, k, j);
        } else if k == key@ {
            lemma_key_index_unique(t, k, s.len() as int);
        } else {
            lemma_key_index_unique(t, k, t.len() as int);
        }
    }
    let m = entries_map(s).insert(key@, value);
    assert forall|k: Seq<char>| entries_map(t).contains_key(k) implies entries_map(t)[k]
        == m[k] by {
        lemma_key_index_is_first(s, k);
    }
}

/// Removing the first entry with a key unbinds that key and leaves every
/// other key as it was, provided no key occurs twice.
pub proof fn lemma_map_after_remove<V>(s: Seq<(String, V)>, i: int)
    requires
        0 <= i < s.len(),
        distinct_keys(s),
    ensures
        entries_map(s.remove(i)) == entries_map(s).remove(s[i].0@),
        distinct_keys(s.remove(i)),
{
    let t = s.remove(i);
    let gone = s[i].0@;
    assert forall|k: Seq<char>|
        #[trigger] key_index(t, k) == (if k == gone {
            t.len() as int
        } else if key_index(s, k) < i {
            key_index(s, k)
        } else if key_index(s, k) < s.len() {
            key_index(s, k) - 1
        } else {
            t.len() as int
        }) by {
        lemma_key_index_is_first(s, k);
        let j = key_index(s, k);
        if k == gone {
            lemma_key_index_unique(s, k, i);
            lemma_key_index_unique(t, k, t.len() as int);
        } else if j < i {
            lemma_key_index_unique(t, k, j);
        } else if j < s.len() {
            lemma_key_index_unique(t, k, j - 1);
        } else {
            lemma_key_index_unique(t, k, t.len() as int);
        }
    }
    let m = entries_map(s).remove(gone);
    assert forall|k: Seq<char>| entries_map(t).contains_key(k) implies entries_map(t)[k]
        == m[k] by {
        lemma_key_index_is_first(s, k);
    }
}

/// The entries of a map from text to text, each read by its characters.
pub open spec fn text_entries(s: Seq<(String, String)>) -> Seq<(Seq<char>, Seq<char>)> {
    s.map_values(|e: (String, String)| (e.0@, e.1@))
}

/// The map that entries from text to text stand for, each value read by its
/// characters.
pub open spec fn text_map(s: Seq<(String, String)>) -> Map<Seq<char>, Seq<char>> {
    entries_map(s).map_values(|v: String| v@)
}

/// Entries that read the same stand for maps that read the same.
pub proof fn lemma_same_text(s: Seq<(String, String)>, t: Seq<(String, String)>)
    requires
        text_entries(s) == text_entries(t),
    ensures
        text_map(s) == text_map(t),
        distinct_keys(s) == distinct_keys(t),
{
    assert(t.len() == text_entries(t).len());
    assert forall|i: int| 0 <= i < s.len() implies s[i].0@ == t[i].0@ && s[i].1@ == t[i].1@ by {
        assert(text_entries(t)[i] == (t[i].0@, t[i].1@));
    }
    assert forall|k: Seq<char>| #[trigger] key_index(t, k) == key_index(s, k) by {
        lemma_key_index_is_first(s, k);
        lemma_key_index_unique(t, k, key_index(s, k));
    }
    assert forall|k: Seq<char>| text_map(s).contains_key(k) implies text_map(s)[k] == text_map(
        t,
    )[k] by {
        lemma_key_index_is_first(s, k);
    }
}

/// A map from strings to values of type `V`.
#[derive(Debug)]
pub struct StringMap<V> {
    entries: Vec<(String, V)>,
}

impl<V> View for StringMap<V> {
    type V = Map<Seq<char>, V>;

    open spec fn view(&self) -> Map<Seq<char>, V> {
        entries_map(self.entries())
    }
}

impl<V> StringMap<V> {
    /// The entries in the order in which the map lists them.
    pub closed spec fn entries(&self) -> Seq<(String, V)> {
        self.entries@
    }

    /// No key occurs twice among the entries.
    #[verifier::type_invariant]
    pub closed spec fn wf(&self) -> bool {
        distinct_keys(self.entries@)
    }

    /// The empty map.
    pub fn new() -> (m: Self)
        ensures
            m@ == Map::<Seq<char>, V>::empty(),
            m.entries() == Seq::<(String, V)>::empty(),
            m.wf(),
    {
        let m = StringMap { entries: Vec::new() };
        m
    }

    /// Number of entries.
    pub fn len(&self) -> (n: usize)
        ensures
            n == self.entries().len(),
    {
        self.entries.len()
    }

    /// The key of the `i`-th entry.
    pub fn key_at(&self, i: usize) -> (k: &String)
        requires
            i < self.entries().len(),
        ensures
            *k == self.entries()[i as int].0,
            self@.contains_key(k@),
    {
        proof {
            lemma_key_index_is_first(self.entries@, self.entries@[i as int].0@);
        }
        &self.entries[i].0
    }

    /// The value of the `i`-th entry.
    pub fn value_at(&self, i: usize) -> (v: &V)
        requires
            i < self.entries().len(),
        ensures
            *v == self.entries()[i as int].1,
            self@.contains_key(self.entries()[i as int].0@),
            self@[self.entries()[i as int].0@] == *v,
    {
        proof {
            use_type_invariant(self);
            let k = self.entries@[i as int].0@;
            lemma_key_index_is_first(self.entries@, k);
        }
        &self.entries[i].1
    }

    /// Position of the entry with this key, if there is one.
    fn position(&self, key: &str) -> (r: Option<usize>)
        ensures
            match r {
                Some(i) => i < self.entries@.len() && key_index(self.entries@, key@) == i,
                None => key_index(self.entries@, key@) == self.entries@.len(),
            },
    {
        let mut i: usize = 0;
        while i < self.entries.len()
            invariant
                i <= self.entries@.len(),
                forall|j: int| 0 <= j < i ==> self.entries@[j].0@ != key@,
            decreases self.entries@.len() - i,
        {
            if self.entries[i].0.as_str().eq(key) {
                proof {
                    lemma_key_index_unique(self.entries@, key@, i as int);
                }
                return Some(i);
            }
            i += 1;
        }
        proof {
            lemma_key_index_unique(self.entries@, key@, i as int);
        }
        None
    }

    /// Whether the map binds this key.
    pub fn contains_key(&self, key: &str) -> (r: bool)
        ensures
            r == self@.contains_key(key@),
    {
        self.position(key).is_some()
    }

    /// The value bound to this key, if there is one.
    pub fn get(&self, key: &str) -> (r: Option<&V>)
        ensures
            match r {
                Some(v) => self@.contains_key(key@) && *v == self@[key@],
                None => !self@.contains_key(key@),
            },
    {
        match self.position(key) {
            Some(i) => Some(&self.entries[i].1),
            None => None,
        }
    }

    /// Binds `key` to `value`, replacing an earlier binding of the key.
    pub fn insert(&mut self, key: String, value: V)
        ensures
            final(self)@ == old(self)@.insert(key@, value),
            final(self).wf(),
    {
        proof {
            use_type_invariant(&*self);
        }
        let found = self.position(key.as_str());
        let mut entries: Vec<(String, V)> = Vec::new();
        std::mem::swap(&mut entries, &mut self.entries);
        match found {
            Some(i) => {
                proof {
                    lemma_map_after_replace(entries@, i as int, key, value);
                }
                entries.set(i, (key, value));
            },
            None => {
                proof {
                    lemma_map_after_push(entries@, key, value);
                }
                entries.push((key, value));
            },
        }
        self.entries = entries;
    }

    /// The entries list every key of the map, each once, beside its value.
    pub proof fn lemma_entries_cover(&self)
        requires
            self.wf(),
        ensures
            distinct_keys(self.entries()),
            forall|k: Seq<char>|
                self@.contains_key(k) ==> {
                    let i = #[trigger] key_index(self.entries(), k);
                    0 <= i < self.entries().len() && self.entries()[i].0@ == k
                        && self.entries()[i].1 == self@[k]
                },
            forall|i: int|
                0 <= i < self.entries().len() ==> self@.contains_key(
                    (#[trigger] self.entries()[i]).0@,
                ) && self@[self.entries()[i].0@] == self.entries()[i].1,
    {
        assert forall|k: Seq<char>| self@.contains_key(k) implies {
            let i = #[trigger] key_index(self.entries(), k);
            0 <= i < self.entries().len() && self.entries()[i].0@ == k && self.entries()[i].1
                == self@[k]
        } by {
            lemma_key_index_is_first(self.entries(), k);
        }
        assert forall|i: int| 0 <= i < self.entries().len() implies self@.contains_key(
            (#[trigger] self.entries()[i]).0@,
        ) && self@[self.entries()[i].0@] == self.entries()[i].1 by {
            let k = self.entries()[i].0@;
            lemma_key_index_is_first(self.entries(), k);
        }
    }

    /// The values in listing order.
    pub fn into_values(self) -> (r: Vec<V>)
        ensures
            r@ == self.entries().map_values(|e: (String, V)| e.1),
    {
        let mut entries = self.entries;
        let ghost all = entries@;
        let mut out: Vec<V> = Vec::new();
        while entries.len() > 0
            invariant
                out@.len() + entries@.len() == all.len(),
                entries@ == all.subrange(0, entries@.len() as int),
                out@ == all.subrange(entries@.len() as int, all.len() as int).map_values(
                    |e: (String, V)| e.1,
                ),
            decreases entries@.len(),
        {
            let (_, v) = entries.pop().unwrap();
            out.insert(0, v);
            assert(out@ =~= all.subrange(entries@.len() as int, all.len() as int).map_values(
                |e: (String, V)| e.1,
            ));
        }
        out
    }

    /// Removes the binding of `key` and returns its value, if there was one.
    pub fn remove(&mut self, key: &str) -> (r: Option<V>)
        ensures
            final(self)@ == old(self)@.remove(key@),
            final(self).wf(),
            match r {
                Some(v) => old(self)@.contains_key(key@) && v == old(self)@[key@],
                None => !old(self)@.contains_key(key@),
            },
    {
        proof {
            use_type_invariant(&*self);
        }
        match self.position(key) {
            Some(i) => {
                let mut entries: Vec<(String, V)> = Vec::new();
                std::mem::swap(&mut entries, &mut self.entries);
                proof {
                    lemma_key_index_is_first(entries@, key@);
                    lemma_map_after_remove(entries@, i as int);
                }
                let (_, v) = entries.remove(i);
                self.entries = entries;
                Some(v)
            },
            None => {
                None
            },
        }
    }
}

impl StringMap<String> {
    /// A copy of the map that lists the same entries in the same order.
    pub fn duplicate(&self) -> (r: Self)
        ensures
            text_entries(r.entries()) == text_entries(self.entries()),
            text_map(r.entries()) == text_map(self.entries()),
    {
        proof {
            use_type_invariant(self);
        }
        let mut copy: Vec<(String, String)> = Vec::new();
        let mut i: usize = 0;
        while i < self.entries.len()
            invariant
                i <= self.entries@.len(),
                copy@.len() == i,
                forall|j: int|
                    0 <= j < i ==> copy@[j].0@ == self.entries@[j].0@ && copy@[j].1@
                        == self.entries@[j].1@,
            decreases self.entries@.len() - i,
        {
            copy.push((self.entries[i].0.clone(), self.entries[i].1.clone()));
            i += 1;
        }
        proof {
            assert(text_entries(copy@) =~= text_entries(self.entries@));
            lemma_same_text(copy@, self.entries@);
        }
        StringMap { entries: copy }
    }
}

} // verus!
