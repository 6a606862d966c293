//! A small map keyed by strings, kept as a vector of entries in insertion
//! order. Its meaning is the `Map` obtained by inserting the entries in
//! order, so a later entry for a key always wins.

use vstd::prelude::*;
use vstd::std_specs::cmp::PartialEqSpecImpl;

use crate::text::chars_of;

verus! {

/// The map denoted by a sequence of entries, later entries overriding earlier ones.
pub open spec fn entries_map<V>(s: Seq<(String, V)>) -> Map<Seq<char>, V>
    decreases s.len(),
{
    if s.len() == 0 {
        Map::empty()
    } else {
        entries_map(s.drop_last()).insert(s.last().0@, s.last().1)
    }
}

/// `j` is the last entry of `s` whose key is `k`.
pub open spec fn is_last_entry_for<V>(s: Seq<(String, V)>, k: Seq<char>, j: int) -> bool {
    &&& 0 <= j < s.len()
    &&& s[j].0@ == k
    &&& forall|l: int| j < l < s.len() ==> (#[trigger] s[l]).0@ != k
}

pub proof fn lemma_entries_map_absent<V>(s: Seq<(String, V)>, k: Seq<char>)
    requires
        forall|l: int| 0 <= l < s.len() ==> (#[trigger] s[l]).0@ != k,
    ensures
        !entries_map(s).contains_key(k),
    decreases s.len(),
{
    if s.len() > 0 {
        lemma_entries_map_absent(s.drop_last(), k);
        assert(s.last() == s[s.len() - 1]);
    }
}

pub proof fn lemma_entries_map_lookup<V>(s: Seq<(String, V)>, k: Seq<char>, j: int)
    requires
        is_last_entry_for(s, k, j),
    ensures
        entries_map(s).contains_key(k),
        entries_map(s)[k] == s[j].1,
    decreases s.len(),
{
    if j < s.len() - 1 {
        let t = s.drop_last();
        assert(s.last() == s[s.len() - 1]);
        assert forall|l: int| j < l < t.len() implies (#[trigger] t[l]).0@ != k by {
            assert(t[l] == s[l]);
        }
        lemma_entries_map_lookup(t, k, j);
    }
}

pub proof fn lemma_entries_map_update<V>(s: Seq<(String, V)>, j: int, key: String, v: V)
    requires
        is_last_entry_for(s, key@, j),
    ensures
        entries_map(s.update(j, (key, v))) == entries_map(s).insert(key@, v),
    decreases s.len(),
{
    let u = s.update(j, (key, v));
    if j == s.len() - 1 {
        assert(u.drop_last() =~= s.drop_last());
        assert(u.last() == (key, v));
    } else {
        let t = s.drop_last();
        assert(u.drop_last() =~= t.update(j, (key, v)));
        assert forall|l: int| j < l < t.len() implies (#[trigger] t[l]).0@ != key@ by {
            assert(t[l] == s[l]);
        }
        lemma_entries_map_update(t, j, key, v);
        assert(u.last() == s.last());
        assert(s.last() == s[s.len() - 1]);
        assert(entries_map(u) =~= entries_map(s).insert(key@, v));
    }
}

/// The keys of the map denoted by `s` are exactly the keys of its entries.
pub proof fn lemma_entries_map_key<V>(s: Seq<(String, V)>, i: int)
    requires
        0 <= i < s.len(),
    ensures
        entries_map(s).contains_key(s[i].0@),
    decreases s.len(),
{
    if i < s.len() - 1 {
        lemma_entries_map_key(s.drop_last(), i);
        assert(s.drop_last()[i] == s[i]);
    } else {
        assert(s.last() == s[i]);
    }
}

/// A key of the map denoted by `s` is the key of one of its entries.
pub proof fn lemma_entries_map_has_entry<V>(s: Seq<(String, V)>, k: Seq<char>)
    requires
        entries_map(s).contains_key(k),
    ensures
        exists|i: int| 0 <= i < s.len() && (#[trigger] s[i]).0@ == k,
{
    if forall|i: int| 0 <= i < s.len() ==> (#[trigger] s[i]).0@ != k {
        lemma_entries_map_absent(s, k);
    }
}

/// Removing an entry never changes what other keys map to.
pub proof fn lemma_entries_map_remove_other<V>(s: Seq<(String, V)>, j: int, k: Seq<char>)
    requires
        0 <= j < s.len(),
        s[j].0@ != k,
    ensures
        entries_map(s.remove(j)).contains_key(k) == entries_map(s).contains_key(k),
        entries_map(s).contains_key(k) ==> entries_map(s.remove(j))[k] == entries_map(s)[k],
    decreases s.len(),
{
    let r = s.remove(j);
    if j == s.len() - 1 {
        assert(r =~= s.drop_last());
    } else {
        assert(r.drop_last() =~= s.drop_last().remove(j));
        assert(r.last() == s.last());
        lemma_entries_map_remove_other(s.drop_last(), j, k);
    }
}

/// A map from strings to values, with insertion-ordered storage.
#[derive(Clone, Debug)]
pub struct KeyedMap<V> {
    entries: Vec<(String, V)>,
}

impl<V> View for KeyedMap<V> {
    type V = Map<Seq<char>, V>;

    closed spec fn view(&self) -> Map<Seq<char>, V> {
        entries_map(self.entries@)
    }
}

/// Whether two strings hold the same characters.
pub fn str_equal(a: &str, b: &str) -> (res: bool)
    ensures
        res == (a@ == b@),
{
    let av = chars_of(a);
    let bv = chars_of(b);
    if av.len() != bv.len() {
        return false;
    }
    let mut i: usize = 0;
    while i < av.len()
        invariant
            av@ == a@,
            bv@ == b@,
            av.len() == bv.len(),
            i <= av.len(),
            forall|j: int| 0 <= j < i ==> av@[j] == bv@[j],
        decreases av.len() - i,
    {
        if av[i] != bv[i] {
            return false;
        }
        i = i + 1;
    }
    proof {
        assert(av@ =~= bv@);
    }
    true
}

/// Both maps have the same keys, and under each key values with the same text.
pub open spec fn same_text_entries(a: Map<Seq<char>, String>, b: Map<Seq<char>, String>) -> bool {
    &&& a.dom() == b.dom()
    &&& forall|k: Seq<char>| #[trigger] a.contains_key(k) ==> a[k]@ == b[k]@
}

pub open spec fn key_agrees(a: Map<Seq<char>, String>, b: Map<Seq<char>, String>, k: Seq<char>) -> bool {
    &&& a.contains_key(k)
    &&& b.contains_key(k)
    &&& a[k]@ == b[k]@
}

impl KeyedMap<String> {
    /// Whether both maps hold the same keys with the same texts.
    pub fn same_entries(&self, other: &KeyedMap<String>) -> (res: bool)
        ensures
            res == same_text_entries(self@, other@),
    {
        let mut i: usize = 0;
        while i < self.entries.len()
            invariant
                i <= self.entries@.len(),
                forall|j: int| 0 <= j < i ==> #[trigger] key_agrees(self@, other@, self.entries@[j].0@),
            decreases self.entries@.len() - i,
        {
            let k = self.entries[i].0.as_str();
            proof {
                lemma_entries_map_key(self.entries@, i as int);
            }
            let mine = self.get(k);
            match other.get(k) {
                Some(theirs) => {
                    match mine {
                        Some(m) => {
                            if !str_equal(m.as_str(), theirs.as_str()) {
                                return false;
                            }
                        },
                        None => {
                            return false;
                        },
                    }
                },
                None => {
                    return false;
                },
            }
            assert(key_agrees(self@, other@, self.entries@[i as int].0@));
            i = i + 1;
        }
        let mut i: usize = 0;
        while i < other.entries.len()
            invariant
                i <= other.entries@.len(),
                forall|j: int| 0 <= j < i ==> #[trigger] self@.contains_key(other.entries@[j].0@),
            decreases other.entries@.len() - i,
        {
            if !self.contains_key(other.entries[i].0.as_str()) {
                proof {
                    lemma_entries_map_key(other.entries@, i as int);
                }
                return false;
            }
            i = i + 1;
        }
        proof {
            assert forall|k: Seq<char>| #[trigger] self@.contains_key(k) implies key_agrees(self@, other@, k) by {
                lemma_entries_map_has_entry(self.entries@, k);
                let j = choose|j: int| 0 <= j < self.entries@.len() && (#[trigger] self.entries@[j]).0@ == k;
                assert(key_agrees(self@, other@, self.entries@[j].0@));
            }
            assert forall|k: Seq<char>| #[trigger] other@.contains_key(k) implies self@.contains_key(k) by {
                lemma_entries_map_has_entry(other.entries@, k);
                let j = choose|j: int| 0 <= j < other.entries@.len() && (#[trigger] other.entries@[j]).0@ == k;
                assert(self@.contains_key(other.entries@[j].0@));
            }
            assert(self@.dom() =~= other@.dom());
        }
        true
    }
}

impl PartialEq for KeyedMap<String> {
    fn eq(&self, other: &Self) -> (res: bool) {
        self.same_entries(other)
    }
}

impl PartialEqSpecImpl for KeyedMap<String> {
    open spec fn obeys_eq_spec() -> bool {
        true
    }

    open spec fn eq_spec(&self, other: &Self) -> bool {
        same_text_entries(self@, other@)
    }
}

impl Eq for KeyedMap<String> {}

impl<V> KeyedMap<V> {
    /// Empty map.
    pub fn new() -> (m: Self)
        ensures
            m@ == Map::<Seq<char>, V>::empty(),
    {
        KeyedMap { entries: Vec::new() }
    }

    /// Index of the last entry for `key`, searching from the end.
    fn find(&self, key: &str) -> (res: Option<usize>)
        ensures
            match res {
                Some(j) => is_last_entry_for(self.entries@, key@, j as int),
                None => forall|l: int|
                    0 <= l < self.entries@.len() ==> (#[trigger] self.entries@[l]).0@ != key@,
            },
    {
        let mut i: usize = self.entries.len();
        while i > 0
            invariant
                i <= self.entries@.len(),
                forall|l: int| i <= l < self.entries@.len() ==> (#[trigger] self.entries@[l]).0@ != key@,
            decreases i,
        {
            if str_equal(self.entries[i - 1].0.as_str(), key) {
                return Some(i - 1);
            }
            i = i - 1;
        }
        None
    }

    /// The stored entries in insertion order; for a key stored twice the
    /// later entry is the one that counts.
    pub fn entries(&self) -> (res: &Vec<(String, V)>)
        ensures
            entries_map(res@) == self@,
    {
        &self.entries
    }

    /// Value stored for `key`.
    pub fn get(&self, key: &str) -> (res: Option<&V>)
        ensures
            res is Some <==> self@.contains_key(key@),
            res matches Some(v) ==> *v == self@[key@],
    {
        match self.find(key) {
            Some(j) => {
                proof {
                    lemma_entries_map_lookup(self.entries@, key@, j as int);
                }
                Some(&self.entries[j].1)
            },
            None => {
                proof {
                    lemma_entries_map_absent(self.entries@, key@);
                }
                None
            },
        }
    }

    /// Whether `key` has a value.
    pub fn contains_key(&self, key: &str) -> (res: bool)
        ensures
            res == self@.contains_key(key@),
    {
        self.get(key).is_some()
    }

    /// Sets the value for `key`, replacing any earlier one.
    pub fn insert(&mut self, key: String, value: V)
        ensures
            final(self)@ == old(self)@.insert(key@, value),
    {
        match self.find(key.as_str()) {
            Some(j) => {
                proof {
                    lemma_entries_map_update(self.entries@, j as int, key, value);
                }
                self.entries.set(j, (key, value));
            },
            None => {
                let ghost old_entries = self.entries@;
                self.entries.push((key, value));
                proof {
                    assert(self.entries@.drop_last() =~= old_entries);
                }
            },
        }
    }

    /// Removes `key` and its value, if present.
    pub fn remove(&mut self, key: &str)
        ensures
            final(self)@ == old(self)@.remove(key@),
    {
        let ghost start = self@;
        loop
            invariant
                start == old(self)@,
                forall|k: Seq<char>|
                    k != key@ ==> (#[trigger] entries_map(self.entries@).contains_key(k))
                        == start.contains_key(k),
                forall|k: Seq<char>|
                    k != key@ && #[trigger] entries_map(self.entries@).contains_key(k)
                        ==> entries_map(self.entries@)[k] == start[k],
            decreases self.entries@.len(),
        {
            match self.find(key) {
                Some(j) => {
                    let ghost before = self.entries@;
                    self.entries.remove(j);
                    proof {
                        assert(self.entries@ == before.remove(j as int));
                        assert forall|k: Seq<char>| k != key@ implies (#[trigger] entries_map(
                            self.entries@,
                        ).contains_key(k)) == start.contains_key(k) && (entries_map(
                            self.entries@,
                        ).contains_key(k) ==> entries_map(self.entries@)[k] == start[k]) by {
                            lemma_entries_map_remove_other(before, j as int, k);
                        }
                    }
                },
                None => {
                    proof {
                        lemma_entries_map_absent(self.entries@, key@);
                        assert(self@ =~= start.remove(key@));
                    }
                    return;
                },
            }
        }
    }

    /// Moves every entry of `other` into `self`, in `other`'s order; values
    /// of `other` win over values already present.
    pub fn extend(&mut self, other: KeyedMap<V>)
        ensures
            final(self)@ == old(self)@.union_prefer_right(other@),
    {
        let ghost start = self@;
        let ghost src = other.entries@;
        let entries = other.entries;
        for e in it: entries.into_iter()
            invariant
                it.seq() == src,
                self@ == start.union_prefer_right(entries_map(src.take(it.index() as int))),
        {
            let ghost before = self@;
            let ghost idx = it.index();
            proof {
                assert(src.take(idx + 1).drop_last() =~= src.take(idx as int));
                assert(src.take(idx + 1).last() == e);
            }
            let (k, v) = e;
            self.insert(k, v);
            proof {
                assert(self@ =~= start.union_prefer_right(entries_map(src.take(idx + 1))));
            }
        }
        proof {
            assert(src.take(src.len() as int) =~= src);
        }
    }
}

} // verus!
