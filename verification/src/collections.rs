//! A string-keyed map that keeps its entries in insertion order.

use vstd::prelude::*;

verus! {

/// String slice equality (`<str as PartialEq>::eq`).
#[verifier::external_body]
pub(crate) fn str_eq(a: &str, b: &str) -> (r: bool)
    ensures
        r == (a@ == b@),
{
    a == b
}

/// Map from strings to values; inserting an existing key replaces its value.
#[derive(Debug)]
pub struct StrMap<V> {
    entries: Vec<(String, V)>,
}

/// Keys of a sequence of entries, as character sequences.
pub open spec fn entry_keys<V>(e: Seq<(String, V)>) -> Seq<Seq<char>> {
    e.map_values(|p: (String, V)| p.0@)
}

/// The map described by entries with distinct keys.
pub open spec fn entries_map<V>(e: Seq<(String, V)>) -> Map<Seq<char>, V> {
    Map::new(
        |k: Seq<char>| entry_keys(e).contains(k),
        |k: Seq<char>| e[entry_keys(e).index_of(k)].1,
    )
}

impl<V> StrMap<V> {
    #[verifier::type_invariant]
    closed spec fn inv(self) -> bool {
        entry_keys(self.entries@).no_duplicates()
    }

    /// Entries in insertion order.
    pub closed spec fn entry_seq(self) -> Seq<(String, V)> {
        self.entries@
    }

    /// An empty map.
    pub fn new() -> (r: StrMap<V>)
        ensures
            r@ == Map::<Seq<char>, V>::empty(),
            r.entry_seq().len() == 0,
    {
        let r = StrMap { entries: Vec::new() };
        assert(r@ =~= Map::<Seq<char>, V>::empty());
        r
    }

    /// Position of a key among the entries.
    fn position(&self, k: &str) -> (r: Option<usize>)
        ensures
            match r {
                Some(i) => i < self.entries@.len() && self.entries@[i as int].0@ == k@,
                None => !entry_keys(self.entries@).contains(k@),
            },
    {
        let mut i: usize = 0;
        while i < self.entries.len()
            invariant
                i <= self.entries@.len(),
                forall|j: int| 0 <= j < i ==> self.entries@[j].0@ != k@,
            decreases self.entries.len() - i,
        {
            if str_eq(self.entries[i].0.as_str(), k) {
                return Some(i);
            }
            i = i + 1;
        }
        assert forall|j: int| 0 <= j < entry_keys(self.entries@).len() implies entry_keys(
            self.entries@,
        )[j] != k@ by {}
        None
    }

    proof fn lemma_lookup(self, i: int)
        requires
            0 <= i < self.entries@.len(),
            entry_keys(self.entries@).no_duplicates(),
        ensures
            self@.contains_key(self.entries@[i].0@),
            self@[self.entries@[i].0@] == self.entries@[i].1,
    {
        let keys = entry_keys(self.entries@);
        assert(keys[i] == self.entries@[i].0@);
        assert(keys.contains(keys[i]));
        let j = keys.index_of(keys[i]);
        assert(keys[j] == keys[i]);
    }

    /// Whether the map holds `k`.
    pub fn contains_key(&self, k: &str) -> (r: bool)
        ensures
            r == self@.contains_key(k@),
    {
        match self.position(k) {
            Some(i) => {
                assert(entry_keys(self.entries@)[i as int] == k@);
                true
            },
            None => false,
        }
    }

    /// The value stored under `k`.
    pub fn get(&self, k: &str) -> (r: Option<&V>)
        ensures
            match r {
                Some(v) => self@.contains_key(k@) && *v == self@[k@],
                None => !self@.contains_key(k@),
            },
    {
        match self.position(k) {
            Some(i) => {
                proof {
                    use_type_invariant(self);
                    self.lemma_lookup(i as int);
                }
                Some(&self.entries[i].1)
            },
            None => None,
        }
    }

    /// Number of distinct keys.
    pub fn len(&self) -> (r: usize)
        ensures
            r == self@.len(),
            r == self.entry_seq().len(),
    {
        proof {
            use_type_invariant(self);
            let keys = entry_keys(self.entries@);
            keys.unique_seq_to_set();
            assert(self@.dom() =~= keys.to_set());
        }
        self.entries.len()
    }

    /// Inserts `v` under `k`, replacing and returning a previous value.
    pub fn insert(&mut self, k: String, v: V) -> (r: Option<V>)
        ensures
            final(self)@ == old(self)@.insert(k@, v),
            r == (if old(self)@.contains_key(k@) {
                Some(old(self)@[k@])
            } else {
                None
            }),
            old(self)@.contains_key(k@) ==> final(self).entry_seq().len() == old(
                self,
            ).entry_seq().len(),
            !old(self)@.contains_key(k@) ==> final(self).entry_seq() == old(self).entry_seq().push(
                (k, v),
            ),
    {
        proof {
            use_type_invariant(&*self);
        }
        let ghost old_map = self@;
        let ghost old_entries = self.entries@;
        let ghost kv = k@;
        match self.position(k.as_str()) {
            Some(i) => {
                proof {
                    assert(entry_keys(old_entries)[i as int] == kv);
                    assert(entry_keys(old_entries).contains(kv));
                }
                let ghost new_entries = old_entries.update(i as int, (k, v));
                assert(entry_keys(new_entries) =~= entry_keys(old_entries));
                proof {
                    self.lemma_lookup(i as int);
                }
                let mut entries: Vec<(String, V)> = Vec::new();
                std::mem::swap(&mut entries, &mut self.entries);
                let mut replaced = (k, v);
                entries.set_and_swap(i, &mut replaced);
                self.entries = entries;
                proof {
                    assert(self.entries@ == new_entries);
                    let keys = entry_keys(new_entries);
                    assert(self@.dom() =~= old_map.insert(kv, v).dom());
                    assert forall|key: Seq<char>| self@.contains_key(key) implies #[trigger] self@[key]
                        == old_map.insert(kv, v)[key] by {
                        let j = keys.index_of(key);
                        assert(keys[j] == key);
                        if key == kv {
                            assert(keys[i as int] == kv);
                        } else {
                            assert(j != i);
                            let jo = entry_keys(old_entries).index_of(key);
                            assert(entry_keys(old_entries)[jo] == key);
                            assert(keys[jo] == key);
                        }
                    }
                    assert(self@ =~= old_map.insert(kv, v));
                }
                Some(replaced.1)
            },
            None => {
                let mut entries: Vec<(String, V)> = Vec::new();
                std::mem::swap(&mut entries, &mut self.entries);
                entries.push((k, v));
                proof {
                    let keys = entry_keys(entries@);
                    assert(keys =~= entry_keys(old_entries).push(kv));
                    assert forall|a: int, b: int|
                        0 <= a < keys.len() && 0 <= b < keys.len() && a != b implies keys[a]
                        != keys[b] by {
                        if a < old_entries.len() && b < old_entries.len() {
                            assert(keys[a] == entry_keys(old_entries)[a]);
                            assert(keys[b] == entry_keys(old_entries)[b]);
                        } else if a < old_entries.len() {
                            assert(keys[a] == entry_keys(old_entries)[a]);
                        } else {
                            assert(keys[b] == entry_keys(old_entries)[b]);
                        }
                    }
                }
                self.entries = entries;
                proof {
                    let keys = entry_keys(self.entries@);
                    assert forall|a: int, b: int|
                        0 <= a < keys.len() && 0 <= b < keys.len() && a != b implies keys[a]
                        != keys[b] by {
                        if a < old_entries.len() && b < old_entries.len() {
                            assert(keys[a] == entry_keys(old_entries)[a]);
                            assert(keys[b] == entry_keys(old_entries)[b]);
                        } else if a < old_entries.len() {
                            assert(keys[a] == entry_keys(old_entries)[a]);
                        } else {
                            assert(keys[b] == entry_keys(old_entries)[b]);
                        }
                    }
                    assert forall|key: Seq<char>| #[trigger] self@.contains_key(key) <==> old_map.insert(
                        kv,
                        v,
                    ).contains_key(key) by {
                        if key == kv {
                            assert(keys[old_entries.len() as int] == kv);
                        } else if old_map.contains_key(key) {
                            let jo = entry_keys(old_entries).index_of(key);
                            assert(keys[jo] == key);
                        } else if self@.contains_key(key) {
                            let j = keys.index_of(key);
                            assert(keys[j] == key);
                            assert(entry_keys(old_entries)[j] == key);
                        }
                    }
                    assert forall|key: Seq<char>| self@.contains_key(key) implies #[trigger] self@[key]
                        == old_map.insert(kv, v)[key] by {
                        let j = keys.index_of(key);
                        assert(keys[j] == key);
                        if key == kv {
                            assert(keys[old_entries.len() as int] == kv);
                            assert(j == old_entries.len());
                        } else {
                            let jo = entry_keys(old_entries).index_of(key);
                            assert(entry_keys(old_entries)[jo] == key);
                            assert(keys[jo] == key);
                        }
                    }
                    assert(self@ =~= old_map.insert(kv, v));
                }
                None
            },
        }
    }

    /// Entries in insertion order; each holds a key and its value.
    pub fn entries(&self) -> (r: &[(String, V)])
        ensures
            r@ == self.entry_seq(),
            forall|i: int|
                0 <= i < r@.len() ==> #[trigger] self@.contains_key(r@[i].0@) && self@[r@[i].0@]
                    == r@[i].1,
    {
        proof {
            use_type_invariant(self);
            assert forall|i: int| 0 <= i < self.entries@.len() implies #[trigger] self@.contains_key(
                self.entries@[i].0@,
            ) && self@[self.entries@[i].0@] == self.entries@[i].1 by {
                self.lemma_lookup(i);
            }
        }
        self.entries.as_slice()
    }
}

impl<V> View for StrMap<V> {
    type V = Map<Seq<char>, V>;

    closed spec fn view(&self) -> Map<Seq<char>, V> {
        entries_map(self.entries@)
    }
}

} // verus!
