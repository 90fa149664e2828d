//! Profiles keyed by id: the table behind the document's auth and proxy
//! profiles.
use vstd::prelude::*;

use crate::text::str_eq;

verus! {

/// Entries keyed by id, each id at most once, in insertion order.
#[derive(Debug, PartialEq, Eq)]
pub struct ProfileTable<T> {
    entries: Vec<(String, T)>,
}

pub open spec fn table_keys<T>(s: Seq<(String, T)>) -> Seq<Seq<char>> {
    s.map_values(|p: (String, T)| p.0@)
}

/// An index holding key `k`.
pub open spec fn index_of_table_key<T>(s: Seq<(String, T)>, k: Seq<char>) -> int {
    choose|i: int| 0 <= i < s.len() && table_keys(s)[i] == k
}

/// The entries as a map from id to value.
pub open spec fn table_map<T>(s: Seq<(String, T)>) -> Map<Seq<char>, T> {
    Map::new(|k: Seq<char>| table_keys(s).contains(k), |k: Seq<char>| s[index_of_table_key(s, k)].1)
}

proof fn lemma_table_lookup<T>(s: Seq<(String, T)>, i: int)
    requires
        table_keys(s).no_duplicates(),
        0 <= i < s.len(),
    ensures
        table_map(s).contains_key(s[i].0@),
        table_map(s)[s[i].0@] == s[i].1,
{
    let k = s[i].0@;
    assert(table_keys(s)[i] == k);
    assert(table_keys(s).contains(k));
    let j = index_of_table_key(s, k);
    assert(0 <= j < s.len() && table_keys(s)[j] == k);
    if j != i {
        assert(table_keys(s)[i] != table_keys(s)[j]);
    }
}

fn table_position<T>(v: &Vec<(String, T)>, key: &str) -> (r: Option<usize>)
    ensures
        match r {
            Some(i) => i < v@.len() && v@[i as int].0@ == key@,
            None => !table_keys(v@).contains(key@),
        },
{
    let mut i: usize = 0;
    while i < v.len()
        invariant
            i <= v@.len(),
            forall|j: int| 0 <= j < i ==> v@[j].0@ != key@,
        decreases v.len() - i,
    {
        if str_eq(v[i].0.as_str(), key) {
            return Some(i);
        }
        i = i + 1;
    }
    assert forall|j: int| 0 <= j < v@.len() implies table_keys(v@)[j] != key@ by {}
    None
}

impl<T> View for ProfileTable<T> {
    type V = Map<Seq<char>, T>;

    closed spec fn view(&self) -> Map<Seq<char>, T> {
        table_map(self.entries@)
    }
}

impl<T> ProfileTable<T> {
    #[verifier::type_invariant]
    spec fn keys_distinct(&self) -> bool {
        table_keys(self.entries@).no_duplicates()
    }

    /// An empty table.
    pub fn new() -> (t: ProfileTable<T>)
        ensures
            t@ == Map::<Seq<char>, T>::empty(),
    {
        let t = ProfileTable { entries: Vec::new() };
        assert(table_keys(t.entries@) =~= Seq::<Seq<char>>::empty());
        assert(t@ =~= Map::<Seq<char>, T>::empty());
        t
    }

    /// Number of entries.
    pub fn len(&self) -> (n: usize)
        ensures
            n == self@.len(),
    {
        proof {
            use_type_invariant(self);
            lemma_table_len(self.entries@);
        }
        self.entries.len()
    }

    /// The entries, each id once, in insertion order.
    pub fn entries(&self) -> (e: &[(String, T)])
        ensures
            table_keys(e@).no_duplicates(),
            table_map(e@) == self@,
    {
        proof {
            use_type_invariant(self);
        }
        self.entries.as_slice()
    }

    /// Stores `value` under `key`, replacing what was there.
    pub fn insert(&mut self, key: String, value: T)
        ensures
            final(self)@ == old(self)@.insert(key@, value),
    {
        proof {
            use_type_invariant(&*self);
        }
        let ghost kv = key@;
        let ghost vv = value;
        let mut entries: Vec<(String, T)> = Vec::new();
        std::mem::swap(&mut entries, &mut self.entries);
        let ghost s = entries@;
        let ghost ks = table_keys(s);
        let found = table_position(&entries, key.as_str());
        match found {
            Some(i) => {
                entries.set(i, (key, value));
                proof {
                    assert(table_keys(entries@) =~= ks);
                }
            },
            None => {
                entries.push((key, value));
                proof {
                    assert(table_keys(entries@) =~= ks.push(kv));
                    assert forall|a: int, b: int|
                        0 <= a < table_keys(entries@).len() && 0 <= b < table_keys(entries@).len()
                            && a != b implies table_keys(entries@)[a] != table_keys(entries@)[b] by {
                        if b == ks.len() {
                            assert(table_keys(entries@)[a] == ks[a]);
                        } else if a == ks.len() {
                            assert(table_keys(entries@)[b] == ks[b]);
                        } else {
                            assert(table_keys(entries@)[a] == ks[a]);
                            assert(table_keys(entries@)[b] == ks[b]);
                        }
                    }
                }
            },
        }
        proof {
            let t = entries@;
            let m = table_map(s).insert(kv, vv);
            let at = match found {
                Some(i) => i as int,
                None => s.len() as int,
            };
            assert(table_keys(t)[at] == kv);
            assert forall|k: Seq<char>| #[trigger] table_map(t).contains_key(k) == m.contains_key(k) by {
                if table_keys(t).contains(k) {
                    let j = choose|j: int| 0 <= j < table_keys(t).len() && table_keys(t)[j] == k;
                    if k != kv {
                        assert(j != at);
                        assert(s[j] == t[j]);
                        assert(table_keys(s)[j] == k);
                    }
                }
                if table_keys(s).contains(k) {
                    let j = choose|j: int| 0 <= j < table_keys(s).len() && table_keys(s)[j] == k;
                    assert(table_keys(t)[j] == k);
                }
            }
            assert forall|k: Seq<char>| #[trigger] table_map(t).contains_key(k) implies table_map(t)[k]
                == m[k] by {
                let j = choose|j: int| 0 <= j < table_keys(t).len() && table_keys(t)[j] == k;
                assert(t[j].0@ == k);
                lemma_table_lookup(t, j);
                if k != kv {
                    assert(j != at);
                    assert(s[j] == t[j]);
                    lemma_table_lookup(s, j);
                } else if j != at {
                    assert(table_keys(t)[j] != table_keys(t)[at]);
                }
            }
            assert(table_map(t) =~= m);
        }
        self.entries = entries;
    }

    /// The value stored under `key`.
    pub fn get(&self, key: &str) -> (v: Option<&T>)
        ensures
            match v {
                Some(x) => self@.contains_key(key@) && *x == self@[key@],
                None => !self@.contains_key(key@),
            },
    {
        proof {
            use_type_invariant(self);
        }
        match table_position(&self.entries, key) {
            Some(i) => {
                proof {
                    lemma_table_lookup(self.entries@, i as int);
                }
                Some(&self.entries[i].1)
            },
            None => None,
        }
    }
}

proof fn lemma_table_len<T>(s: Seq<(String, T)>)
    requires
        table_keys(s).no_duplicates(),
    ensures
        table_map(s).len() == s.len(),
        table_map(s).dom().finite(),
    decreases s.len(),
{
    let ks = table_keys(s);
    assert(table_map(s).dom() =~= ks.to_set());
    ks.unique_seq_to_set();
    assert(ks.len() == s.len());
}

impl<T> Default for ProfileTable<T> {
    fn default() -> (t: ProfileTable<T>)
        ensures
            t@ == Map::<Seq<char>, T>::empty(),
    {
        ProfileTable::new()
    }
}

/// Reading a key gives back the value last stored under it, and storing
/// under one key leaves every other key as it was.
pub proof fn law_insert_then_get<T>(m: Map<Seq<char>, T>, key: Seq<char>, value: T, other: Seq<char>)
    ensures
        m.insert(key, value).contains_key(key),
        m.insert(key, value)[key] == value,
        other != key ==> m.insert(key, value).contains_key(other) == m.contains_key(other),
        other != key && m.contains_key(other) ==> m.insert(key, value)[other] == m[other],
{
}

} // verus!
