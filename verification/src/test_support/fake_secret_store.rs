//! In-memory secret store for tests.
use vstd::prelude::*;

use crate::text::str_eq;

verus! {

/// Secrets keyed by test-chosen identifiers.
#[derive(Debug)]
pub struct FakeSecretStore {
    secrets: Vec<(String, Vec<u8>)>,
}

pub open spec fn key_views(s: Seq<(String, Vec<u8>)>) -> Seq<Seq<char>> {
    s.map_values(|p: (String, Vec<u8>)| p.0@)
}

pub open spec fn pair_views(s: Seq<(String, Vec<u8>)>) -> Seq<(Seq<char>, Seq<u8>)> {
    s.map_values(|p: (String, Vec<u8>)| (p.0@, p.1@))
}

/// The secret stored under `k` (meaningful when `k` is stored).
pub open spec fn secret_at(s: Seq<(String, Vec<u8>)>, k: Seq<char>) -> Seq<u8> {
    pair_views(s)[index_of_key(s, k)].1
}

/// An index holding key `k`.
pub open spec fn index_of_key(s: Seq<(String, Vec<u8>)>, k: Seq<char>) -> int {
    choose|i: int| 0 <= i < s.len() && key_views(s)[i] == k
}

/// The stored pairs as a map from key to secret.
pub open spec fn secret_map(s: Seq<(String, Vec<u8>)>) -> Map<Seq<char>, Seq<u8>> {
    Map::new(|k: Seq<char>| key_views(s).contains(k), |k: Seq<char>| secret_at(s, k))
}

proof fn lemma_lookup(s: Seq<(String, Vec<u8>)>, i: int)
    requires
        key_views(s).no_duplicates(),
        0 <= i < s.len(),
    ensures
        secret_map(s).contains_key(s[i].0@),
        secret_map(s)[s[i].0@] == s[i].1@,
{
    let k = s[i].0@;
    assert(key_views(s)[i] == k);
    assert(key_views(s).contains(k));
    let j = index_of_key(s, k);
    assert(0 <= j < s.len() && key_views(s)[j] == k);
    if j != i {
        assert(key_views(s)[i] != key_views(s)[j]);
    }
    assert(pair_views(s)[i].1 == s[i].1@);
    assert(secret_map(s)[k] == secret_at(s, k));
}

fn position(v: &Vec<(String, Vec<u8>)>, key: &str) -> (r: Option<usize>)
    ensures
        match r {
            Some(i) => i < v@.len() && v@[i as int].0@ == key@,
            None => !key_views(v@).contains(key@),
        },
{
    let mut i: usize = 0;
    while i < v.len()
        invariant
            i <= v@.len(),
            forall|j: int| 0 <= j < i ==> v@[j].0@ != key@,
        decreases v.len() - i,
    {
        if str_eq(v[i].0.as_str(), key) {
            return Some(i);
        }
        i = i + 1;
    }
    assert forall|j: int| 0 <= j < v@.len() implies key_views(v@)[j] != key@ by {}
    None
}

impl View for FakeSecretStore {
    type V = Map<Seq<char>, Seq<u8>>;

    closed spec fn view(&self) -> Map<Seq<char>, Seq<u8>> {
        secret_map(self.secrets@)
    }
}

impl FakeSecretStore {
    #[verifier::type_invariant]
    spec fn keys_distinct(&self) -> bool {
        key_views(self.secrets@).no_duplicates()
    }

    /// An empty store.
    pub fn new() -> (s: FakeSecretStore)
        ensures
            s@ == Map::<Seq<char>, Seq<u8>>::empty(),
    {
        let s = FakeSecretStore { secrets: Vec::new() };
        assert(key_views(s.secrets@) =~= Seq::<Seq<char>>::empty());
        assert(s@ =~= Map::<Seq<char>, Seq<u8>>::empty());
        s
    }

    /// Stores `value` under `key`, replacing what was there.
    pub fn insert(&mut self, key: &str, value: Vec<u8>)
        ensures
            final(self)@ == old(self)@.insert(key@, value@),
    {
        proof {
            use_type_invariant(&*self);
        }
        let ghost vv = value@;
        let mut secrets: Vec<(String, Vec<u8>)> = Vec::new();
        std::mem::swap(&mut secrets, &mut self.secrets);
        let ghost s = secrets@;
        let ghost ks = key_views(s);
        let found = position(&secrets, key);
        match found {
            Some(i) => {
                secrets.set(i, (key.to_owned(), value));
                proof {
                    assert(key_views(secrets@) =~= ks);
                }
            },
            None => {
                secrets.push((key.to_owned(), value));
                proof {
                    assert(key_views(secrets@) =~= ks.push(key@));
                    assert forall|a: int, b: int|
                        0 <= a < key_views(secrets@).len() && 0 <= b < key_views(secrets@).len()
                            && a != b implies key_views(secrets@)[a] != key_views(secrets@)[b] by {
                        if b == ks.len() {
                            assert(key_views(secrets@)[a] == ks[a]);
                        } else if a == ks.len() {
                            assert(key_views(secrets@)[b] == ks[b]);
                        } else {
                            assert(key_views(secrets@)[a] == ks[a]);
                            assert(key_views(secrets@)[b] == ks[b]);
                        }
                    }
                }
            },
        }
        proof {
            let t = secrets@;
            let m = secret_map(s).insert(key@, vv);
            assert forall|k: Seq<char>| #[trigger] secret_map(t).contains_key(k) == m.contains_key(k) by {
                if key_views(t).contains(k) {
                    let j = choose|j: int| 0 <= j < key_views(t).len() && key_views(t)[j] == k;
                    if k != key@ {
                        assert(s[j] == t[j]);
                        assert(key_views(s)[j] == k);
                    }
                }
                if key_views(s).contains(k) {
                    let j = choose|j: int| 0 <= j < key_views(s).len() && key_views(s)[j] == k;
                    assert(key_views(t)[j] == k);
                }
                if k == key@ {
                    match found {
                        Some(i) => {
                            assert(key_views(t)[i as int] == k);
                        },
                        None => {
                            assert(key_views(t)[s.len() as int] == k);
                        },
                    }
                }
            }
            assert(key_views(t).no_duplicates());
            assert forall|k: Seq<char>| #[trigger] secret_map(t).contains_key(k) implies secret_map(t)[k]
                == m[k] by {
                let j = choose|j: int| 0 <= j < key_views(t).len() && key_views(t)[j] == k;
                assert(t[j].0@ == k);
                lemma_lookup(t, j);
                let at = match found {
                    Some(i) => i as int,
                    None => s.len() as int,
                };
                assert(key_views(t)[at] == key@);
                if k != key@ {
                    assert(j != at);
                    assert(s[j] == t[j]);
                    lemma_lookup(s, j);
                } else {
                    if j != at {
                        assert(key_views(t)[j] != key_views(t)[at]);
                    }
                    assert(t[at].1@ == vv);
                }
            }
            assert(secret_map(t) =~= m);
        }
        self.secrets = secrets;
    }

    /// The secret stored under `key`.
    pub fn get(&self, key: &str) -> (v: Option<&[u8]>)
        ensures
            match v {
                Some(bytes) => self@.contains_key(key@) && bytes@ == self@[key@],
                None => !self@.contains_key(key@),
            },
    {
        proof {
            use_type_invariant(self);
        }
        match position(&self.secrets, key) {
            Some(i) => {
                proof {
                    lemma_lookup(self.secrets@, i as int);
                }
                Some(self.secrets[i].1.as_slice())
            },
            None => None,
        }
    }
}

impl Default for FakeSecretStore {
    fn default() -> (s: FakeSecretStore)
        ensures
            s@ == Map::<Seq<char>, Seq<u8>>::empty(),
    {
        FakeSecretStore::new()
    }
}

/// A secret reads back as last stored, and storing one key leaves the
/// others untouched.
pub proof fn law_secret_read_back(m: Map<Seq<char>, Seq<u8>>, key: Seq<char>, value: Seq<u8>, other: Seq<char>)
    ensures
        m.insert(key, value).contains_key(key),
        m.insert(key, value)[key] == value,
        other != key ==> m.insert(key, value).contains_key(other) == m.contains_key(other),
        other != key && m.contains_key(other) ==> m.insert(key, value)[other] == m[other],
{
}

} // verus!
