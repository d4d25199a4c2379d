use vstd::prelude::*;

verus! {

/// The cache holds at most this many entries; an insert that finds the
/// cache at capacity first evicts every entry (a full-clear policy).
pub const CACHE_SIZE: usize = 100;

/// Whether some entry of `s` has key `k`.
spec fn has_key(s: Seq<(String, String)>, k: Seq<char>) -> bool {
    exists|i: int| 0 <= i < s.len() && s[i].0@ == k
}

/// The value stored beside key `k` (meaningful only when `has_key`).
spec fn value_of(s: Seq<(String, String)>, k: Seq<char>) -> Seq<char> {
    let i = choose|i: int| 0 <= i < s.len() && s[i].0@ == k;
    s[i].1@
}

/// Entry keys are pairwise distinct.
spec fn distinct_keys(s: Seq<(String, String)>) -> bool {
    forall|i: int, j: int| 0 <= i < j < s.len() ==> s[i].0@ != s[j].0@
}

/// The mapping that an entry sequence denotes.
spec fn entry_map(s: Seq<(String, String)>) -> Map<Seq<char>, Seq<char>> {
    Map::new(|k: Seq<char>| has_key(s, k), |k: Seq<char>| value_of(s, k))
}

/// Two entries with the same key stand at the same index.
proof fn lemma_index_unique(s: Seq<(String, String)>, i: int, j: int)
    requires
        distinct_keys(s),
        0 <= i < s.len(),
        0 <= j < s.len(),
        s[i].0@ == s[j].0@,
    ensures
        i == j,
{
    if i < j {
        assert(s[i].0@ != s[j].0@);
    } else if j < i {
        assert(s[j].0@ != s[i].0@);
    }
}

/// The entry at index `i` settles the mapping at its key.
proof fn lemma_value_at(s: Seq<(String, String)>, i: int, k: Seq<char>)
    requires
        distinct_keys(s),
        0 <= i < s.len(),
        s[i].0@ == k,
    ensures
        has_key(s, k),
        value_of(s, k) == s[i].1@,
{
    assert(has_key(s, k));
    let j = choose|j: int| 0 <= j < s.len() && s[j].0@ == k;
    lemma_index_unique(s, i, j);
}

/// Pushing an entry under a fresh key inserts it into the mapping.
proof fn lemma_push_entry(s: Seq<(String, String)>, key: String, value: String)
    requires
        distinct_keys(s),
        !has_key(s, key@),
    ensures
        distinct_keys(s.push((key, value))),
        entry_map(s.push((key, value))) == entry_map(s).insert(key@, value@),
{
    let s2 = s.push((key, value));
    assert forall|i: int, j: int| 0 <= i < j < s2.len() implies s2[i].0@ != s2[j].0@ by {
        if j == s.len() {
            assert(s2[i] == s[i]);
            if s[i].0@ == key@ {
                assert(has_key(s, key@));
            }
        } else {
            assert(s2[i] == s[i] && s2[j] == s[j]);
        }
    }
    assert(s2[s.len() as int].0@ == key@);
    lemma_value_at(s2, s.len() as int, key@);
    assert forall|k: Seq<char>| #[trigger] has_key(s2, k) && k != key@ implies has_key(s, k)
        && value_of(s2, k) == value_of(s, k) by {
        let i = choose|i: int| 0 <= i < s2.len() && s2[i].0@ == k;
        assert(i < s.len());
        assert(s[i].0@ == k);
        lemma_value_at(s, i, k);
        lemma_value_at(s2, i, k);
    }
    assert forall|k: Seq<char>| #[trigger] has_key(s, k) implies has_key(s2, k) by {
        let i = choose|i: int| 0 <= i < s.len() && s[i].0@ == k;
        assert(s2[i].0@ == k);
    }
    assert(entry_map(s2) =~= entry_map(s).insert(key@, value@));
}

/// Removing the entry at index `i` removes its key from the mapping.
proof fn lemma_remove_entry(s: Seq<(String, String)>, i: int)
    requires
        distinct_keys(s),
        0 <= i < s.len(),
    ensures
        distinct_keys(s.remove(i)),
        entry_map(s.remove(i)) == entry_map(s).remove(s[i].0@),
{
    let s2 = s.remove(i);
    assert forall|j: int| 0 <= j < s2.len() implies s2[j] == (if j < i {
        s[j]
    } else {
        s[j + 1]
    }) by {}
    assert forall|p: int, q: int| 0 <= p < q < s2.len() implies s2[p].0@ != s2[q].0@ by {
        let p0: int = if p < i { p } else { p + 1 };
        let q0: int = if q < i { q } else { q + 1 };
        assert(s2[p] == s[p0] && s2[q] == s[q0]);
        assert(p0 < q0);
    }
    assert forall|k: Seq<char>| #[trigger] has_key(s2, k) implies has_key(s, k) && k != s[i].0@
        && value_of(s2, k) == value_of(s, k) by {
        let j = choose|j: int| 0 <= j < s2.len() && s2[j].0@ == k;
        let j0: int = if j < i { j } else { j + 1 };
        assert(s2[j] == s[j0]);
        if s[i].0@ == k {
            lemma_index_unique(s, i, j0);
        }
        lemma_value_at(s, j0, k);
        lemma_value_at(s2, j, k);
    }
    assert forall|k: Seq<char>| has_key(s, k) && k != s[i].0@ implies #[trigger] has_key(s2, k) by {
        let j = choose|j: int| 0 <= j < s.len() && s[j].0@ == k;
        if j < i {
            assert(s2[j] == s[j]);
        } else {
            assert(j != i);
            assert(s2[j - 1] == s[j]);
        }
    }
    assert(entry_map(s2) =~= entry_map(s).remove(s[i].0@));
}

/// A bounded memo table from source text to rendered HTML. Keys are
/// unique, the entry count never exceeds `CACHE_SIZE`, and an insert
/// that finds the table at capacity first evicts every entry.
pub struct RenderCache {
    entries: Vec<(String, String)>,
}

impl View for RenderCache {
    type V = Map<Seq<char>, Seq<char>>;

    closed spec fn view(&self) -> Map<Seq<char>, Seq<char>> {
        entry_map(self.entries@)
    }
}

/// Finds the index of the entry keyed by `key`, if one is there.
fn find_key(es: &Vec<(String, String)>, key: &String) -> (r: Option<usize>)
    ensures
        match r {
            Some(i) => i < es@.len() && es@[i as int].0@ == key@,
            None => !has_key(es@, key@),
        },
{
    let n = es.len();
    let mut i: usize = 0;
    while i < n
        invariant
            n == es@.len(),
            0 <= i <= n,
            forall|j: int| 0 <= j < i ==> es@[j].0@ != key@,
        decreases n - i,
    {
        if es[i].0 == *key {
            return Some(i);
        }
        i = i + 1;
    }
    proof {
        if has_key(es@, key@) {
            let j = choose|j: int| 0 <= j < es@.len() && es@[j].0@ == key@;
            assert(es@[j].0@ != key@);
        }
    }
    None
}

impl RenderCache {
    /// How many entries the cache holds.
    pub closed spec fn spec_len(self) -> nat {
        self.entries@.len()
    }

    #[verifier::type_invariant]
    spec fn wf(self) -> bool {
        distinct_keys(self.entries@) && self.entries@.len() <= CACHE_SIZE
    }

    /// A fresh, empty cache, pre-sized to the capacity hint.
    pub fn new() -> (r: Self)
        ensures
            r@ == Map::<Seq<char>, Seq<char>>::empty(),
            r.spec_len() == 0,
    {
        let r = RenderCache { entries: Vec::with_capacity(CACHE_SIZE) };
        proof {
            assert(r@ =~= Map::<Seq<char>, Seq<char>>::empty());
        }
        r
    }

    /// Returns the cached HTML under `key` if it is there: some value
    /// if and only if the key is in the mapping, and then exactly the
    /// mapped value. The cache is not changed.
    pub fn lookup(&self, key: &String) -> (r: Option<String>)
        ensures
            match r {
                Some(v) => self@.contains_key(key@) && v@ == self@[key@],
                None => !self@.contains_key(key@),
            },
    {
        proof {
            use_type_invariant(self);
        }
        match find_key(&self.entries, key) {
            Some(i) => {
                proof {
                    lemma_value_at(self.entries@, i as int, key@);
                }
                Some(self.entries[i].1.clone())
            },
            None => None,
        }
    }

    /// Inserts `(key, value)`. A cache already holding `CACHE_SIZE` or
    /// more entries is first evicted whole, so only the new pair is
    /// left; below capacity the pair joins the mapping, replacing any
    /// entry under the same key.
    pub fn insert(&mut self, key: String, value: String)
        ensures
            old(self).spec_len() >= CACHE_SIZE ==> {
                &&& final(self)@ == Map::<Seq<char>, Seq<char>>::empty().insert(key@, value@)
                &&& final(self).spec_len() == 1
            },
            old(self).spec_len() < CACHE_SIZE ==> {
                &&& final(self)@ == old(self)@.insert(key@, value@)
                &&& final(self).spec_len() == if old(self)@.contains_key(key@) {
                    old(self).spec_len()
                } else {
                    old(self).spec_len() + 1
                }
            },
    {
        proof {
            use_type_invariant(&*self);
        }
        let mut es: Vec<(String, String)> = Vec::new();
        std::mem::swap(&mut es, &mut self.entries);
        if es.len() >= CACHE_SIZE {
            es.clear();
            proof {
                assert(entry_map(es@) =~= Map::<Seq<char>, Seq<char>>::empty());
            }
        }
        let ghost base = es@;
        match find_key(&es, &key) {
            Some(i) => {
                proof {
                    lemma_value_at(base, i as int, key@);
                    lemma_remove_entry(base, i as int);
                }
                es.remove(i);
            },
            None => {},
        }
        proof {
            lemma_push_entry(es@, key, value);
            if has_key(base, key@) {
                assert(entry_map(es@).insert(key@, value@) =~= entry_map(base).insert(
                    key@,
                    value@,
                ));
            }
        }
        es.push((key, value));
        self.entries = es;
    }

    /// Removes every entry unconditionally.
    pub fn clear(&mut self)
        ensures
            final(self)@ == Map::<Seq<char>, Seq<char>>::empty(),
            final(self).spec_len() == 0,
    {
        self.entries = Vec::new();
        proof {
            assert(self@ =~= Map::<Seq<char>, Seq<char>>::empty());
        }
    }

    /// The number of entries the cache holds now.
    pub fn len(&self) -> (n: usize)
        ensures
            n == self.spec_len(),
    {
        self.entries.len()
    }
}

} // verus!
