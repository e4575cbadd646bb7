//! A map from strings to values that keeps its entries in insertion order
//! (replacing a value keeps the entry's place).

use vstd::prelude::*;

verus! {

/// One entry of a `StrMap`.
#[derive(Debug)]
pub struct StrEntry<V> {
    pub key: String,
    pub value: V,
}

/// A map keyed by strings; each key occurs once.
#[derive(Debug)]
pub struct StrMap<V> {
    entries: Vec<StrEntry<V>>,
}

/// No key occurs twice in `p`.
pub open spec fn unique_keys<V>(p: Seq<(Seq<char>, V)>) -> bool {
    forall|i: int, j: int| 0 <= i < j < p.len() ==> #[trigger] p[i].0 != #[trigger] p[j].0
}

/// Some entry of `p` has the key `k`.
pub open spec fn has_key<V>(p: Seq<(Seq<char>, V)>, k: Seq<char>) -> bool {
    exists|i: int| 0 <= i < p.len() && #[trigger] p[i].0 == k
}

/// The map whose entries are `p`.
pub open spec fn pairs_to_map<V>(p: Seq<(Seq<char>, V)>) -> Map<Seq<char>, V> {
    Map::new(
        |k: Seq<char>| has_key(p, k),
        |k: Seq<char>| p[choose|i: int| 0 <= i < p.len() && #[trigger] p[i].0 == k].1,
    )
}

/// In a sequence with unique keys, the map's value at an entry's key is that
/// entry's value.
pub proof fn lemma_map_at<V>(p: Seq<(Seq<char>, V)>, i: int)
    requires
        unique_keys(p),
        0 <= i < p.len(),
    ensures
        pairs_to_map(p).contains_key(p[i].0),
        pairs_to_map(p)[p[i].0] == p[i].1,
{
    let k = p[i].0;
    assert(has_key(p, k));
    let j = choose|j: int| 0 <= j < p.len() && #[trigger] p[j].0 == k;
    if j != i {
        if j < i {
            assert(p[j].0 != p[i].0);
        } else {
            assert(p[i].0 != p[j].0);
        }
    }
}

impl<V> StrMap<V> {
    #[verifier::type_invariant]
    spec fn keys_are_unique(self) -> bool {
        unique_keys(self.pairs())
    }

    /// The entries, in insertion order.
    pub closed spec fn pairs(self) -> Seq<(Seq<char>, V)> {
        self.entries@.map_values(|e: StrEntry<V>| (e.key@, e.value))
    }

    /// The map.
    pub open spec fn map(self) -> Map<Seq<char>, V> {
        pairs_to_map(self.pairs())
    }

    /// The empty map.
    pub fn new() -> (r: StrMap<V>)
        ensures
            r.pairs() == Seq::<(Seq<char>, V)>::empty(),
    {
        let r = StrMap { entries: Vec::new() };
        assert(r.pairs() =~= Seq::<(Seq<char>, V)>::empty());
        r
    }

    /// The number of entries.
    pub fn len(&self) -> (r: usize)
        ensures
            r == self.pairs().len(),
    {
        self.entries.len()
    }

    /// The position of the entry with key `key`.
    fn position(&self, key: &str) -> (r: Option<usize>)
        ensures
            match r {
                Some(i) => i < self.pairs().len() && self.pairs()[i as int].0 == key@,
                None => !has_key(self.pairs(), key@),
            },
    {
        let mut i: usize = 0;
        while i < self.entries.len()
            invariant
                i <= self.entries@.len(),
                forall|k: int| 0 <= k < i ==> self.pairs()[k].0 != key@,
            decreases self.entries.len() - i,
        {
            assert(self.pairs()[i as int].0 == self.entries@[i as int].key@);
            if crate::text::str_eq(self.entries[i].key.as_str(), key) {
                return Some(i);
            }
            i = i + 1;
        }
        None
    }

    /// The value under `key`.
    pub fn get(&self, key: &str) -> (r: Option<&V>)
        ensures
            match r {
                Some(v) => self.map().contains_key(key@) && self.map()[key@] == *v,
                None => !self.map().contains_key(key@),
            },
    {
        proof {
            use_type_invariant(self);
        }
        match self.position(key) {
            Some(i) => {
                proof {
                    lemma_map_at(self.pairs(), i as int);
                }
                Some(&self.entries[i].value)
            },
            None => None,
        }
    }

    /// Whether some entry has the key `key`.
    pub fn contains_key(&self, key: &str) -> (r: bool)
        ensures
            r == self.map().contains_key(key@),
    {
        self.position(key).is_some()
    }

    /// The entry at position `i`, in insertion order.
    pub fn entry(&self, i: usize) -> (r: &StrEntry<V>)
        requires
            i < self.pairs().len(),
        ensures
            (r.key@, r.value) == self.pairs()[i as int],
    {
        &self.entries[i]
    }

    /// Sets the value under `key`: an existing entry keeps its place, a new
    /// key goes last.
    pub fn insert(&mut self, key: String, value: V)
        ensures
            final(self).map() == old(self).map().insert(key@, value),
            has_key(old(self).pairs(), key@) ==> final(self).pairs().len() == old(self).pairs().len(),
            !has_key(old(self).pairs(), key@) ==> final(self).pairs() == old(self).pairs().push(
                (key@, value),
            ),
    {
        proof {
            use_type_invariant(&*self);
        }
        let ghost old_pairs = self.pairs();
        let pos = self.position(key.as_str());
        let mut entries: Vec<StrEntry<V>> = Vec::new();
        std::mem::swap(&mut entries, &mut self.entries);
        let ghost kv = key@;
        match pos {
            Some(i) => {
                entries.set(i, StrEntry { key, value });
                let ghost new_pairs = entries@.map_values(|e: StrEntry<V>| (e.key@, e.value));
                assert(new_pairs =~= old_pairs.update(i as int, (kv, value)));
                assert(unique_keys(new_pairs)) by {
                    assert forall|a: int, b: int| 0 <= a < b < new_pairs.len() implies #[trigger] new_pairs[a].0
                        != #[trigger] new_pairs[b].0 by {
                        assert(old_pairs[a].0 != old_pairs[b].0);
                    }
                }
                proof {
                    lemma_replace(old_pairs, i as int, value);
                }
            },
            None => {
                entries.push(StrEntry { key, value });
                let ghost new_pairs = entries@.map_values(|e: StrEntry<V>| (e.key@, e.value));
                assert(new_pairs =~= old_pairs.push((kv, value)));
                assert(unique_keys(new_pairs)) by {
                    assert forall|a: int, b: int| 0 <= a < b < new_pairs.len() implies #[trigger] new_pairs[a].0
                        != #[trigger] new_pairs[b].0 by {
                        if b == old_pairs.len() {
                            assert(old_pairs[a].0 != kv);
                        } else {
                            assert(old_pairs[a].0 != old_pairs[b].0);
                        }
                    }
                }
                proof {
                    lemma_append(old_pairs, kv, value);
                }
            },
        }
        self.entries = entries;
    }
}

proof fn lemma_replace<V>(p: Seq<(Seq<char>, V)>, i: int, v: V)
    requires
        unique_keys(p),
        0 <= i < p.len(),
    ensures
        pairs_to_map(p.update(i, (p[i].0, v))) == pairs_to_map(p).insert(p[i].0, v),
{
    let q = p.update(i, (p[i].0, v));
    let k0 = p[i].0;
    assert(unique_keys(q)) by {
        assert forall|a: int, b: int| 0 <= a < b < q.len() implies #[trigger] q[a].0 != #[trigger] q[b].0 by {
            assert(p[a].0 != p[b].0);
        }
    }
    assert forall|k: Seq<char>| has_key(q, k) <==> has_key(p, k) || k == k0 by {
        if has_key(q, k) {
            let j = choose|j: int| 0 <= j < q.len() && #[trigger] q[j].0 == k;
            assert(p[j].0 == k);
        }
        if has_key(p, k) {
            let j = choose|j: int| 0 <= j < p.len() && #[trigger] p[j].0 == k;
            assert(q[j].0 == k);
        }
        if k == k0 {
            assert(q[i].0 == k);
        }
    }
    assert forall|k: Seq<char>| #[trigger] pairs_to_map(q).contains_key(k) implies pairs_to_map(q)[k]
        == pairs_to_map(p).insert(k0, v)[k] by {
        let j = choose|j: int| 0 <= j < q.len() && #[trigger] q[j].0 == k;
        lemma_map_at(q, j);
        if k != k0 {
            lemma_map_at(p, j);
        }
    }
    assert(pairs_to_map(q) =~= pairs_to_map(p).insert(k0, v));
}

proof fn lemma_append<V>(p: Seq<(Seq<char>, V)>, k0: Seq<char>, v: V)
    requires
        unique_keys(p),
        !has_key(p, k0),
        unique_keys(p.push((k0, v))),
    ensures
        pairs_to_map(p.push((k0, v))) == pairs_to_map(p).insert(k0, v),
{
    let q = p.push((k0, v));
    assert forall|k: Seq<char>| has_key(q, k) <==> has_key(p, k) || k == k0 by {
        if has_key(q, k) {
            let j = choose|j: int| 0 <= j < q.len() && #[trigger] q[j].0 == k;
            if j < p.len() {
                assert(p[j].0 == k);
            }
        }
        if has_key(p, k) {
            let j = choose|j: int| 0 <= j < p.len() && #[trigger] p[j].0 == k;
            assert(q[j].0 == k);
        }
        if k == k0 {
            assert(q[p.len() as int].0 == k);
        }
    }
    assert forall|k: Seq<char>| #[trigger] pairs_to_map(q).contains_key(k) implies pairs_to_map(q)[k]
        == pairs_to_map(p).insert(k0, v)[k] by {
        let j = choose|j: int| 0 <= j < q.len() && #[trigger] q[j].0 == k;
        lemma_map_at(q, j);
        if k != k0 {
            lemma_map_at(p, j);
        }
    }
    assert(pairs_to_map(q) =~= pairs_to_map(p).insert(k0, v));
}

} // verus!
